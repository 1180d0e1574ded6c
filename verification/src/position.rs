//! Squares of the board and relative offsets between them.

use vstd::prelude::*;

use crate::constants::{COL_COUNT, ROW_COUNT, SQUARE_COUNT};
use crate::{Ic, Uc};

verus! {

/// A square, addressed by file (first component) and rank (second component).
///
/// Rank 0 is the side on which Black starts, rank 7 the side on which White
/// starts. A square of the board has both components below 8, see
/// [`Position::wf`].
#[derive(Clone, Copy, Debug, PartialEq, Eq, Structural)]
pub struct Position(pub Uc, pub Uc);

/// A signed displacement by files (first component) and ranks (second
/// component).
#[derive(Clone, Copy, Debug, PartialEq, Eq, Structural)]
pub struct PositionOffset(pub Ic, pub Ic);

impl Position {
    /// Both coordinates lie on the board.
    pub open spec fn wf(self) -> bool {
        self.0 < 8 && self.1 < 8
    }

    /// The flat index of the square: files run fastest.
    pub open spec fn spec_index(self) -> int {
        self.0 + self.1 * 8
    }

    /// The square with the given flat index.
    pub open spec fn from_index(i: int) -> Position {
        Position((i % 8) as Uc, (i / 8) as Uc)
    }

    /// The square `dc` files and `dr` ranks away, whether or not it is on
    /// the board.
    pub open spec fn shifted(self, dc: int, dr: int) -> Position {
        Position((self.0 + dc) as Uc, (self.1 + dr) as Uc)
    }

    /// Moving by `dc` files and `dr` ranks stays on the board.
    pub open spec fn can_shift(self, dc: int, dr: int) -> bool {
        0 <= self.0 + dc < 8 && 0 <= self.1 + dr < 8
    }

    /// The square reached by `offset`, if it is on the board.
    pub open spec fn spec_offset(self, offset: PositionOffset) -> Option<Position> {
        if self.can_shift(offset.0 as int, offset.1 as int) {
            Some(self.shifted(offset.0 as int, offset.1 as int))
        } else {
            None
        }
    }

    /// The file letter of file `col`.
    pub open spec fn spec_col_char(col: Uc) -> char {
        if col == 0 {
            'A'
        } else if col == 1 {
            'B'
        } else if col == 2 {
            'C'
        } else if col == 3 {
            'D'
        } else if col == 4 {
            'E'
        } else if col == 5 {
            'F'
        } else if col == 6 {
            'G'
        } else {
            'H'
        }
    }

    /// The rank digit of rank `row`: rank 0 is written `8`, rank 7 is
    /// written `1`.
    pub open spec fn spec_row_char(row: Uc) -> char {
        if row == 0 {
            '8'
        } else if row == 1 {
            '7'
        } else if row == 2 {
            '6'
        } else if row == 3 {
            '5'
        } else if row == 4 {
            '4'
        } else if row == 5 {
            '3'
        } else if row == 6 {
            '2'
        } else {
            '1'
        }
    }

    /// All 64 squares, ordered by flat index.
    pub fn all() -> (squares: [Position; SQUARE_COUNT])
        ensures
            forall|i: int| 0 <= i < 64 ==> #[trigger] squares[i] == Position::from_index(i),
    {
        let mut positions = [Position(0, 0);SQUARE_COUNT];
        let mut i: usize = 0;
        while i < SQUARE_COUNT
            invariant
                i <= 64,
                forall|j: int| 0 <= j < i ==> #[trigger] positions[j] == Position::from_index(j),
            decreases 64 - i,
        {
            positions[i] = Position((i % 8) as Uc, (i / 8) as Uc);
            i += 1;
        }
        positions
    }

    /// Number of files.
    pub fn col_count() -> (n: Uc)
        ensures
            n == 8,
    {
        COL_COUNT
    }

    /// Number of ranks.
    pub fn row_count() -> (n: Uc)
        ensures
            n == 8,
    {
        ROW_COUNT
    }

    /// The letter that names file `col`.
    pub fn col_char(col: Uc) -> (c: char)
        requires
            col < 8,
        ensures
            c == Self::spec_col_char(col),
    {
        match col {
            0 => 'A',
            1 => 'B',
            2 => 'C',
            3 => 'D',
            4 => 'E',
            5 => 'F',
            6 => 'G',
            _ => 'H',
        }
    }

    /// The digit that names rank `row`.
    pub fn row_char(row: Uc) -> (c: char)
        requires
            row < 8,
        ensures
            c == Self::spec_row_char(row),
    {
        match row {
            0 => '8',
            1 => '7',
            2 => '6',
            3 => '5',
            4 => '4',
            5 => '3',
            6 => '2',
            _ => '1',
        }
    }

    /// The flat index of the square.
    pub fn index(&self) -> (i: usize)
        requires
            self.wf(),
        ensures
            i == self.spec_index(),
            i < 64,
    {
        (self.0 + self.1 * COL_COUNT) as usize
    }

    /// The file.
    pub fn col(&self) -> (c: Uc)
        ensures
            c == self.0,
    {
        self.0
    }

    /// The rank.
    pub fn row(&self) -> (r: Uc)
        ensures
            r == self.1,
    {
        self.1
    }

    /// The square reached by `offset`, or `None` where that leaves the
    /// board.
    pub fn offset(&self, offset: PositionOffset) -> (target: Option<Position>)
        ensures
            target == self.spec_offset(offset),
    {
        let new_col: i16 = self.col() as i16 + offset.col() as i16;
        let new_row: i16 = self.row() as i16 + offset.row() as i16;
        if new_col >= 0 && new_col < Position::col_count() as i16 && new_row >= 0
            && new_row < Position::row_count() as i16 {
            Some(Position(new_col as Uc, new_row as Uc))
        } else {
            None
        }
    }
}

impl PositionOffset {
    /// The offset by `dc` files and `dr` ranks.
    pub open spec fn of(dc: int, dr: int) -> PositionOffset {
        PositionOffset(dc as Ic, dr as Ic)
    }

    /// The displacement in files.
    pub fn col(&self) -> (c: Ic)
        ensures
            c == self.0,
    {
        self.0
    }

    /// The displacement in ranks.
    pub fn row(&self) -> (r: Ic)
        ensures
            r == self.1,
    {
        self.1
    }
}

/// Every square of the board is the square of its own flat index, and that
/// index is below 64.
pub proof fn lemma_index_round_trip(p: Position)
    requires
        p.wf(),
    ensures
        0 <= p.spec_index() < 64,
        Position::from_index(p.spec_index()) == p,
{
}

/// Every index below 64 names a square of the board with that flat index.
pub proof fn lemma_from_index(i: int)
    requires
        0 <= i < 64,
    ensures
        Position::from_index(i).wf(),
        Position::from_index(i).spec_index() == i,
{
}

} // verus!
