//! Pieces: their kind, colour, material value and letter.

use vstd::prelude::*;

use crate::grid::{no_take_to, ray_to, take_only_to, take_to, Grid};
use crate::planner::PieceMovePlanner;
use crate::position::{Position, PositionOffset};
use crate::Uc;

verus! {

/// One of the two sides.
#[derive(Clone, Copy, Debug, PartialEq, Eq, Structural)]
pub enum PieceColor {
    White,
    Black,
}

/// What a piece is.
#[derive(Clone, Copy, Debug, PartialEq, Eq, Structural)]
pub enum PieceKind {
    Pawn,
    Rook,
    Knight,
    Bishop,
    Queen,
    King,
}

/// A piece: a kind and a colour. Where it stands is a matter of the board.
#[derive(Clone, Copy, Debug, PartialEq, Eq, Structural)]
pub struct Piece {
    pub kind: PieceKind,
    pub color: PieceColor,
}

impl Default for PieceColor {
    /// White, the side that moves first.
    fn default() -> (color: PieceColor)
        ensures
            color == PieceColor::White,
    {
        PieceColor::White
    }
}

impl PieceColor {
    /// The other side.
    pub open spec fn spec_opposite(&self) -> PieceColor {
        match self {
            PieceColor::White => PieceColor::Black,
            PieceColor::Black => PieceColor::White,
        }
    }

    /// The other side.
    #[verifier::when_used_as_spec(spec_opposite)]
    pub fn opposite(&self) -> (other: PieceColor)
        ensures
            other == self.spec_opposite(),
    {
        match self {
            PieceColor::White => PieceColor::Black,
            PieceColor::Black => PieceColor::White,
        }
    }

    /// The direction in which this side's pawns advance, in ranks: White
    /// moves towards rank 0, Black towards rank 7.
    pub open spec fn forward(&self) -> int {
        match self {
            PieceColor::White => -1,
            PieceColor::Black => 1,
        }
    }

    /// The rank on which this side's pawns start.
    pub open spec fn pawn_row(&self) -> int {
        match self {
            PieceColor::White => 6,
            PieceColor::Black => 1,
        }
    }

    /// The rank on which this side's pawns are promoted.
    pub open spec fn last_row(&self) -> int {
        match self {
            PieceColor::White => 0,
            PieceColor::Black => 7,
        }
    }
}

impl PieceKind {
    /// Material value of a piece of this kind.
    pub open spec fn spec_value(&self) -> int {
        match self {
            PieceKind::Pawn => 1,
            PieceKind::Rook => 5,
            PieceKind::Knight => 3,
            PieceKind::Bishop => 3,
            PieceKind::Queen => 8,
            PieceKind::King => 6,
        }
    }

    /// The lower-case letter of this kind.
    pub open spec fn spec_letter(&self) -> char {
        match self {
            PieceKind::Pawn => 'p',
            PieceKind::Rook => 'r',
            PieceKind::Knight => 'n',
            PieceKind::Bishop => 'b',
            PieceKind::Queen => 'q',
            PieceKind::King => 'k',
        }
    }

    /// The upper-case letter of this kind.
    pub open spec fn spec_capital(&self) -> char {
        match self {
            PieceKind::Pawn => 'P',
            PieceKind::Rook => 'R',
            PieceKind::Knight => 'N',
            PieceKind::Bishop => 'B',
            PieceKind::Queen => 'Q',
            PieceKind::King => 'K',
        }
    }
}

/// A pawn of `color` on `from` may go to `to`: one square forward if that is
/// free, or one square diagonally forward onto an enemy piece.
pub open spec fn pawn_to(g: Grid, color: PieceColor, from: Position, to: Position) -> bool {
    ||| no_take_to(g, from, PositionOffset::of(0, color.forward()), to)
    ||| take_only_to(g, color, from, PositionOffset::of(-1, color.forward()), to)
    ||| take_only_to(g, color, from, PositionOffset::of(1, color.forward()), to)
}

/// A knight of `color` on `from` may go to `to`.
pub open spec fn knight_to(g: Grid, color: PieceColor, from: Position, to: Position) -> bool {
    ||| take_to(g, color, from, PositionOffset::of(-2, -1), to)
    ||| take_to(g, color, from, PositionOffset::of(-1, -2), to)
    ||| take_to(g, color, from, PositionOffset::of(-2, 1), to)
    ||| take_to(g, color, from, PositionOffset::of(-1, 2), to)
    ||| take_to(g, color, from, PositionOffset::of(2, -1), to)
    ||| take_to(g, color, from, PositionOffset::of(1, -2), to)
    ||| take_to(g, color, from, PositionOffset::of(2, 1), to)
    ||| take_to(g, color, from, PositionOffset::of(1, 2), to)
}

/// A king of `color` on `from` may step to `to`.
pub open spec fn king_to(g: Grid, color: PieceColor, from: Position, to: Position) -> bool {
    ||| take_to(g, color, from, PositionOffset::of(0, -1), to)
    ||| take_to(g, color, from, PositionOffset::of(0, 1), to)
    ||| take_to(g, color, from, PositionOffset::of(-1, 0), to)
    ||| take_to(g, color, from, PositionOffset::of(1, 0), to)
    ||| take_to(g, color, from, PositionOffset::of(-1, -1), to)
    ||| take_to(g, color, from, PositionOffset::of(-1, 1), to)
    ||| take_to(g, color, from, PositionOffset::of(1, -1), to)
    ||| take_to(g, color, from, PositionOffset::of(1, 1), to)
}

/// A piece of `color` on `from` may slide along a file or a rank to `to`.
pub open spec fn straight_to(g: Grid, color: PieceColor, from: Position, to: Position) -> bool {
    ||| ray_to(g, color, from, PositionOffset::of(0, -1), to)
    ||| ray_to(g, color, from, PositionOffset::of(0, 1), to)
    ||| ray_to(g, color, from, PositionOffset::of(-1, 0), to)
    ||| ray_to(g, color, from, PositionOffset::of(1, 0), to)
}

/// A piece of `color` on `from` may slide along a diagonal to `to`.
pub open spec fn diagonal_to(g: Grid, color: PieceColor, from: Position, to: Position) -> bool {
    ||| ray_to(g, color, from, PositionOffset::of(-1, -1), to)
    ||| ray_to(g, color, from, PositionOffset::of(-1, 1), to)
    ||| ray_to(g, color, from, PositionOffset::of(1, -1), to)
    ||| ray_to(g, color, from, PositionOffset::of(1, 1), to)
}

/// The ordinary moves: `piece`, standing on `from`, may go to `to` by the
/// way its kind moves, without regard to check.
pub open spec fn template_to(g: Grid, piece: Piece, from: Position, to: Position) -> bool {
    match piece.kind {
        PieceKind::Pawn => pawn_to(g, piece.color, from, to),
        PieceKind::Rook => straight_to(g, piece.color, from, to),
        PieceKind::Knight => knight_to(g, piece.color, from, to),
        PieceKind::Bishop => diagonal_to(g, piece.color, from, to),
        PieceKind::Queen => straight_to(g, piece.color, from, to) || diagonal_to(
            g,
            piece.color,
            from,
            to,
        ),
        PieceKind::King => king_to(g, piece.color, from, to),
    }
}

impl Piece {
    /// Material value: it does not depend on the colour.
    pub open spec fn spec_value(&self) -> int {
        self.kind.spec_value()
    }

    /// The letter that stands for the piece: lower case for White, upper
    /// case for Black.
    pub open spec fn spec_char(&self) -> char {
        match self.color {
            PieceColor::White => self.kind.spec_letter(),
            PieceColor::Black => self.kind.spec_capital(),
        }
    }

    /// A piece of the given kind and colour.
    pub fn new(kind: PieceKind, color: PieceColor) -> (piece: Self)
        ensures
            piece == (Piece { kind, color }),
    {
        Self { kind, color }
    }

    /// The kind.
    pub fn kind(&self) -> (kind: PieceKind)
        ensures
            kind == self.kind,
    {
        self.kind
    }

    /// The colour.
    pub fn color(&self) -> (color: PieceColor)
        ensures
            color == self.color,
    {
        self.color
    }

    /// Material value of the piece.
    pub fn value(&self) -> (v: Uc)
        ensures
            v == self.spec_value(),
    {
        match self.kind {
            PieceKind::Pawn => 1,
            PieceKind::Rook => 5,
            PieceKind::Knight => 3,
            PieceKind::Bishop => 3,
            PieceKind::Queen => 8,
            PieceKind::King => 6,
        }
    }

    /// The letter that stands for the piece.
    pub fn char(&self) -> (c: char)
        ensures
            c == self.spec_char(),
    {
        match self.color {
            PieceColor::White => match self.kind {
                PieceKind::Pawn => 'p',
                PieceKind::Rook => 'r',
                PieceKind::Knight => 'n',
                PieceKind::Bishop => 'b',
                PieceKind::Queen => 'q',
                PieceKind::King => 'k',
            },
            PieceColor::Black => match self.kind {
                PieceKind::Pawn => 'P',
                PieceKind::Rook => 'R',
                PieceKind::Knight => 'N',
                PieceKind::Bishop => 'B',
                PieceKind::Queen => 'Q',
                PieceKind::King => 'K',
            },
        }
    }
    /// Records the ordinary moves of the piece in `planner`.
    pub(crate) fn moves<'a>(&self, planner: &mut PieceMovePlanner<'a>)
        requires
            old(planner).wf(),
            old(planner).color == self.color,
        ensures
            final(planner).wf(),
            final(planner).same_piece(old(planner)),
            forall|p: Position|
                p.wf() ==> (#[trigger] final(planner).has(p) <==> old(planner).has(p) || template_to(
                    old(planner).grid(),
                    *self,
                    old(planner).position,
                    p,
                )),
    {
        match self.kind() {
            PieceKind::Pawn => match self.color() {
                PieceColor::White => {
                    planner.try_add_no_take(PositionOffset(0, -1));
                    planner.try_add_take_only(PositionOffset(-1, -1));
                    planner.try_add_take_only(PositionOffset(1, -1));
                },
                PieceColor::Black => {
                    planner.try_add_no_take(PositionOffset(0, 1));
                    planner.try_add_take_only(PositionOffset(-1, 1));
                    planner.try_add_take_only(PositionOffset(1, 1));
                },
            },
            PieceKind::Rook => {
                planner.try_add_directional_take(PositionOffset(0, -1));
                planner.try_add_directional_take(PositionOffset(0, 1));
                planner.try_add_directional_take(PositionOffset(-1, 0));
                planner.try_add_directional_take(PositionOffset(1, 0));
            },
            PieceKind::Knight => {
                planner.try_add_take(PositionOffset(-2, -1));
                planner.try_add_take(PositionOffset(-1, -2));
                planner.try_add_take(PositionOffset(-2, 1));
                planner.try_add_take(PositionOffset(-1, 2));
                planner.try_add_take(PositionOffset(2, -1));
                planner.try_add_take(PositionOffset(1, -2));
                planner.try_add_take(PositionOffset(2, 1));
                planner.try_add_take(PositionOffset(1, 2));
            },
            PieceKind::Bishop => {
                planner.try_add_directional_take(PositionOffset(-1, -1));
                planner.try_add_directional_take(PositionOffset(-1, 1));
                planner.try_add_directional_take(PositionOffset(1, -1));
                planner.try_add_directional_take(PositionOffset(1, 1));
            },
            PieceKind::Queen => {
                planner.try_add_directional_take(PositionOffset(0, -1));
                planner.try_add_directional_take(PositionOffset(0, 1));
                planner.try_add_directional_take(PositionOffset(-1, 0));
                planner.try_add_directional_take(PositionOffset(1, 0));
                planner.try_add_directional_take(PositionOffset(-1, -1));
                planner.try_add_directional_take(PositionOffset(-1, 1));
                planner.try_add_directional_take(PositionOffset(1, -1));
                planner.try_add_directional_take(PositionOffset(1, 1));
            },
            PieceKind::King => {
                planner.try_add_take(PositionOffset(0, -1));
                planner.try_add_take(PositionOffset(0, 1));
                planner.try_add_take(PositionOffset(-1, 0));
                planner.try_add_take(PositionOffset(1, 0));
                planner.try_add_take(PositionOffset(-1, -1));
                planner.try_add_take(PositionOffset(-1, 1));
                planner.try_add_take(PositionOffset(1, -1));
                planner.try_add_take(PositionOffset(1, 1));
            },
        }
    }
}

} // verus!
