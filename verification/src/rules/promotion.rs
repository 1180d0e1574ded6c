//! Promotion: a pawn on the last rank of its side becomes a queen.

use vstd::prelude::*;

use crate::constants::SQUARE_COUNT;
use crate::grid::Grid;
use crate::piece::{Piece, PieceColor, PieceKind};
use crate::position::Position;

verus! {

/// The promotion rule. It keeps no state.
#[derive(Clone, Copy, Debug)]
pub struct Promotion;

/// What stands on a square of rank `row` after promotion, where `piece`
/// stood there before: a pawn on the last rank of its side is replaced by a
/// queen of its colour, anything else stays.
pub open spec fn promoted_piece(piece: Option<Piece>, row: int) -> Option<Piece> {
    match piece {
        Some(p) => if p.kind == PieceKind::Pawn && row == p.color.last_row() {
            Some(Piece { kind: PieceKind::Queen, color: p.color })
        } else {
            piece
        },
        None => None,
    }
}

/// The grid after promotion: every square is treated on its own.
pub open spec fn promoted(g: Grid) -> Grid {
    Seq::new(64, |i: int| promoted_piece(g[i], i / 8))
}

impl Promotion {
    /// The promotion rule.
    pub fn new() -> Self {
        Self
    }

    /// Replaces every pawn that stands on the last rank of its side by a
    /// queen of the same colour, over the whole board.
    pub fn apply_move(&mut self, pieces: &mut [Option<Piece>; SQUARE_COUNT])
        ensures
            final(pieces)@ == promoted(old(pieces)@),
    {
        let squares = Position::all();
        let mut i: usize = 0;
        while i < SQUARE_COUNT
            invariant
                i <= 64,
                forall|j: int| 0 <= j < 64 ==> #[trigger] squares[j] == Position::from_index(j),
                forall|j: int| 0 <= j < i ==> #[trigger] pieces@[j] == promoted(old(pieces)@)[j],
                forall|j: int| i <= j < 64 ==> #[trigger] pieces@[j] == old(pieces)@[j],
            decreases 64 - i,
        {
            let position = squares[i];
            if let Some(piece) = pieces[position.index()] {
                if let PieceKind::Pawn = piece.kind() {
                    let mut promote = false;
                    match piece.color() {
                        PieceColor::White => {
                            if position.row() == 0 {
                                promote = true;
                            }
                        },
                        PieceColor::Black => {
                            if position.row() == Position::row_count() - 1 {
                                promote = true;
                            }
                        },
                    }
                    if promote {
                        pieces[position.index()] = Some(Piece::new(PieceKind::Queen, piece.color()));
                    }
                }
            }
            i += 1;
        }
        assert(pieces@ =~= promoted(old(pieces)@));
    }
}

} // verus!
