//! The pawn's first move: from its starting rank a pawn may advance two
//! squares, if both are free.

use vstd::prelude::*;

use crate::grid::{is_free, no_take_to, Grid};
use crate::piece::{Piece, PieceColor, PieceKind};
use crate::planner::PieceMovePlanner;
use crate::position::{Position, PositionOffset};

verus! {

/// The rule of the pawn's first move. It keeps no state.
#[derive(Clone, Copy, Debug)]
pub struct PawnFirstMove;

/// `piece` is a pawn on the starting rank of its side, and `to` is the free
/// square before it, or the free square behind that one.
pub open spec fn first_move_to(g: Grid, piece: Piece, from: Position, to: Position) -> bool {
    let forward = piece.color.forward();
    &&& piece.kind == PieceKind::Pawn
    &&& from.1 == piece.color.pawn_row()
    &&& {
        ||| no_take_to(g, from, PositionOffset::of(0, forward), to)
        ||| is_free(g, from.shifted(0, forward)) && no_take_to(
            g,
            from,
            PositionOffset::of(0, 2 * forward),
            to,
        )
    }
}

impl PawnFirstMove {
    /// The rule of the pawn's first move.
    pub fn new() -> Self {
        Self
    }

    /// Records the first moves of `piece` in `planner`: one square forward,
    /// and two squares forward if the first of them could be recorded.
    pub(crate) fn moves<'a>(&self, piece: &Piece, planner: &mut PieceMovePlanner<'a>)
        requires
            old(planner).wf(),
        ensures
            final(planner).wf(),
            final(planner).same_piece(old(planner)),
            forall|p: Position|
                p.wf() ==> (#[trigger] final(planner).has(p) <==> old(planner).has(p)
                    || first_move_to(old(planner).grid(), *piece, old(planner).position, p)),
    {
        let ghost g = planner.grid();
        let ghost from = planner.position;
        if let PieceKind::Pawn = piece.kind() {
            match piece.color() {
                PieceColor::White => {
                    if planner.position().row() == 6 {
                        let ghost one = PositionOffset::of(0, -1);
                        if planner.try_add_no_take(PositionOffset(0, -1)) {
                            planner.try_add_no_take(PositionOffset(0, -2));
                        }
                        assert(is_free(g, from.shifted(0, -1)) <==> no_take_to(
                            g,
                            from,
                            one,
                            from.shifted(0, -1),
                        ));
                    }
                },
                PieceColor::Black => {
                    if planner.position().row() == 1 {
                        let ghost one = PositionOffset::of(0, 1);
                        if planner.try_add_no_take(PositionOffset(0, 1)) {
                            planner.try_add_no_take(PositionOffset(0, 2));
                        }
                        assert(is_free(g, from.shifted(0, 1)) <==> no_take_to(
                            g,
                            from,
                            one,
                            from.shifted(0, 1),
                        ));
                    }
                },
            }
        }
    }
}

} // verus!
