//! En passant: a pawn that has just advanced two squares may be captured by
//! an enemy pawn beside it, as if it had advanced only one.

use vstd::prelude::*;

use crate::board::BoardMove;
use crate::constants::SQUARE_COUNT;
use crate::grid::{at, is_free, no_take_to, Grid};
use crate::piece::{Piece, PieceColor, PieceKind};
use crate::planner::PieceMovePlanner;
use crate::position::{Position, PositionOffset};

verus! {

/// Remembers the last move, if it was a pawn's advance by two ranks.
#[derive(Clone, Copy, Debug)]
pub struct EnPassant {
    last_pawn_move: Option<BoardMove>,
}

impl View for EnPassant {
    type V = Option<BoardMove>;

    /// The remembered move.
    closed spec fn view(&self) -> Option<BoardMove> {
        self.last_pawn_move
    }
}

/// Move `m` takes a piece across two ranks.
pub open spec fn two_ranks(m: BoardMove) -> bool {
    m.from.1 - m.to.1 == 2 || m.to.1 - m.from.1 == 2
}

/// The grid after the capturing part of move `m`: where a move is
/// remembered and a pawn now moves to another file onto a free square, the
/// square on which the remembered move ended is cleared.
pub open spec fn en_passant_grid(last: Option<BoardMove>, g: Grid, m: BoardMove) -> Grid {
    match (last, at(g, m.from)) {
        (Some(l), Some(p)) => if p.kind == PieceKind::Pawn && m.from.0 != m.to.0 && is_free(
            g,
            m.to,
        ) {
            g.update(l.to.spec_index(), None)
        } else {
            g
        },
        _ => g,
    }
}

/// What is remembered after move `m` on grid `g`: the move itself, if a pawn
/// makes it and it crosses two ranks, and nothing otherwise.
pub open spec fn en_passant_record(g: Grid, m: BoardMove) -> Option<BoardMove> {
    match at(g, m.from) {
        Some(p) => if p.kind == PieceKind::Pawn && two_ranks(m) {
            Some(m)
        } else {
            None
        },
        None => None,
    }
}

/// The rank on which a pawn of `color` stands when it may capture in
/// passing: the rank on which an enemy pawn lands that advances two squares.
pub open spec fn passing_row(color: PieceColor) -> int {
    match color {
        PieceColor::White => 3,
        PieceColor::Black => 4,
    }
}

/// `piece` is a pawn that may capture in passing from `from` to `to`: the
/// remembered move `last` took an enemy pawn from its starting rank to the
/// square beside `from`, and `to` is the free square behind that pawn,
/// diagonally before `from`.
pub open spec fn en_passant_to(
    g: Grid,
    last: Option<BoardMove>,
    piece: Piece,
    from: Position,
    to: Position,
) -> bool {
    let forward = piece.color.forward();
    &&& last matches Some(l)
    &&& piece.kind == PieceKind::Pawn
    &&& from.1 == passing_row(piece.color)
    &&& l.from.1 == piece.color.spec_opposite().pawn_row()
    &&& l.to.1 == from.1
    &&& to.0 == l.to.0
    &&& {
        ||| no_take_to(g, from, PositionOffset::of(-1, forward), to)
        ||| no_take_to(g, from, PositionOffset::of(1, forward), to)
    }
}

impl EnPassant {
    /// The remembered move, if any, lies on the board.
    pub open spec fn wf(&self) -> bool {
        self@ matches Some(m) ==> m.wf()
    }

    /// The state of a game in which no move has been made.
    pub fn new() -> (rule: Self)
        ensures
            rule@ is None,
            rule.wf(),
    {
        Self { last_pawn_move: None }
    }

    /// Records in `planner` the capture in passing that `piece` may make, if
    /// there is one.
    pub(crate) fn moves<'a>(&self, piece: &Piece, planner: &mut PieceMovePlanner<'a>)
        requires
            old(planner).wf(),
        ensures
            final(planner).wf(),
            final(planner).same_piece(old(planner)),
            forall|p: Position|
                p.wf() ==> (#[trigger] final(planner).has(p) <==> old(planner).has(p)
                    || en_passant_to(old(planner).grid(), self@, *piece, old(planner).position, p)),
    {
        if let Some(last_pawn_move) = self.last_pawn_move {
            if let PieceKind::Pawn = piece.kind() {
                match piece.color() {
                    PieceColor::White => {
                        if planner.position().row() == 3 && last_pawn_move.from.row() == 1
                            && last_pawn_move.to.row() == 3 {
                            if let Some(left_passant) = planner.position().offset(
                                PositionOffset(-1, -1),
                            ) {
                                if left_passant.col() == last_pawn_move.to.col() {
                                    planner.try_add_no_take(PositionOffset(-1, -1));
                                }
                            }
                            if let Some(right_passant) = planner.position().offset(
                                PositionOffset(1, -1),
                            ) {
                                if right_passant.col() == last_pawn_move.to.col() {
                                    planner.try_add_no_take(PositionOffset(1, -1));
                                }
                            }
                        }
                    },
                    PieceColor::Black => {
                        if planner.position().row() == 4 && last_pawn_move.from.row() == 6
                            && last_pawn_move.to.row() == 4 {
                            if let Some(left_passant) = planner.position().offset(
                                PositionOffset(-1, 1),
                            ) {
                                if left_passant.col() == last_pawn_move.to.col() {
                                    planner.try_add_no_take(PositionOffset(-1, 1));
                                }
                            }
                            if let Some(right_passant) = planner.position().offset(
                                PositionOffset(1, 1),
                            ) {
                                if right_passant.col() == last_pawn_move.to.col() {
                                    planner.try_add_no_take(PositionOffset(1, 1));
                                }
                            }
                        }
                    },
                }
            }
        }
    }

    /// Removes the pawn that is captured in passing, where `board_move` is
    /// such a capture, and then remembers `board_move` if it is a pawn's
    /// advance by two ranks.
    pub fn apply_move(&mut self, board_move: &BoardMove, pieces: &mut [Option<Piece>; SQUARE_COUNT])
        requires
            old(self).wf(),
            board_move.wf(),
        ensures
            final(pieces)@ == en_passant_grid(old(self)@, old(pieces)@, *board_move),
            final(self)@ == en_passant_record(final(pieces)@, *board_move),
            final(self).wf(),
    {
        if let Some(last_pawn_move) = self.last_pawn_move {
            if let Some(piece) = pieces[board_move.from.index()] {
                if piece.kind() == PieceKind::Pawn {
                    if board_move.from.col() != board_move.to.col()
                        && pieces[board_move.to.index()].is_none() {
                        pieces[last_pawn_move.to.index()] = None;
                    }
                }
            }
        }
        self.last_pawn_move =
        {
            if let Some(piece) = pieces[board_move.from.index()] {
                let from_row = board_move.from.row();
                let to_row = board_move.to.row();
                if piece.kind() == PieceKind::Pawn && (from_row == to_row + 2 || to_row == from_row
                    + 2) {
                    Some(*board_move)
                } else {
                    None
                }
            } else {
                None
            }
        };
    }
}

} // verus!
