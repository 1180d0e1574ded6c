//! Castling: the king moves two files towards a rook, and the rook jumps
//! over it.

use vstd::prelude::*;

use crate::board::{attacked, BoardMove, BoardView};
use crate::constants::SQUARE_COUNT;
use crate::grid::{at, is_free, Grid};
use crate::planner::PieceMovePlanner;
use crate::piece::{Piece, PieceColor, PieceKind};
use crate::position::{Position, PositionOffset};

verus! {

/// Remembers, for each square, whether a move has ever started or ended
/// there.
#[derive(Clone, Copy, Debug)]
pub struct Castle {
    moved: [bool; SQUARE_COUNT],
}

impl View for Castle {
    type V = Seq<bool>;

    /// The flag of each square, by flat index.
    closed spec fn view(&self) -> Seq<bool> {
        self.moved@
    }
}

/// The flags of a game in which no move has been made.
pub open spec fn no_flags() -> Seq<bool> {
    Seq::new(64, |i: int| false)
}

/// For the four castling moves of the standard position, the square that
/// the rook leaves and the square on which it lands.
pub open spec fn rook_jump(color: PieceColor, m: BoardMove) -> Option<(Position, Position)> {
    if color == PieceColor::White && m.from == Position(4, 7) && m.to == Position(6, 7) {
        Some((Position(7, 7), Position(5, 7)))
    } else if color == PieceColor::White && m.from == Position(4, 7) && m.to == Position(2, 7) {
        Some((Position(0, 7), Position(3, 7)))
    } else if color == PieceColor::Black && m.from == Position(4, 0) && m.to == Position(6, 0) {
        Some((Position(7, 0), Position(5, 0)))
    } else if color == PieceColor::Black && m.from == Position(4, 0) && m.to == Position(2, 0) {
        Some((Position(0, 0), Position(3, 0)))
    } else {
        None
    }
}

/// The grid after the rook's part of move `m`: where a king makes one of the
/// four castling moves, whatever stands on the rook's square is put on the
/// square that the king passes; every other move leaves the grid as it is.
pub open spec fn castle_grid(g: Grid, m: BoardMove) -> Grid {
    match at(g, m.from) {
        Some(p) => if p.kind == PieceKind::King {
            match rook_jump(p.color, m) {
                Some((rook_from, rook_to)) => g.update(
                    rook_to.spec_index(),
                    g[rook_from.spec_index()],
                ).update(rook_from.spec_index(), None),
                None => g,
            }
        } else {
            g
        },
        None => g,
    }
}

/// The flags after move `m`: both of its squares are marked.
pub open spec fn castle_flags(moved: Seq<bool>, m: BoardMove) -> Seq<bool> {
    moved.update(m.from.spec_index(), true).update(m.to.spec_index(), true)
}

/// A king of `color` on `from` may castle towards the higher files, and
/// `to` is where it lands: the two squares beside it are free, a rook of
/// its colour stands three files away, no move has started or ended on the
/// king's or on the rook's square, and the enemy attacks neither the king's
/// square nor the square that the king passes.
pub open spec fn castle_king_side_to(
    s: BoardView,
    color: PieceColor,
    from: Position,
    to: Position,
) -> bool {
    let enemy = color.spec_opposite();
    &&& from.can_shift(3, 0)
    &&& is_free(s.pieces, from.shifted(1, 0))
    &&& is_free(s.pieces, from.shifted(2, 0))
    &&& at(s.pieces, from.shifted(3, 0)) == Some(Piece { kind: PieceKind::Rook, color })
    &&& !s.moved[from.spec_index()]
    &&& !s.moved[from.shifted(3, 0).spec_index()]
    &&& !attacked(s, enemy, from)
    &&& !attacked(s, enemy, from.shifted(1, 0))
    &&& to == from.shifted(2, 0)
}

/// A king of `color` on `from` may castle towards the lower files, and `to`
/// is where it lands: the three squares beside it are free, a rook of its
/// colour stands four files away, no move has started or ended on the
/// king's or on the rook's square, and the enemy attacks neither the king's
/// square nor the square that the king passes.
pub open spec fn castle_queen_side_to(
    s: BoardView,
    color: PieceColor,
    from: Position,
    to: Position,
) -> bool {
    let enemy = color.spec_opposite();
    &&& from.can_shift(-4, 0)
    &&& is_free(s.pieces, from.shifted(-1, 0))
    &&& is_free(s.pieces, from.shifted(-2, 0))
    &&& is_free(s.pieces, from.shifted(-3, 0))
    &&& at(s.pieces, from.shifted(-4, 0)) == Some(Piece { kind: PieceKind::Rook, color })
    &&& !s.moved[from.spec_index()]
    &&& !s.moved[from.shifted(-4, 0).spec_index()]
    &&& !attacked(s, enemy, from)
    &&& !attacked(s, enemy, from.shifted(-1, 0))
    &&& to == from.shifted(-2, 0)
}

/// `piece` is a king that may castle from `from` to `to`.
pub open spec fn castle_to(s: BoardView, piece: Piece, from: Position, to: Position) -> bool {
    &&& piece.kind == PieceKind::King
    &&& {
        ||| castle_king_side_to(s, piece.color, from, to)
        ||| castle_queen_side_to(s, piece.color, from, to)
    }
}

impl Castle {
    /// The state of a game in which no move has been made.
    pub fn new() -> (castle: Self)
        ensures
            castle@ == no_flags(),
    {
        let castle = Self { moved: [false;SQUARE_COUNT] };
        assert(castle@ =~= no_flags());
        castle
    }

    /// Records in `planner` the castling moves of `piece`, where
    /// `king_check` is set. Where it is not, nothing is recorded and no
    /// attack is looked for: the search for attacks must not call itself
    /// through this rule.
    pub(crate) fn moves<'a>(
        &self,
        piece: &Piece,
        planner: &mut PieceMovePlanner<'a>,
        king_check: bool,
    )
        requires
            old(planner).wf(),
            old(planner).color == piece.color,
            self@ == old(planner).board@.moved,
        ensures
            final(planner).wf(),
            final(planner).same_piece(old(planner)),
            forall|p: Position|
                p.wf() ==> (#[trigger] final(planner).has(p) <==> old(planner).has(p) || (king_check
                    && castle_to(old(planner).board@, *piece, old(planner).position, p))),
        decreases
                (if king_check {
                    3int
                } else {
                    0int
                }),
    {
        let ghost s = planner.board@;
        let ghost from = planner.position;
        if let PieceKind::King = piece.kind() {
            if king_check {
                if planner.is_empty(PositionOffset(1, 0)) && planner.is_empty(PositionOffset(2, 0))
                    && planner.is_my_piece(PositionOffset(3, 0), PieceKind::Rook)
                    && !planner.is_under_attack(PositionOffset(0, 0)) {
                    let rook_position = planner.position().offset(PositionOffset(3, 0)).unwrap();
                    if !self.moved[planner.position().index()] && !self.moved[rook_position.index()] {
                        if !planner.is_under_attack(PositionOffset(1, 0)) {
                            planner.try_add_no_take(PositionOffset(2, 0));
                        }
                    }
                }
                let ghost middle = *planner;
                assert forall|p: Position| p.wf() implies (#[trigger] middle.has(p) <==> old(
                    planner,
                ).has(p) || castle_king_side_to(s, piece.color, from, p)) by {}
                if planner.is_empty(PositionOffset(-1, 0)) && planner.is_empty(PositionOffset(-2, 0))
                    && planner.is_empty(PositionOffset(-3, 0)) && planner.is_my_piece(
                    PositionOffset(-4, 0),
                    PieceKind::Rook,
                ) && !planner.is_under_attack(PositionOffset(0, 0)) {
                    let rook_position = planner.position().offset(PositionOffset(-4, 0)).unwrap();
                    if !self.moved[planner.position().index()] && !self.moved[rook_position.index()] {
                        if !planner.is_under_attack(PositionOffset(-1, 0)) {
                            planner.try_add_no_take(PositionOffset(-2, 0));
                        }
                    }
                }
                assert forall|p: Position| p.wf() implies (#[trigger] planner.has(p) <==> middle.has(
                    p,
                ) || castle_queen_side_to(s, piece.color, from, p)) by {}
            }
        }
    }

    /// Moves the rook where `board_move` is a king's castling move, and
    /// marks both squares of the move, whatever the move is.
    pub fn apply_move(&mut self, board_move: &BoardMove, pieces: &mut [Option<Piece>; SQUARE_COUNT])
        requires
            board_move.wf(),
        ensures
            final(pieces)@ == castle_grid(old(pieces)@, *board_move),
            final(self)@ == castle_flags(old(self)@, *board_move),
    {
        if let Some(moved_piece) = pieces[board_move.from.index()] {
            if let PieceKind::King = moved_piece.kind() {
                let white = moved_piece.color() == PieceColor::White;
                let black = moved_piece.color() == PieceColor::Black;
                let king_side = board_move.to.col() == 6;
                let queen_side = board_move.to.col() == 2;
                let from_e1 = board_move.from == Position(4, 7) && board_move.to.row() == 7;
                let from_e8 = board_move.from == Position(4, 0) && board_move.to.row() == 0;
                if (white && from_e1 || black && from_e8) && king_side {
                    if let Some(rook_position) = board_move.from.offset(PositionOffset(3, 0)) {
                        if let Some(rook_new_position) = board_move.from.offset(
                            PositionOffset(1, 0),
                        ) {
                            pieces[rook_new_position.index()] = pieces[rook_position.index()];
                            pieces[rook_position.index()] = None;
                        }
                    }
                }
                if (white && from_e1 || black && from_e8) && queen_side {
                    if let Some(rook_position) = board_move.from.offset(PositionOffset(-4, 0)) {
                        if let Some(rook_new_position) = board_move.from.offset(
                            PositionOffset(-1, 0),
                        ) {
                            pieces[rook_new_position.index()] = pieces[rook_position.index()];
                            pieces[rook_position.index()] = None;
                        }
                    }
                }
            }
        }
        self.moved[board_move.from.index()] = true;
        self.moved[board_move.to.index()] = true;
    }
}

} // verus!
