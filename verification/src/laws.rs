//! What holds of the game: properties of the model, each one proved.

use vstd::prelude::*;

use crate::board::{
    after_force, in_check, initial_grid, initial_view, legal, partial_score, pseudo_legal,
    spec_score, BoardMove, BoardView,
};
use crate::grid::{at, holds_own, is_free, Grid};
use crate::piece::{Piece, PieceColor, PieceKind};
use crate::position::Position;
use crate::rules::castle::{castle_king_side_to, castle_queen_side_to, rook_jump};
use crate::rules::en_passant::{en_passant_to, two_ranks};

verus! {

/// The number of pieces of `color` on the first `n` squares.
pub open spec fn partial_count(g: Grid, color: PieceColor, n: int) -> int
    decreases n,
{
    if n <= 0 {
        0
    } else {
        partial_count(g, color, n - 1) + if holds_own(g, color, Position::from_index(n - 1)) {
            1int
        } else {
            0int
        }
    }
}

/// The number of pieces of `color` on the board.
pub open spec fn piece_count(g: Grid, color: PieceColor) -> int {
    partial_count(g, color, 64)
}

/// The state after the moves `ms` have been made one after the other.
pub open spec fn after_moves(s: BoardView, ms: Seq<BoardMove>) -> BoardView
    decreases ms.len(),
{
    if ms.len() == 0 {
        s
    } else {
        after_force(after_moves(s, ms.drop_last()), ms.last())
    }
}

/// Every move of `ms` lies on the board.
pub open spec fn all_on_board(ms: Seq<BoardMove>) -> bool {
    forall|i: int| 0 <= i < ms.len() ==> (#[trigger] ms[i]).wf()
}

/// Making a move keeps the state well formed.
pub proof fn lemma_after_force_wf(s: BoardView, m: BoardMove)
    requires
        s.wf(),
        m.wf(),
    ensures
        after_force(s, m).wf(),
{
}

/// What one side counts for itself, the other side counts against itself:
/// the two material balances add up to nothing.
pub proof fn lemma_score_is_antisymmetric(g: Grid, color: PieceColor)
    ensures
        spec_score(g, color) == -spec_score(g, color.spec_opposite()),
{
    lemma_partial_score_is_antisymmetric(g, color, 64);
}

/// The antisymmetry of the balance, over the first `n` squares.
pub proof fn lemma_partial_score_is_antisymmetric(g: Grid, color: PieceColor, n: int)
    ensures
        partial_score(g, color, n) == -partial_score(g, color.spec_opposite(), n),
    decreases n,
{
    if n > 0 {
        lemma_partial_score_is_antisymmetric(g, color, n - 1);
    }
}

/// In the standard position each side has 16 pieces, and the material
/// balance of each side is 0.
pub proof fn lemma_initial_position(color: PieceColor)
    ensures
        initial_view().wf(),
        piece_count(initial_grid(), color) == 16,
        spec_score(initial_grid(), color) == 0,
{
    let g = initial_grid();
    assert(partial_count(g, color, 0) == 0);
    assert(partial_score(g, color, 0) == 0);
    lemma_initial_rank(color, 0);
    lemma_initial_rank(color, 1);
    lemma_initial_rank(color, 2);
    lemma_initial_rank(color, 3);
    lemma_initial_rank(color, 4);
    lemma_initial_rank(color, 5);
    lemma_initial_rank(color, 6);
    lemma_initial_rank(color, 7);
}

/// Pieces and material of one rank of the standard position.
proof fn lemma_initial_rank(color: PieceColor, row: int)
    requires
        0 <= row < 8,
    ensures
        partial_count(initial_grid(), color, 8 * row + 8) == partial_count(
            initial_grid(),
            color,
            8 * row,
        ) + if row == 0 || row == 1 {
            if color == PieceColor::Black {
                8int
            } else {
                0int
            }
        } else if row == 6 || row == 7 {
            if color == PieceColor::White {
                8int
            } else {
                0int
            }
        } else {
            0int
        },
        partial_score(initial_grid(), color, 8 * row + 8) == partial_score(
            initial_grid(),
            color,
            8 * row,
        ) + if row == 0 {
            if color == PieceColor::Black {
                36int
            } else {
                -36int
            }
        } else if row == 1 {
            if color == PieceColor::Black {
                8int
            } else {
                -8int
            }
        } else if row == 6 {
            if color == PieceColor::White {
                8int
            } else {
                -8int
            }
        } else if row == 7 {
            if color == PieceColor::White {
                36int
            } else {
                -36int
            }
        } else {
            0int
        },
{
    let g = initial_grid();
    let b = 8 * row;
    reveal_with_fuel(partial_count, 9);
    reveal_with_fuel(partial_score, 9);
    assert(forall|i: int| 0 <= i < 64 ==> Position::from_index(i).spec_index() == i);
}

/// A legal move never leaves a king of the side that made it in check.
pub proof fn lemma_legal_move_keeps_king_safe(s: BoardView, color: PieceColor, m: BoardMove)
    requires
        legal(s, color, m),
    ensures
        !in_check(after_force(s, m), color),
{
}

/// A legal move lies on the board and starts on a square that holds a
/// piece of the side that makes it.
pub proof fn lemma_legal_move_is_own(s: BoardView, color: PieceColor, m: BoardMove)
    requires
        legal(s, color, m),
    ensures
        m.wf(),
        holds_own(s.pieces, color, m.from),
{
}

/// A king moves two files towards the higher files legally exactly when it
/// may castle there: the squares between it and its rook are free, neither
/// the king's nor the rook's square has seen a move, the king is not
/// attacked where it stands nor on the square it passes, and it is not in
/// check where it lands.
pub proof fn lemma_castle_king_side(s: BoardView, color: PieceColor, m: BoardMove)
    requires
        s.wf(),
        m.wf(),
        at(s.pieces, m.from) == Some(Piece { kind: PieceKind::King, color }),
        m.from.can_shift(2, 0),
        m.to == m.from.shifted(2, 0),
    ensures
        legal(s, color, m) <==> castle_king_side_to(s, color, m.from, m.to) && !in_check(
            after_force(s, m),
            color,
        ),
{
}

/// A king moves two files towards the lower files legally exactly when it
/// may castle there: the squares between it and its rook are free, neither
/// the king's nor the rook's square has seen a move, the king is not
/// attacked where it stands nor on the square it passes, and it is not in
/// check where it lands.
pub proof fn lemma_castle_queen_side(s: BoardView, color: PieceColor, m: BoardMove)
    requires
        s.wf(),
        m.wf(),
        at(s.pieces, m.from) == Some(Piece { kind: PieceKind::King, color }),
        m.from.can_shift(-2, 0),
        m.to == m.from.shifted(-2, 0),
    ensures
        legal(s, color, m) <==> castle_queen_side_to(s, color, m.from, m.to) && !in_check(
            after_force(s, m),
            color,
        ),
{
}

/// Where a king castles from its square of the standard position, the rook
/// jumps over it: afterwards the king stands on the square of the move, the
/// rook on the square that the king has passed, and the squares that they
/// have left are free.
pub proof fn lemma_castling_moves_the_rook(s: BoardView, color: PieceColor, m: BoardMove)
    requires
        s.wf(),
        m.wf(),
        at(s.pieces, m.from) == Some(Piece { kind: PieceKind::King, color }),
        castle_king_side_to(s, color, m.from, m.to) || castle_queen_side_to(s, color, m.from, m.to),
        rook_jump(color, m) is Some,
    ensures
        ({
            let after = after_force(s, m).pieces;
            let (rook_from, rook_to) = rook_jump(color, m).unwrap();
            &&& at(after, m.to) == Some(Piece { kind: PieceKind::King, color })
            &&& at(after, rook_to) == Some(Piece { kind: PieceKind::Rook, color })
            &&& is_free(after, m.from)
            &&& is_free(after, rook_from)
            &&& 2 * rook_to.0 == m.from.0 + m.to.0
        }),
{
}

/// A move marks both of its squares, and a mark is never taken away.
pub proof fn lemma_marks_stay(s: BoardView, ms: Seq<BoardMove>, i: int)
    requires
        s.wf(),
        all_on_board(ms),
        0 <= i < 64,
    ensures
        after_moves(s, ms).wf(),
        s.moved[i] ==> after_moves(s, ms).moved[i],
        forall|k: int|
            0 <= k < ms.len() && ((#[trigger] ms[k]).from.spec_index() == i || ms[k].to.spec_index()
                == i) ==> after_moves(s, ms).moved[i],
    decreases ms.len(),
{
    if ms.len() > 0 {
        lemma_marks_stay(s, ms.drop_last(), i);
        assert forall|k: int|
            0 <= k < ms.len() && ((#[trigger] ms[k]).from.spec_index() == i || ms[k].to.spec_index()
                == i) implies after_moves(s, ms).moved[i] by {
            if k < ms.len() - 1 {
                assert(ms.drop_last()[k] == ms[k]);
            }
        }
    }
}

/// Castling towards the higher files is lost for good once a move has
/// started or ended on the king's square or on the rook's square, whatever
/// is played afterwards, even if king and rook stand on their squares again.
pub proof fn lemma_castle_king_side_is_lost(
    s: BoardView,
    first: BoardMove,
    later: Seq<BoardMove>,
    color: PieceColor,
    m: BoardMove,
)
    requires
        s.wf(),
        first.wf(),
        all_on_board(later),
        m.wf(),
        m.from.can_shift(3, 0),
        m.to == m.from.shifted(2, 0),
        ({
            let rook = m.from.shifted(3, 0);
            first.from == m.from || first.to == m.from || first.from == rook || first.to == rook
        }),
    ensures
        ({
            let end = after_moves(after_force(s, first), later);
            &&& !castle_king_side_to(end, color, m.from, m.to)
            &&& at(end.pieces, m.from) == Some(Piece { kind: PieceKind::King, color }) ==> !legal(
                end,
                color,
                m,
            )
        }),
{
    let start = after_force(s, first);
    let end = after_moves(start, later);
    let rook = m.from.shifted(3, 0);
    lemma_marks_stay(start, later, m.from.spec_index());
    lemma_marks_stay(start, later, rook.spec_index());
    if at(end.pieces, m.from) == Some(Piece { kind: PieceKind::King, color }) {
        lemma_castle_king_side(end, color, m);
    }
}

/// Castling towards the lower files is lost for good once a move has
/// started or ended on the king's square or on the rook's square, whatever
/// is played afterwards, even if king and rook stand on their squares again.
pub proof fn lemma_castle_queen_side_is_lost(
    s: BoardView,
    first: BoardMove,
    later: Seq<BoardMove>,
    color: PieceColor,
    m: BoardMove,
)
    requires
        s.wf(),
        first.wf(),
        all_on_board(later),
        m.wf(),
        m.from.can_shift(-4, 0),
        m.to == m.from.shifted(-2, 0),
        ({
            let rook = m.from.shifted(-4, 0);
            first.from == m.from || first.to == m.from || first.from == rook || first.to == rook
        }),
    ensures
        ({
            let end = after_moves(after_force(s, first), later);
            &&& !castle_queen_side_to(end, color, m.from, m.to)
            &&& at(end.pieces, m.from) == Some(Piece { kind: PieceKind::King, color }) ==> !legal(
                end,
                color,
                m,
            )
        }),
{
    let start = after_force(s, first);
    let end = after_moves(start, later);
    let rook = m.from.shifted(-4, 0);
    lemma_marks_stay(start, later, m.from.spec_index());
    lemma_marks_stay(start, later, rook.spec_index());
    if at(end.pieces, m.from) == Some(Piece { kind: PieceKind::King, color }) {
        lemma_castle_queen_side(end, color, m);
    }
}

/// A pawn may advance two ranks exactly when it stands on the starting rank
/// of its side and the square before it and the square behind that one are
/// both free. So a pawn whose next square is held can at most be thought of
/// for the single step, which is then not free either.
pub proof fn lemma_pawn_double_step(s: BoardView, color: PieceColor, m: BoardMove)
    requires
        s.wf(),
        m.wf(),
        at(s.pieces, m.from) == Some(Piece { kind: PieceKind::Pawn, color }),
        two_ranks(m),
    ensures
        pseudo_legal(s, color, m) <==> {
            &&& m.from.1 == color.pawn_row()
            &&& m.to == m.from.shifted(0, 2 * color.forward())
            &&& is_free(s.pieces, m.from.shifted(0, color.forward()))
            &&& is_free(s.pieces, m.to)
        },
        legal(s, color, m) ==> pseudo_legal(s, color, m),
{
}

/// After a pawn has advanced two ranks from its starting rank, an enemy
/// pawn that stands beside the square on which it landed may capture it in
/// passing: the enemy pawn's move onto the square that the pawn has passed
/// is pseudo-legal, and making it removes the pawn.
pub proof fn lemma_en_passant_arises(
    s: BoardView,
    color: PieceColor,
    m: BoardMove,
    capture: BoardMove,
)
    requires
        s.wf(),
        at(s.pieces, m.from) == Some(Piece { kind: PieceKind::Pawn, color }),
        two_ranks(m),
        pseudo_legal(s, color, m),
        capture.wf(),
        capture.from.1 == m.to.1,
        capture.from.0 == m.to.0 + 1 || capture.from.0 + 1 == m.to.0,
        at(s.pieces, capture.from) == Some(
            Piece { kind: PieceKind::Pawn, color: color.spec_opposite() },
        ),
        capture.to == m.from.shifted(0, color.forward()),
    ensures
        pseudo_legal(after_force(s, m), color.spec_opposite(), capture),
        is_free(after_force(after_force(s, m), capture).pieces, m.to),
        at(after_force(after_force(s, m), capture).pieces, capture.to) == Some(
            Piece { kind: PieceKind::Pawn, color: color.spec_opposite() },
        ),
{
    lemma_pawn_double_step(s, color, m);
    let s2 = after_force(s, m);
    let enemy = Piece { kind: PieceKind::Pawn, color: color.spec_opposite() };
    assert(s2.last_pawn_move == Some(m));
    assert(at(s2.pieces, capture.from) == Some(enemy));
    assert(is_free(s2.pieces, capture.to));
    assert(en_passant_to(s2.pieces, s2.last_pawn_move, enemy, capture.from, capture.to));
}

/// A capture in passing can only answer the move that was made last: after
/// any move, a pawn may capture in passing only if that move was a pawn's
/// advance by two ranks, and only onto the file on which that move ended.
pub proof fn lemma_en_passant_expires(
    s: BoardView,
    last: BoardMove,
    piece: Piece,
    from: Position,
    to: Position,
)
    requires
        s.wf(),
        last.wf(),
        en_passant_to(after_force(s, last).pieces, after_force(s, last).last_pawn_move, piece, from, to),
    ensures
        after_force(s, last).last_pawn_move == Some(last),
        two_ranks(last),
        to.0 == last.to.0,
        from.1 == last.to.1,
{
}

/// After any move, no pawn stands on the last rank of its side.
pub proof fn lemma_no_pawn_on_last_rank(s: BoardView, m: BoardMove, p: Position, color: PieceColor)
    requires
        s.wf(),
        m.wf(),
        p.wf(),
        p.1 == color.last_row(),
    ensures
        at(after_force(s, m).pieces, p) != Some(Piece { kind: PieceKind::Pawn, color }),
{
}

/// A pawn that reaches the last rank of its side by a pseudo-legal move is
/// a queen of its colour once the move is made.
pub proof fn lemma_promotion(s: BoardView, color: PieceColor, m: BoardMove)
    requires
        s.wf(),
        at(s.pieces, m.from) == Some(Piece { kind: PieceKind::Pawn, color }),
        pseudo_legal(s, color, m),
        m.to.1 == color.last_row(),
    ensures
        at(after_force(s, m).pieces, m.to) == Some(Piece { kind: PieceKind::Queen, color }),
{
}

} // verus!
