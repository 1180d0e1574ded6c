//! The move planner: for one piece on one board, it collects the squares
//! on which the piece may land.

use vstd::prelude::*;

use crate::board::{attacked, lands_on, pseudo_legal, Board, BoardMove};
use crate::constants::SQUARE_COUNT;
use crate::grid::{
    at, is_free, lemma_ray_is_short, lemma_ray_leaves, lemma_ray_step, lemma_ray_stops, no_take_to,
    ray_clear, ray_hits, ray_on_board, ray_square, ray_to, take_only_to, take_to, Grid,
};
use crate::piece::{Piece, PieceColor, PieceKind};
use crate::position::{lemma_from_index, lemma_index_round_trip, Position, PositionOffset};

verus! {

/// Collects the destinations of the piece of colour `color` that stands on
/// `position` of `board`. There is one slot for each destination square.
pub(crate) struct PieceMovePlanner<'a> {
    pub(crate) board: &'a Board,
    pub(crate) position: Position,
    pub(crate) color: PieceColor,
    pub(crate) moves: [Option<BoardMove>; SQUARE_COUNT],
}

impl<'a> PieceMovePlanner<'a> {
    /// The grid of the board that the planner looks at.
    pub(crate) open spec fn grid(&self) -> Grid {
        self.board@.pieces
    }

    /// The move of the planner's piece to square `to`.
    pub(crate) open spec fn move_to(&self, to: Position) -> BoardMove {
        BoardMove { from: self.position, to }
    }

    /// The board and the piece's square are well formed, and each slot is
    /// empty or holds the move to its own square.
    pub(crate) open spec fn wf(&self) -> bool {
        &&& self.board.wf()
        &&& self.position.wf()
        &&& forall|i: int|
            0 <= i < 64 ==> (#[trigger] self.moves@[i] matches Some(m) ==> m == self.move_to(
                Position::from_index(i),
            ))
    }

    /// Square `to` has been recorded as a destination.
    pub(crate) open spec fn has(&self, to: Position) -> bool {
        self.moves@[to.spec_index()] is Some
    }

    /// The planner looks at the same board and the same piece as `other`.
    pub(crate) open spec fn same_piece(&self, other: &Self) -> bool {
        &&& self.board == other.board
        &&& self.position == other.position
        &&& self.color == other.color
    }

    /// A planner for the piece of `color` on `position`, with no destination
    /// recorded.
    pub(crate) fn new(board: &'a Board, position: Position, color: PieceColor) -> (planner: Self)
        requires
            board.wf(),
            position.wf(),
        ensures
            planner.wf(),
            planner.board == board,
            planner.position == position,
            planner.color == color,
            forall|p: Position| p.wf() ==> !#[trigger] planner.has(p),
    {
        Self { board, position, color, moves: [None;SQUARE_COUNT] }
    }

    /// The square on which the piece stands.
    pub(crate) fn position(&self) -> (position: Position)
        ensures
            position == self.position,
    {
        self.position
    }

    /// Records `to` as a destination. Recording a square twice is the same
    /// as recording it once.
    pub(crate) fn add_move(&mut self, to: Position)
        requires
            old(self).wf(),
            to.wf(),
        ensures
            final(self).wf(),
            final(self).same_piece(old(self)),
            forall|p: Position| p.wf() ==> (#[trigger] final(self).has(p) <==> old(self).has(p) || p == to),
    {
        proof {
            lemma_index_round_trip(to);
        }
        self.moves[to.index()] = Some(BoardMove { from: self.position, to });
        assert forall|p: Position| p.wf() implies (#[trigger] self.has(p) <==> old(self).has(p) || p
            == to) by {
            lemma_index_round_trip(p);
        }
    }

    /// Records the square at `offset` if it is free, and says whether it
    /// did.
    pub(crate) fn try_add_no_take(&mut self, offset: PositionOffset) -> (added: bool)
        requires
            old(self).wf(),
        ensures
            final(self).wf(),
            final(self).same_piece(old(self)),
            added <==> exists|p: Position| no_take_to(old(self).grid(), old(self).position, offset, p),
            forall|p: Position|
                p.wf() ==> (#[trigger] final(self).has(p) <==> old(self).has(p) || no_take_to(
                    old(self).grid(),
                    old(self).position,
                    offset,
                    p,
                )),
    {
        if let Some(to) = self.position.offset(offset) {
            if self.board.piece(to).is_none() {
                self.add_move(to);
                assert(no_take_to(old(self).grid(), old(self).position, offset, to));
                return true;
            }
        }
        false
    }

    /// Records the square at `offset` if it is free or held by the enemy,
    /// and says whether it did.
    pub(crate) fn try_add_take(&mut self, offset: PositionOffset) -> (added: bool)
        requires
            old(self).wf(),
        ensures
            final(self).wf(),
            final(self).same_piece(old(self)),
            added <==> exists|p: Position|
                take_to(old(self).grid(), old(self).color, old(self).position, offset, p),
            forall|p: Position|
                p.wf() ==> (#[trigger] final(self).has(p) <==> old(self).has(p) || take_to(
                    old(self).grid(),
                    old(self).color,
                    old(self).position,
                    offset,
                    p,
                )),
    {
        if let Some(to) = self.position.offset(offset) {
            if let Some(piece) = self.board.piece(to) {
                if piece.color() != self.color {
                    self.add_move(to);
                    assert(take_to(old(self).grid(), old(self).color, old(self).position, offset, to));
                    return true;
                }
            } else {
                self.add_move(to);
                assert(take_to(old(self).grid(), old(self).color, old(self).position, offset, to));
                return true;
            }
        }
        false
    }

    /// Records the square at `offset` if it is held by the enemy, and says
    /// whether it did.
    pub(crate) fn try_add_take_only(&mut self, offset: PositionOffset) -> (added: bool)
        requires
            old(self).wf(),
        ensures
            final(self).wf(),
            final(self).same_piece(old(self)),
            added <==> exists|p: Position|
                take_only_to(old(self).grid(), old(self).color, old(self).position, offset, p),
            forall|p: Position|
                p.wf() ==> (#[trigger] final(self).has(p) <==> old(self).has(p) || take_only_to(
                    old(self).grid(),
                    old(self).color,
                    old(self).position,
                    offset,
                    p,
                )),
    {
        if let Some(to) = self.position.offset(offset) {
            if let Some(piece) = self.board.piece(to) {
                if piece.color() != self.color {
                    self.add_move(to);
                    assert(take_only_to(
                        old(self).grid(),
                        old(self).color,
                        old(self).position,
                        offset,
                        to,
                    ));
                    return true;
                }
            }
        }
        false
    }

    /// Walks from the piece's square in direction `direction` and records
    /// every free square on the way. The walk ends at the edge of the
    /// board, before a piece of the planner's colour, or on an enemy piece,
    /// whose square is recorded too.
    pub(crate) fn try_add_directional_take(&mut self, direction: PositionOffset)
        requires
            old(self).wf(),
            direction.0 != 0 || direction.1 != 0,
        ensures
            final(self).wf(),
            final(self).same_piece(old(self)),
            forall|p: Position|
                p.wf() ==> (#[trigger] final(self).has(p) <==> old(self).has(p) || ray_to(
                    old(self).grid(),
                    old(self).color,
                    old(self).position,
                    direction,
                    p,
                )),
    {
        let ghost g = self.grid();
        let ghost from = self.position;
        let ghost color = self.color;
        let ghost mut n: int = 1;
        proof {
            assert(ray_on_board(from, direction, 0));
            assert(ray_square(from, direction, 0) == from);
            lemma_ray_step(from, direction, 0);
        }
        let mut new_position = self.position.offset(direction);
        loop
            invariant_except_break
                1 <= n <= 8,
                new_position == if ray_on_board(from, direction, n) {
                    Some(ray_square(from, direction, n))
                } else {
                    None
                },
                ray_clear(g, from, direction, n),
                forall|p: Position|
                    p.wf() ==> (#[trigger] self.has(p) <==> old(self).has(p) || exists|k: int|
                        1 <= k < n && p == #[trigger] ray_square(from, direction, k)),
            invariant
                self.wf(),
                self.same_piece(old(self)),
                g == old(self).grid(),
                from == old(self).position,
                color == old(self).color,
                direction.0 != 0 || direction.1 != 0,
            ensures
                forall|p: Position|
                    p.wf() ==> (#[trigger] self.has(p) <==> old(self).has(p) || ray_to(
                        g,
                        color,
                        from,
                        direction,
                        p,
                    )),
            decreases 8 - n,
        {
            let ghost before = *self;
            let to = match new_position {
                Some(to) => to,
                None => {
                    proof {
                        assert forall|p: Position| p.wf() implies (#[trigger] self.has(p) <==> old(
                            self,
                        ).has(p) || ray_to(g, color, from, direction, p)) by {
                            lemma_ray_leaves(g, color, from, direction, n, p);
                        }
                    }
                    break;
                },
            };
            proof {
                lemma_ray_is_short(from, direction, n);
                lemma_ray_step(from, direction, n);
            }
            if let Some(piece) = self.board.piece(to) {
                if piece.color() != self.color {
                    self.add_move(to);
                    proof {
                        assert(ray_hits(g, color, from, direction, n, to));
                    }
                }
                proof {
                    assert forall|p: Position| p.wf() implies (#[trigger] self.has(p) <==> old(
                        self,
                    ).has(p) || ray_to(g, color, from, direction, p)) by {
                        lemma_ray_stops(g, color, from, direction, n, p);
                    }
                }
                break;
            } else {
                self.add_move(to);
            }
            new_position = to.offset(direction);
            proof {
                assert forall|k: int| 1 <= k < n + 1 implies #[trigger] ray_on_board(
                    from,
                    direction,
                    k,
                ) && is_free(g, ray_square(from, direction, k)) by {}
                assert forall|p: Position| p.wf() implies (#[trigger] self.has(p) <==> old(
                    self,
                ).has(p) || exists|k: int|
                    1 <= k < n + 1 && p == #[trigger] ray_square(from, direction, k)) by {
                    if before.has(p) && !old(self).has(p) {
                        let k = choose|k: int| 1 <= k < n && p == #[trigger] ray_square(from, direction, k);
                        assert(1 <= k < n + 1);
                    }
                }
                n = n + 1;
            }
        }
    }

    /// The square at `offset` is on the board, and some piece of the other
    /// colour could land on it. The other side's moves are generated
    /// without the test for check.
    pub(crate) fn is_under_attack(&self, offset: PositionOffset) -> (threatened: bool)
        requires
            self.wf(),
        ensures
            threatened <==> (self.position.spec_offset(offset) matches Some(p) && attacked(
                self.board@,
                self.color.spec_opposite(),
                p,
            )),
        decreases 2int,
    {
        let valid_moves = self.board.moves_internal(self.color.opposite(), false);
        if let Some(position) = self.position.offset(offset) {
            let found = lands_on(&valid_moves, position);
            proof {
                let s = self.board@;
                let by = self.color.spec_opposite();
                if found {
                    let m = choose|m: BoardMove| valid_moves@.contains(m) && m.to == position;
                    assert(pseudo_legal(s, by, BoardMove { from: m.from, to: position }));
                }
                if attacked(s, by, position) {
                    let from = choose|from: Position|
                        pseudo_legal(s, by, BoardMove { from, to: position });
                    assert(valid_moves@.contains(BoardMove { from, to: position }));
                }
            }
            return found;
        }
        false
    }

    /// The piece on the square at `offset` is of the planner's colour and
    /// of kind `kind`.
    pub(crate) fn is_my_piece(&self, offset: PositionOffset, kind: PieceKind) -> (mine: bool)
        requires
            self.wf(),
        ensures
            mine <==> (self.position.spec_offset(offset) matches Some(p) && at(self.grid(), p) == Some(
                Piece { kind, color: self.color },
            )),
    {
        if let Some(position) = self.position.offset(offset) {
            if let Some(piece) = self.board.piece(position) {
                return piece.color() == self.color && piece.kind() == kind;
            }
        }
        false
    }

    /// The square at `offset` is on the board and free.
    pub(crate) fn is_empty(&self, offset: PositionOffset) -> (empty: bool)
        requires
            self.wf(),
        ensures
            empty <==> (self.position.spec_offset(offset) matches Some(p) && is_free(self.grid(), p)),
    {
        if let Some(position) = self.position.offset(offset) {
            if let Some(..) = self.board.piece(position) {
                false
            } else {
                true
            }
        } else {
            false
        }
    }

    /// The moves to the recorded destinations, each of them once.
    pub(crate) fn moves(&self) -> (moves: Vec<BoardMove>)
        requires
            self.wf(),
        ensures
            moves@.no_duplicates(),
            forall|m: BoardMove|
                moves@.contains(m) <==> m.from == self.position && m.to.wf() && self.has(m.to),
    {
        let mut moves: Vec<BoardMove> = Vec::new();
        let mut i: usize = 0;
        while i < SQUARE_COUNT
            invariant
                i <= 64,
                self.wf(),
                moves@.no_duplicates(),
                forall|k: int|
                    0 <= k < moves@.len() ==> {
                        let m = #[trigger] moves@[k];
                        &&& m.from == self.position
                        &&& m.to.wf()
                        &&& m.to.spec_index() < i
                        &&& self.moves@[m.to.spec_index()] == Some(m)
                    },
                forall|j: int|
                    0 <= j < i ==> (#[trigger] self.moves@[j] matches Some(m) ==> moves@.contains(m)),
            decreases 64 - i,
        {
            if let Some(board_move) = &self.moves[i] {
                let ghost before = moves@;
                proof {
                    lemma_from_index(i as int);
                }
                moves.push(*board_move);
                assert(moves@[before.len() as int] == *board_move);
                assert forall|j: int| 0 <= j <= i implies (#[trigger] self.moves@[j] matches Some(m)
                    ==> moves@.contains(m)) by {
                    if let Some(m) = self.moves@[j] {
                        if j < i {
                            let k = choose|k: int| 0 <= k < before.len() && before[k] == m;
                            assert(moves@[k] == m);
                        } else {
                            assert(moves@[before.len() as int] == m);
                        }
                    }
                }
            }
            i += 1;
        }
        assert forall|m: BoardMove|
            moves@.contains(m) <==> m.from == self.position && m.to.wf() && self.has(m.to) by {
            if m.from == self.position && m.to.wf() && self.has(m.to) {
                lemma_index_round_trip(m.to);
                assert(self.moves@[m.to.spec_index()] is Some);
            }
        }
        moves
    }
}

} // verus!
