//! The board: the 64 squares, the state of the special rules, and the
//! moves.

use vstd::prelude::*;

use crate::constants::SQUARE_COUNT;
use crate::grid::{at, Grid};
use crate::piece::{template_to, Piece, PieceColor, PieceKind};
use crate::planner::PieceMovePlanner;
use crate::position::{lemma_from_index, lemma_index_round_trip, Position};
use crate::rules::castle::{castle_flags, castle_grid, castle_to, no_flags, Castle};
use crate::rules::en_passant::{en_passant_grid, en_passant_record, en_passant_to, EnPassant};
use crate::rules::pawn_first_move::{first_move_to, PawnFirstMove};
use crate::rules::promotion::{promoted, Promotion};
use crate::Ic;

verus! {

/// A move: the square that a piece leaves and the square on which it lands.
/// Whether it captures, castles or promotes follows from the board on which
/// it is made.
#[derive(Clone, Copy, Debug, PartialEq, Eq, Structural)]
pub struct BoardMove {
    pub from: Position,
    pub to: Position,
}

impl BoardMove {
    /// Both squares lie on the board.
    pub open spec fn wf(self) -> bool {
        self.from.wf() && self.to.wf()
    }
}

/// The mathematical state of a game.
pub struct BoardView {
    /// What stands on each square, by flat index.
    pub pieces: Grid,
    /// For each square, whether a move has ever started or ended there.
    pub moved: Seq<bool>,
    /// The last move, if it was a pawn's advance by two ranks.
    pub last_pawn_move: Option<BoardMove>,
}

impl BoardView {
    /// There are 64 squares and 64 flags, and the remembered move lies on
    /// the board.
    pub open spec fn wf(self) -> bool {
        &&& self.pieces.len() == 64
        &&& self.moved.len() == 64
        &&& self.last_pawn_move matches Some(m) ==> m.wf()
    }
}

/// The grid after the piece on `m.from` has been put on `m.to`.
pub open spec fn relocated(g: Grid, m: BoardMove) -> Grid {
    g.update(m.to.spec_index(), g[m.from.spec_index()]).update(m.from.spec_index(), None)
}

/// The state after move `m` has been made, whether or not it is legal: the
/// rook's part of castling, the capture in passing, the move itself, and
/// promotion, in this order.
pub open spec fn after_force(s: BoardView, m: BoardMove) -> BoardView {
    let castled = castle_grid(s.pieces, m);
    let captured = en_passant_grid(s.last_pawn_move, castled, m);
    BoardView {
        pieces: promoted(relocated(captured, m)),
        moved: castle_flags(s.moved, m),
        last_pawn_move: en_passant_record(captured, m),
    }
}

/// Without regard to check, and castling left aside, the piece on `m.from`
/// is of `color` and may go to `m.to`: by the way its kind moves, by the
/// pawn's first move, or capturing in passing.
pub open spec fn pseudo_legal(s: BoardView, color: PieceColor, m: BoardMove) -> bool {
    &&& m.wf()
    &&& at(s.pieces, m.from) matches Some(p)
    &&& p.color == color
    &&& {
        ||| template_to(s.pieces, p, m.from, m.to)
        ||| first_move_to(s.pieces, p, m.from, m.to)
        ||| en_passant_to(s.pieces, s.last_pawn_move, p, m.from, m.to)
    }
}

/// Some piece of colour `by` has a pseudo-legal move that lands on
/// `target`.
pub open spec fn attacked(s: BoardView, by: PieceColor, target: Position) -> bool {
    exists|from: Position| pseudo_legal(s, by, BoardMove { from, to: target })
}

/// A king of `color` stands on a square that the other side attacks.
pub open spec fn in_check(s: BoardView, color: PieceColor) -> bool {
    exists|k: Position|
        k.wf() && #[trigger] at(s.pieces, k) == Some(
            Piece { kind: PieceKind::King, color },
        ) && attacked(s, color.spec_opposite(), k)
}

/// The piece on `m.from` is of `color`, and `m` is a castling move for it.
pub open spec fn castling(s: BoardView, color: PieceColor, m: BoardMove) -> bool {
    &&& m.wf()
    &&& at(s.pieces, m.from) matches Some(p)
    &&& p.color == color
    &&& castle_to(s, p, m.from, m.to)
}

/// Move `m` is legal for `color`: it is pseudo-legal or a castling move,
/// and after it no king of `color` is in check.
pub open spec fn legal(s: BoardView, color: PieceColor, m: BoardMove) -> bool {
    &&& pseudo_legal(s, color, m) || castling(s, color, m)
    &&& !in_check(after_force(s, m), color)
}

/// What move generation yields for `color`: the legal moves where
/// `king_check` is set, and the pseudo-legal moves, castling left aside,
/// where it is not.
pub open spec fn generated(s: BoardView, color: PieceColor, king_check: bool, m: BoardMove) -> bool {
    if king_check {
        legal(s, color, m)
    } else {
        pseudo_legal(s, color, m)
    }
}

/// Move `m` is legal for the side whose piece stands on `m.from`.
pub open spec fn is_legal(s: BoardView, m: BoardMove) -> bool {
    at(s.pieces, m.from) matches Some(p) && legal(s, p.color, m)
}

/// The kinds of the pieces on a side's back rank in the standard position,
/// by file.
pub open spec fn back_rank(col: int) -> PieceKind {
    if col == 0 || col == 7 {
        PieceKind::Rook
    } else if col == 1 || col == 6 {
        PieceKind::Knight
    } else if col == 2 || col == 5 {
        PieceKind::Bishop
    } else if col == 3 {
        PieceKind::Queen
    } else {
        PieceKind::King
    }
}

/// What stands on the square with flat index `i` in the standard position.
pub open spec fn initial_piece(i: int) -> Option<Piece> {
    if 0 <= i < 8 {
        Some(Piece { kind: back_rank(i), color: PieceColor::Black })
    } else if 8 <= i < 16 {
        Some(Piece { kind: PieceKind::Pawn, color: PieceColor::Black })
    } else if 48 <= i < 56 {
        Some(Piece { kind: PieceKind::Pawn, color: PieceColor::White })
    } else if 56 <= i < 64 {
        Some(Piece { kind: back_rank(i - 56), color: PieceColor::White })
    } else {
        None
    }
}

/// The standard position.
pub open spec fn initial_grid() -> Grid {
    Seq::new(64, |i: int| initial_piece(i))
}

/// The state at the start of a game.
pub open spec fn initial_view() -> BoardView {
    BoardView { pieces: initial_grid(), moved: no_flags(), last_pawn_move: None }
}

/// What the piece on one square counts for `color`: its value if it is of
/// that colour, the negated value if it is of the other, nothing if the
/// square is free.
pub open spec fn square_score(piece: Option<Piece>, color: PieceColor) -> int {
    match piece {
        Some(p) => if p.color == color {
            p.spec_value()
        } else {
            -p.spec_value()
        },
        None => 0,
    }
}

/// The sum of `square_score` over the first `n` squares.
pub open spec fn partial_score(g: Grid, color: PieceColor, n: int) -> int
    decreases n,
{
    if n <= 0 {
        0
    } else {
        partial_score(g, color, n - 1) + square_score(g[n - 1], color)
    }
}

/// The material balance of `color`: the values of its pieces minus the
/// values of the other side's.
pub open spec fn spec_score(g: Grid, color: PieceColor) -> int {
    partial_score(g, color, 64)
}

/// A value that does not occur in a sequence without duplicates can be
/// appended to it.
proof fn lemma_push_fresh<T>(s: Seq<T>, x: T)
    requires
        s.no_duplicates(),
        !s.contains(x),
    ensures
        s.push(x).no_duplicates(),
{
    assert forall|i: int, j: int| 0 <= i < s.len() + 1 && 0 <= j < s.len() + 1 && i != j implies s.push(
        x,
    )[i] != s.push(x)[j] by {
        if i < s.len() && j < s.len() {
        } else if i < s.len() {
            assert(s.contains(s[i]));
        } else {
            assert(s.contains(s[j]));
        }
    }
}

/// What a sequence holds after one value is appended.
proof fn lemma_contains_push<T>(s: Seq<T>, x: T, y: T)
    ensures
        s.push(x).contains(y) <==> s.contains(y) || y == x,
{
    if s.contains(y) {
        let i = choose|i: int| 0 <= i < s.len() && s[i] == y;
        assert(s.push(x)[i] == y);
    }
    if y == x {
        assert(s.push(x)[s.len() as int] == y);
    }
}

/// Some move of `moves` lands on `target`.
pub(crate) fn lands_on(moves: &Vec<BoardMove>, target: Position) -> (found: bool)
    ensures
        found <==> exists|m: BoardMove| moves@.contains(m) && m.to == target,
{
    let mut i: usize = 0;
    while i < moves.len()
        invariant
            i <= moves.len(),
            forall|j: int| 0 <= j < i ==> moves@[j].to != target,
        decreases moves.len() - i,
    {
        if moves[i].to == target {
            assert(moves@.contains(moves@[i as int]));
            return true;
        }
        i += 1;
    }
    false
}

/// `m` is one of `moves`.
pub(crate) fn contains_move(moves: &Vec<BoardMove>, m: BoardMove) -> (found: bool)
    ensures
        found == moves@.contains(m),
{
    let mut i: usize = 0;
    while i < moves.len()
        invariant
            i <= moves.len(),
            forall|j: int| 0 <= j < i ==> moves@[j] != m,
        decreases moves.len() - i,
    {
        if moves[i] == m {
            return true;
        }
        i += 1;
    }
    false
}

/// The same piece stands on both squares, or both are free.
pub(crate) fn same_content(a: Option<Piece>, b: Option<Piece>) -> (same: bool)
    ensures
        same == (a == b),
{
    match (a, b) {
        (Some(p), Some(q)) => p.kind() == q.kind() && p.color() == q.color(),
        (None, None) => true,
        _ => false,
    }
}

/// A chess board with the state of its rules. It is a plain value: a copy
/// shares nothing with the board it was made from.
#[derive(Clone, Copy, Debug)]
pub struct Board {
    pieces: [Option<Piece>; SQUARE_COUNT],
    castle: Castle,
    en_passant: EnPassant,
    pawn_first_move: PawnFirstMove,
    promotion: Promotion,
}

impl View for Board {
    type V = BoardView;

    closed spec fn view(&self) -> BoardView {
        BoardView {
            pieces: self.pieces@,
            moved: self.castle@,
            last_pawn_move: self.en_passant@,
        }
    }
}

impl Board {
    /// The state of the board is well formed.
    pub open spec fn wf(&self) -> bool {
        self@.wf()
    }

    /// The standard position, with no move made.
    pub fn new() -> (board: Self)
        ensures
            board@ == initial_view(),
            board.wf(),
    {
        let mut pieces: [Option<Piece>; SQUARE_COUNT] = [None;SQUARE_COUNT];
        let back_row = [
            PieceKind::Rook,
            PieceKind::Knight,
            PieceKind::Bishop,
            PieceKind::Queen,
            PieceKind::King,
            PieceKind::Bishop,
            PieceKind::Knight,
            PieceKind::Rook,
        ];
        let mut i: usize = 0;
        while i < 8
            invariant
                i <= 8,
                back_row@.len() == 8,
                forall|j: int| 0 <= j < 8 ==> #[trigger] back_row@[j] == back_rank(j),
                forall|j: int|
                    0 <= j < 64 ==> #[trigger] pieces@[j] == if j % 8 < i {
                        initial_piece(j)
                    } else {
                        None
                    },
            decreases 8 - i,
        {
            let kind = back_row[i];
            pieces[i] = Some(Piece::new(kind, PieceColor::Black));
            pieces[i + 56] = Some(Piece::new(kind, PieceColor::White));
            pieces[i + 8] = Some(Piece::new(PieceKind::Pawn, PieceColor::Black));
            pieces[i + 48] = Some(Piece::new(PieceKind::Pawn, PieceColor::White));
            i += 1;
        }
        assert(pieces@ =~= initial_grid());
        Self {
            pieces,
            castle: Castle::new(),
            en_passant: EnPassant::new(),
            pawn_first_move: PawnFirstMove::new(),
            promotion: Promotion::new(),
        }
    }

    /// Puts `piece` on square `position`, or clears the square.
    pub fn set_piece(&mut self, position: Position, piece: Option<Piece>)
        requires
            position.wf(),
        ensures
            final(self)@ == (BoardView {
                pieces: old(self)@.pieces.update(position.spec_index(), piece),
                ..old(self)@
            }),
    {
        self.pieces[position.index()] = piece;
    }

    /// What stands on square `position`.
    pub fn piece(&self, position: Position) -> (piece: Option<Piece>)
        requires
            position.wf(),
        ensures
            piece == at(self@.pieces, position),
    {
        self.pieces[position.index()]
    }

    /// The moves of `color`: the legal ones where `king_check` is set. Where
    /// it is not, the moves are not tested for check and castling is left
    /// out: this is the form in which the search for attacks calls itself,
    /// so that it ends after one level.
    pub(crate) fn moves_internal(&self, color: PieceColor, king_check: bool) -> (all_moves: Vec<
        BoardMove,
    >)
        requires
            self.wf(),
        ensures
            all_moves@.no_duplicates(),
            forall|m: BoardMove| all_moves@.contains(m) <==> generated(self@, color, king_check, m),
        decreases
                (if king_check {
                    4int
                } else {
                    1int
                }),
    {
        let mut all_moves: Vec<BoardMove> = Vec::new();
        let squares = Position::all();
        let mut i: usize = 0;
        while i < SQUARE_COUNT
            invariant
                i <= 64,
                self.wf(),
                forall|j: int| 0 <= j < 64 ==> #[trigger] squares[j] == Position::from_index(j),
                all_moves@.no_duplicates(),
                forall|m: BoardMove|
                    all_moves@.contains(m) <==> m.from.spec_index() < i && generated(
                        self@,
                        color,
                        king_check,
                        m,
                    ),
            decreases 64 - i,
        {
            let position = squares[i];
            proof {
                lemma_from_index(i as int);
            }
            let ghost done = all_moves@;
            if let Some(piece) = self.piece(position) {
                if piece.color() == color {
                    let mut planner = PieceMovePlanner::new(self, position, color);
                    piece.moves(&mut planner);
                    self.castle.moves(&piece, &mut planner, king_check);
                    self.pawn_first_move.moves(&piece, &mut planner);
                    self.en_passant.moves(&piece, &mut planner);
                    let mut moves = planner.moves();
                    let ghost candidates = moves@;
                    assert forall|m: BoardMove| candidates.contains(m) <==> m.from == position && (
                    pseudo_legal(self@, color, m) || (king_check && castling(self@, color, m))) by {
                        if m.from == position && m.to.wf() {
                            assert(planner.has(m.to) <==> template_to(
                                self@.pieces,
                                piece,
                                position,
                                m.to,
                            ) || (king_check && castle_to(self@, piece, position, m.to))
                                || first_move_to(self@.pieces, piece, position, m.to)
                                || en_passant_to(
                                self@.pieces,
                                self@.last_pawn_move,
                                piece,
                                position,
                                m.to,
                            ));
                        }
                    }
                    while moves.len() > 0
                        invariant
                            self.wf(),
                            position.wf(),
                            position.spec_index() == i,
                            i < 64,
                            candidates.no_duplicates(),
                            moves@ == candidates.take(moves@.len() as int),
                            moves@.len() <= candidates.len(),
                            forall|m: BoardMove|
                                candidates.contains(m) <==> m.from == position && (pseudo_legal(
                                    self@,
                                    color,
                                    m,
                                ) || (king_check && castling(self@, color, m))),
                            forall|m: BoardMove|
                                done.contains(m) <==> m.from.spec_index() < i && generated(
                                    self@,
                                    color,
                                    king_check,
                                    m,
                                ),
                            all_moves@.no_duplicates(),
                            forall|m: BoardMove|
                                #![trigger all_moves@.contains(m)]
                                all_moves@.contains(m) <==> done.contains(m) || (exists|k: int|
                                    moves@.len() <= k < candidates.len() && #[trigger] candidates[k]
                                        == m && generated(self@, color, king_check, m)),
                        decreases moves.len(),
                    {
                        let ghost before = all_moves@;
                        let ghost k0 = moves@.len() - 1;
                        let board_move = moves.pop().unwrap();
                        assert(board_move == candidates[k0]);
                        assert(candidates.contains(board_move));
                        let keep = if king_check {
                            let mut board_clone = self.clone();
                            board_clone.force_move(board_move);
                            !board_clone.check(color)
                        } else {
                            true
                        };
                        assert(keep <==> generated(self@, color, king_check, board_move));
                        if keep {
                            all_moves.push(board_move);
                            assert(all_moves@ == before.push(board_move));
                            assert(!before.contains(board_move)) by {
                                if before.contains(board_move) {
                                    if !done.contains(board_move) {
                                        let k = choose|k: int|
                                            k0 < k < candidates.len() && #[trigger] candidates[k]
                                                == board_move;
                                        assert(candidates[k] == candidates[k0]);
                                    }
                                }
                            }
                            assert(all_moves@.no_duplicates()) by {
                                lemma_push_fresh(before, board_move);
                            }
                        }
                        assert(moves@ == candidates.take(k0));
                        assert forall|m: BoardMove|
                            all_moves@.contains(m) <==> done.contains(m) || (exists|k: int|
                                k0 <= k < candidates.len() && #[trigger] candidates[k] == m
                                    && generated(self@, color, king_check, m)) by {
                            lemma_contains_push(before, board_move, m);
                            if before.contains(m) && !done.contains(m) {
                                let k = choose|k: int|
                                    k0 < k < candidates.len() && #[trigger] candidates[k] == m
                                        && generated(self@, color, king_check, m);
                                assert(k0 <= k);
                            }
                            if exists|k: int|
                                k0 <= k < candidates.len() && #[trigger] candidates[k] == m
                                    && generated(self@, color, king_check, m) {
                                let k = choose|k: int|
                                    k0 <= k < candidates.len() && #[trigger] candidates[k] == m
                                        && generated(self@, color, king_check, m);
                                if k == k0 {
                                    assert(m == board_move);
                                } else {
                                    assert(k0 < k);
                                }
                            }
                        }
                    }
                    assert forall|m: BoardMove|
                        all_moves@.contains(m) <==> m.from.spec_index() < i + 1 && generated(
                            self@,
                            color,
                            king_check,
                            m,
                        ) by {
                        if m.from.spec_index() == i && generated(self@, color, king_check, m) {
                            lemma_index_round_trip(m.from);
                            assert(candidates.contains(m));
                            let k = choose|k: int| 0 <= k < candidates.len() && candidates[k] == m;
                            assert(candidates[k] == m);
                        }
                        if all_moves@.contains(m) && !done.contains(m) {
                            let k = choose|k: int|
                                0 <= k < candidates.len() && #[trigger] candidates[k] == m
                                    && generated(self@, color, king_check, m);
                            assert(candidates.contains(m));
                        }
                    }
                } else {
                    assert forall|m: BoardMove|
                        m.from.spec_index() == i && m.from.wf() implies !generated(
                        self@,
                        color,
                        king_check,
                        m,
                    ) by {
                        lemma_index_round_trip(m.from);
                    }
                }
            } else {
                assert forall|m: BoardMove| m.from.spec_index() == i && m.from.wf() implies !generated(
                    self@,
                    color,
                    king_check,
                    m,
                ) by {
                    lemma_index_round_trip(m.from);
                }
            }
            i += 1;
        }
        assert forall|m: BoardMove| generated(self@, color, king_check, m) implies m.from.spec_index()
            < 64 by {
            lemma_index_round_trip(m.from);
        }
        all_moves
    }

    /// The legal moves of `color`, each of them once, in no particular
    /// order.
    pub fn valid_moves(&self, color: PieceColor) -> (moves: Vec<BoardMove>)
        requires
            self.wf(),
        ensures
            moves@.no_duplicates(),
            forall|m: BoardMove| moves@.contains(m) <==> legal(self@, color, m),
            forall|m: BoardMove|
                moves@.contains(m) ==> m.wf() && !in_check(after_force(self@, m), color),
    {
        self.moves_internal(color, true)
    }

    /// A king of `color` stands on a square on which a piece of the other
    /// side could land.
    pub fn check(&self, color: PieceColor) -> (checked: bool)
        requires
            self.wf(),
        ensures
            checked == in_check(self@, color),
        decreases 2int,
    {
        let opponents_moves = self.moves_internal(color.opposite(), false);
        let squares = Position::all();
        let mut i: usize = 0;
        while i < SQUARE_COUNT
            invariant
                i <= 64,
                self.wf(),
                forall|j: int| 0 <= j < 64 ==> #[trigger] squares[j] == Position::from_index(j),
                forall|m: BoardMove|
                    opponents_moves@.contains(m) <==> pseudo_legal(self@, color.spec_opposite(), m),
                forall|k: Position|
                    k.wf() && k.spec_index() < i && #[trigger] at(self@.pieces, k) == Some(
                        Piece { kind: PieceKind::King, color },
                    ) ==> !attacked(self@, color.spec_opposite(), k),
            decreases 64 - i,
        {
            let position = squares[i];
            proof {
                lemma_from_index(i as int);
            }
            if let Some(piece) = self.piece(position) {
                if piece.color() == color && piece.kind() == PieceKind::King {
                    if lands_on(&opponents_moves, position) {
                        proof {
                            let m = choose|m: BoardMove|
                                opponents_moves@.contains(m) && m.to == position;
                            assert(pseudo_legal(
                                self@,
                                color.spec_opposite(),
                                BoardMove { from: m.from, to: position },
                            ));
                        }
                        return true;
                    }
                }
            }
            assert forall|k: Position|
                k.wf() && k.spec_index() < i + 1 && #[trigger] at(self@.pieces, k) == Some(
                    Piece { kind: PieceKind::King, color },
                ) implies !attacked(self@, color.spec_opposite(), k) by {
                if k.spec_index() == i {
                    lemma_index_round_trip(k);
                    if attacked(self@, color.spec_opposite(), k) {
                        let from = choose|from: Position|
                            pseudo_legal(self@, color.spec_opposite(), BoardMove { from, to: k });
                        assert(opponents_moves@.contains(BoardMove { from, to: k }));
                    }
                }
            }
            i += 1;
        }
        assert forall|k: Position| k.wf() implies k.spec_index() < 64 by {
            lemma_index_round_trip(k);
        }
        false
    }

    /// Makes move `board_move` if it is legal for the side whose piece
    /// stands on its first square, and says whether it did. An illegal move
    /// leaves the board as it is.
    pub fn apply_move(&mut self, board_move: BoardMove) -> (applied: bool)
        requires
            old(self).wf(),
            board_move.wf(),
        ensures
            applied == is_legal(old(self)@, board_move),
            applied ==> final(self)@ == after_force(old(self)@, board_move),
            !applied ==> *final(self) == *old(self),
            final(self).wf(),
    {
        if self.is_valid_move(board_move) {
            self.force_move(board_move);
            true
        } else {
            false
        }
    }

    /// Move `board_move` is legal for the side whose piece stands on its
    /// first square.
    pub fn is_valid_move(&self, board_move: BoardMove) -> (valid: bool)
        requires
            self.wf(),
            board_move.wf(),
        ensures
            valid == is_legal(self@, board_move),
    {
        if let Some(piece) = self.piece(board_move.from) {
            let valid_moves = self.valid_moves(piece.color());
            contains_move(&valid_moves, board_move)
        } else {
            false
        }
    }

    /// The material balance of `color`, in a type that holds it for every
    /// board.
    pub fn wide_score(&self, color: PieceColor) -> (score: i16)
        ensures
            score == spec_score(self@.pieces, color),
            -512 <= score <= 512,
    {
        let mut score: i16 = 0;
        let squares = Position::all();
        let mut i: usize = 0;
        while i < SQUARE_COUNT
            invariant
                i <= 64,
                forall|j: int| 0 <= j < 64 ==> #[trigger] squares[j] == Position::from_index(j),
                score == partial_score(self@.pieces, color, i as int),
                -8 * i <= score <= 8 * i,
            decreases 64 - i,
        {
            let position = squares[i];
            proof {
                lemma_from_index(i as int);
            }
            if let Some(piece) = self.piece(position) {
                if piece.color() == color {
                    score += piece.value() as i16;
                } else {
                    score -= piece.value() as i16;
                }
            }
            i += 1;
        }
        score
    }

    /// The material balance of `color`: the values of its pieces minus the
    /// values of the other side's. The balance must fit the result type; on
    /// a board reached in play it does.
    pub fn score(&self, color: PieceColor) -> (score: Ic)
        requires
            -128 <= spec_score(self@.pieces, color) <= 127,
        ensures
            score == spec_score(self@.pieces, color),
    {
        self.wide_score(color) as Ic
    }

    /// The material balance of `color`, or `None` where it does not fit the
    /// result type.
    pub fn checked_score(&self, color: PieceColor) -> (score: Option<Ic>)
        ensures
            match score {
                Some(v) => v == spec_score(self@.pieces, color),
                None => !(-128 <= spec_score(self@.pieces, color) <= 127),
            },
    {
        let wide = self.wide_score(color);
        if -128 <= wide && wide <= 127 {
            Some(wide as Ic)
        } else {
            None
        }
    }

    /// Makes move `board_move` without asking whether it is legal: the
    /// rules that move or remove other pieces act first, then the piece is
    /// moved, then pawns are promoted.
    pub fn force_move(&mut self, board_move: BoardMove)
        requires
            old(self).wf(),
            board_move.wf(),
        ensures
            final(self)@ == after_force(old(self)@, board_move),
            final(self).wf(),
    {
        self.castle.apply_move(&board_move, &mut self.pieces);
        self.en_passant.apply_move(&board_move, &mut self.pieces);
        self.pieces[board_move.to.index()] = self.pieces[board_move.from.index()];
        self.pieces[board_move.from.index()] = None;
        self.promotion.apply_move(&mut self.pieces);
    }
}

impl PartialEq for Board {
    /// Two boards are equal if the same pieces stand on the same squares.
    /// The state of the rules does not count.
    fn eq(&self, other: &Board) -> (equal: bool) {
        let squares = Position::all();
        let mut i: usize = 0;
        while i < SQUARE_COUNT
            invariant
                i <= 64,
                forall|j: int| 0 <= j < 64 ==> #[trigger] squares[j] == Position::from_index(j),
                forall|j: int| 0 <= j < i ==> self@.pieces[j] == other@.pieces[j],
            decreases 64 - i,
        {
            let position = squares[i];
            proof {
                lemma_from_index(i as int);
            }
            if !same_content(self.piece(position), other.piece(position)) {
                return false;
            }
            i += 1;
        }
        assert(self@.pieces =~= other@.pieces);
        true
    }
}

impl vstd::std_specs::cmp::PartialEqSpecImpl for Board {
    open spec fn obeys_eq_spec() -> bool {
        true
    }

    open spec fn eq_spec(&self, other: &Board) -> bool {
        self@.pieces == other@.pieces
    }
}

} // verus!
