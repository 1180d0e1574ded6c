//! The model of the 64 squares: a sequence of optional pieces, indexed by
//! flat index, and the conditions under which a piece may land on a square.

use vstd::prelude::*;

use crate::piece::{Piece, PieceColor};
use crate::position::{Position, PositionOffset};

verus! {

/// What stands on each of the 64 squares, by flat index.
pub type Grid = Seq<Option<Piece>>;

/// The grid in which no piece stands.
pub open spec fn empty_grid() -> Grid {
    Seq::new(64, |i: int| None::<Piece>)
}

/// What stands on square `p`.
pub open spec fn at(g: Grid, p: Position) -> Option<Piece> {
    g[p.spec_index()]
}

/// No piece stands on `p`.
pub open spec fn is_free(g: Grid, p: Position) -> bool {
    at(g, p) is None
}

/// A piece of `color` stands on `p`.
pub open spec fn holds_own(g: Grid, color: PieceColor, p: Position) -> bool {
    at(g, p) matches Some(q) && q.color == color
}

/// A piece of the other colour than `color` stands on `p`.
pub open spec fn holds_enemy(g: Grid, color: PieceColor, p: Position) -> bool {
    at(g, p) matches Some(q) && q.color != color
}

/// `to` lies `offset` away from `from` and is free: a move that may not
/// capture.
pub open spec fn no_take_to(g: Grid, from: Position, offset: PositionOffset, to: Position) -> bool {
    from.spec_offset(offset) == Some(to) && is_free(g, to)
}

/// `to` lies `offset` away from `from` and is free or held by the enemy of
/// `color`: a move that may capture.
pub open spec fn take_to(
    g: Grid,
    color: PieceColor,
    from: Position,
    offset: PositionOffset,
    to: Position,
) -> bool {
    from.spec_offset(offset) == Some(to) && !holds_own(g, color, to)
}

/// `to` lies `offset` away from `from` and is held by the enemy of `color`:
/// a move that must capture.
pub open spec fn take_only_to(
    g: Grid,
    color: PieceColor,
    from: Position,
    offset: PositionOffset,
    to: Position,
) -> bool {
    from.spec_offset(offset) == Some(to) && holds_enemy(g, color, to)
}

/// The `k`-th square along direction `dir`, seen from `from`.
pub open spec fn ray_square(from: Position, dir: PositionOffset, k: int) -> Position {
    from.shifted(k * dir.0, k * dir.1)
}

/// The `k`-th square along direction `dir` is on the board.
pub open spec fn ray_on_board(from: Position, dir: PositionOffset, k: int) -> bool {
    from.can_shift(k * dir.0, k * dir.1)
}

/// The first `n - 1` squares along the ray are on the board and free.
pub open spec fn ray_clear(g: Grid, from: Position, dir: PositionOffset, n: int) -> bool {
    forall|k: int|
        1 <= k < n ==> #[trigger] ray_on_board(from, dir, k) && is_free(g, ray_square(from, dir, k))
}

/// `to` is the `n`-th square along the ray, every square before it is free,
/// and `to` itself is not held by `color`.
pub open spec fn ray_hits(
    g: Grid,
    color: PieceColor,
    from: Position,
    dir: PositionOffset,
    n: int,
    to: Position,
) -> bool {
    &&& 1 <= n < 8
    &&& ray_on_board(from, dir, n)
    &&& to == ray_square(from, dir, n)
    &&& ray_clear(g, from, dir, n)
    &&& !holds_own(g, color, to)
}

/// A piece of `color` sliding from `from` in direction `dir` can land on
/// `to`: it passes over free squares only and stops on a free square or on
/// the first enemy piece.
pub open spec fn ray_to(
    g: Grid,
    color: PieceColor,
    from: Position,
    dir: PositionOffset,
    to: Position,
) -> bool {
    exists|n: int| ray_hits(g, color, from, dir, n, to)
}

/// A ray that is still on the board after `n` steps has made fewer than 8
/// steps.
pub proof fn lemma_ray_is_short(from: Position, dir: PositionOffset, n: int)
    requires
        from.wf(),
        dir.0 != 0 || dir.1 != 0,
        n >= 0,
        ray_on_board(from, dir, n),
    ensures
        n < 8,
{
    let dc = dir.0 as int;
    let dr = dir.1 as int;
    if dc != 0 {
        assert(n * dc >= n || n * dc <= -n) by (nonlinear_arith)
            requires
                n >= 0,
                dc != 0,
        ;
    } else {
        assert(n * dr >= n || n * dr <= -n) by (nonlinear_arith)
            requires
                n >= 0,
                dr != 0,
        ;
    }
}

/// One step further from the `n`-th square of a ray lies its next square.
pub proof fn lemma_ray_step(from: Position, dir: PositionOffset, n: int)
    requires
        from.wf(),
        ray_on_board(from, dir, n),
    ensures
        ray_square(from, dir, n).wf(),
        ray_square(from, dir, n).spec_offset(dir) == if ray_on_board(from, dir, n + 1) {
            Some(ray_square(from, dir, n + 1))
        } else {
            None
        },
{
    let dc = dir.0 as int;
    let dr = dir.1 as int;
    assert((n + 1) * dc == n * dc + dc) by (nonlinear_arith);
    assert((n + 1) * dr == n * dr + dr) by (nonlinear_arith);
}

/// Where a ray meets a piece on its `n`-th square, it reaches the free
/// squares before it, and that square too if the piece is an enemy's.
pub proof fn lemma_ray_stops(
    g: Grid,
    color: PieceColor,
    from: Position,
    dir: PositionOffset,
    n: int,
    p: Position,
)
    requires
        1 <= n < 8,
        ray_on_board(from, dir, n),
        ray_clear(g, from, dir, n),
        !is_free(g, ray_square(from, dir, n)),
    ensures
        ray_to(g, color, from, dir, p) <==> (exists|k: int|
            1 <= k < n && p == #[trigger] ray_square(from, dir, k)) || (p == ray_square(from, dir, n)
            && !holds_own(g, color, p)),
{
    if ray_to(g, color, from, dir, p) {
        let m = choose|m: int| ray_hits(g, color, from, dir, m, p);
        if m > n {
            assert(ray_on_board(from, dir, n));
        }
    }
    if exists|k: int| 1 <= k < n && p == #[trigger] ray_square(from, dir, k) {
        let k = choose|k: int| 1 <= k < n && p == #[trigger] ray_square(from, dir, k);
        assert(ray_on_board(from, dir, k));
        assert(ray_hits(g, color, from, dir, k, p));
    }
    if p == ray_square(from, dir, n) && !holds_own(g, color, p) {
        assert(ray_hits(g, color, from, dir, n, p));
    }
}

/// Where a ray leaves the board with its `n`-th square, it reaches the free
/// squares before it.
pub proof fn lemma_ray_leaves(
    g: Grid,
    color: PieceColor,
    from: Position,
    dir: PositionOffset,
    n: int,
    p: Position,
)
    requires
        1 <= n <= 8,
        !ray_on_board(from, dir, n),
        ray_clear(g, from, dir, n),
    ensures
        ray_to(g, color, from, dir, p) <==> exists|k: int|
            1 <= k < n && p == #[trigger] ray_square(from, dir, k),
{
    if ray_to(g, color, from, dir, p) {
        let m = choose|m: int| ray_hits(g, color, from, dir, m, p);
        if m > n {
            assert(ray_on_board(from, dir, n));
        }
    }
    if exists|k: int| 1 <= k < n && p == #[trigger] ray_square(from, dir, k) {
        let k = choose|k: int| 1 <= k < n && p == #[trigger] ray_square(from, dir, k);
        assert(ray_on_board(from, dir, k));
        assert(ray_hits(g, color, from, dir, k, p));
    }
}

} // verus!
