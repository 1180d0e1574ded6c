//! A shallow, randomized search for a move.
//!
//! Every legal move is given a score: the material balance after the worst
//! answer that the search finds for the other side, plus a fifth of the best
//! balance that a second move of the same side could reach. The moves whose
//! score comes close to the best one are kept, how close is left to chance,
//! and one of them is drawn.

use vstd::prelude::*;

use crate::board::{after_force, legal, spec_score, Board, BoardMove, BoardView};
use crate::piece::PieceColor;

verus! {

/// A move, the board after it, and the score that the search gave it.
#[derive(Clone, Copy, Debug)]
pub struct ScoredMove {
    pub board: Board,
    pub board_move: BoardMove,
    pub score: i16,
}

/// `e` holds a legal move of `color` in state `s` and the board after it.
pub open spec fn planned(s: BoardView, color: PieceColor, e: ScoredMove) -> bool {
    &&& legal(s, color, e.board_move)
    &&& e.board@ == after_force(s, e.board_move)
    &&& e.board.wf()
}

/// Every entry of `plans` holds a legal move of `color` in state `s` and
/// the board after it, and no move occurs twice.
pub open spec fn plans_for(s: BoardView, color: PieceColor, plans: Seq<ScoredMove>) -> bool {
    &&& forall|i: int| 0 <= i < plans.len() ==> planned(s, color, #[trigger] plans[i])
    &&& forall|i: int, j: int|
        0 <= i < j < plans.len() ==> (#[trigger] plans[i]).board_move != (
        #[trigger] plans[j]).board_move
}

/// The best balance that `color` reaches from state `s` by one of the moves
/// of `plans`, and 0 where none is better than that.
pub open spec fn spec_follow_up_score(s: BoardView, color: PieceColor, plans: Seq<ScoredMove>) -> int
    decreases plans.len(),
{
    if plans.len() == 0 {
        0
    } else {
        let before = spec_follow_up_score(s, color, plans.drop_last());
        let here = spec_score(after_force(s, plans.last().board_move).pieces, color);
        if here > before {
            here
        } else {
            before
        }
    }
}

/// The worst balance for `color` among `base` and the boards of `plans`.
pub open spec fn spec_response_score(base: int, color: PieceColor, plans: Seq<ScoredMove>) -> int
    decreases plans.len(),
{
    if plans.len() == 0 {
        base
    } else {
        let before = spec_response_score(base, color, plans.drop_last());
        let here = spec_score(plans.last().board@.pieces, color);
        if here < before {
            here
        } else {
            before
        }
    }
}

/// Move `m` stands in `moves` at position `from` or behind it.
pub open spec fn stands_behind(moves: Seq<BoardMove>, from: int, m: BoardMove) -> bool {
    exists|k: int| from <= k < moves.len() && #[trigger] moves[k] == m
}

/// The entries of `plans` whose score is at least `threshold`, in their
/// order.
pub open spec fn spec_select(plans: Seq<ScoredMove>, threshold: int) -> Seq<ScoredMove> {
    plans.filter(|e: ScoredMove| e.score >= threshold)
}

/// The balance of `color` stays at `bound` or above through move `m`: it is
/// at least `bound` after the move, and after every legal answer of the
/// other side.
pub open spec fn balance_holds(s: BoardView, color: PieceColor, m: BoardMove, bound: int) -> bool {
    let next = after_force(s, m);
    &&& spec_score(next.pieces, color) >= bound
    &&& forall|r: BoardMove| #[trigger]
        legal(next, color.spec_opposite(), r) ==> spec_score(after_force(next, r).pieces, color)
            >= bound
}

/// `plans` is a scoring of the legal moves of `color` in state `s`: every
/// legal move has exactly one entry, with the board after it, and the score
/// of a move is not below a bound at which the balance stays through it.
pub open spec fn scoring_of(s: BoardView, color: PieceColor, plans: Seq<ScoredMove>) -> bool {
    &&& plans_for(s, color, plans)
    &&& covers(s, color, plans)
    &&& forall|i: int, bound: int|
        0 <= i < plans.len() && #[trigger] balance_holds(s, color, plans[i].board_move, bound)
            ==> plans[i].score >= bound
}

/// `threshold` is the score `highest`, lowered by 2 some number of times.
pub open spec fn lowering_of(highest: int, threshold: int) -> bool {
    threshold <= highest && (highest - threshold) % 2 == 0
}

/// `plans` is what the search keeps for `color` in state `s`: the entries
/// of some scoring of the legal moves whose score reaches a threshold, and
/// the threshold is the highest score of that scoring, lowered by 2 some
/// number of times.
pub open spec fn selection_of(s: BoardView, color: PieceColor, plans: Seq<ScoredMove>) -> bool {
    exists|scored: Seq<ScoredMove>, threshold: int|
        scoring_of(s, color, scored) && lowering_of(spec_highest_score(scored), threshold)
            && plans == #[trigger] spec_select(scored, threshold)
}

/// Some legal move of `color` keeps the balance at -100 or above, the least
/// score that the search asks of a move before chance lowers it.
pub open spec fn has_sound_move(s: BoardView, color: PieceColor) -> bool {
    exists|m: BoardMove| legal(s, color, m) && #[trigger] balance_holds(s, color, m, -100)
}

/// What one draw does to the threshold: with one chance in four it is
/// lowered by 2, unless it lies below every score that a move can have.
pub open spec fn spec_lower_once(threshold: int, draw: int) -> Option<int> {
    if threshold > -998 && draw % 4 == 0 {
        Some(threshold - 2)
    } else {
        None
    }
}

/// A number drawn from the generator of the current thread. This is
/// `rand::random::<usize>()`; nothing is claimed of the number.
#[verifier::external_body]
fn random_number() -> usize {
    rand::random::<usize>()
}

/// The best balance that `color` reaches from `board` by one of the moves of
/// `follow_ups`, and 0 where none is better than that.
pub fn follow_up_score(board: &Board, color: PieceColor, follow_ups: &Vec<ScoredMove>) -> (best: i16)
    requires
        board.wf(),
        forall|i: int| 0 <= i < follow_ups@.len() ==> (#[trigger] follow_ups@[i]).board_move.wf(),
    ensures
        best == spec_follow_up_score(board@, color, follow_ups@),
        0 <= best <= 512,
{
    let mut best: i16 = 0;
    let mut i: usize = 0;
    while i < follow_ups.len()
        invariant
            i <= follow_ups@.len(),
            board.wf(),
            forall|i: int|
                0 <= i < follow_ups@.len() ==> (#[trigger] follow_ups@[i]).board_move.wf(),
            best == spec_follow_up_score(board@, color, follow_ups@.take(i as int)),
            0 <= best <= 512,
        decreases follow_ups.len() - i,
    {
        let mut next = board.clone();
        next.force_move(follow_ups[i].board_move);
        let score = next.wide_score(color);
        proof {
            let upto = follow_ups@.take(i + 1);
            assert(upto.drop_last() =~= follow_ups@.take(i as int));
            assert(upto.last() == follow_ups@[i as int]);
        }
        if score > best {
            best = score;
        }
        i += 1;
    }
    assert(follow_ups@.take(follow_ups@.len() as int) =~= follow_ups@);
    best
}

/// The worst balance for `color` among `base` and the boards of
/// `responses`.
pub fn response_score(base: i16, color: PieceColor, responses: &Vec<ScoredMove>) -> (worst: i16)
    requires
        -512 <= base <= 512,
    ensures
        worst == spec_response_score(base as int, color, responses@),
        -512 <= worst <= 512,
{
    let mut worst = base;
    let mut i: usize = 0;
    while i < responses.len()
        invariant
            i <= responses@.len(),
            worst == spec_response_score(base as int, color, responses@.take(i as int)),
            -512 <= worst <= 512,
        decreases responses.len() - i,
    {
        let score = responses[i].board.wide_score(color);
        proof {
            let upto = responses@.take(i + 1);
            assert(upto.drop_last() =~= responses@.take(i as int));
            assert(upto.last() == responses@[i as int]);
        }
        if score < worst {
            worst = score;
        }
        i += 1;
    }
    assert(responses@.take(responses@.len() as int) =~= responses@);
    worst
}

/// The entries of `plans` whose score is at least `threshold`, in their
/// order.
pub fn select(plans: Vec<ScoredMove>, threshold: i16) -> (kept: Vec<ScoredMove>)
    ensures
        kept@ == spec_select(plans@, threshold as int),
{
    let ghost pred = |e: ScoredMove| e.score >= threshold as int;
    let mut kept: Vec<ScoredMove> = Vec::new();
    let mut i: usize = 0;
    proof {
        reveal(Seq::filter);
        assert(plans@.take(0) =~= Seq::<ScoredMove>::empty());
    }
    while i < plans.len()
        invariant
            i <= plans@.len(),
            pred == |e: ScoredMove| e.score >= threshold as int,
            kept@ == plans@.take(i as int).filter(pred),
        decreases plans.len() - i,
    {
        proof {
            reveal(Seq::filter);
            let upto = plans@.take(i + 1);
            assert(upto.drop_last() =~= plans@.take(i as int));
            assert(upto.last() == plans@[i as int]);
        }
        if plans[i].score >= threshold {
            kept.push(plans[i]);
        }
        i += 1;
    }
    assert(plans@.take(plans@.len() as int) =~= plans@);
    kept
}

/// The move of the entry of `plans` that `draw` points at, counted round
/// the list, or `None` where the list is empty.
pub fn pick(plans: &Vec<ScoredMove>, draw: usize) -> (choice: Option<BoardMove>)
    ensures
        choice == if plans@.len() == 0 {
            None
        } else {
            Some(plans@[draw as int % plans@.len() as int].board_move)
        },
{
    if !plans.is_empty() {
        Some(plans[draw % plans.len()].board_move)
    } else {
        None
    }
}

/// What is kept of a selection is kept of the list.
pub proof fn lemma_select_keeps_plans(
    s: BoardView,
    color: PieceColor,
    plans: Seq<ScoredMove>,
    threshold: int,
)
    requires
        plans_for(s, color, plans),
    ensures
        plans_for(s, color, spec_select(plans, threshold)),
    decreases plans.len(),
{
    reveal(Seq::filter);
    let pred = |e: ScoredMove| e.score >= threshold;
    if plans.len() > 0 {
        let rest = plans.drop_last();
        assert forall|i: int| 0 <= i < rest.len() implies planned(s, color, #[trigger] rest[i]) by {
            assert(rest[i] == plans[i]);
        }
        assert forall|i: int, j: int| 0 <= i < j < rest.len() implies (#[trigger] rest[i]).board_move
            != (#[trigger] rest[j]).board_move by {
            assert(rest[i] == plans[i] && rest[j] == plans[j]);
        }
        lemma_select_keeps_plans(s, color, rest, threshold);
        let kept = rest.filter(pred);
        if pred(plans.last()) {
            let all = kept.push(plans.last());
            assert forall|i: int, j: int| 0 <= i < j < all.len() implies (#[trigger] all[i]).board_move
                != (#[trigger] all[j]).board_move by {
                if j == kept.len() {
                    rest.lemma_filter_contains_rev(pred, kept[i]);
                    let k = choose|k: int| 0 <= k < rest.len() && rest[k] == kept[i];
                    assert(plans[k] == rest[k]);
                    assert(plans[plans.len() - 1] == plans.last());
                }
            }
        }
    }
}

/// The greatest score among `plans`, and -100 where none is greater than
/// that.
pub open spec fn spec_highest_score(plans: Seq<ScoredMove>) -> int
    decreases plans.len(),
{
    if plans.len() == 0 {
        -100
    } else {
        let before = spec_highest_score(plans.drop_last());
        if plans.last().score > before {
            plans.last().score as int
        } else {
            before
        }
    }
}

/// Every legal move of `color` in state `s` has an entry in `plans`.
pub open spec fn covers(s: BoardView, color: PieceColor, plans: Seq<ScoredMove>) -> bool {
    forall|m: BoardMove|
        legal(s, color, m) ==> exists|i: int|
            0 <= i < plans.len() && (#[trigger] plans[i]).board_move == m
}

/// The worst balance among `base` and the boards of `plans` is not below a
/// bound that `base` and all those boards keep.
pub proof fn lemma_response_score_floor(
    base: int,
    color: PieceColor,
    plans: Seq<ScoredMove>,
    bound: int,
)
    requires
        base >= bound,
        forall|i: int|
            0 <= i < plans.len() ==> spec_score((#[trigger] plans[i]).board@.pieces, color) >= bound,
    ensures
        spec_response_score(base, color, plans) >= bound,
    decreases plans.len(),
{
    if plans.len() > 0 {
        let rest = plans.drop_last();
        assert forall|i: int| 0 <= i < rest.len() implies spec_score(
            (#[trigger] rest[i]).board@.pieces,
            color,
        ) >= bound by {
            assert(rest[i] == plans[i]);
        }
        lemma_response_score_floor(base, color, rest, bound);
        assert(plans.last() == plans[plans.len() - 1]);
    }
}

/// An entry whose score reaches the threshold is kept by the selection.
pub proof fn lemma_select_keeps_high(plans: Seq<ScoredMove>, threshold: int, i: int)
    requires
        0 <= i < plans.len(),
        plans[i].score >= threshold,
    ensures
        spec_select(plans, threshold).contains(plans[i]),
    decreases plans.len(),
{
    reveal(Seq::filter);
    let pred = |e: ScoredMove| e.score >= threshold;
    let rest = plans.drop_last();
    let kept = rest.filter(pred);
    if i == plans.len() - 1 {
        assert(plans.last() == plans[i]);
        assert(kept.push(plans[i])[kept.len() as int] == plans[i]);
    } else {
        assert(rest[i] == plans[i]);
        lemma_select_keeps_high(rest, threshold, i);
        let k = choose|k: int| 0 <= k < kept.len() && kept[k] == plans[i];
        if pred(plans.last()) {
            assert(kept.push(plans.last())[k] == plans[i]);
        }
    }
}

/// The highest score is -100 or above, no entry has a greater score, and
/// where it is above -100 some entry has it.
pub proof fn lemma_highest_score(plans: Seq<ScoredMove>)
    ensures
        spec_highest_score(plans) >= -100,
        forall|i: int| 0 <= i < plans.len() ==> (#[trigger] plans[i]).score <= spec_highest_score(plans),
        spec_highest_score(plans) > -100 ==> exists|j: int|
            0 <= j < plans.len() && (#[trigger] plans[j]).score == spec_highest_score(plans),
    decreases plans.len(),
{
    if plans.len() > 0 {
        let rest = plans.drop_last();
        let last = plans.len() - 1;
        lemma_highest_score(rest);
        assert(plans.last() == plans[last]);
        assert forall|i: int| 0 <= i < plans.len() implies (#[trigger] plans[i]).score
            <= spec_highest_score(plans) by {
            if i < last {
                assert(rest[i] == plans[i]);
            }
        }
        if spec_highest_score(plans) > -100 {
            if plans.last().score > spec_highest_score(rest) {
                assert(plans[last].score == spec_highest_score(plans));
            } else {
                let j = choose|j: int|
                    0 <= j < rest.len() && (#[trigger] rest[j]).score == spec_highest_score(rest);
                assert(plans[j] == rest[j]);
            }
        }
    }
}

/// Where some entry has a score of -100 or above, some entry has the
/// highest score.
pub proof fn lemma_highest_score_is_reached(plans: Seq<ScoredMove>, i: int)
    requires
        0 <= i < plans.len(),
        plans[i].score >= -100,
    ensures
        exists|j: int| 0 <= j < plans.len() && (#[trigger] plans[j]).score == spec_highest_score(plans),
{
    lemma_highest_score(plans);
    if spec_highest_score(plans) == -100 {
        assert(plans[i].score == spec_highest_score(plans));
    }
}

/// A selection from a scoring keeps a move wherever some legal move keeps
/// the balance at -100 or above.
pub proof fn lemma_sound_move_is_kept(
    s: BoardView,
    color: PieceColor,
    scored: Seq<ScoredMove>,
    threshold: int,
)
    requires
        scoring_of(s, color, scored),
        lowering_of(spec_highest_score(scored), threshold),
        has_sound_move(s, color),
    ensures
        spec_select(scored, threshold).len() > 0,
{
    let m = choose|m: BoardMove| legal(s, color, m) && #[trigger] balance_holds(s, color, m, -100);
    let i = choose|i: int| 0 <= i < scored.len() && (#[trigger] scored[i]).board_move == m;
    assert(balance_holds(s, color, scored[i].board_move, -100));
    lemma_highest_score_is_reached(scored, i);
    let j = choose|j: int|
        0 <= j < scored.len() && (#[trigger] scored[j]).score == spec_highest_score(scored);
    lemma_select_keeps_high(scored, threshold, j);
}

/// Every legal move of `color`, with the board after it and its score.
///
/// The score of a move is the material balance after the worst answer that
/// a search of `depth - 1` answers keeps for the other side, plus a fifth
/// of the best balance that a second move of `color` could reach. With
/// `depth` 0 no answer is looked at, and the score is the balance after the
/// move itself.
pub fn score_moves(board: &Board, color: PieceColor, depth: u32) -> (plans: Vec<ScoredMove>)
    requires
        board.wf(),
    ensures
        scoring_of(board@, color, plans@),
        forall|i: int| 0 <= i < plans@.len() ==> -615 <= (#[trigger] plans@[i]).score <= 615,
        depth == 0 ==> forall|i: int|
            0 <= i < plans@.len() ==> (#[trigger] plans@[i]).score == spec_score(
                plans@[i].board@.pieces,
                color,
            ),
    decreases depth, 1int,
{
    let mut board_moves = board.valid_moves(color);
    let ghost candidates = board_moves@;
    let mut scored_moves: Vec<ScoredMove> = Vec::new();
    while board_moves.len() > 0
        invariant
            board.wf(),
            candidates.no_duplicates(),
            forall|m: BoardMove| candidates.contains(m) <==> legal(board@, color, m),
            board_moves@ == candidates.take(board_moves@.len() as int),
            board_moves@.len() <= candidates.len(),
            forall|i: int|
                0 <= i < scored_moves@.len() ==> planned(board@, color, #[trigger] scored_moves@[i]),
            forall|i: int|
                0 <= i < scored_moves@.len() ==> stands_behind(
                    candidates,
                    board_moves@.len() as int,
                    (#[trigger] scored_moves@[i]).board_move,
                ),
            forall|k: int|
                board_moves@.len() <= k < candidates.len() ==> exists|i: int|
                    0 <= i < scored_moves@.len() && (#[trigger] scored_moves@[i]).board_move
                        == #[trigger] candidates[k],
            forall|i: int, j: int|
                0 <= i < j < scored_moves@.len() ==> (#[trigger] scored_moves@[i]).board_move != (
                #[trigger] scored_moves@[j]).board_move,
            forall|i: int|
                0 <= i < scored_moves@.len() ==> -615 <= (#[trigger] scored_moves@[i]).score <= 615,
            forall|i: int, bound: int|
                0 <= i < scored_moves@.len() && #[trigger] balance_holds(
                    board@,
                    color,
                    scored_moves@[i].board_move,
                    bound,
                ) ==> scored_moves@[i].score >= bound,
            depth == 0 ==> forall|i: int|
                0 <= i < scored_moves@.len() ==> (#[trigger] scored_moves@[i]).score == spec_score(
                    scored_moves@[i].board@.pieces,
                    color,
                ),
        decreases board_moves.len(),
    {
        let ghost k0 = board_moves@.len() - 1;
        let ghost before = scored_moves@;
        let board_move = board_moves.pop().unwrap();
        assert(board_move == candidates[k0]);
        assert(candidates.contains(board_move));
        let mut next = board.clone();
        next.force_move(board_move);
        let mut follow_up: i16 = 0;
        if depth > 0 {
            let follow_ups = plan_move_depth(&next, color, 0);
            follow_up = follow_up_score(&next, color, &follow_ups);
        }
        let mut score = next.wide_score(color);
        let ghost base = score as int;
        let ghost mut answers: Seq<ScoredMove> = Seq::empty();
        if depth > 0 {
            let responses = plan_move_depth(&next, color.opposite(), depth - 1);
            score = response_score(score, color, &responses);
            proof {
                answers = responses@;
            }
        }
        score += follow_up / 5;
        scored_moves.push(ScoredMove { board: next, board_move, score });
        proof {
            assert(plans_for(next@, color.spec_opposite(), answers));
            assert forall|i: int, bound: int|
                0 <= i < scored_moves@.len() && #[trigger] balance_holds(
                    board@,
                    color,
                    scored_moves@[i].board_move,
                    bound,
                ) implies scored_moves@[i].score >= bound by {
                if i < before.len() {
                    assert(scored_moves@[i] == before[i]);
                } else {
                    assert forall|k: int| 0 <= k < answers.len() implies spec_score(
                        (#[trigger] answers[k]).board@.pieces,
                        color,
                    ) >= bound by {
                        assert(planned(next@, color.spec_opposite(), answers[k]));
                        assert(legal(next@, color.spec_opposite(), answers[k].board_move));
                    }
                    lemma_response_score_floor(base, color, answers, bound);
                }
            }
            assert(board_moves@ == candidates.take(k0));
            assert(scored_moves@[before.len() as int].board_move == board_move);
            assert forall|i: int| 0 <= i < scored_moves@.len() implies stands_behind(
                candidates,
                k0,
                (#[trigger] scored_moves@[i]).board_move,
            ) by {
                if i < before.len() {
                    assert(scored_moves@[i] == before[i]);
                    assert(stands_behind(candidates, k0 + 1, before[i].board_move));
                    let k = choose|k: int|
                        k0 + 1 <= k < candidates.len() && #[trigger] candidates[k]
                            == before[i].board_move;
                    assert(k0 <= k);
                } else {
                    assert(candidates[k0] == board_move);
                }
            }
            assert forall|k: int| k0 <= k < candidates.len() implies exists|i: int|
                0 <= i < scored_moves@.len() && (#[trigger] scored_moves@[i]).board_move
                    == #[trigger] candidates[k] by {
                if k == k0 {
                    assert(scored_moves@[before.len() as int].board_move == candidates[k]);
                } else {
                    let i = choose|i: int|
                        0 <= i < before.len() && (#[trigger] before[i]).board_move == candidates[k];
                    assert(scored_moves@[i] == before[i]);
                }
            }
            assert forall|i: int, j: int| 0 <= i < j < scored_moves@.len() implies (
            #[trigger] scored_moves@[i]).board_move != (#[trigger] scored_moves@[j]).board_move by {
                assert(scored_moves@[i] == before[i]);
                if j == before.len() {
                    assert(stands_behind(candidates, k0 + 1, before[i].board_move));
                    let k = choose|k: int|
                        k0 + 1 <= k < candidates.len() && #[trigger] candidates[k]
                            == before[i].board_move;
                    assert(candidates[k] != candidates[k0]);
                } else {
                    assert(scored_moves@[j] == before[j]);
                }
            }
            assert forall|i: int| 0 <= i < scored_moves@.len() implies -615 <= (
            #[trigger] scored_moves@[i]).score <= 615 by {
                if i < before.len() {
                    assert(scored_moves@[i] == before[i]);
                }
            }
            if depth == 0 {
                assert forall|i: int| 0 <= i < scored_moves@.len() implies (
                #[trigger] scored_moves@[i]).score == spec_score(
                    scored_moves@[i].board@.pieces,
                    color,
                ) by {
                    if i < before.len() {
                        assert(scored_moves@[i] == before[i]);
                    }
                }
            }
        }
    }
    proof {
        assert forall|m: BoardMove| legal(board@, color, m) implies exists|i: int|
            0 <= i < scored_moves@.len() && (#[trigger] scored_moves@[i]).board_move == m by {
            assert(candidates.contains(m));
            let k = choose|k: int| 0 <= k < candidates.len() && candidates[k] == m;
            assert(candidates[k] == m);
        }
    }
    scored_moves
}

/// The greatest score among `plans`, and -100 where none is greater than
/// that.
pub fn highest_score(plans: &Vec<ScoredMove>) -> (highest: i16)
    ensures
        highest == spec_highest_score(plans@),
        highest >= -100,
        forall|i: int| 0 <= i < plans@.len() ==> (#[trigger] plans@[i]).score <= highest,
{
    let mut highest: i16 = -100;
    let mut i: usize = 0;
    while i < plans.len()
        invariant
            i <= plans@.len(),
            highest == spec_highest_score(plans@.take(i as int)),
            highest >= -100,
            forall|k: int| 0 <= k < i ==> (#[trigger] plans@[k]).score <= highest,
        decreases plans.len() - i,
    {
        proof {
            let upto = plans@.take(i + 1);
            assert(upto.drop_last() =~= plans@.take(i as int));
            assert(upto.last() == plans@[i as int]);
        }
        if plans[i].score > highest {
            highest = plans[i].score;
        }
        i += 1;
    }
    assert(plans@.take(plans@.len() as int) =~= plans@);
    highest
}

/// The legal moves of `color` that the search keeps, each with the board
/// after it and its score: those of `score_moves` whose score reaches the
/// highest one, lowered by an amount that is left to chance. Every move
/// that is kept is legal, and none is kept twice. A move is kept wherever
/// some legal move keeps the balance of `color` at -100 or above through
/// the move and every legal answer.
pub fn plan_move_depth(board: &Board, color: PieceColor, depth: u32) -> (plans: Vec<ScoredMove>)
    requires
        board.wf(),
    ensures
        plans_for(board@, color, plans@),
        selection_of(board@, color, plans@),
        has_sound_move(board@, color) ==> plans@.len() > 0,
    decreases depth, 2int,
{
    let scored_moves = score_moves(board, color, depth);
    let highest = highest_score(&scored_moves);
    let threshold = lowered(highest);
    proof {
        lemma_select_keeps_plans(board@, color, scored_moves@, threshold as int);
        if has_sound_move(board@, color) {
            lemma_sound_move_is_kept(board@, color, scored_moves@, threshold as int);
        }
    }
    select(scored_moves, threshold)
}

/// Lowers the score that a move must reach: by 2 with one chance in four,
/// by 2 more with one chance in four again, and so on. Below every score
/// that a move can have, lowering it further changes nothing, and it ends.
fn lowered(highest: i16) -> (threshold: i16)
    requires
        -100 <= highest,
    ensures
        -1000 <= threshold,
        lowering_of(highest as int, threshold as int),
{
    let mut threshold = highest;
    while threshold > -998
        invariant
            -1000 <= threshold,
            lowering_of(highest as int, threshold as int),
        decreases threshold + 1000,
    {
        match lower_once(threshold, random_number()) {
            Some(lower) => {
                threshold = lower;
            },
            None => {
                break ;
            },
        }
    }
    threshold
}

/// What one draw does to the threshold: where `draw` is a multiple of 4 the
/// threshold is lowered by 2, unless it lies below every score that a move
/// can have. `None` says that the lowering has come to its end.
pub fn lower_once(threshold: i16, draw: usize) -> (lower: Option<i16>)
    ensures
        match lower {
            Some(t) => spec_lower_once(threshold as int, draw as int) == Some(t as int),
            None => spec_lower_once(threshold as int, draw as int) is None,
        },
{
    if threshold > -998 && draw % 4 == 0 {
        Some(threshold - 2)
    } else {
        None
    }
}

/// A move for `color`, found by a search that looks two answers ahead and
/// draws among the moves that it rates best. Every move that it returns is
/// legal, and it returns none where `color` has no legal move. It returns a
/// move wherever some legal move keeps the balance of `color` at -100 or
/// above through the move and every legal answer.
pub fn plan_move(board: &Board, color: PieceColor) -> (choice: Option<BoardMove>)
    requires
        board.wf(),
    ensures
        choice matches Some(m) ==> legal(board@, color, m),
        (forall|m: BoardMove| !legal(board@, color, m)) ==> choice is None,
        has_sound_move(board@, color) ==> choice is Some,
{
    let moves = plan_move_depth(board, color, 2);
    proof {
        if moves@.len() > 0 {
            assert(planned(board@, color, moves@[0]));
        }
    }
    pick(&moves, random_number())
}

} // verus!
