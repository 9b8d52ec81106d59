//! What the search leaves to chance, and by which chances.
#[allow(unused_imports)]
use crate::mcts::descent::{answers, phase_ok, steps, Event, Phase, Step};
#[allow(unused_imports)]
use crate::mcts::node::{NodeModel, StateInstructions};
#[allow(unused_imports)]
use crate::mcts::path::{chances, group_ok, groups_ok, node_ok, tree_ok};
#[allow(unused_imports)]
use crate::mcts::sampling::{drawn, lemma_drawn_can_happen};
#[allow(unused_imports)]
use crate::mcts::tree::{drawn_from, selects, Selected};
#[allow(unused_imports)]
use crate::mcts::update::outcome_chances;
use vstd::prelude::*;

verus! {

/// When the outcomes of a pair of moves are hung into the tree, the one that the descent
/// goes on with is drawn among all of them, each weighed by its own chance and by nothing
/// else.
pub proof fn law_new_outcomes_are_drawn_by_their_chances<I>(
    before: Seq<NodeModel<I>>,
    phase: Phase,
    outcomes: Vec<StateInstructions<I>>,
    count_in_flight: bool,
    after: Seq<NodeModel<I>>,
    r: Step,
    weights: Seq<u64>,
)
    requires
        phase is NeedOutcomes,
        phase_ok(before, phase),
        answers(before, phase, Event::Outcomes(outcomes), count_in_flight),
        steps(before, phase, Event::Outcomes(outcomes), count_in_flight, after, r),
        weights.len() == outcomes@.len(),
        forall|k: int| 0 <= k < weights.len() ==> #[trigger] weights[k] == outcomes@[k].percentage,
    ensures
        r.entered matches Some(c) && {
            &&& drawn(weights, c - before.len())
            &&& after[c as int].instructions == outcomes@[c - before.len()].instruction_list@
            &&& after[c as int].percentage == weights[c - before.len()]
        },
{
    assert(outcome_chances(outcomes@) =~= weights);
    let c = r.entered->0;
    lemma_drawn_can_happen(weights, c - before.len());
}

/// When a descent goes on through a pair of moves whose outcomes are in the tree, it draws
/// among exactly these outcomes, each weighed by the chance that its node has and by
/// nothing else.
pub proof fn law_known_outcomes_are_drawn_by_their_chances<I>(
    before: Seq<NodeModel<I>>,
    at: usize,
    s1_scores: Vec<i64>,
    s2_scores: Vec<i64>,
    count_in_flight: bool,
    after: Seq<NodeModel<I>>,
    r: Step,
    a: int,
    weights: Seq<u64>,
)
    requires
        tree_ok(before),
        phase_ok(before, Phase::NeedScores(at)),
        answers(before, Phase::NeedScores(at), Event::Scores(s1_scores, s2_scores),
            count_in_flight),
        steps(
            before,
            Phase::NeedScores(at),
            Event::Scores(s1_scores, s2_scores),
            count_in_flight,
            after,
            r,
        ),
        r.entered is Some,
        0 <= a < before[at as int].children.len(),
        before[at as int].children[a].s1 == before[r.entered->0 as int].s1_choice,
        before[at as int].children[a].s2 == before[r.entered->0 as int].s2_choice,
        weights.len() == before[at as int].children[a].count,
        forall|k: int|
            0 <= k < weights.len() ==> #[trigger] weights[k]
                == before[before[at as int].children[a].first + k].percentage,
    ensures
        drawn(weights, r.entered->0 - before[at as int].children[a].first),
{
    let c = r.entered->0;
    let sel = choose|sel: Selected|
        {
            &&& #[trigger] selects(before, at as int, s1_scores@, s2_scores@, sel)
            &&& sel.child == Some(c)
        };
    let groups = before[at as int].children;
    assert(node_ok(before, at as int));
    assert(groups_ok(before, at as int));
    let b = choose|b: int|
        0 <= b < groups.len() && drawn_from(before, #[trigger] groups[b], sel.s1, sel.s2, c as int);
    if a < b {
        assert(groups[a].s1 != groups[b].s1 || groups[a].s2 != groups[b].s2);
    }
    if b < a {
        assert(groups[b].s1 != groups[a].s1 || groups[b].s2 != groups[a].s2);
    }
    assert(a == b);
    let g = groups[a];
    assert(group_ok(before, at as int, g));
    assert(chances(before, g.first as int, g.count as int) =~= weights) by {
        assert forall|k: int| 0 <= k < weights.len() implies #[trigger] chances(
            before,
            g.first as int,
            g.count as int,
        )[k] == weights[k] by {
            assert(node_ok(before, g.first + k));
            assert(weights[k] == before[g.first + k].percentage);
        }
    }
}

} // verus!
