//! A batch as a whole: its descents are made one after the other in the growing
//! tree, the network is asked once, and everything is settled.
#[allow(unused_imports)]
use crate::mcts::batch::{
    answer, asks_as_needed, batch_action, belongs, entry, indexed, results, settled, BatchAction,
    Pending,
};
#[allow(unused_imports)]
use crate::mcts::descent::{
    answers, arrival, flight_at, lemma_step_keeps_aloft, lemma_step_keeps_balance,
    lemma_step_keeps_order, phase_ok, steps, Event, Phase, Step,
};
#[allow(unused_imports)]
use crate::mcts::flight::{
    aloft, balanced, flight_of, flights_of, in_flight, is_aloft,
    law_descent_starts_with_nothing_reserved, lemma_settled_prefix, Flight,
};
#[allow(unused_imports)]
use crate::mcts::leaf::{law_results_are_shares, wants_value, Mixing};
#[allow(unused_imports)]
use crate::mcts::node::{NodeModel, SCORE_ONE};
#[allow(unused_imports)]
use crate::mcts::path::{has_move, move_at, node_ok, tree_ok};
use vstd::prelude::*;

verus! {

/// The tree at one moment of a descent, and where the descent stands in it.
pub struct Moment<I> {
    pub nodes: Seq<NodeModel<I>>,
    pub phase: Phase,
}

/// A descent from moment to moment, and whether the battle was over at its end.
pub struct Trail<I> {
    pub moments: Seq<Moment<I>>,
    pub outcome: i8,
}

/// One answer leads the descent from moment `k` to the next one.
pub open spec fn goes_on<I>(t: Trail<I>, k: int) -> bool {
    exists|event: Event<I>, step: Step|
        {
            &&& answers(t.moments[k].nodes, t.moments[k].phase, event, true)
            &&& #[trigger] steps(
                t.moments[k].nodes,
                t.moments[k].phase,
                event,
                true,
                t.moments[k + 1].nodes,
                step,
            )
            &&& step.phase == t.moments[k + 1].phase
        }
}

/// The descent starts at the root of the given tree, goes on answer by answer, and
/// lands.
pub open spec fn whole_descent<I>(nodes: Seq<NodeModel<I>>, t: Trail<I>) -> bool {
    &&& t.moments.len() > 0
    &&& t.moments[0].nodes == nodes
    &&& t.moments[0].phase == arrival(nodes, 0)
    &&& forall|k: int| 0 <= k < t.moments.len() - 1 ==> #[trigger] goes_on(t, k)
    &&& t.moments.last().phase is Landed
    &&& -1 <= t.outcome <= 1
}

/// The tree after the first `n` descents.
pub open spec fn grown<I>(start: Seq<NodeModel<I>>, trails: Seq<Trail<I>>, n: int) -> Seq<
    NodeModel<I>,
> {
    if n <= 0 {
        start
    } else {
        trails[n - 1].moments.last().nodes
    }
}

/// The descents are made one after the other, each in the tree that the one before
/// it left.
pub open spec fn made<I>(start: Seq<NodeModel<I>>, trails: Seq<Trail<I>>) -> bool {
    forall|k: int|
        0 <= k < trails.len() ==> whole_descent(grown(start, trails, k), #[trigger] trails[k])
}

/// What the batch remembers of the first `n` descents.
pub open spec fn recorded<I>(trails: Seq<Trail<I>>, mix: Mixing, n: int) -> Seq<Pending>
    decreases n,
{
    if n <= 0 {
        Seq::empty()
    } else {
        recorded(trails, mix, n - 1).push(
            landed_entry(trails[n - 1], mix, questions(trails, mix, n - 1).len() as int),
        )
    }
}

/// What the batch remembers of a descent, when `asked` questions came before.
pub open spec fn landed_entry<I>(t: Trail<I>, mix: Mixing, asked: int) -> Pending {
    let end = t.moments.last().phase;
    entry(end->parent, end->Landed_s1, end->Landed_s2, end->leaf, t.outcome, mix, asked)
}

/// Which of the first `n` descents the network is asked about.
pub open spec fn questions<I>(trails: Seq<Trail<I>>, mix: Mixing, n: int) -> Seq<usize>
    decreases n,
{
    if n <= 0 {
        Seq::empty()
    } else if wants_value(trails[n - 1].outcome as int, mix) {
        questions(trails, mix, n - 1).push((n - 1) as usize)
    } else {
        questions(trails, mix, n - 1)
    }
}

/// No move counts a selection in flight.
pub open spec fn nothing_reserved<I>(nodes: Seq<NodeModel<I>>) -> bool {
    forall|first_player: bool, p: int, i: int|
        #![trigger move_at(nodes, first_player, p, i)]
        has_move(nodes, first_player, p, i) ==> move_at(nodes, first_player, p, i).pending_visits
            == 0
}

/// The tree after the whole batch: all descents are made and settled.
pub open spec fn after_batch<I>(
    start: Seq<NodeModel<I>>,
    trails: Seq<Trail<I>>,
    mix: Mixing,
    values: Seq<u64>,
    heuristics: Seq<u64>,
) -> Seq<NodeModel<I>> {
    let n = trails.len() as int;
    let pending = recorded(trails, mix, n);
    settled(grown(start, trails, n), pending, results(pending, mix, values, heuristics), n)
}

proof fn lemma_moment<I>(
    nodes: Seq<NodeModel<I>>,
    t: Trail<I>,
    others: Seq<Flight>,
    k: int,
)
    requires
        tree_ok(nodes),
        aloft(nodes, others),
        balanced(nodes, others),
        whole_descent(nodes, t),
        0 <= k < t.moments.len(),
    ensures
        tree_ok(t.moments[k].nodes),
        phase_ok(t.moments[k].nodes, t.moments[k].phase),
        aloft(t.moments[k].nodes, others),
        balanced(t.moments[k].nodes, others.push(flight_at(t.moments[k].phase))),
        t.moments[k].nodes[0].times_visited == nodes[0].times_visited,
    decreases k,
{
    if k == 0 {
        law_descent_starts_with_nothing_reserved(nodes, others);
    } else {
        lemma_moment(nodes, t, others, k - 1);
        assert(goes_on(t, k - 1));
        let a = t.moments[k - 1];
        let b = t.moments[k];
        let (event, step) = choose|event: Event<I>, step: Step|
            {
                &&& answers(a.nodes, a.phase, event, true)
                &&& #[trigger] steps(a.nodes, a.phase, event, true, b.nodes, step)
                &&& step.phase == b.phase
            };
        lemma_step_keeps_order(a.nodes, a.phase, event, true, b.nodes, step);
        lemma_step_keeps_aloft(a.nodes, a.phase, event, true, b.nodes, step, others);
        lemma_step_keeps_balance(a.nodes, a.phase, event, b.nodes, step, others);
    }
}

proof fn lemma_made<I>(
    start: Seq<NodeModel<I>>,
    trails: Seq<Trail<I>>,
    mix: Mixing,
    n: int,
)
    requires
        tree_ok(start),
        balanced(start, Seq::<Flight>::empty()),
        made(start, trails),
        0 <= n <= trails.len(),
    ensures
        recorded(trails, mix, n).len() == n,
        tree_ok(grown(start, trails, n)),
        aloft(grown(start, trails, n), flights_of(recorded(trails, mix, n))),
        balanced(grown(start, trails, n), flights_of(recorded(trails, mix, n))),
        grown(start, trails, n)[0].times_visited == start[0].times_visited,
        forall|k: int|
            0 <= k < n ==> belongs(grown(start, trails, n), #[trigger] recorded(trails, mix, n)[k]),
    decreases n,
{
    let pending = recorded(trails, mix, n);
    if n == 0 {
        assert(flights_of(pending) =~= Seq::<Flight>::empty());
    } else {
        lemma_made(start, trails, mix, n - 1);
        let t = trails[n - 1];
        let before = grown(start, trails, n - 1);
        let after = grown(start, trails, n);
        let others = flights_of(recorded(trails, mix, n - 1));
        let last = t.moments.len() - 1;
        lemma_moment(before, t, others, last);
        assert(flights_of(pending) =~= others.push(flight_at(t.moments[last].phase)));
        assert forall|k: int| 0 <= k < flights_of(pending).len() implies is_aloft(
            after,
            #[trigger] flights_of(pending)[k],
        ) by {
            if k < others.len() {
                assert(flights_of(pending)[k] == others[k]);
            }
        }
        assert forall|k: int| 0 <= k < n implies belongs(after, #[trigger] pending[k]) by {
            assert(flights_of(pending)[k] == flight_of(pending[k]));
            assert(is_aloft(after, flights_of(pending)[k]));
            if k < n - 1 {
                assert(pending[k] == recorded(trails, mix, n - 1)[k]);
                assert(belongs(before, recorded(trails, mix, n - 1)[k]));
            }
        }
    }
}

proof fn lemma_questions<I>(trails: Seq<Trail<I>>, mix: Mixing, n: int)
    requires
        0 <= n <= trails.len(),
        n <= usize::MAX,
    ensures
        recorded(trails, mix, n).len() == n,
        questions(trails, mix, n).len() <= n,
        indexed(recorded(trails, mix, n), questions(trails, mix, n)),
        asks_as_needed(recorded(trails, mix, n), mix),
        forall|i: int|
            0 <= i < n ==> (#[trigger] recorded(trails, mix, n)[i]).battle_outcome
                == trails[i].outcome,
        forall|a: int, b: int|
            0 <= a < b < questions(trails, mix, n).len() ==> #[trigger] questions(
                trails,
                mix,
                n,
            )[a] < #[trigger] questions(trails, mix, n)[b],
    decreases n,
{
    if n > 0 {
        lemma_questions(trails, mix, n - 1);
        let old_pending = recorded(trails, mix, n - 1);
        let old_asked = questions(trails, mix, n - 1);
        let pending = recorded(trails, mix, n);
        let asked = questions(trails, mix, n);
        assert forall|v: int| 0 <= v < asked.len() implies (#[trigger] asked[v]) < pending.len()
            && pending[asked[v] as int].value_idx == Some(v as usize) by {
            if v < old_asked.len() {
                assert(asked[v] == old_asked[v]);
                assert(pending[asked[v] as int] == old_pending[asked[v] as int]);
            }
        }
        assert forall|i: int| 0 <= i < pending.len() implies ((
        #[trigger] pending[i]).value_idx matches Some(v) ==> v < asked.len() && asked[v as int]
            == i) by {
            if i < n - 1 {
                assert(pending[i] == old_pending[i]);
            }
        }
        assert forall|i: int| 0 <= i < pending.len() implies ((
        #[trigger] pending[i]).value_idx is Some <==> wants_value(
            pending[i].battle_outcome as int,
            mix,
        )) by {
            if i < n - 1 {
                assert(pending[i] == old_pending[i]);
            }
        }
        assert forall|i: int| 0 <= i < n implies (#[trigger] pending[i]).battle_outcome
            == trails[i].outcome by {
            if i < n - 1 {
                assert(pending[i] == old_pending[i]);
            }
        }
        assert forall|a: int, b: int| 0 <= a < b < asked.len() implies #[trigger] asked[a]
            < #[trigger] asked[b] by {
            assert(asked[a] == old_asked[a]);
            if b < old_asked.len() {
                assert(asked[b] == old_asked[b]);
            } else {
                assert(old_asked[a] < old_pending.len());
            }
        }
    }
}

/// From a tree in which nothing is reserved, a batch of any number of descents, made
/// one after the other and settled, leaves nothing reserved, descents that grew
/// nothing included. The root has exactly that many more visits.
pub proof fn law_whole_batch_leaves_nothing_reserved<I>(
    start: Seq<NodeModel<I>>,
    trails: Seq<Trail<I>>,
    mix: Mixing,
    values: Seq<u64>,
    heuristics: Seq<u64>,
)
    requires
        tree_ok(start),
        nothing_reserved(start),
        made(start, trails),
        values.len() == questions(trails, mix, trails.len() as int).len(),
        heuristics.len() == trails.len(),
        forall|i: int| 0 <= i < values.len() ==> #[trigger] values[i] <= SCORE_ONE,
        forall|i: int| 0 <= i < heuristics.len() ==> #[trigger] heuristics[i] <= SCORE_ONE,
        start[0].times_visited + trails.len() <= u32::MAX,
    ensures
        tree_ok(after_batch(start, trails, mix, values, heuristics)),
        nothing_reserved(after_batch(start, trails, mix, values, heuristics)),
        after_batch(start, trails, mix, values, heuristics)[0].times_visited
            == start[0].times_visited + trails.len(),
{
    let n = trails.len() as int;
    let none = Seq::<Flight>::empty();
    assert(balanced(start, none));
    assert(node_ok(start, 0));
    lemma_made(start, trails, mix, n);
    lemma_questions(trails, mix, n);
    let pending = recorded(trails, mix, n);
    let full = grown(start, trails, n);
    let scores = results(pending, mix, values, heuristics);
    assert forall|k: int| 0 <= k < pending.len() implies 0 <= #[trigger] scores[k]
        <= SCORE_ONE by {
        let q = pending[k];
        assert(q.battle_outcome == trails[k].outcome);
        assert(whole_descent(grown(start, trails, k), trails[k]));
        assert(0 <= answer(q, values) <= SCORE_ONE);
        law_results_are_shares(
            q.battle_outcome as int,
            mix,
            answer(q, values),
            heuristics[k] as int,
        );
    }
    lemma_settled_prefix(full, pending, scores, n);
    let after = settled(full, pending, scores, n);
    assert(flights_of(pending).skip(n) =~= none);
    assert forall|first_player: bool, p: int, i: int|
        #![trigger move_at(after, first_player, p, i)]
        has_move(after, first_player, p, i) implies move_at(
        after,
        first_player,
        p,
        i,
    ).pending_visits == 0 by {
        assert(in_flight(after, none, first_player, p, i) == 0);
    }
}

/// The network is asked at most once in a batch, after all descents and before they
/// are settled, about exactly the leaves whose result its answer enters: the battle
/// goes on there, and the network counts. Where it counts for nothing it is not asked
/// at all.
pub proof fn law_network_is_asked_once_about_open_leaves<I>(trails: Seq<Trail<I>>, mix: Mixing)
    requires
        trails.len() <= u32::MAX,
    ensures
        ({
            let n = trails.len() as int;
            let asked = questions(trails, mix, n);
            &&& forall|i: int|
                #![trigger trails[i]]
                0 <= i < n ==> (asked.contains(i as usize) <==> trails[i].outcome == 0 && (mix.alpha
                    > 0 || mix.residual))
            &&& asked.no_duplicates()
            &&& forall|v: int| 0 <= v < asked.len() ==> #[trigger] asked[v] < n
            &&& mix.alpha <= 0 && !mix.residual ==> asked.len() == 0
            &&& forall|k: int, q: int, answered: bool|
                0 <= k < n ==> #[trigger] batch_action(n, k, q, answered) == BatchAction::Descend
            &&& batch_action(n, n, asked.len() as int, false) == if asked.len() > 0 {
                BatchAction::Ask
            } else {
                BatchAction::Settle
            }
            &&& batch_action(n, n, asked.len() as int, true) == BatchAction::Settle
        }),
{
    let n = trails.len() as int;
    lemma_questions(trails, mix, n);
    let asked = questions(trails, mix, n);
    let pending = recorded(trails, mix, n);
    assert forall|i: int|
        #![trigger trails[i]]
        0 <= i < n implies (asked.contains(i as usize) <==> trails[i].outcome == 0 && (mix.alpha > 0
        || mix.residual)) by {
        assert(pending[i].battle_outcome == trails[i].outcome);
        if asked.contains(i as usize) {
            let v = choose|v: int| 0 <= v < asked.len() && asked[v] == i as usize;
            assert(pending[asked[v] as int].value_idx == Some(v as usize));
        }
        if pending[i].value_idx is Some {
            let v = pending[i].value_idx->0;
            assert(asked[v as int] == i);
        }
    }
    if mix.alpha <= 0 && !mix.residual && asked.len() > 0 {
        assert(asked[0] < pending.len());
        assert(trails[asked[0] as int].outcome == pending[asked[0] as int].battle_outcome);
        assert(asked.contains(asked[0]));
        assert(false);
    }
}

} // verus!
