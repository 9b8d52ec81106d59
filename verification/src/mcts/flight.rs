//! Selections in flight: the virtual loss that a descent puts on the moves it
//! picks is taken off again, move by move, when the descent is settled.
#[allow(unused_imports)]
use crate::mcts::batch::{belongs, settled, settled_one, Pending};
#[allow(unused_imports)]
use crate::mcts::node::{guided_options, MoveNode, NodeModel, StateInstructions, SCORE_ONE};
#[allow(unused_imports)]
use crate::mcts::path::{
    hangs_ok, has_move, leaves_by, lemma_next_step, lemma_same_path, move_at, next_step, node_ok,
    tree_ok,
};
#[allow(unused_imports)]
use crate::mcts::update::{attached, backed_up_node, held, let_go, populated, released, same_shape};
#[allow(unused_imports)]
use crate::mcts::tree::root_model;
#[allow(unused_imports)]
use crate::numbers::Ratio;
#[allow(unused_imports)]
use crate::state::MoveChoice;
use vstd::prelude::*;

verus! {

/// A descent on its way: where it has come to, and the pair of moves that it
/// picked there without entering a child.
pub struct Flight {
    pub leaf: int,
    pub stranded: Option<(int, int)>,
}

/// The descent that a batch remembers.
pub open spec fn flight_of(q: Pending) -> Flight {
    Flight {
        leaf: q.leaf as int,
        stranded: match q.no_child {
            Some(s) => Some((s.s1 as int, s.s2 as int)),
            None => None,
        },
    }
}

/// The descents of a batch.
pub open spec fn flights_of(pending: Seq<Pending>) -> Seq<Flight> {
    pending.map_values(|q: Pending| flight_of(q))
}

/// Whether a descent picked move `i` of a player at node `p`: one or zero.
pub open spec fn picked<I>(
    nodes: Seq<NodeModel<I>>,
    f: Flight,
    first_player: bool,
    p: int,
    i: int,
) -> int {
    if leaves_by(nodes, first_player, p, i, f.leaf) {
        1
    } else if f.leaf == p && (f.stranded matches Some((s1, s2)) && (if first_player {
        s1
    } else {
        s2
    }) == i) {
        1
    } else {
        0
    }
}

/// How many of the descents picked move `i` of a player at node `p`.
pub open spec fn in_flight<I>(
    nodes: Seq<NodeModel<I>>,
    flights: Seq<Flight>,
    first_player: bool,
    p: int,
    i: int,
) -> int
    decreases flights.len(),
{
    if flights.len() == 0 {
        0
    } else {
        in_flight(nodes, flights.drop_last(), first_player, p, i) + picked(
            nodes,
            flights.last(),
            first_player,
            p,
            i,
        )
    }
}

/// The selections in flight that every move counts are those of the given
/// descents.
pub open spec fn balanced<I>(nodes: Seq<NodeModel<I>>, flights: Seq<Flight>) -> bool {
    forall|first_player: bool, p: int, i: int|
        #![trigger move_at(nodes, first_player, p, i)]
        has_move(nodes, first_player, p, i) ==> move_at(nodes, first_player, p, i).pending_visits
            == in_flight(nodes, flights, first_player, p, i)
}

/// The descent is somewhere in the tree, and the moves that it picked last are
/// there.
pub open spec fn is_aloft<I>(nodes: Seq<NodeModel<I>>, f: Flight) -> bool {
    &&& 0 <= f.leaf < nodes.len()
    &&& f.stranded matches Some((s1, s2)) ==> has_move(nodes, true, f.leaf, s1) && has_move(
        nodes,
        false,
        f.leaf,
        s2,
    )
}

/// All the descents are somewhere in the tree.
pub open spec fn aloft<I>(nodes: Seq<NodeModel<I>>, flights: Seq<Flight>) -> bool {
    forall|k: int| 0 <= k < flights.len() ==> is_aloft(nodes, #[trigger] flights[k])
}

proof fn lemma_in_flight_first<I>(
    nodes: Seq<NodeModel<I>>,
    flights: Seq<Flight>,
    first_player: bool,
    p: int,
    i: int,
)
    requires
        flights.len() > 0,
    ensures
        in_flight(nodes, flights, first_player, p, i) == picked(
            nodes,
            flights[0],
            first_player,
            p,
            i,
        ) + in_flight(nodes, flights.drop_first(), first_player, p, i),
    decreases flights.len(),
{
    if flights.len() == 1 {
        assert(flights.drop_last() =~= Seq::<Flight>::empty());
        assert(flights.drop_first() =~= Seq::<Flight>::empty());
    } else {
        lemma_in_flight_first(nodes, flights.drop_last(), first_player, p, i);
        assert(flights.drop_last().drop_first() =~= flights.drop_first().drop_last());
    }
}

proof fn lemma_in_flight_nonneg<I>(
    nodes: Seq<NodeModel<I>>,
    flights: Seq<Flight>,
    first_player: bool,
    p: int,
    i: int,
)
    ensures
        in_flight(nodes, flights, first_player, p, i) >= 0,
    decreases flights.len(),
{
    if flights.len() > 0 {
        lemma_in_flight_nonneg(nodes, flights.drop_last(), first_player, p, i);
    }
}

/// The descents are counted alike in two trees that agree on where they lead.
proof fn lemma_in_flight_same<I>(
    a: Seq<NodeModel<I>>,
    b: Seq<NodeModel<I>>,
    flights: Seq<Flight>,
    first_player: bool,
    p: int,
    i: int,
)
    requires
        0 <= p,
        aloft(a, flights),
        a.len() <= b.len(),
        forall|q: int|
            0 <= q < a.len() ==> (#[trigger] a[q]).parent == b[q].parent && a[q].s1_choice
                == b[q].s1_choice && a[q].s2_choice == b[q].s2_choice,
    ensures
        in_flight(a, flights, first_player, p, i) == in_flight(b, flights, first_player, p, i),
    decreases flights.len(),
{
    if flights.len() > 0 {
        assert(aloft(a, flights.drop_last())) by {
            assert forall|k: int| 0 <= k < flights.drop_last().len() implies is_aloft(
                a,
                #[trigger] flights.drop_last()[k],
            ) by {
                assert(flights.drop_last()[k] == flights[k]);
            }
        }
        lemma_in_flight_same(a, b, flights.drop_last(), first_player, p, i);
        let leaf = flights.last().leaf;
        assert(flights[flights.len() - 1].leaf == leaf);
        lemma_same_path(a, b, p, leaf);
        lemma_next_step(a, p, leaf);
        let c = next_step(a, p, leaf);
        if c >= 0 {
            assert(a[c].s1_choice == b[c].s1_choice);
        }
    }
}

/// Nothing is in flight in a new tree, and its moves count nothing.
pub proof fn law_new_tree_has_nothing_reserved<I>(
    s1: Seq<MoveChoice>,
    s2: Seq<MoveChoice>,
    s1_priors: Seq<Ratio>,
    s2_priors: Seq<Ratio>,
    use_priors: bool,
)
    ensures
        balanced(
            seq![
                root_model::<I>(
                    guided_options(s1, s1_priors),
                    guided_options(s2, s2_priors),
                    use_priors,
                ),
            ],
            Seq::<Flight>::empty(),
        ),
{
}

/// Listing the moves of a node reserves nothing.
pub proof fn law_listing_moves_reserves_nothing<I>(
    nodes: Seq<NodeModel<I>>,
    flights: Seq<Flight>,
    at: int,
    s1: Seq<MoveNode>,
    s2: Seq<MoveNode>,
)
    requires
        tree_ok(nodes),
        balanced(nodes, flights),
        aloft(nodes, flights),
        0 <= at < nodes.len(),
        nodes[at].s1_options is None,
        forall|i: int| 0 <= i < s1.len() ==> (#[trigger] s1[i]).pending_visits == 0,
        forall|i: int| 0 <= i < s2.len() ==> (#[trigger] s2[i]).pending_visits == 0,
    ensures
        balanced(populated(nodes, at, s1, s2), flights),
{
    let after = populated(nodes, at, s1, s2);
    assert forall|first_player: bool, p: int, i: int|
        #![trigger move_at(after, first_player, p, i)]
        has_move(after, first_player, p, i) implies move_at(
        after,
        first_player,
        p,
        i,
    ).pending_visits == in_flight(after, flights, first_player, p, i) by {
        lemma_in_flight_same(nodes, after, flights, first_player, p, i);
        if p == at {
            lemma_unlisted_node_is_idle(nodes, flights, first_player, at, i);
        } else {
            assert(move_at(nodes, first_player, p, i) == move_at(after, first_player, p, i));
        }
    }
}

/// No descent leads past a node whose moves are not listed.
proof fn lemma_unlisted_node_is_idle<I>(
    nodes: Seq<NodeModel<I>>,
    flights: Seq<Flight>,
    first_player: bool,
    at: int,
    i: int,
)
    requires
        tree_ok(nodes),
        aloft(nodes, flights),
        0 <= at < nodes.len(),
        nodes[at].s1_options is None,
    ensures
        in_flight(nodes, flights, first_player, at, i) == 0,
    decreases flights.len(),
{
    if flights.len() > 0 {
        let rest = flights.drop_last();
        assert forall|k: int| 0 <= k < rest.len() implies is_aloft(nodes, #[trigger] rest[k]) by {
            assert(rest[k] == flights[k]);
        }
        lemma_unlisted_node_is_idle(nodes, rest, first_player, at, i);
        let f = flights[flights.len() - 1];
        lemma_next_step(nodes, at, f.leaf);
        let c = next_step(nodes, at, f.leaf);
        if c >= 0 {
            assert(node_ok(nodes, c));
            assert(hangs_ok(nodes, c));
        }
    }
}

/// A descent that starts at the root has picked nothing yet.
pub proof fn law_descent_starts_with_nothing_reserved<I>(
    nodes: Seq<NodeModel<I>>,
    flights: Seq<Flight>,
)
    requires
        balanced(nodes, flights),
    ensures
        balanced(nodes, flights.push(Flight { leaf: 0, stranded: None })),
{
    let more = flights.push(Flight { leaf: 0, stranded: None });
    assert(more.drop_last() =~= flights);
}

/// A selection that counts itself counts for exactly the moves that it picked.
pub proof fn law_selection_reserves_what_it_picks<I>(
    nodes: Seq<NodeModel<I>>,
    flights: Seq<Flight>,
    at: int,
    s1: int,
    s2: int,
)
    requires
        tree_ok(nodes),
        aloft(nodes, flights),
        0 <= at < nodes.len(),
        balanced(nodes, flights.push(Flight { leaf: at, stranded: None })),
        has_move(nodes, true, at, s1),
        has_move(nodes, false, at, s2),
        move_at(nodes, true, at, s1).pending_visits < u32::MAX,
        move_at(nodes, false, at, s2).pending_visits < u32::MAX,
    ensures
        balanced(
            held(nodes, at, s1, s2),
            flights.push(Flight { leaf: at, stranded: Some((s1, s2)) }),
        ),
{
    let before = flights.push(Flight { leaf: at, stranded: None });
    let more = flights.push(Flight { leaf: at, stranded: Some((s1, s2)) });
    let after = held(nodes, at, s1, s2);
    assert(before.drop_last() =~= flights);
    assert(more.drop_last() =~= flights);
    assert forall|first_player: bool, p: int, i: int|
        #![trigger move_at(after, first_player, p, i)]
        has_move(after, first_player, p, i) implies move_at(
        after,
        first_player,
        p,
        i,
    ).pending_visits == in_flight(after, more, first_player, p, i) by {
        assert forall|k: int| 0 <= k < more.len() implies is_aloft(nodes, #[trigger] more[k]) by {
            if k < flights.len() {
                assert(more[k] == flights[k]);
            }
        }
        lemma_in_flight_same(nodes, after, more, first_player, p, i);
        assert(has_move(nodes, first_player, p, i));
        let m = move_at(nodes, first_player, p, i);
        assert(m.pending_visits == in_flight(nodes, before, first_player, p, i));
        assert(next_step(nodes, at, at) == -1);
    }
}

/// A descent that enters a child keeps what it reserved: the pair of moves that
/// it picked is the one that leads to the child.
pub proof fn law_descent_keeps_its_reservations<I>(
    nodes: Seq<NodeModel<I>>,
    flights: Seq<Flight>,
    at: int,
    child: int,
)
    requires
        tree_ok(nodes),
        0 <= at < nodes.len(),
        0 < child < nodes.len(),
        nodes[child].parent == at,
        balanced(
            nodes,
            flights.push(
                Flight {
                    leaf: at,
                    stranded: Some((nodes[child].s1_choice, nodes[child].s2_choice)),
                },
            ),
        ),
    ensures
        balanced(nodes, flights.push(Flight { leaf: child, stranded: None })),
{
    let stranded = Some((nodes[child].s1_choice, nodes[child].s2_choice));
    let before = flights.push(Flight { leaf: at, stranded });
    let after = flights.push(Flight { leaf: child, stranded: None });
    assert(before.drop_last() =~= flights);
    assert(after.drop_last() =~= flights);
    assert(node_ok(nodes, child));
    assert forall|first_player: bool, p: int, i: int|
        #![trigger move_at(nodes, first_player, p, i)]
        has_move(nodes, first_player, p, i) implies move_at(
        nodes,
        first_player,
        p,
        i,
    ).pending_visits == in_flight(nodes, after, first_player, p, i) by {
        assert(next_step(nodes, at, at) == -1);
        if p == at {
            assert(next_step(nodes, p, child) == child);
        } else if p >= child {
            assert(next_step(nodes, p, child) == -1);
            assert(next_step(nodes, p, at) == -1);
        } else {
            assert(next_step(nodes, p, child) == next_step(nodes, p, at));
        }
        assert(picked(nodes, before.last(), first_player, p, i) == picked(
            nodes,
            after.last(),
            first_player,
            p,
            i,
        ));
    }
}

/// Growing the tree reserves nothing.
pub proof fn law_growing_reserves_nothing<I>(
    nodes: Seq<NodeModel<I>>,
    flights: Seq<Flight>,
    at: int,
    s1: usize,
    s2: usize,
    outcomes: Seq<StateInstructions<I>>,
)
    requires
        tree_ok(nodes),
        balanced(nodes, flights),
        aloft(nodes, flights),
        0 <= at < nodes.len(),
    ensures
        balanced(attached(nodes, at, s1, s2, outcomes), flights),
{
    let after = attached(nodes, at, s1, s2, outcomes);
    assert forall|first_player: bool, p: int, i: int|
        #![trigger move_at(after, first_player, p, i)]
        has_move(after, first_player, p, i) implies move_at(
        after,
        first_player,
        p,
        i,
    ).pending_visits == in_flight(after, flights, first_player, p, i) by {
        assert(p < nodes.len());
        lemma_in_flight_same(nodes, after, flights, first_player, p, i);
        assert(has_move(nodes, first_player, p, i));
        assert(move_at(nodes, first_player, p, i) == move_at(after, first_player, p, i));
    }
}

/// Settling a descent takes back exactly what it reserved.
pub proof fn law_settling_takes_back_reservations<I>(
    nodes: Seq<NodeModel<I>>,
    flights: Seq<Flight>,
    q: Pending,
    score: int,
)
    requires
        tree_ok(nodes),
        belongs(nodes, q),
        aloft(nodes, flights),
        balanced(nodes, seq![flight_of(q)] + flights),
    ensures
        balanced(settled_one(nodes, q, score), flights),
{
    let all = seq![flight_of(q)] + flights;
    assert(all.drop_first() =~= flights);
    let leaf = q.leaf as int;
    let free = match q.no_child {
        Some(s) => let_go(nodes, s.at as int, s.s1 as int, s.s2 as int),
        None => nodes,
    };
    let after = settled_one(nodes, q, score);
    assert(same_shape(nodes, free));
    assert(same_shape(free, after));
    assert forall|first_player: bool, p: int, i: int|
        #![trigger move_at(after, first_player, p, i)]
        has_move(after, first_player, p, i) implies move_at(
        after,
        first_player,
        p,
        i,
    ).pending_visits == in_flight(after, flights, first_player, p, i) by {
        assert(after[p] == backed_up_node(free, p, leaf, score, true));
        assert(has_move(free, first_player, p, i));
        assert(has_move(nodes, first_player, p, i));
        lemma_in_flight_same(nodes, after, flights, first_player, p, i);
        lemma_in_flight_first(nodes, all, first_player, p, i);
        lemma_in_flight_nonneg(nodes, flights, first_player, p, i);
        lemma_same_path(nodes, free, p, leaf);
        lemma_next_step(nodes, p, leaf);
        let c = next_step(nodes, p, leaf);
        if c >= 0 {
            assert(nodes[c].s1_choice == free[c].s1_choice);
        }
        let m = move_at(nodes, first_player, p, i);
        let mf = move_at(free, first_player, p, i);
        let ma = move_at(after, first_player, p, i);
        assert(m.pending_visits == picked(nodes, flight_of(q), first_player, p, i) + in_flight(
            nodes,
            flights,
            first_player,
            p,
            i,
        ));
        if leaves_by(nodes, first_player, p, i, leaf) {
            assert(p < leaf);
            assert(mf.pending_visits == m.pending_visits);
            assert(ma.pending_visits == released(mf).pending_visits);
        } else {
            assert(ma.pending_visits == mf.pending_visits);
        }
    }
}

/// Once a batch is settled, no move counts a selection in flight any more.
pub proof fn law_settled_batch_leaves_nothing_reserved<I>(
    nodes: Seq<NodeModel<I>>,
    pending: Seq<Pending>,
    scores: Seq<int>,
)
    requires
        tree_ok(nodes),
        balanced(nodes, flights_of(pending)),
        forall|k: int| 0 <= k < pending.len() ==> belongs(nodes, #[trigger] pending[k]),
        forall|k: int| 0 <= k < pending.len() ==> 0 <= #[trigger] scores[k] <= SCORE_ONE,
        nodes[0].times_visited + pending.len() <= u32::MAX,
    ensures
        balanced(settled(nodes, pending, scores, pending.len() as int), Seq::<Flight>::empty()),
{
    lemma_settled_prefix(nodes, pending, scores, pending.len() as int);
    assert(flights_of(pending).skip(pending.len() as int) =~= Seq::<Flight>::empty());
}

/// After the first `n` descents of a batch are settled, the others are still in flight.
pub proof fn lemma_settled_prefix<I>(
    nodes: Seq<NodeModel<I>>,
    pending: Seq<Pending>,
    scores: Seq<int>,
    n: int,
)
    requires
        tree_ok(nodes),
        balanced(nodes, flights_of(pending)),
        forall|k: int| 0 <= k < pending.len() ==> belongs(nodes, #[trigger] pending[k]),
        forall|k: int| 0 <= k < pending.len() ==> 0 <= #[trigger] scores[k] <= SCORE_ONE,
        nodes[0].times_visited + pending.len() <= u32::MAX,
        0 <= n <= pending.len(),
    ensures
        tree_ok(settled(nodes, pending, scores, n)),
        crate::mcts::batch::alike(nodes, settled(nodes, pending, scores, n)),
        settled(nodes, pending, scores, n)[0].times_visited == nodes[0].times_visited + n,
        balanced(settled(nodes, pending, scores, n), flights_of(pending).skip(n)),
    decreases n,
{
    let flights = flights_of(pending);
    if n == 0 {
        assert(flights.skip(0) =~= flights);
    } else {
        lemma_settled_prefix(nodes, pending, scores, n - 1);
        let prev = settled(nodes, pending, scores, n - 1);
        let q = pending[n - 1];
        assert(belongs(nodes, q));
        assert(nodes[q.leaf as int].parent == prev[q.leaf as int].parent);
        assert(belongs(prev, q));
        crate::mcts::batch::lemma_settled_one(prev, q, scores[n - 1]);
        let rest = flights.skip(n);
        assert(flights.skip(n - 1) =~= seq![flight_of(q)] + rest);
        assert forall|k: int| 0 <= k < rest.len() implies is_aloft(prev, #[trigger] rest[k]) by {
            let w = pending[n + k];
            assert(rest[k] == flight_of(w));
            assert(belongs(nodes, w));
            assert(nodes[w.leaf as int].parent == prev[w.leaf as int].parent);
        }
        law_settling_takes_back_reservations(prev, rest, q, scores[n - 1]);
    }
}

} // verus!
