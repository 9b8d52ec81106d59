//! The books of the search: visits and results add up.
#[allow(unused_imports)]
use crate::mcts::node::{
    effective_visits, guided_options, mean, MoveNode, NodeModel, StateInstructions, SCORE_ONE,
};
#[allow(unused_imports)]
use crate::mcts::path::{
    choice_of, hangs_ok, has_move, leaves_by, lemma_next_step, lemma_path_up, move_at, next_step,
    node_ok, on_path, options_of, tree_ok,
};
#[allow(unused_imports)]
use crate::mcts::tree::{root_model, way_up};
#[allow(unused_imports)]
use crate::mcts::update::{attached, backed_up, backed_up_node, credited, populated, reserved};
#[allow(unused_imports)]
use crate::numbers::{lemma_cross, Ratio};
#[allow(unused_imports)]
use crate::state::MoveChoice;
use vstd::prelude::*;

verus! {

/// The visits of all moves in a list.
pub open spec fn sum_visits(l: Seq<MoveNode>) -> int
    decreases l.len(),
{
    if l.len() == 0 {
        0
    } else {
        sum_visits(l.drop_last()) + l.last().visits
    }
}

/// The results of all moves in a list.
pub open spec fn sum_scores(l: Seq<MoveNode>) -> int
    decreases l.len(),
{
    if l.len() == 0 {
        0
    } else {
        sum_scores(l.drop_last()) + l.last().total_score
    }
}

/// The visits of node `p` after which a descent went on to one of its moves.
pub open spec fn visits_through<I>(nodes: Seq<NodeModel<I>>, first_player: bool, p: int) -> int {
    match options_of(nodes[p], first_player) {
        Some(l) => sum_visits(l),
        None => 0,
    }
}

/// At every node the two players moved equally often, and what one of them earned
/// the other one lost.
pub open spec fn zero_sum<I>(nodes: Seq<NodeModel<I>>) -> bool {
    forall|p: int|
        0 <= p < nodes.len() ==> ((#[trigger] nodes[p]).s1_options matches Some(l1) ==> {
            &&& nodes[p].s2_options matches Some(l2)
            &&& sum_visits(l1) == sum_visits(l2)
            &&& sum_scores(l1) + sum_scores(l2) == SCORE_ONE * sum_visits(l1)
        })
}

/// The visits of the first `n` nodes that hang below `p` by move `i` of a player.
pub open spec fn child_visits<I>(
    nodes: Seq<NodeModel<I>>,
    first_player: bool,
    p: int,
    i: int,
    n: int,
) -> int
    decreases n,
{
    if n <= 1 {
        0
    } else {
        child_visits(nodes, first_player, p, i, n - 1) + if nodes[n - 1].parent == p && choice_of(
            nodes[n - 1],
            first_player,
        ) == i {
            nodes[n - 1].times_visited
        } else {
            0
        }
    }
}

/// Every move was visited as often as the positions that it led to, together.
pub open spec fn accounted<I>(nodes: Seq<NodeModel<I>>) -> bool {
    forall|first_player: bool, p: int, i: int|
        #![trigger move_at(nodes, first_player, p, i)]
        has_move(nodes, first_player, p, i) ==> move_at(nodes, first_player, p, i).visits
            == child_visits(nodes, first_player, p, i, nodes.len() as int)
}

proof fn lemma_sums_update(l: Seq<MoveNode>, i: int, m: MoveNode)
    requires
        0 <= i < l.len(),
    ensures
        sum_visits(l.update(i, m)) == sum_visits(l) - l[i].visits + m.visits,
        sum_scores(l.update(i, m)) == sum_scores(l) - l[i].total_score + m.total_score,
    decreases l.len(),
{
    let u = l.update(i, m);
    if i == l.len() - 1 {
        assert(u.drop_last() =~= l.drop_last());
    } else {
        assert(u.drop_last() =~= l.drop_last().update(i, m));
        lemma_sums_update(l.drop_last(), i, m);
    }
}

proof fn lemma_fresh_sums(l: Seq<MoveNode>)
    requires
        forall|i: int| 0 <= i < l.len() ==> (#[trigger] l[i]).visits == 0 && l[i].total_score == 0,
    ensures
        sum_visits(l) == 0,
        sum_scores(l) == 0,
    decreases l.len(),
{
    if l.len() > 0 {
        assert forall|i: int| 0 <= i < l.drop_last().len() implies (
        #[trigger] l.drop_last()[i]).visits == 0 && l.drop_last()[i].total_score == 0 by {
            assert(l.drop_last()[i] == l[i]);
        }
        lemma_fresh_sums(l.drop_last());
        assert(l[l.len() - 1].visits == 0);
    }
}

/// A new tree has empty books.
pub proof fn law_new_tree_is_balanced<I>(
    s1: Seq<MoveChoice>,
    s2: Seq<MoveChoice>,
    s1_priors: Seq<Ratio>,
    s2_priors: Seq<Ratio>,
    use_priors: bool,
)
    ensures
        ({
            let nodes = seq![
                root_model::<I>(
                    guided_options(s1, s1_priors),
                    guided_options(s2, s2_priors),
                    use_priors,
                ),
            ];
            zero_sum(nodes) && accounted(nodes)
        }),
{
    lemma_fresh_sums(guided_options(s1, s1_priors));
    lemma_fresh_sums(guided_options(s2, s2_priors));
}

/// Handing a result up keeps the game zero-sum.
pub proof fn law_results_are_zero_sum<I>(
    nodes: Seq<NodeModel<I>>,
    leaf: int,
    score: int,
    release: bool,
)
    requires
        tree_ok(nodes),
        zero_sum(nodes),
        0 <= leaf < nodes.len(),
        0 <= score <= SCORE_ONE,
        nodes[0].times_visited < u32::MAX,
    ensures
        zero_sum(backed_up(nodes, leaf, score, release)),
{
    let after = backed_up(nodes, leaf, score, release);
    assert forall|p: int| 0 <= p < after.len() implies ((
    #[trigger] after[p]).s1_options matches Some(l1) ==> {
        &&& after[p].s2_options matches Some(l2)
        &&& sum_visits(l1) == sum_visits(l2)
        &&& sum_scores(l1) + sum_scores(l2) == SCORE_ONE * sum_visits(l1)
    }) by {
        lemma_backed_up_sums(nodes, p, leaf, score, release);
        assert(nodes[p].s1_options is Some <==> after[p].s1_options is Some);
        assert(node_ok(nodes, p));
    }
}

/// How the sums at a node change when a result is handed up.
proof fn lemma_backed_up_sums<I>(
    nodes: Seq<NodeModel<I>>,
    p: int,
    leaf: int,
    score: int,
    release: bool,
)
    requires
        tree_ok(nodes),
        0 <= leaf < nodes.len(),
        0 <= p < nodes.len(),
        0 <= score <= SCORE_ONE,
        nodes[0].times_visited < u32::MAX,
    ensures
        ({
            let after = backed_up(nodes, leaf, score, release)[p];
            let step: int = if next_step(nodes, p, leaf) >= 0 {
                1
            } else {
                0
            };
            &&& nodes[p].s1_options matches Some(l1) ==> nodes[p].s2_options matches Some(l2)
                && after.s1_options matches Some(a1) && after.s2_options matches Some(a2) && {
                &&& sum_visits(a1) == sum_visits(l1) + step
                &&& sum_visits(a2) == sum_visits(l2) + step
                &&& sum_scores(a1) == sum_scores(l1) + step * score
                &&& sum_scores(a2) == sum_scores(l2) + step * (SCORE_ONE - score)
            }
            &&& nodes[p].s1_options is None ==> after.s1_options is None && step == 0
        }),
{
    assert(node_ok(nodes, p));
    lemma_next_step(nodes, p, leaf);
    crate::mcts::path::lemma_root_most_visited(nodes, p);
    let c = next_step(nodes, p, leaf);
    if c >= 0 {
        assert(node_ok(nodes, c));
        assert(hangs_ok(nodes, c));
        let l1 = nodes[p].s1_options->0;
        let l2 = nodes[p].s2_options->0;
        let i = nodes[c].s1_choice;
        let j = nodes[c].s2_choice;
        assert(l1[i].wf() && l2[j].wf());
        assert(l1[i].visits <= nodes[p].times_visited);
        assert(l2[j].visits <= nodes[p].times_visited);
        lemma_sums_update(l1, i, credited(l1[i], score, release));
        lemma_sums_update(l2, j, credited(l2[j], SCORE_ONE - score, release));
    }
}

/// A visit of a position either ends there or goes on to one of its moves: handing
/// a result up adds a visit that ended there to the leaf, and to no other node.
pub proof fn law_visits_end_at_the_leaf_only<I>(
    nodes: Seq<NodeModel<I>>,
    p: int,
    leaf: int,
    score: int,
    release: bool,
    first_player: bool,
)
    requires
        tree_ok(nodes),
        0 <= leaf < nodes.len(),
        0 <= p < nodes.len(),
        0 <= score <= SCORE_ONE,
        nodes[0].times_visited < u32::MAX,
    ensures
        ({
            let after = backed_up(nodes, leaf, score, release);
            let ended_before = nodes[p].times_visited - visits_through(nodes, first_player, p);
            let ended_after = after[p].times_visited - visits_through(after, first_player, p);
            ended_after == ended_before + if p == leaf {
                1int
            } else {
                0int
            }
        }),
{
    lemma_backed_up_sums(nodes, p, leaf, score, release);
    lemma_next_step(nodes, p, leaf);
    assert(node_ok(nodes, p));
    lemma_step_iff_inner(nodes, p, leaf);
}

/// There is a next step at exactly the nodes on the way above its end.
proof fn lemma_step_iff_inner<I>(nodes: Seq<NodeModel<I>>, p: int, leaf: int)
    requires
        tree_ok(nodes),
        0 <= leaf < nodes.len(),
        0 <= p < nodes.len(),
    ensures
        next_step(nodes, p, leaf) >= 0 <==> on_path(nodes, p, leaf) && p != leaf,
    decreases leaf,
{
    lemma_next_step(nodes, p, leaf);
    assert(node_ok(nodes, leaf));
    if leaf > 0 && p < leaf {
        let up = nodes[leaf].parent;
        if up != p {
            lemma_step_iff_inner(nodes, p, up);
        }
    } else if p != leaf {
        if on_path(nodes, p, leaf) {
            crate::mcts::path::lemma_on_path_bound(nodes, p, leaf);
        }
    }
}

/// Handing a result up keeps every move visited as often as the positions that it
/// led to.
pub proof fn law_visits_are_accounted_for<I>(
    nodes: Seq<NodeModel<I>>,
    leaf: int,
    score: int,
    release: bool,
)
    requires
        tree_ok(nodes),
        accounted(nodes),
        0 <= leaf < nodes.len(),
        0 <= score <= SCORE_ONE,
        nodes[0].times_visited < u32::MAX,
    ensures
        accounted(backed_up(nodes, leaf, score, release)),
{
    let after = backed_up(nodes, leaf, score, release);
    assert forall|first_player: bool, p: int, i: int|
        #![trigger move_at(after, first_player, p, i)]
        has_move(after, first_player, p, i) implies move_at(after, first_player, p, i).visits
        == child_visits(after, first_player, p, i, after.len() as int) by {
        assert(after[p] == backed_up_node(nodes, p, leaf, score, release));
        assert(has_move(nodes, first_player, p, i));
        assert(node_ok(nodes, p));
        crate::mcts::path::lemma_root_most_visited(nodes, p);
        let m = move_at(nodes, first_player, p, i);
        assert(m.visits <= nodes[p].times_visited);
        assert(m.visits == child_visits(nodes, first_player, p, i, nodes.len() as int));
        lemma_child_visits(nodes, first_player, p, i, leaf, score, release, nodes.len() as int);
        lemma_next_step(nodes, p, leaf);
    }
}

proof fn lemma_child_visits<I>(
    nodes: Seq<NodeModel<I>>,
    first_player: bool,
    p: int,
    i: int,
    leaf: int,
    score: int,
    release: bool,
    n: int,
)
    requires
        tree_ok(nodes),
        0 <= leaf < nodes.len(),
        0 <= p < nodes.len(),
        n <= nodes.len(),
    ensures
        ({
            let after = backed_up(nodes, leaf, score, release);
            child_visits(after, first_player, p, i, n) == child_visits(nodes, first_player, p, i, n)
                + if leaves_by(nodes, first_player, p, i, leaf) && next_step(nodes, p, leaf) < n {
                1int
            } else {
                0int
            }
        }),
    decreases n,
{
    lemma_next_step(nodes, p, leaf);
    if n > 1 {
        lemma_child_visits(nodes, first_player, p, i, leaf, score, release, n - 1);
        let k = n - 1;
        assert(node_ok(nodes, k));
        if nodes[k].parent == p && on_path(nodes, k, leaf) {
            lemma_path_up(nodes, k, leaf);
        }
        assert(backed_up(nodes, leaf, score, release)[k] == backed_up_node(
            nodes,
            k,
            leaf,
            score,
            release,
        ));
    }
}

/// Listing the moves of a node keeps the books in order.
pub proof fn law_listing_moves_keeps_the_books<I>(
    nodes: Seq<NodeModel<I>>,
    at: int,
    s1: Seq<MoveNode>,
    s2: Seq<MoveNode>,
)
    requires
        tree_ok(nodes),
        zero_sum(nodes),
        accounted(nodes),
        0 <= at < nodes.len(),
        nodes[at].s1_options is None,
        forall|i: int|
            0 <= i < s1.len() ==> (#[trigger] s1[i]).visits == 0 && s1[i].total_score == 0,
        forall|i: int|
            0 <= i < s2.len() ==> (#[trigger] s2[i]).visits == 0 && s2[i].total_score == 0,
    ensures
        zero_sum(populated(nodes, at, s1, s2)),
        accounted(populated(nodes, at, s1, s2)),
{
    let after = populated(nodes, at, s1, s2);
    lemma_fresh_sums(s1);
    lemma_fresh_sums(s2);
    assert forall|p: int| 0 <= p < after.len() implies ((
    #[trigger] after[p]).s1_options matches Some(l1) ==> {
        &&& after[p].s2_options matches Some(l2)
        &&& sum_visits(l1) == sum_visits(l2)
        &&& sum_scores(l1) + sum_scores(l2) == SCORE_ONE * sum_visits(l1)
    }) by {
        if p != at {
            assert(after[p] == nodes[p]);
        }
    }
    assert forall|first_player: bool, p: int, i: int|
        #![trigger move_at(after, first_player, p, i)]
        has_move(after, first_player, p, i) implies move_at(after, first_player, p, i).visits
        == child_visits(after, first_player, p, i, after.len() as int) by {
        lemma_child_visits_same(nodes, after, first_player, p, i, nodes.len() as int);
        if p == at {
            lemma_no_children(nodes, first_player, at, i, nodes.len() as int);
        } else {
            assert(move_at(nodes, first_player, p, i) == move_at(after, first_player, p, i));
        }
    }
}

proof fn lemma_child_visits_same<I>(
    a: Seq<NodeModel<I>>,
    b: Seq<NodeModel<I>>,
    first_player: bool,
    p: int,
    i: int,
    n: int,
)
    requires
        n <= a.len(),
        n <= b.len(),
        forall|q: int|
            0 <= q < n ==> (#[trigger] a[q]).parent == b[q].parent && a[q].s1_choice
                == b[q].s1_choice && a[q].s2_choice == b[q].s2_choice && a[q].times_visited
                == b[q].times_visited,
    ensures
        child_visits(a, first_player, p, i, n) == child_visits(b, first_player, p, i, n),
    decreases n,
{
    if n > 1 {
        lemma_child_visits_same(a, b, first_player, p, i, n - 1);
        assert(a[n - 1].parent == b[n - 1].parent);
    }
}

proof fn lemma_no_children<I>(
    nodes: Seq<NodeModel<I>>,
    first_player: bool,
    at: int,
    i: int,
    n: int,
)
    requires
        tree_ok(nodes),
        0 <= at < nodes.len(),
        n <= nodes.len(),
        nodes[at].s1_options is None,
    ensures
        child_visits(nodes, first_player, at, i, n) == 0,
    decreases n,
{
    if n > 1 {
        lemma_no_children(nodes, first_player, at, i, n - 1);
        assert(node_ok(nodes, n - 1));
        assert(hangs_ok(nodes, n - 1));
    }
}

/// Growing the tree keeps the books in order.
pub proof fn law_growing_keeps_the_books<I>(
    nodes: Seq<NodeModel<I>>,
    at: int,
    s1: usize,
    s2: usize,
    outcomes: Seq<StateInstructions<I>>,
)
    requires
        zero_sum(nodes),
        accounted(nodes),
        0 <= at < nodes.len(),
    ensures
        zero_sum(attached(nodes, at, s1, s2, outcomes)),
        accounted(attached(nodes, at, s1, s2, outcomes)),
{
    let after = attached(nodes, at, s1, s2, outcomes);
    assert forall|p: int| 0 <= p < after.len() implies ((
    #[trigger] after[p]).s1_options matches Some(l1) ==> {
        &&& after[p].s2_options matches Some(l2)
        &&& sum_visits(l1) == sum_visits(l2)
        &&& sum_scores(l1) + sum_scores(l2) == SCORE_ONE * sum_visits(l1)
    }) by {
        if p < nodes.len() {
            assert(after[p].s1_options == nodes[p].s1_options);
        }
    }
    assert forall|first_player: bool, p: int, i: int|
        #![trigger move_at(after, first_player, p, i)]
        has_move(after, first_player, p, i) implies move_at(after, first_player, p, i).visits
        == child_visits(after, first_player, p, i, after.len() as int) by {
        assert(p < nodes.len());
        assert(has_move(nodes, first_player, p, i));
        assert(move_at(nodes, first_player, p, i) == move_at(after, first_player, p, i));
        lemma_child_visits_same(nodes, after, first_player, p, i, nodes.len() as int);
        lemma_new_children_unvisited(nodes, after, first_player, p, i, after.len() as int);
    }
}

proof fn lemma_new_children_unvisited<I>(
    nodes: Seq<NodeModel<I>>,
    after: Seq<NodeModel<I>>,
    first_player: bool,
    p: int,
    i: int,
    n: int,
)
    requires
        0 < nodes.len() <= n <= after.len(),
        forall|k: int| nodes.len() <= k < after.len() ==> (#[trigger] after[k]).times_visited == 0,
    ensures
        child_visits(after, first_player, p, i, n) == child_visits(
            after,
            first_player,
            p,
            i,
            nodes.len() as int,
        ),
    decreases n,
{
    if n > nodes.len() {
        lemma_new_children_unvisited(nodes, after, first_player, p, i, n - 1);
        assert(after[n - 1].times_visited == 0);
    }
}

/// The way back runs through the nodes of the descent in the opposite order: what
/// was entered last is left first.
pub proof fn law_way_back_mirrors_the_descent<I>(nodes: Seq<NodeModel<I>>, at: int, child: int)
    requires
        tree_ok(nodes),
        0 < child < nodes.len(),
        nodes[child].parent == at,
    ensures
        way_up(nodes, child) == seq![child as usize] + way_up(nodes, at),
        way_up(nodes, 0) == Seq::<usize>::empty(),
{
    assert(node_ok(nodes, child));
}

/// A selection in flight never makes its move look better, and makes it look
/// worse as soon as it has earned anything.
pub proof fn law_selection_in_flight_lowers_the_mean(m: MoveNode)
    requires
        effective_visits(m) > 0,
        m.pending_visits < u32::MAX,
    ensures
        mean(reserved(m)) <= mean(m),
        m.total_score > 0 ==> mean(reserved(m)) < mean(m),
{
    let t = m.total_score as int;
    let n = effective_visits(m);
    let one = SCORE_ONE as int;
    assert(effective_visits(reserved(m)) == n + 1);
    lemma_cross(t, one * (n + 1), t, one * n);
    lemma_cross(t, one * n, t, one * (n + 1));
    assert(t * (one * n) <= t * (one * (n + 1))) by (nonlinear_arith)
        requires
            t >= 0,
            one > 0,
    ;
    assert(t > 0 ==> t * (one * n) < t * (one * (n + 1))) by (nonlinear_arith)
        requires
            one > 0,
    ;
}

} // verus!
