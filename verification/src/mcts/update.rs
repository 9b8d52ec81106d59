//! What the operations of the search do to the tree.
#[allow(unused_imports)]
use crate::mcts::node::{blank, ChildGroup, MoveNode, NodeModel, StateInstructions, SCORE_ONE};
#[allow(unused_imports)]
use crate::mcts::path::{
    chances, group_ok, groups_ok, hangs_ok, lemma_next_step, lemma_path_up, lemma_root_most_visited,
    next_step, node_ok, on_path, options_ok, tree_ok,
};
#[allow(unused_imports)]
use crate::mcts::sampling::drawable;
use vstd::prelude::*;

verus! {

/// The statistics of a move after one more result. A selection in flight is
/// settled by it when `release` is asked for.
pub open spec fn credited(m: MoveNode, gain: int, release: bool) -> MoveNode {
    MoveNode {
        total_score: (m.total_score + gain) as u64,
        visits: (m.visits + 1) as u32,
        pending_visits: if release {
            released(m).pending_visits
        } else {
            m.pending_visits
        },
        ..m
    }
}

/// The statistics of a move with one selection in flight fewer, if there is one.
pub open spec fn released(m: MoveNode) -> MoveNode {
    MoveNode {
        pending_visits: if m.pending_visits > 0 {
            (m.pending_visits - 1) as u32
        } else {
            0
        },
        ..m
    }
}

/// The statistics of a move with one more selection in flight.
pub open spec fn reserved(m: MoveNode) -> MoveNode {
    MoveNode { pending_visits: (m.pending_visits + 1) as u32, ..m }
}

/// A list of moves in which move `i` is replaced.
pub open spec fn with_move(
    options: Option<Seq<MoveNode>>,
    i: int,
    f: spec_fn(MoveNode) -> MoveNode,
) -> Option<Seq<MoveNode>> {
    match options {
        Some(l) => if 0 <= i < l.len() {
            Some(l.update(i, f(l[i])))
        } else {
            Some(l)
        },
        None => None,
    }
}

/// Node `k` after the result `score` at `leaf` was handed up: every node on the
/// way was visited once more, and the move by which the way leaves it earned the
/// result. What the first player earns the second one loses.
pub open spec fn backed_up_node<I>(
    nodes: Seq<NodeModel<I>>,
    k: int,
    leaf: int,
    score: int,
    release: bool,
) -> NodeModel<I> {
    let n = nodes[k];
    let c = next_step(nodes, k, leaf);
    NodeModel {
        times_visited: n.times_visited + if on_path(nodes, k, leaf) {
            1int
        } else {
            0int
        },
        s1_options: if c >= 0 {
            with_move(n.s1_options, nodes[c].s1_choice, |m: MoveNode| credited(m, score, release))
        } else {
            n.s1_options
        },
        s2_options: if c >= 0 {
            with_move(
                n.s2_options,
                nodes[c].s2_choice,
                |m: MoveNode| credited(m, SCORE_ONE - score, release),
            )
        } else {
            n.s2_options
        },
        ..n
    }
}

/// The tree after the result `score` at `leaf` was handed up to the root.
pub open spec fn backed_up<I>(
    nodes: Seq<NodeModel<I>>,
    leaf: int,
    score: int,
    release: bool,
) -> Seq<NodeModel<I>> {
    Seq::new(nodes.len(), |k: int| backed_up_node(nodes, k, leaf, score, release))
}

/// The tree after one pair of moves at `at` was changed.
pub open spec fn with_pair<I>(
    nodes: Seq<NodeModel<I>>,
    at: int,
    s1: int,
    s2: int,
    f: spec_fn(MoveNode) -> MoveNode,
) -> Seq<NodeModel<I>> {
    nodes.update(
        at,
        NodeModel {
            s1_options: with_move(nodes[at].s1_options, s1, f),
            s2_options: with_move(nodes[at].s2_options, s2, f),
            ..nodes[at]
        },
    )
}

/// The tree after a pair of moves at `at` was selected and not yet settled.
pub open spec fn held<I>(
    nodes: Seq<NodeModel<I>>,
    at: int,
    s1: int,
    s2: int,
) -> Seq<NodeModel<I>> {
    with_pair(nodes, at, s1, s2, |m: MoveNode| reserved(m))
}

/// The tree after a selection of a pair of moves at `at` was given up.
pub open spec fn let_go<I>(
    nodes: Seq<NodeModel<I>>,
    at: int,
    s1: int,
    s2: int,
) -> Seq<NodeModel<I>> {
    with_pair(nodes, at, s1, s2, |m: MoveNode| released(m))
}

/// The tree after the moves at `at` were listed.
pub open spec fn populated<I>(
    nodes: Seq<NodeModel<I>>,
    at: int,
    s1: Seq<MoveNode>,
    s2: Seq<MoveNode>,
) -> Seq<NodeModel<I>> {
    nodes.update(at, NodeModel { s1_options: Some(s1), s2_options: Some(s2), ..nodes[at] })
}

/// The node for one outcome of a pair of moves at `at`.
pub open spec fn child_of<I>(
    outcome: StateInstructions<I>,
    at: int,
    s1: int,
    s2: int,
) -> NodeModel<I> {
    blank(at, outcome.percentage as int, outcome.instruction_list@, s1, s2)
}

/// The tree after the outcomes of a pair of moves at `at` were hung below it.
pub open spec fn attached<I>(
    nodes: Seq<NodeModel<I>>,
    at: int,
    s1: usize,
    s2: usize,
    outcomes: Seq<StateInstructions<I>>,
) -> Seq<NodeModel<I>> {
    let group = ChildGroup {
        s1,
        s2,
        first: nodes.len() as usize,
        count: outcomes.len() as usize,
    };
    nodes.update(
        at,
        NodeModel { children: nodes[at].children.push(group), ..nodes[at] },
    ) + Seq::new(
        outcomes.len(),
        |k: int| child_of(outcomes[k], at, s1 as int, s2 as int),
    )
}

/// The chances of the outcomes.
pub open spec fn outcome_chances<I>(outcomes: Seq<StateInstructions<I>>) -> Seq<u64> {
    Seq::new(outcomes.len(), |k: int| outcomes[k].percentage)
}

/// The outcomes of the pair `(s1, s2)` are in the tree already.
pub open spec fn has_group(groups: Seq<ChildGroup>, s1: int, s2: int) -> bool {
    exists|a: int| 0 <= a < groups.len() && (#[trigger] groups[a]).s1 == s1 && groups[a].s2 == s2
}

/// Two trees of the same shape.
pub open spec fn same_shape<I>(a: Seq<NodeModel<I>>, b: Seq<NodeModel<I>>) -> bool {
    &&& a.len() == b.len()
    &&& forall|k: int|
        #![trigger a[k]]
        #![trigger b[k]]
        0 <= k < a.len() ==> {
            &&& a[k].root == b[k].root
            &&& a[k].parent == b[k].parent
            &&& a[k].children == b[k].children
            &&& a[k].percentage == b[k].percentage
            &&& a[k].instructions == b[k].instructions
            &&& a[k].s1_choice == b[k].s1_choice
            &&& a[k].s2_choice == b[k].s2_choice
        }
}

/// The groups stay in order as long as the shape stays.
pub proof fn lemma_groups_kept<I>(a: Seq<NodeModel<I>>, b: Seq<NodeModel<I>>, p: int)
    requires
        same_shape(a, b),
        0 <= p < a.len(),
        groups_ok(a, p),
    ensures
        groups_ok(b, p),
{
    let groups = a[p].children;
    assert(b[p].children == groups);
    assert forall|x: int| 0 <= x < groups.len() implies group_ok(b, p, #[trigger] groups[x]) by {
        let g = groups[x];
        assert(group_ok(a, p, g));
        assert(chances(a, g.first as int, g.count as int) =~= chances(
            b,
            g.first as int,
            g.count as int,
        ));
    }
}

/// Handing a result up keeps the tree in order.
pub proof fn lemma_backed_up_ok<I>(nodes: Seq<NodeModel<I>>, leaf: int, score: int, release: bool)
    requires
        tree_ok(nodes),
        0 <= leaf < nodes.len(),
        0 <= score <= SCORE_ONE,
        nodes[0].times_visited < u32::MAX,
    ensures
        tree_ok(backed_up(nodes, leaf, score, release)),
{
    let after = backed_up(nodes, leaf, score, release);
    assert(same_shape(nodes, after));
    assert forall|p: int| 0 <= p < after.len() implies #[trigger] node_ok(after, p) by {
        assert(node_ok(nodes, p));
        lemma_next_step(nodes, p, leaf);
        lemma_root_most_visited(nodes, p);
        lemma_groups_kept(nodes, after, p);
        let c = next_step(nodes, p, leaf);
        if c >= 0 {
            assert(node_ok(nodes, c));
        }
        assert(after[p] == backed_up_node(nodes, p, leaf, score, release));
        if p > 0 {
            let q = nodes[p].parent;
            assert(node_ok(nodes, q));
            lemma_next_step(nodes, q, leaf);
            let d = next_step(nodes, q, leaf);
            if d >= 0 {
                assert(node_ok(nodes, d));
            }
            if on_path(nodes, p, leaf) {
                lemma_path_up(nodes, p, leaf);
            }
            lemma_root_most_visited(nodes, q);
            assert(after[q] == backed_up_node(nodes, q, leaf, score, release));
            assert(hangs_ok(after, p));
        }
        assert(options_ok(after[p].s1_options, after[p].times_visited));
        assert(options_ok(after[p].s2_options, after[p].times_visited));
    }
}

/// Changing the selections in flight keeps the tree in order.
pub proof fn lemma_with_pair_ok<I>(
    nodes: Seq<NodeModel<I>>,
    at: int,
    s1: int,
    s2: int,
    f: spec_fn(MoveNode) -> MoveNode,
)
    requires
        tree_ok(nodes),
        0 <= at < nodes.len(),
        forall|m: MoveNode|
            #![trigger f(m)]
            f(m).total_score == m.total_score && f(m).visits == m.visits && f(m).prior == m.prior,
    ensures
        tree_ok(with_pair(nodes, at, s1, s2, f)),
        same_shape(nodes, with_pair(nodes, at, s1, s2, f)),
{
    let after = with_pair(nodes, at, s1, s2, f);
    assert forall|p: int| 0 <= p < after.len() implies #[trigger] node_ok(after, p) by {
        assert(node_ok(nodes, p));
        assert(node_ok(nodes, at));
        lemma_groups_kept(nodes, after, p);
        if p > 0 {
            assert(hangs_ok(after, p));
        }
        assert(options_ok(after[p].s1_options, after[p].times_visited));
        assert(options_ok(after[p].s2_options, after[p].times_visited));
    }
}

/// Listing the moves of a node keeps the tree in order.
pub proof fn lemma_populated_ok<I>(
    nodes: Seq<NodeModel<I>>,
    at: int,
    s1: Seq<MoveNode>,
    s2: Seq<MoveNode>,
)
    requires
        tree_ok(nodes),
        0 <= at < nodes.len(),
        nodes[at].s1_options is None,
        forall|i: int| 0 <= i < s1.len() ==> (#[trigger] s1[i]).wf() && s1[i].visits == 0,
        forall|i: int| 0 <= i < s2.len() ==> (#[trigger] s2[i]).wf() && s2[i].visits == 0,
    ensures
        tree_ok(populated(nodes, at, s1, s2)),
{
    let after = populated(nodes, at, s1, s2);
    assert(same_shape(nodes, after));
    assert forall|p: int| 0 <= p < after.len() implies #[trigger] node_ok(after, p) by {
        assert(node_ok(nodes, p));
        assert(node_ok(nodes, at));
        lemma_groups_kept(nodes, after, p);
        if p > 0 {
            assert(hangs_ok(nodes, p));
            assert(hangs_ok(after, p));
        }
        assert(options_ok(after[p].s1_options, after[p].times_visited));
        assert(options_ok(after[p].s2_options, after[p].times_visited));
    }
}

/// Hanging the outcomes of a new pair of moves below a node keeps the tree in
/// order.
pub proof fn lemma_attached_ok<I>(
    nodes: Seq<NodeModel<I>>,
    at: int,
    s1: usize,
    s2: usize,
    outcomes: Seq<StateInstructions<I>>,
)
    requires
        tree_ok(nodes),
        0 <= at < nodes.len(),
        nodes.len() + outcomes.len() <= usize::MAX,
        nodes[at].s1_options matches Some(l) && s1 < l.len(),
        nodes[at].s2_options matches Some(l) && s2 < l.len(),
        !has_group(nodes[at].children, s1 as int, s2 as int),
        drawable(outcome_chances(outcomes)),
    ensures
        tree_ok(attached(nodes, at, s1, s2, outcomes)),
{
    let after = attached(nodes, at, s1, s2, outcomes);
    let n = nodes.len() as int;
    assert forall|p: int| 0 <= p < after.len() implies #[trigger] node_ok(after, p) by {
        assert(node_ok(nodes, at));
        if p < n {
            assert(node_ok(nodes, p));
            if p > 0 {
                assert(hangs_ok(nodes, p));
                assert(hangs_ok(after, p));
            }
            let old_groups = nodes[p].children;
            assert forall|x: int| 0 <= x < old_groups.len() implies group_ok(
                after,
                p,
                #[trigger] old_groups[x],
            ) by {
                let g = old_groups[x];
                assert(group_ok(nodes, p, g));
                assert(chances(nodes, g.first as int, g.count as int) =~= chances(
                    after,
                    g.first as int,
                    g.count as int,
                ));
            }
            if p == at {
                let g = after[at].children.last();
                assert(chances(after, n, outcomes.len() as int) =~= outcome_chances(outcomes));
                assert(group_ok(after, at, g));
                assert(groups_ok(after, p));
            } else {
                assert(groups_ok(after, p));
            }
        } else {
            assert(after[p] == child_of(outcomes[p - n], at, s1 as int, s2 as int));
            assert(hangs_ok(after, p));
            assert(groups_ok(after, p));
        }
    }
}

} // verus!
