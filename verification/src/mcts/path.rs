//! The tree as a sequence of nodes, in which every parent stands before its
//! children, and the path from the root to a node.
#[allow(unused_imports)]
use crate::mcts::node::{ChildGroup, MoveNode, NodeModel};
#[allow(unused_imports)]
use crate::mcts::sampling::drawable;
use vstd::prelude::*;

verus! {

/// The chances of `count` nodes from `first` on.
pub open spec fn chances<I>(nodes: Seq<NodeModel<I>>, first: int, count: int) -> Seq<u64> {
    Seq::new(count as nat, |k: int| nodes[first + k].percentage as u64)
}

/// A group of children belongs to node `p` and one pair of its moves, and can be
/// drawn from.
pub open spec fn group_ok<I>(nodes: Seq<NodeModel<I>>, p: int, g: ChildGroup) -> bool {
    &&& p < g.first
    &&& g.first + g.count <= nodes.len()
    &&& forall|k: int|
        g.first <= k < g.first + g.count ==> {
            &&& (#[trigger] nodes[k]).parent == p
            &&& nodes[k].s1_choice == g.s1
            &&& nodes[k].s2_choice == g.s2
        }
    &&& drawable(chances(nodes, g.first as int, g.count as int))
}

/// The groups are in order, and no pair of moves has two of them.
pub open spec fn groups_ok<I>(nodes: Seq<NodeModel<I>>, p: int) -> bool {
    let groups = nodes[p].children;
    &&& forall|a: int| 0 <= a < groups.len() ==> group_ok(nodes, p, #[trigger] groups[a])
    &&& forall|a: int, b: int|
        0 <= a < b < groups.len() ==> (#[trigger] groups[a]).s1 != (#[trigger] groups[b]).s1
            || groups[a].s2 != groups[b].s2
}

/// The statistics are in order, and no move was visited more often than the
/// position.
pub open spec fn options_ok(options: Option<Seq<MoveNode>>, times_visited: int) -> bool {
    options matches Some(l) ==> forall|i: int|
        0 <= i < l.len() ==> (#[trigger] l[i]).wf() && l[i].visits <= times_visited
}

/// Node `p` hangs below its parent by a pair of moves, each of which was visited
/// at least as often as the node.
pub open spec fn hangs_ok<I>(nodes: Seq<NodeModel<I>>, p: int) -> bool {
    let n = nodes[p];
    let q = nodes[n.parent];
    &&& 0 <= n.parent < p
    &&& q.s1_options matches Some(l1) && q.s2_options matches Some(l2) && {
        &&& 0 <= n.s1_choice < l1.len()
        &&& 0 <= n.s2_choice < l2.len()
        &&& n.times_visited <= l1[n.s1_choice].visits
        &&& n.times_visited <= l2[n.s2_choice].visits
    }
}

/// Node `p` is in order.
pub open spec fn node_ok<I>(nodes: Seq<NodeModel<I>>, p: int) -> bool {
    let n = nodes[p];
    &&& n.root <==> p == 0
    &&& p == 0 ==> n.parent == 0
    &&& p > 0 ==> hangs_ok(nodes, p)
    &&& 0 <= n.times_visited <= u32::MAX
    &&& 0 <= n.percentage <= u64::MAX
    &&& n.s1_options is Some <==> n.s2_options is Some
    &&& options_ok(n.s1_options, n.times_visited)
    &&& options_ok(n.s2_options, n.times_visited)
    &&& groups_ok(nodes, p)
}

/// There is a root, and every node is in order.
pub open spec fn tree_ok<I>(nodes: Seq<NodeModel<I>>) -> bool {
    &&& nodes.len() > 0
    &&& forall|p: int| 0 <= p < nodes.len() ==> #[trigger] node_ok(nodes, p)
}

/// The way from the root to `leaf` leads through `k`.
pub open spec fn on_path<I>(nodes: Seq<NodeModel<I>>, k: int, leaf: int) -> bool
    decreases leaf,
{
    ||| k == leaf
    ||| 0 < leaf && 0 <= nodes[leaf].parent < leaf && on_path(nodes, k, nodes[leaf].parent)
}

/// The child of `p` through which the way to `leaf` leads, or -1 when `p` is not
/// an ancestor of `leaf`.
pub open spec fn next_step<I>(nodes: Seq<NodeModel<I>>, p: int, leaf: int) -> int
    decreases leaf,
{
    if leaf <= p || leaf <= 0 || !(0 <= nodes[leaf].parent < leaf) {
        -1
    } else if nodes[leaf].parent == p {
        leaf
    } else {
        next_step(nodes, p, nodes[leaf].parent)
    }
}

/// The moves of one player at a node.
pub open spec fn options_of<I>(n: NodeModel<I>, first_player: bool) -> Option<Seq<MoveNode>> {
    if first_player {
        n.s1_options
    } else {
        n.s2_options
    }
}

/// The move of one player that led to a node.
pub open spec fn choice_of<I>(n: NodeModel<I>, first_player: bool) -> int {
    if first_player {
        n.s1_choice
    } else {
        n.s2_choice
    }
}

/// The player has a move `i` at node `p`.
pub open spec fn has_move<I>(
    nodes: Seq<NodeModel<I>>,
    first_player: bool,
    p: int,
    i: int,
) -> bool {
    &&& 0 <= p < nodes.len()
    &&& options_of(nodes[p], first_player) matches Some(l) && 0 <= i < l.len()
}

/// The statistics of move `i` of a player at node `p`.
pub open spec fn move_at<I>(
    nodes: Seq<NodeModel<I>>,
    first_player: bool,
    p: int,
    i: int,
) -> MoveNode {
    (options_of(nodes[p], first_player)->0)[i]
}

/// The way to `leaf` leaves `p` by move `i` of the player.
pub open spec fn leaves_by<I>(
    nodes: Seq<NodeModel<I>>,
    first_player: bool,
    p: int,
    i: int,
    leaf: int,
) -> bool {
    let c = next_step(nodes, p, leaf);
    c >= 0 && choice_of(nodes[c], first_player) == i
}

/// A step on the way is a child, and lies on the way itself.
pub proof fn lemma_next_step<I>(nodes: Seq<NodeModel<I>>, p: int, leaf: int)
    requires
        0 <= p,
        leaf < nodes.len(),
    ensures
        next_step(nodes, p, leaf) != -1 ==> {
            let c = next_step(nodes, p, leaf);
            &&& p < c <= leaf
            &&& nodes[c].parent == p
            &&& on_path(nodes, c, leaf)
            &&& on_path(nodes, p, leaf)
        },
    decreases leaf,
{
    if leaf <= p || leaf <= 0 || !(0 <= nodes[leaf].parent < leaf) {
    } else if nodes[leaf].parent == p {
        assert(on_path(nodes, p, nodes[leaf].parent));
    } else {
        lemma_next_step(nodes, p, nodes[leaf].parent);
    }
}

/// The parent of a node on the way is on the way, and the node is the next step
/// there. Nothing in between is.
pub proof fn lemma_path_up<I>(nodes: Seq<NodeModel<I>>, cur: int, leaf: int)
    requires
        tree_ok(nodes),
        0 < cur,
        leaf < nodes.len(),
        on_path(nodes, cur, leaf),
    ensures
        on_path(nodes, nodes[cur].parent, leaf),
        next_step(nodes, nodes[cur].parent, leaf) == cur,
        forall|k: int|
            nodes[cur].parent < k < cur ==> !#[trigger] on_path(nodes, k, leaf) && next_step(
                nodes,
                k,
                leaf,
            ) == -1,
    decreases leaf,
{
    lemma_on_path_bound(nodes, cur, leaf);
    assert(node_ok(nodes, leaf));
    assert(node_ok(nodes, cur));
    let up = nodes[leaf].parent;
    if cur == leaf {
        assert(on_path(nodes, up, up));
        assert forall|k: int| up < k < cur implies !#[trigger] on_path(nodes, k, leaf)
            && next_step(nodes, k, leaf) == -1 by {
            if on_path(nodes, k, up) {
                lemma_on_path_bound(nodes, k, up);
            }
            assert(next_step(nodes, k, up) == -1);
        }
    } else {
        lemma_path_up(nodes, cur, up);
        lemma_on_path_bound(nodes, cur, up);
        assert forall|k: int| nodes[cur].parent < k < cur implies !#[trigger] on_path(
            nodes,
            k,
            leaf,
        ) && next_step(nodes, k, leaf) == -1 by {
            assert(!on_path(nodes, k, up));
        }
    }
}

/// Nodes on the way do not stand behind its end.
pub proof fn lemma_on_path_bound<I>(nodes: Seq<NodeModel<I>>, k: int, leaf: int)
    requires
        on_path(nodes, k, leaf),
    ensures
        k <= leaf,
    decreases leaf,
{
    if k != leaf {
        lemma_on_path_bound(nodes, k, nodes[leaf].parent);
    }
}

/// Every way starts at the root.
pub proof fn lemma_root_on_path<I>(nodes: Seq<NodeModel<I>>, leaf: int)
    requires
        tree_ok(nodes),
        0 <= leaf < nodes.len(),
    ensures
        on_path(nodes, 0, leaf),
    decreases leaf,
{
    assert(node_ok(nodes, leaf));
    if leaf > 0 {
        lemma_root_on_path(nodes, nodes[leaf].parent);
    }
}

/// No node was visited more often than the root.
pub proof fn lemma_root_most_visited<I>(nodes: Seq<NodeModel<I>>, p: int)
    requires
        tree_ok(nodes),
        0 <= p < nodes.len(),
    ensures
        nodes[p].times_visited <= nodes[0].times_visited,
    decreases p,
{
    assert(node_ok(nodes, p));
    if p > 0 {
        let q = nodes[p].parent;
        assert(node_ok(nodes, q));
        lemma_root_most_visited(nodes, q);
        let l = nodes[q].s1_options->0;
        assert(l[nodes[p].s1_choice].visits <= nodes[q].times_visited);
    }
}

/// The way depends on nothing but the parents.
pub proof fn lemma_same_path<I>(a: Seq<NodeModel<I>>, b: Seq<NodeModel<I>>, k: int, leaf: int)
    requires
        leaf < a.len(),
        leaf < b.len(),
        forall|q: int| 0 <= q <= leaf ==> (#[trigger] a[q]).parent == b[q].parent,
    ensures
        on_path(a, k, leaf) == on_path(b, k, leaf),
        next_step(a, k, leaf) == next_step(b, k, leaf),
    decreases leaf,
{
    if 0 < leaf {
        assert(a[leaf].parent == b[leaf].parent);
        if 0 <= a[leaf].parent < leaf {
            lemma_same_path(a, b, k, a[leaf].parent);
        }
    }
}

} // verus!
