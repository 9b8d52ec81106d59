//! Batches: several descents are made before any of them is settled, so that the
//! value network is asked about all their leaves at once.
use crate::mcts::leaf::{needs_value, score_leaf, Mixing};
#[allow(unused_imports)]
use crate::mcts::leaf::{leaf_score, wants_value};
#[allow(unused_imports)]
use crate::mcts::descent::{flight_at, Phase};
#[allow(unused_imports)]
use crate::mcts::flight::{
    balanced, flights_of, law_settled_batch_leaves_nothing_reserved, Flight,
};
#[allow(unused_imports)]
use crate::mcts::node::{MoveNode, NodeModel};
use crate::mcts::node::SCORE_ONE;
#[allow(unused_imports)]
use crate::mcts::path::{lemma_root_on_path, tree_ok};
use crate::mcts::tree::Tree;
#[allow(unused_imports)]
use crate::mcts::update::{
    backed_up, backed_up_node, lemma_backed_up_ok, lemma_with_pair_ok, let_go, released, same_shape,
};
use vstd::prelude::*;

verus! {

/// A pair of moves that a descent picked without entering a child.
#[derive(Clone, Copy, Debug, PartialEq, Eq, Structural)]
pub struct Stranded {
    pub at: usize,
    pub s1: usize,
    pub s2: usize,
}

/// A descent that is not settled yet.
#[derive(Clone, Copy, Debug, PartialEq, Eq, Structural)]
pub struct Pending {
    pub leaf: usize,
    /// Set when the tree did not grow: the selection in flight at this pair of
    /// moves lies off the way to the leaf and has to be given up by itself.
    pub no_child: Option<Stranded>,
    /// Zero while the battle goes on, one for a win of the first player, minus one
    /// for a loss.
    pub battle_outcome: i8,
    /// Which of the network's answers belongs to this leaf.
    pub value_idx: Option<usize>,
}

/// Descents that are not settled yet, and the leaves that the network is asked
/// about.
#[derive(Clone, Debug)]
pub struct Batch {
    pub pending: Vec<Pending>,
    /// Positions in `pending`, in the order in which the network is asked.
    pub eval_idxs: Vec<usize>,
}

/// Every question has its place among the descents, and every answer finds back.
pub open spec fn indexed(pending: Seq<Pending>, eval_idxs: Seq<usize>) -> bool {
    &&& forall|v: int|
        0 <= v < eval_idxs.len() ==> (#[trigger] eval_idxs[v]) < pending.len()
            && pending[eval_idxs[v] as int].value_idx == Some(v as usize)
    &&& forall|i: int|
        0 <= i < pending.len() ==> ((#[trigger] pending[i]).value_idx matches Some(v) ==> v
            < eval_idxs.len() && eval_idxs[v as int] == i)
}

/// The outcomes are known ones.
pub open spec fn outcomes_ok(pending: Seq<Pending>) -> bool {
    forall|i: int| 0 <= i < pending.len() ==> -1 <= (#[trigger] pending[i]).battle_outcome <= 1
}

/// The network is asked about exactly the leaves whose result its answer enters.
pub open spec fn asks_as_needed(pending: Seq<Pending>, mix: Mixing) -> bool {
    forall|i: int|
        0 <= i < pending.len() ==> ((#[trigger] pending[i]).value_idx is Some <==> wants_value(
            pending[i].battle_outcome as int,
            mix,
        ))
}

/// What a batch remembers of a descent that stopped at `parent` with a pair of moves
/// and went on to `leaf`, when `asked` questions came before.
pub open spec fn entry(
    parent: usize,
    s1: usize,
    s2: usize,
    leaf: usize,
    battle_outcome: i8,
    mix: Mixing,
    asked: int,
) -> Pending {
    Pending {
        leaf,
        no_child: if leaf == parent {
            Some(Stranded { at: parent, s1, s2 })
        } else {
            None
        },
        battle_outcome,
        value_idx: if wants_value(battle_outcome as int, mix) {
            Some(asked as usize)
        } else {
            None
        },
    }
}

/// What a batch does next.
#[derive(Clone, Copy, Debug, PartialEq, Eq, Structural)]
pub enum BatchAction {
    /// Make one more descent.
    Descend,
    /// Ask the network about the leaves, all at once.
    Ask,
    /// Settle all descents.
    Settle,
}

/// What a batch of `size` descents does next, after `made` of them with `questions`
/// questions for the network: it makes them all, asks once if there is anything to
/// ask, and settles.
pub open spec fn batch_action(
    size: int,
    made: int,
    questions: int,
    answered: bool,
) -> BatchAction {
    if made < size {
        BatchAction::Descend
    } else if questions > 0 && !answered {
        BatchAction::Ask
    } else {
        BatchAction::Settle
    }
}

impl Batch {
    /// The batch is consistent.
    pub open spec fn wf(self) -> bool {
        &&& indexed(self.pending@, self.eval_idxs@)
        &&& outcomes_ok(self.pending@)
        &&& self.eval_idxs@.len() <= self.pending@.len()
    }

    /// A batch without descents.
    pub fn new() -> (b: Batch)
        ensures
            b.wf(),
            b.pending@ == Seq::<Pending>::empty(),
            b.eval_idxs@ == Seq::<usize>::empty(),
    {
        Batch { pending: Vec::new(), eval_idxs: Vec::new() }
    }

    /// What the batch does next. `answered` says whether the network has been asked.
    pub fn next_action(&self, size: usize, answered: bool) -> (r: BatchAction)
        ensures
            r == batch_action(
                size as int,
                self.pending@.len() as int,
                self.eval_idxs@.len() as int,
                answered,
            ),
    {
        if self.pending.len() < size {
            BatchAction::Descend
        } else if self.eval_idxs.len() > 0 && !answered {
            BatchAction::Ask
        } else {
            BatchAction::Settle
        }
    }

    /// Takes in a descent that stopped at `parent` with a pair of moves and went on
    /// to `leaf`. When the tree did not grow, `leaf` is `parent`.
    pub fn record(
        &mut self,
        parent: usize,
        s1: usize,
        s2: usize,
        leaf: usize,
        battle_outcome: i8,
        mix: Mixing,
    )
        requires
            old(self).wf(),
            -1 <= battle_outcome <= 1,
        ensures
            final(self).wf(),
            asks_as_needed(old(self).pending@, mix) ==> asks_as_needed(final(self).pending@, mix),
            final(self).pending@ == old(self).pending@.push(
                entry(parent, s1, s2, leaf, battle_outcome, mix, old(self).eval_idxs@.len() as int),
            ),
            flights_of(final(self).pending@) == flights_of(old(self).pending@).push(
                flight_at(Phase::Landed { leaf, parent, s1, s2 }),
            ),
            final(self).eval_idxs@ == if wants_value(battle_outcome as int, mix) {
                old(self).eval_idxs@.push(old(self).pending@.len() as usize)
            } else {
                old(self).eval_idxs@
            },
    {
        let value_idx: Option<usize> = if needs_value(battle_outcome, mix) {
            self.eval_idxs.push(self.pending.len());
            Some(self.eval_idxs.len() - 1)
        } else {
            None
        };
        let no_child = if leaf == parent {
            Some(Stranded { at: parent, s1, s2 })
        } else {
            None
        };
        self.pending.push(Pending { leaf, no_child, battle_outcome, value_idx });
        assert(forall|i: int|
            0 <= i < old(self).pending@.len() ==> #[trigger] self.pending@[i] == old(
                self,
            ).pending@[i]);
        assert(flights_of(self.pending@) =~= flights_of(old(self).pending@).push(
            flight_at(Phase::Landed { leaf, parent, s1, s2 }),
        ));
    }
}

/// The answer of the network that belongs to a descent, zero where none was asked
/// for.
pub open spec fn answer(q: Pending, values: Seq<u64>) -> int {
    match q.value_idx {
        Some(v) => values[v as int] as int,
        None => 0,
    }
}

/// The results of the descents in a batch.
pub open spec fn results(
    pending: Seq<Pending>,
    mix: Mixing,
    values: Seq<u64>,
    heuristics: Seq<u64>,
) -> Seq<int> {
    Seq::new(
        pending.len(),
        |i: int|
            leaf_score(
                pending[i].battle_outcome as int,
                mix,
                answer(pending[i], values),
                heuristics[i] as int,
            ),
    )
}

/// The tree after one descent was settled.
pub open spec fn settled_one<I>(
    nodes: Seq<NodeModel<I>>,
    q: Pending,
    score: int,
) -> Seq<NodeModel<I>> {
    let free = match q.no_child {
        Some(s) => let_go(nodes, s.at as int, s.s1 as int, s.s2 as int),
        None => nodes,
    };
    backed_up(free, q.leaf as int, score, true)
}

/// The tree after the first `n` descents were settled, one after the other.
pub open spec fn settled<I>(
    nodes: Seq<NodeModel<I>>,
    pending: Seq<Pending>,
    scores: Seq<int>,
    n: int,
) -> Seq<NodeModel<I>>
    decreases n,
{
    if n <= 0 {
        nodes
    } else {
        settled_one(settled(nodes, pending, scores, n - 1), pending[n - 1], scores[n - 1])
    }
}

/// The descent ended in this tree.
pub open spec fn belongs<I>(nodes: Seq<NodeModel<I>>, q: Pending) -> bool {
    &&& q.leaf < nodes.len()
    &&& q.no_child matches Some(s) ==> {
        &&& s.at == q.leaf
        &&& nodes[s.at as int].s1_options matches Some(l) && s.s1 < l.len()
        &&& nodes[s.at as int].s2_options matches Some(l) && s.s2 < l.len()
    }
}

/// Two lists of the same length, or none at all.
pub open spec fn as_long(a: Option<Seq<MoveNode>>, b: Option<Seq<MoveNode>>) -> bool {
    match (a, b) {
        (Some(x), Some(y)) => x.len() == y.len(),
        (None, None) => true,
        _ => false,
    }
}

/// Two trees of the same shape with the same numbers of moves.
pub open spec fn alike<I>(a: Seq<NodeModel<I>>, b: Seq<NodeModel<I>>) -> bool {
    &&& same_shape(a, b)
    &&& forall|k: int|
        #![trigger a[k]]
        #![trigger b[k]]
        0 <= k < a.len() ==> as_long(a[k].s1_options, b[k].s1_options) && as_long(
            a[k].s2_options,
            b[k].s2_options,
        )
}

/// Settling a descent keeps the tree in order and its shape as it is, and counts
/// one visit of the root.
pub proof fn lemma_settled_one<I>(nodes: Seq<NodeModel<I>>, q: Pending, score: int)
    requires
        tree_ok(nodes),
        belongs(nodes, q),
        0 <= score <= SCORE_ONE,
        nodes[0].times_visited < u32::MAX,
    ensures
        tree_ok(settled_one(nodes, q, score)),
        alike(nodes, settled_one(nodes, q, score)),
        settled_one(nodes, q, score)[0].times_visited == nodes[0].times_visited + 1,
{
    let free = match q.no_child {
        Some(s) => let_go(nodes, s.at as int, s.s1 as int, s.s2 as int),
        None => nodes,
    };
    if let Some(s) = q.no_child {
        lemma_with_pair_ok(
            nodes,
            s.at as int,
            s.s1 as int,
            s.s2 as int,
            |m: MoveNode| released(m),
        );
    }
    assert(alike(nodes, free));
    assert(free[0].times_visited == nodes[0].times_visited);
    lemma_backed_up_ok(free, q.leaf as int, score, true);
    lemma_root_on_path(free, q.leaf as int);
    let after = backed_up(free, q.leaf as int, score, true);
    assert forall|k: int| 0 <= k < free.len() implies as_long(
        #[trigger] free[k].s1_options,
        after[k].s1_options,
    ) && as_long(free[k].s2_options, after[k].s2_options) by {
        assert(after[k] == backed_up_node(free, k, q.leaf as int, score, true));
    }
    assert(same_shape(free, after));
}

/// Settles a batch: every descent gives up what it left stranded and hands its
/// result up. `values` are the network's answers in the order of the questions;
/// `heuristics` are the evaluations of all leaves.
pub fn settle<I>(
    tree: &mut Tree<I>,
    batch: &Batch,
    mix: Mixing,
    values: &[u64],
    heuristics: &[u64],
)
    requires
        tree_ok(old(tree)@),
        batch.wf(),
        asks_as_needed(batch.pending@, mix),
        values@.len() == batch.eval_idxs@.len(),
        heuristics@.len() == batch.pending@.len(),
        forall|i: int| 0 <= i < values@.len() ==> #[trigger] values@[i] <= SCORE_ONE,
        forall|i: int| 0 <= i < heuristics@.len() ==> #[trigger] heuristics@[i] <= SCORE_ONE,
        forall|i: int|
            0 <= i < batch.pending@.len() ==> belongs(old(tree)@, #[trigger] batch.pending@[i]),
        old(tree)@[0].times_visited + batch.pending@.len() <= u32::MAX,
    ensures
        tree_ok(final(tree)@),
        alike(old(tree)@, final(tree)@),
        final(tree)@[0].times_visited == old(tree)@[0].times_visited + batch.pending@.len(),
        final(tree)@ == settled(
            old(tree)@,
            batch.pending@,
            results(batch.pending@, mix, values@, heuristics@),
            batch.pending@.len() as int,
        ),
        balanced(old(tree)@, flights_of(batch.pending@)) ==> balanced(
            final(tree)@,
            Seq::<Flight>::empty(),
        ),
{
    let ghost start = tree@;
    let ghost scores = results(batch.pending@, mix, values@, heuristics@);
    let mut i: usize = 0;
    while i < batch.pending.len()
        invariant
            i <= batch.pending@.len(),
            batch.wf(),
            asks_as_needed(batch.pending@, mix),
            values@.len() == batch.eval_idxs@.len(),
            heuristics@.len() == batch.pending@.len(),
            forall|k: int| 0 <= k < values@.len() ==> #[trigger] values@[k] <= SCORE_ONE,
            forall|k: int| 0 <= k < heuristics@.len() ==> #[trigger] heuristics@[k] <= SCORE_ONE,
            forall|k: int|
                0 <= k < batch.pending@.len() ==> belongs(start, #[trigger] batch.pending@[k]),
            start[0].times_visited + batch.pending@.len() <= u32::MAX,
            start.len() > 0,
            scores == results(batch.pending@, mix, values@, heuristics@),
            tree_ok(tree@),
            alike(start, tree@),
            tree@[0].times_visited == start[0].times_visited + i,
            tree@ == settled(start, batch.pending@, scores, i as int),
            forall|k: int| 0 <= k < i ==> 0 <= #[trigger] scores[k] <= SCORE_ONE,
        decreases batch.pending@.len() - i,
    {
        let q = batch.pending[i];
        assert(belongs(start, batch.pending@[i as int]));
        assert(belongs(tree@, q)) by {
            assert(start[q.leaf as int].parent == tree@[q.leaf as int].parent);
        }
        let value: u64 = match q.value_idx {
            Some(v) => values[v],
            None => 0,
        };
        let score: u64 = score_leaf(q.battle_outcome, mix, value, heuristics[i]);
        proof {
            lemma_settled_one(tree@, q, score as int);
        }
        let ghost before = tree@;
        if let Some(s) = q.no_child {
            tree.release_pair(s.at, s.s1, s.s2);
        }
        tree.backpropagate_no_reverse(q.leaf, score);
        assert(tree@ == settled_one(before, q, score as int));
        i += 1;
    }
    proof {
        if balanced(start, flights_of(batch.pending@)) {
            law_settled_batch_leaves_nothing_reserved(start, batch.pending@, scores);
        }
    }
}

} // verus!
