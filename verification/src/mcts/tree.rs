//! The search tree: descending by the best bounds, growing it by one turn, and
//! handing results up.
use crate::mcts::node::{
    list_guided_options, list_options, Bound, ChildGroup, MctsResult, MctsSideResult, MoveNode, Node,
    StateInstructions, SCORE_ONE,
};
#[allow(unused_imports)]
use crate::mcts::node::{
    bound_of, effective_visits, guided_options, listed, plain_options, priors_fit, reported, NodeModel,
};
#[allow(unused_imports)]
use crate::mcts::path::{
    chances, group_ok, hangs_ok, lemma_on_path_bound, lemma_path_up, lemma_root_most_visited,
    node_ok, on_path, tree_ok,
};
use crate::mcts::sampling::draw_weighted;
#[allow(unused_imports)]
use crate::mcts::sampling::{drawable, drawn};
#[allow(unused_imports)]
use crate::mcts::update::{
    attached, backed_up, backed_up_node, child_of, credited, has_group, held, lemma_attached_ok,
    lemma_backed_up_ok, lemma_populated_ok, lemma_with_pair_ok, let_go, outcome_chances, populated,
    released, reserved, with_move,
};
use crate::numbers::Ratio;
use crate::state::MoveChoice;
use vstd::prelude::*;

verus! {

/// A search tree. The root stands first, and parents stand before their children.
#[derive(Debug)]
pub struct Tree<I> {
    nodes: Vec<Node<I>>,
}

impl<I> View for Tree<I> {
    type V = Seq<NodeModel<I>>;

    closed spec fn view(&self) -> Seq<NodeModel<I>> {
        Seq::new(self.nodes@.len(), |k: int| self.nodes@[k]@)
    }
}

/// The root of a new tree.
pub open spec fn root_model<I>(
    s1: Seq<MoveNode>,
    s2: Seq<MoveNode>,
    use_priors: bool,
) -> NodeModel<I> {
    NodeModel {
        root: true,
        parent: 0,
        children: Seq::empty(),
        times_visited: 0,
        percentage: 0,
        instructions: Seq::empty(),
        s1_choice: 0,
        s2_choice: 0,
        s1_options: Some(s1),
        s2_options: Some(s2),
        use_priors,
    }
}

/// `r` is the first of the highest scores. The lowest score of all is never
/// chosen; where nothing can be chosen, `r` is zero.
pub open spec fn first_best(scores: Seq<i64>, r: int) -> bool {
    if forall|k: int| 0 <= k < scores.len() ==> #[trigger] scores[k] == i64::MIN {
        r == 0
    } else {
        &&& 0 <= r < scores.len()
        &&& scores[r] > i64::MIN
        &&& forall|k: int| 0 <= k < scores.len() ==> #[trigger] scores[k] <= scores[r]
        &&& forall|k: int| 0 <= k < r ==> #[trigger] scores[k] < scores[r]
    }
}

/// `r` is the first of the moves that were never picked.
pub open spec fn first_untried(options: Seq<MoveNode>, r: int) -> bool {
    &&& 0 <= r < options.len()
    &&& effective_visits(options[r]) == 0
    &&& forall|k: int| 0 <= k < r ==> effective_visits(#[trigger] options[k]) != 0
}

/// `r` is the move with the best bound: without priors the first of the moves that
/// were never picked, if there is one, and else the first of the highest scores.
pub open spec fn best_move(
    options: Seq<MoveNode>,
    use_priors: bool,
    scores: Seq<i64>,
    r: int,
) -> bool {
    if !use_priors && exists|k: int|
        0 <= k < options.len() && effective_visits(#[trigger] options[k]) == 0 {
        first_untried(options, r)
    } else {
        first_best(scores, r)
    }
}

/// `bounds` are what the bounds of the moves are made of, in the same order.
pub open spec fn are_bounds(options: Seq<MoveNode>, use_priors: bool, bounds: Seq<Bound>) -> bool {
    &&& bounds.len() == options.len()
    &&& forall|k: int|
        0 <= k < bounds.len() ==> bound_of(options[k], use_priors, #[trigger] bounds[k])
}

/// One level of a descent: the moves picked, and the node that the descent goes
/// on to, when the outcomes of these moves are in the tree already.
#[derive(Clone, Copy, Debug, PartialEq, Eq, Structural)]
pub struct Selected {
    pub s1: usize,
    pub s2: usize,
    pub child: Option<usize>,
}

/// The descent can go on at `at`: the moves are listed, and there is a score for
/// each of them.
pub open spec fn selectable<I>(
    nodes: Seq<NodeModel<I>>,
    at: int,
    s1_scores: Seq<i64>,
    s2_scores: Seq<i64>,
) -> bool {
    &&& 0 <= at < nodes.len()
    &&& nodes[at].s1_options matches Some(l1) && nodes[at].s2_options matches Some(l2) && {
        &&& l1.len() == s1_scores.len() > 0
        &&& l2.len() == s2_scores.len() > 0
    }
}

/// What a descent does at `at`: both players take their best move, and where its
/// outcomes are known one of those that can happen is drawn.
pub open spec fn selects<I>(
    nodes: Seq<NodeModel<I>>,
    at: int,
    s1_scores: Seq<i64>,
    s2_scores: Seq<i64>,
    r: Selected,
) -> bool {
    &&& best_move(nodes[at].s1_options->0, nodes[at].use_priors, s1_scores, r.s1 as int)
    &&& best_move(nodes[at].s2_options->0, nodes[at].use_priors, s2_scores, r.s2 as int)
    &&& r.child is Some <==> has_group(nodes[at].children, r.s1 as int, r.s2 as int)
    &&& r.child matches Some(c) ==> {
        &&& at < c < nodes.len()
        &&& nodes[c as int].parent == at
        &&& nodes[c as int].s1_choice == r.s1
        &&& nodes[c as int].s2_choice == r.s2
        &&& nodes[c as int].percentage > 0
        &&& exists|a: int|
            0 <= a < nodes[at].children.len() && drawn_from(
                nodes,
                #[trigger] nodes[at].children[a],
                r.s1,
                r.s2,
                c as int,
            )
    }
}

/// Node `c` was drawn, by the chances of all of them, among the outcomes in a group,
/// which are those of the pair `(s1, s2)`.
pub open spec fn drawn_from<I>(
    nodes: Seq<NodeModel<I>>,
    group: ChildGroup,
    s1: usize,
    s2: usize,
    c: int,
) -> bool {
    &&& group.s1 == s1
    &&& group.s2 == s2
    &&& drawn(chances(nodes, group.first as int, group.count as int), c - group.first)
}

impl<I> Node<I> {
    /// A position that nothing is known of yet.
    fn new(
        parent: usize,
        instructions: StateInstructions<I>,
        s1_choice: usize,
        s2_choice: usize,
    ) -> (r: Node<I>)
        ensures
            r@ == child_of(instructions, parent as int, s1_choice as int, s2_choice as int),
    {
        let r = Node {
            root: false,
            parent,
            children: Vec::new(),
            times_visited: 0,
            instructions,
            s1_choice,
            s2_choice,
            s1_options: None,
            s2_options: None,
            use_priors: false,
        };
        assert(r@ =~= child_of(instructions, parent as int, s1_choice as int, s2_choice as int));
        r
    }

    /// The first of the moves with the highest bound. Without priors that is a move
    /// that was never picked, as long as there is one. Otherwise the scores stand for
    /// the bounds of the moves, in the same order; the lowest score stands for a bound
    /// that is never chosen.
    pub fn maximize_ucb_for_side(
        side_map: &[MoveNode],
        use_priors: bool,
        scores: &[i64],
    ) -> (choice: usize)
        requires
            side_map@.len() == scores@.len(),
        ensures
            best_move(side_map@, use_priors, scores@, choice as int),
            scores@.len() > 0 ==> choice < scores@.len(),
    {
        let mut choice: usize = 0;
        let mut best_score: i64 = i64::MIN;
        let mut index: usize = 0;
        while index < scores.len()
            invariant
                index <= scores@.len(),
                side_map@.len() == scores@.len(),
                best_score == i64::MIN ==> choice == 0,
                best_score > i64::MIN ==> choice < index && scores@[choice as int] == best_score,
                forall|k: int| 0 <= k < index ==> #[trigger] scores@[k] <= best_score,
                forall|k: int| 0 <= k < choice ==> #[trigger] scores@[k] < best_score,
                !use_priors ==> forall|k: int|
                    0 <= k < index ==> effective_visits(#[trigger] side_map@[k]) != 0,
            decreases scores@.len() - index,
        {
            let m = &side_map[index];
            if !use_priors && m.visits == 0 && m.pending_visits == 0 {
                assert(effective_visits(side_map@[index as int]) == 0);
                return index;
            }
            if scores[index] > best_score {
                best_score = scores[index];
                choice = index;
            }
            index += 1;
        }
        choice
    }

    /// The move with the best bound, when the moves are listed.
    fn pick(options: &Option<Vec<MoveNode>>, use_priors: bool, scores: &[i64]) -> (r: usize)
        requires
            listed(*options) matches Some(l) && l.len() == scores@.len() > 0,
        ensures
            best_move(listed(*options)->0, use_priors, scores@, r as int),
            r < scores@.len(),
    {
        match options {
            Some(l) => Node::<I>::maximize_ucb_for_side(l.as_slice(), use_priors, scores),
            None => 0,
        }
    }

    /// Where the outcomes of a pair of moves stand among the groups.
    fn find_group(&self, s1: usize, s2: usize) -> (r: Option<usize>)
        ensures
            r is Some <==> has_group(self.children@, s1 as int, s2 as int),
            r matches Some(a) ==> a < self.children@.len() && self.children@[a as int].s1 == s1
                && self.children@[a as int].s2 == s2,
    {
        let mut a: usize = 0;
        while a < self.children.len()
            invariant
                a <= self.children@.len(),
                forall|k: int|
                    0 <= k < a ==> (#[trigger] self.children@[k]).s1 != s1 || self.children@[k].s2
                        != s2,
            decreases self.children@.len() - a,
        {
            if self.children[a].s1 == s1 && self.children[a].s2 == s2 {
                assert(self.children@[a as int].s1 == s1);
                return Some(a);
            }
            a += 1;
        }
        None
    }
}

/// What the bounds of the moves are made of.
fn list_bounds(options: &Option<Vec<MoveNode>>, use_priors: bool) -> (r: Vec<Bound>)
    requires
        listed(*options) is Some,
        forall|i: int|
            0 <= i < (listed(*options)->0).len() ==> (#[trigger] (listed(*options)->0)[i]).wf(),
    ensures
        are_bounds(listed(*options)->0, use_priors, r@),
{
    let mut r: Vec<Bound> = Vec::new();
    if let Some(l) = options {
        let ghost list = listed(*options)->0;
        assert(list == l@);
        assert(forall|k: int| 0 <= k < list.len() ==> (#[trigger] list[k]).wf());
        let mut i: usize = 0;
        while i < l.len()
            invariant
                i <= l@.len(),
                forall|k: int| 0 <= k < l@.len() ==> (#[trigger] l@[k]).wf(),
                r@.len() == i,
                forall|k: int| 0 <= k < i ==> bound_of(l@[k], use_priors, #[trigger] r@[k]),
            decreases l@.len() - i,
        {
            assert(l@[i as int].wf());
            r.push(l[i].bound(use_priors));
            i += 1;
        }
    }
    r
}

/// Adds a result to the statistics of one move.
fn credit(options: &mut Option<Vec<MoveNode>>, i: usize, gain: u64, release: bool)
    requires
        listed(*old(options)) matches Some(l) && i < l.len() && l[i as int].visits < u32::MAX
            && l[i as int].total_score + gain <= u64::MAX,
    ensures
        listed(*final(options)) == with_move(
            listed(*old(options)),
            i as int,
            |m: MoveNode| credited(m, gain as int, release),
        ),
{
    if let Some(list) = options {
        let m = list[i];
        list[i] = MoveNode {
            move_choice: m.move_choice,
            total_score: m.total_score + gain,
            visits: m.visits + 1,
            prior: m.prior,
            pending_visits: if release {
                m.pending_visits.saturating_sub(1)
            } else {
                m.pending_visits
            },
        };
    }
    assert(listed(*options)->0 =~= with_move(
        listed(*old(options)),
        i as int,
        |m: MoveNode| credited(m, gain as int, release),
    )->0);
}

/// Counts one more selection in flight.
fn reserve(options: &mut Option<Vec<MoveNode>>, i: usize)
    requires
        listed(*old(options)) matches Some(l) && i < l.len() && l[i as int].pending_visits < u32::MAX,
    ensures
        listed(*final(options)) == with_move(
            listed(*old(options)),
            i as int,
            |m: MoveNode| reserved(m),
        ),
{
    if let Some(list) = options {
        let mut m = list[i];
        m.pending_visits = m.pending_visits + 1;
        list[i] = m;
    }
    assert(listed(*options)->0 =~= with_move(
        listed(*old(options)),
        i as int,
        |m: MoveNode| reserved(m),
    )->0);
}

/// Counts one selection in flight fewer.
fn release(options: &mut Option<Vec<MoveNode>>, i: usize)
    requires
        listed(*old(options)) matches Some(l) && i < l.len(),
    ensures
        listed(*final(options)) == with_move(
            listed(*old(options)),
            i as int,
            |m: MoveNode| released(m),
        ),
{
    if let Some(list) = options {
        let mut m = list[i];
        m.pending_visits = m.pending_visits.saturating_sub(1);
        list[i] = m;
    }
    assert(listed(*options)->0 =~= with_move(
        listed(*old(options)),
        i as int,
        |m: MoveNode| released(m),
    )->0);
}

/// The statistics that are reported.
fn report(options: &Vec<MoveNode>) -> (r: Vec<MctsSideResult>)
    ensures
        r@ == options@.map_values(|m: MoveNode| reported(m)),
{
    let mut r: Vec<MctsSideResult> = Vec::new();
    let mut i: usize = 0;
    while i < options.len()
        invariant
            i <= options@.len(),
            r@ =~= options@.take(i as int).map_values(|m: MoveNode| reported(m)),
        decreases options@.len() - i,
    {
        let v = &options[i];
        r.push(
            MctsSideResult {
                move_choice: v.move_choice,
                total_score: v.total_score,
                visits: v.visits,
            },
        );
        i += 1;
    }
    assert(options@.take(i as int) =~= options@);
    r
}

impl<I> Tree<I> {
    /// A tree with a root whose moves are all taken as equally likely.
    pub fn new(s1_options: &Vec<MoveChoice>, s2_options: &Vec<MoveChoice>) -> (t: Tree<I>)
        ensures
            tree_ok(t@),
            t@ == seq![
                root_model::<I>(plain_options(s1_options@), plain_options(s2_options@), false),
            ],
    {
        let s1 = list_options(s1_options);
        let s2 = list_options(s2_options);
        Tree::from_root(s1, s2, false)
    }

    /// A tree whose root moves have priors. Where the priors of a player run out,
    /// all that player's moves are taken as equally likely.
    pub fn with_priors(
        s1_options: &Vec<MoveChoice>,
        s2_options: &Vec<MoveChoice>,
        s1_priors: &[Ratio],
        s2_priors: &[Ratio],
    ) -> (t: Tree<I>)
        requires
            priors_fit(s1_priors@),
            priors_fit(s2_priors@),
        ensures
            tree_ok(t@),
            t@ == seq![
                root_model::<I>(
                    guided_options(s1_options@, s1_priors@),
                    guided_options(s2_options@, s2_priors@),
                    true,
                ),
            ],
    {
        let s1 = list_guided_options(s1_options, s1_priors);
        let s2 = list_guided_options(s2_options, s2_priors);
        Tree::from_root(s1, s2, true)
    }

    /// A tree whose root moves have priors where both players' are given. Otherwise
    /// all moves are taken as equally likely, whatever one player's priors are.
    pub fn with_optional_priors(
        s1_options: &Vec<MoveChoice>,
        s2_options: &Vec<MoveChoice>,
        s1_priors: Option<&[Ratio]>,
        s2_priors: Option<&[Ratio]>,
    ) -> (t: Tree<I>)
        requires
            s1_priors matches Some(p1) && s2_priors matches Some(p2) ==> priors_fit(p1@)
                && priors_fit(p2@),
        ensures
            tree_ok(t@),
            t@.len() == 1,
            t@[0] == (match (s1_priors, s2_priors) {
                (Some(p1), Some(p2)) => root_model::<I>(
                    guided_options(s1_options@, p1@),
                    guided_options(s2_options@, p2@),
                    true,
                ),
                _ => root_model::<I>(
                    plain_options(s1_options@),
                    plain_options(s2_options@),
                    false,
                ),
            }),
    {
        match (s1_priors, s2_priors) {
            (Some(p1), Some(p2)) => Tree::with_priors(s1_options, s2_options, p1, p2),
            _ => Tree::new(s1_options, s2_options),
        }
    }

    fn from_root(s1: Vec<MoveNode>, s2: Vec<MoveNode>, use_priors: bool) -> (t: Tree<I>)
        requires
            forall|i: int| 0 <= i < s1@.len() ==> (#[trigger] s1@[i]).wf() && s1@[i].visits == 0,
            forall|i: int| 0 <= i < s2@.len() ==> (#[trigger] s2@[i]).wf() && s2@[i].visits == 0,
        ensures
            tree_ok(t@),
            t@ == seq![root_model::<I>(s1@, s2@, use_priors)],
    {
        let mut nodes: Vec<Node<I>> = Vec::new();
        let ghost list1 = s1@;
        let ghost list2 = s2@;
        nodes.push(
            Node {
                root: true,
                parent: 0,
                children: Vec::new(),
                times_visited: 0,
                instructions: StateInstructions { percentage: 0, instruction_list: Vec::new() },
                s1_choice: 0,
                s2_choice: 0,
                s1_options: Some(s1),
                s2_options: Some(s2),
                use_priors,
            },
        );
        let t = Tree { nodes };
        assert(t@[0] =~= root_model::<I>(list1, list2, use_priors));
        assert(t@ =~= seq![root_model::<I>(list1, list2, use_priors)]);
        assert(node_ok(t@, 0));
        t
    }

    /// How many positions the tree holds.
    pub fn len(&self) -> (n: usize)
        ensures
            n == self@.len(),
    {
        self.nodes.len()
    }

    /// A position of the tree.
    pub fn node(&self, at: usize) -> (n: &Node<I>)
        requires
            at < self@.len(),
        ensures
            n@ == self@[at as int],
    {
        &self.nodes[at]
    }

    /// What the bounds of both players' moves at a position are made of: prior-guided
    /// ones where the position goes by priors, else upper confidence bounds.
    pub fn bounds(&self, at: usize) -> (r: (Vec<Bound>, Vec<Bound>))
        requires
            tree_ok(self@),
            at < self@.len(),
            self@[at as int].s1_options is Some,
        ensures
            are_bounds(self@[at as int].s1_options->0, self@[at as int].use_priors, r.0@),
            are_bounds(self@[at as int].s2_options->0, self@[at as int].use_priors, r.1@),
    {
        proof {
            assert(node_ok(self@, at as int));
        }
        let node = &self.nodes[at];
        assert(node@ == self@[at as int]);
        (
            list_bounds(&node.s1_options, node.use_priors),
            list_bounds(&node.s2_options, node.use_priors),
        )
    }

    /// Lists the moves of a position that was not descended from before.
    pub fn populate(
        &mut self,
        at: usize,
        s1_options: &Vec<MoveChoice>,
        s2_options: &Vec<MoveChoice>,
    )
        requires
            tree_ok(old(self)@),
            at < old(self)@.len(),
            old(self)@[at as int].s1_options is None,
        ensures
            tree_ok(final(self)@),
            final(self)@ == populated(
                old(self)@,
                at as int,
                plain_options(s1_options@),
                plain_options(s2_options@),
            ),
    {
        let s1 = list_options(s1_options);
        let s2 = list_options(s2_options);
        let ghost before = self@;
        let ghost list1 = s1@;
        let ghost list2 = s2@;
        let node = &mut self.nodes[at];
        node.s1_options = Some(s1);
        node.s2_options = Some(s2);
        proof {
            assert(self@ =~= populated(before, at as int, list1, list2));
            lemma_populated_ok(before, at as int, list1, list2);
        }
    }

    /// One level of the descent from `at`: both players take the move with their
    /// best score, and where its outcomes are in the tree one of them is drawn by
    /// its chance.
    pub fn selection(&self, at: usize, s1_scores: &[i64], s2_scores: &[i64]) -> (r: Selected)
        requires
            tree_ok(self@),
            selectable(self@, at as int, s1_scores@, s2_scores@),
        ensures
            selects(self@, at as int, s1_scores@, s2_scores@, r),
            r.s1 < s1_scores@.len(),
            r.s2 < s2_scores@.len(),
    {
        proof {
            assert(node_ok(self@, at as int));
        }
        let node = &self.nodes[at];
        assert(node@ == self@[at as int]);
        let s1: usize = Node::<I>::pick(&node.s1_options, node.use_priors, s1_scores);
        let s2: usize = Node::<I>::pick(&node.s2_options, node.use_priors, s2_scores);
        match node.find_group(s1, s2) {
            Some(a) => {
                let group = node.children[a];
                assert(self@[at as int].children[a as int] == group);
                let child = self.sample_node(at, group);
                assert(drawn_from(self@, self@[at as int].children[a as int], s1, s2, child as int));
                Selected { s1, s2, child: Some(child) }
            },
            None => Selected { s1, s2, child: None },
        }
    }

    /// Draws one of the outcomes in a group by its chance.
    fn sample_node(&self, at: usize, group: ChildGroup) -> (child: usize)
        requires
            group_ok(self@, at as int, group),
            forall|k: int|
                0 <= k < self@.len() ==> 0 <= (#[trigger] self@[k]).percentage <= u64::MAX,
        ensures
            group.first <= child < group.first + group.count,
            self@[child as int].percentage > 0,
            drawn(
                chances(self@, group.first as int, group.count as int),
                child - group.first,
            ),
    {
        let mut weights: Vec<u64> = Vec::new();
        let n: usize = self.nodes.len();
        let mut k: usize = 0;
        while k < group.count
            invariant
                k <= group.count,
                n == self@.len(),
                group_ok(self@, at as int, group),
                weights@ =~= chances(self@, group.first as int, group.count as int).take(k as int),
            decreases group.count - k,
        {
            assert(self@[group.first + k].percentage
                == self.nodes@[group.first + k].instructions.percentage);
            weights.push(self.nodes[group.first + k].instructions.percentage);
            k += 1;
        }
        assert(weights@ =~= chances(self@, group.first as int, group.count as int));
        match draw_weighted(weights.as_slice()) {
            Some(i) => group.first + i,
            None => {
                assert(false);
                group.first
            },
        }
    }

    /// One level of the descent, like [`Tree::selection`], that also counts a
    /// selection in flight for the two moves it picked.
    pub fn selection_with_vloss(
        &mut self,
        at: usize,
        s1_scores: &[i64],
        s2_scores: &[i64],
    ) -> (r: Selected)
        requires
            tree_ok(old(self)@),
            selectable(old(self)@, at as int, s1_scores@, s2_scores@),
            old(self)@[at as int].s1_options matches Some(l) && forall|i: int|
                0 <= i < l.len() ==> (#[trigger] l[i]).pending_visits < u32::MAX,
            old(self)@[at as int].s2_options matches Some(l) && forall|i: int|
                0 <= i < l.len() ==> (#[trigger] l[i]).pending_visits < u32::MAX,
        ensures
            selects(old(self)@, at as int, s1_scores@, s2_scores@, r),
            r.s1 < s1_scores@.len(),
            r.s2 < s2_scores@.len(),
            tree_ok(final(self)@),
            final(self)@ == held(old(self)@, at as int, r.s1 as int, r.s2 as int),
    {
        let r = self.selection(at, s1_scores, s2_scores);
        let ghost before = self@;
        assert(before[at as int] == self.nodes@[at as int]@);
        let node = &mut self.nodes[at];
        reserve(&mut node.s1_options, r.s1);
        reserve(&mut node.s2_options, r.s2);
        proof {
            assert(self@ =~= held(before, at as int, r.s1 as int, r.s2 as int));
            lemma_with_pair_ok(
                before,
                at as int,
                r.s1 as int,
                r.s2 as int,
                |m: MoveNode| reserved(m),
            );
        }
        r
    }

    /// Gives up a selection in flight at one pair of moves.
    pub fn release_pair(&mut self, at: usize, s1: usize, s2: usize)
        requires
            tree_ok(old(self)@),
            at < old(self)@.len(),
            old(self)@[at as int].s1_options matches Some(l) && s1 < l.len(),
            old(self)@[at as int].s2_options matches Some(l) && s2 < l.len(),
        ensures
            tree_ok(final(self)@),
            final(self)@ == let_go(old(self)@, at as int, s1 as int, s2 as int),
    {
        let ghost before = self@;
        assert(before[at as int] == self.nodes@[at as int]@);
        let node = &mut self.nodes[at];
        release(&mut node.s1_options, s1);
        release(&mut node.s2_options, s2);
        proof {
            assert(self@ =~= let_go(before, at as int, s1 as int, s2 as int));
            lemma_with_pair_ok(before, at as int, s1 as int, s2 as int, |m: MoveNode| released(m));
        }
    }

    /// Whether the descent that stopped at `at` with a pair of moves grows the
    /// tree. Nothing grows when the battle is over, except at the root, and when
    /// neither player can do anything. Otherwise the answer says whether damage
    /// rolls are told apart: they are for the first two turns.
    pub fn expansion(&self, at: usize, s1: usize, s2: usize, battle_is_over: bool) -> (r: Option<
        bool,
    >)
        requires
            tree_ok(self@),
            at < self@.len(),
            self@[at as int].s1_options matches Some(l) && s1 < l.len(),
            self@[at as int].s2_options matches Some(l) && s2 < l.len(),
        ensures
            r is None <==> (battle_is_over && at != 0) || ((
            self@[at as int].s1_options->0)[s1 as int].move_choice == MoveChoice::NoMove && (
            self@[at as int].s2_options->0)[s2 as int].move_choice == MoveChoice::NoMove),
            r matches Some(branch) ==> branch == (at == 0 || self@[at as int].parent == 0),
    {
        proof {
            assert(node_ok(self@, at as int));
            assert(self@[at as int] == self.nodes@[at as int]@);
        }
        let node = &self.nodes[at];
        assert(node@ == self@[at as int]);
        let nothing = match (&node.s1_options, &node.s2_options) {
            (Some(l1), Some(l2)) => l1[s1].move_choice == MoveChoice::NoMove
                && l2[s2].move_choice == MoveChoice::NoMove,
            _ => false,
        };
        if (battle_is_over && !node.root) || nothing {
            return None;
        }
        proof {
            assert(node_ok(self@, node@.parent));
            assert(self@[node@.parent] == self.nodes@[node.parent as int]@);
        }
        Some(node.root || self.nodes[node.parent].root)
    }

    /// Hangs the outcomes of a pair of moves below `at`, and draws the one that
    /// the search goes on with.
    pub fn expand(
        &mut self,
        at: usize,
        s1: usize,
        s2: usize,
        outcomes: Vec<StateInstructions<I>>,
    ) -> (child: usize)
        requires
            tree_ok(old(self)@),
            at < old(self)@.len(),
            old(self)@.len() + outcomes@.len() <= usize::MAX,
            old(self)@[at as int].s1_options matches Some(l) && s1 < l.len(),
            old(self)@[at as int].s2_options matches Some(l) && s2 < l.len(),
            !has_group(old(self)@[at as int].children, s1 as int, s2 as int),
            drawable(outcome_chances(outcomes@)),
        ensures
            tree_ok(final(self)@),
            final(self)@ == attached(old(self)@, at as int, s1, s2, outcomes@),
            old(self)@.len() <= child < final(self)@.len(),
            final(self)@[child as int].percentage > 0,
            drawn(outcome_chances(outcomes@), child - old(self)@.len()),
    {
        let ghost before = self@;
        let ghost list = outcomes@;
        let group = ChildGroup { s1, s2, first: self.nodes.len(), count: outcomes.len() };
        let node = &mut self.nodes[at];
        node.children.push(group);
        let ghost start = self@;
        proof {
            assert(start =~= before.update(
                at as int,
                NodeModel { children: before[at as int].children.push(group), ..before[at as int] },
            ));
        }
        for o in it: outcomes.into_iter()
            invariant
                start.len() + list.len() <= usize::MAX,
                it.seq() == list,
                self@ =~= start + Seq::new(
                    it.index() as nat,
                    |k: int| child_of(list[k], at as int, s1 as int, s2 as int),
                ),
        {
            let ghost prev = self@;
            let child = Node::new(at, o, s1, s2);
            self.nodes.push(child);
            proof {
                assert(self@ =~= prev.push(child_of(o, at as int, s1 as int, s2 as int)));
            }
        }
        proof {
            assert(self@ =~= attached(before, at as int, s1, s2, list));
            lemma_attached_ok(before, at as int, s1, s2, list);
            assert(node_ok(self@, at as int));
            assert(self@[at as int].children.last() == group);
            assert(group_ok(self@, at as int, group));
            assert(chances(self@, group.first as int, group.count as int) =~= outcome_chances(list));
            assert forall|k: int| 0 <= k < self@.len() implies 0 <= (
            #[trigger] self@[k]).percentage <= u64::MAX by {
                assert(node_ok(self@, k));
            }
        }
        self.sample_node(at, group)
    }

    /// Hands the result `score` at `leaf` up to the root. What the first player
    /// earned the second one lost. Gives back the nodes below the root on the way,
    /// from `leaf` upwards: what led to them is to be taken back in this order.
    pub fn backpropagate(&mut self, leaf: usize, score: u64) -> (way: Vec<usize>)
        requires
            tree_ok(old(self)@),
            leaf < old(self)@.len(),
            score <= SCORE_ONE,
            old(self)@[0].times_visited < u32::MAX,
        ensures
            tree_ok(final(self)@),
            final(self)@ == backed_up(old(self)@, leaf as int, score as int, false),
            way@ == way_up(old(self)@, leaf as int),
    {
        self.hand_up(leaf, score, false)
    }

    /// Hands the result `score` at `leaf` up to the root, and settles the
    /// selections in flight on the way.
    pub fn backpropagate_no_reverse(&mut self, leaf: usize, score: u64)
        requires
            tree_ok(old(self)@),
            leaf < old(self)@.len(),
            score <= SCORE_ONE,
            old(self)@[0].times_visited < u32::MAX,
        ensures
            tree_ok(final(self)@),
            final(self)@ == backed_up(old(self)@, leaf as int, score as int, true),
    {
        let _ = self.hand_up(leaf, score, true);
    }

    fn hand_up(&mut self, leaf: usize, score: u64, release: bool) -> (way: Vec<usize>)
        requires
            tree_ok(old(self)@),
            leaf < old(self)@.len(),
            score <= SCORE_ONE,
            old(self)@[0].times_visited < u32::MAX,
        ensures
            tree_ok(final(self)@),
            final(self)@ == backed_up(old(self)@, leaf as int, score as int, release),
            way@ == way_up(old(self)@, leaf as int),
    {
        let ghost start = self@;
        let mut way: Vec<usize> = Vec::new();
        let mut cur: usize = leaf;
        proof {
            assert forall|k: int| leaf < k < start.len() implies #[trigger] self@[k]
                == backed_up_node(start, k, leaf as int, score as int, release) by {
                if on_path(start, k, leaf as int) {
                    lemma_on_path_bound(start, k, leaf as int);
                }
            }
        }
        loop
            invariant_except_break
                tree_ok(start),
                start.len() == self@.len(),
                leaf < start.len(),
                cur <= leaf,
                score <= SCORE_ONE,
                start[0].times_visited < u32::MAX,
                on_path(start, cur as int, leaf as int),
                forall|k: int|
                    cur < k < start.len() ==> #[trigger] self@[k] == backed_up_node(
                        start,
                        k,
                        leaf as int,
                        score as int,
                        release,
                    ),
                self@[cur as int] == (NodeModel {
                    times_visited: start[cur as int].times_visited,
                    ..backed_up_node(start, cur as int, leaf as int, score as int, release)
                }),
                forall|k: int| 0 <= k < cur ==> #[trigger] self@[k] == start[k],
                way_up(start, leaf as int) == way@ + way_up(start, cur as int),
            ensures
                self@ =~= backed_up(start, leaf as int, score as int, release),
                way@ =~= way_up(start, leaf as int),
            decreases cur,
        {
            proof {
                assert(node_ok(start, cur as int));
                lemma_root_most_visited(start, cur as int);
                assert(self@[cur as int] == self.nodes@[cur as int]@);
            }
            let ghost prev = self@;
            let node = &mut self.nodes[cur];
            node.times_visited = node.times_visited + 1;
            let root = node.root;
            let parent = node.parent;
            let s1_choice = node.s1_choice;
            let s2_choice = node.s2_choice;
            let ghost bumped = prev.update(
                cur as int,
                NodeModel { times_visited: prev[cur as int].times_visited + 1, ..prev[cur as int] },
            );
            assert(self@ =~= bumped);
            if root {
                proof {
                    assert(way_up(start, 0) =~= Seq::<usize>::empty());
                }
                break;
            }
            proof {
                lemma_path_up(start, cur as int, leaf as int);
                assert(hangs_ok(start, cur as int));
                assert(node_ok(start, parent as int));
                lemma_root_most_visited(start, parent as int);
                assert(self@[parent as int] == start[parent as int]);
                assert(self@[parent as int] == self.nodes@[parent as int]@);
            }
            let up = &mut self.nodes[parent];
            credit(&mut up.s1_options, s1_choice, score, release);
            credit(&mut up.s2_options, s2_choice, SCORE_ONE - score, release);
            way.push(cur);
            proof {
                let c1 = |m: MoveNode| credited(m, score as int, release);
                let c2 = |m: MoveNode| credited(m, SCORE_ONE - score, release);
                assert(self@ =~= bumped.update(
                    parent as int,
                    NodeModel {
                        s1_options: with_move(start[parent as int].s1_options, s1_choice as int, c1),
                        s2_options: with_move(start[parent as int].s2_options, s2_choice as int, c2),
                        ..start[parent as int]
                    },
                ));
                assert forall|k: int| parent < k < start.len() implies #[trigger] self@[k]
                    == backed_up_node(start, k, leaf as int, score as int, release) by {
                    if k < cur {
                        assert(!on_path(start, k, leaf as int));
                    }
                }
            }
            cur = parent;
        }
        proof {
            lemma_backed_up_ok(start, leaf as int, score as int, release);
        }
        way
    }

    /// What the search found out about the moves at the root.
    pub fn result(&self) -> (r: MctsResult)
        requires
            tree_ok(self@),
            self@[0].s1_options is Some,
        ensures
            r.s1@ == (self@[0].s1_options->0).map_values(|m: MoveNode| reported(m)),
            r.s2@ == (self@[0].s2_options->0).map_values(|m: MoveNode| reported(m)),
            r.iteration_count == self@[0].times_visited,
    {
        proof {
            assert(node_ok(self@, 0));
            assert(self@[0] == self.nodes@[0]@);
        }
        let root = &self.nodes[0];
        let s1 = match &root.s1_options {
            Some(l) => report(l),
            None => Vec::new(),
        };
        let s2 = match &root.s2_options {
            Some(l) => report(l),
            None => Vec::new(),
        };
        MctsResult { s1, s2, iteration_count: root.times_visited }
    }
}

/// The nodes below the root on the way to `leaf`, from `leaf` upwards.
pub open spec fn way_up<I>(nodes: Seq<NodeModel<I>>, leaf: int) -> Seq<usize>
    decreases leaf,
{
    if leaf <= 0 || !(0 <= nodes[leaf].parent < leaf) {
        Seq::empty()
    } else {
        seq![leaf as usize] + way_up(nodes, nodes[leaf].parent)
    }
}

} // verus!
