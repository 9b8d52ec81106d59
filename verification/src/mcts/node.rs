//! What the search remembers of a position and of the moves tried there.
use crate::numbers::Ratio;
#[allow(unused_imports)]
use crate::numbers::over;
use crate::state::MoveChoice;
use vstd::prelude::*;

verus! {

/// The fixed-point number that stands for a sure win of the first player.
pub const SCORE_ONE: u64 = 0x1_0000_0000;

/// Priors are fractions whose parts stay below this bound.
pub const PRIOR_LIMIT: i128 = 0x400_0000_0000_0000_0000_0000;

/// Statistics of one move of one player at one position.
#[derive(Clone, Copy, Debug, PartialEq, Eq, Structural)]
pub struct MoveNode {
    pub move_choice: MoveChoice,
    /// Sum of the results seen after this move, in units of [`SCORE_ONE`].
    pub total_score: u64,
    pub visits: u32,
    pub prior: Ratio,
    /// Selections in flight: they picked this move and their result is not in
    /// yet. They count as visits that scored nothing, so that concurrent
    /// selections spread over the moves.
    pub pending_visits: u32,
}

/// A prior whose arithmetic stays in range.
pub open spec fn prior_fits(p: Ratio) -> bool {
    &&& 0 < p.den < PRIOR_LIMIT
    &&& -PRIOR_LIMIT < p.num < PRIOR_LIMIT
}

/// Priors whose arithmetic stays in range.
pub open spec fn priors_fit(priors: Seq<Ratio>) -> bool {
    forall|i: int| 0 <= i < priors.len() ==> prior_fits(#[trigger] priors[i])
}

/// A move that nobody has tried.
pub open spec fn fresh(choice: MoveChoice, prior: Ratio) -> MoveNode {
    MoveNode { move_choice: choice, total_score: 0, visits: 0, prior, pending_visits: 0 }
}

/// The prior of every move when nothing is known: all are equally likely.
pub open spec fn uniform(n: int) -> Ratio {
    Ratio { num: 1, den: n as i128 }
}

/// Visits and selections in flight.
pub open spec fn effective_visits(m: MoveNode) -> int {
    m.visits + m.pending_visits
}

/// The mean result of a move, where selections in flight count as losses.
pub open spec fn mean(m: MoveNode) -> real {
    over(m.total_score as int, SCORE_ONE * effective_visits(m))
}

/// What the upper confidence bound `mean + sqrt(2 ln(parent visits) / visits)` of a
/// move is made of.
#[derive(Clone, Copy, Debug, PartialEq, Eq, Structural)]
pub struct Ucb {
    pub mean: Ratio,
    pub visits: u64,
}

/// The bound `q + weight * sqrt(parent visits)` in two exact parts.
#[derive(Clone, Copy, Debug, PartialEq, Eq, Structural)]
pub struct Puct {
    pub q: Ratio,
    pub weight: Ratio,
}

/// `u` is what the upper confidence bound of a move that was picked is made of.
pub open spec fn ucb_of(m: MoveNode, u: Ucb) -> bool {
    &&& u.visits == effective_visits(m)
    &&& u.mean.wf()
    &&& u.mean@ == mean(m)
}

/// `p` is what the prior-guided bound of a move is made of. A move that was never
/// picked starts from one half.
pub open spec fn puct_of(m: MoveNode, p: Puct) -> bool {
    &&& p.q.wf()
    &&& p.weight.wf()
    &&& p.q@ == (if effective_visits(m) == 0 {
        over(1, 2)
    } else {
        mean(m)
    })
    &&& p.weight@ == over(2 * m.prior.num, m.prior.den * (1 + effective_visits(m)))
}

/// What the bound of a move is made of.
#[derive(Clone, Copy, Debug, PartialEq, Eq, Structural)]
pub enum Bound {
    /// The move was never picked and there are no priors: the bound is infinite.
    Untried,
    Upper(Ucb),
    Guided(Puct),
}

/// `b` is what the bound of a move is made of. With priors it is the prior-guided
/// bound; without, it is the upper confidence bound, infinite for a move that was
/// never picked.
pub open spec fn bound_of(m: MoveNode, use_priors: bool, b: Bound) -> bool {
    match b {
        Bound::Untried => !use_priors && effective_visits(m) == 0,
        Bound::Upper(u) => !use_priors && effective_visits(m) > 0 && ucb_of(m, u),
        Bound::Guided(p) => use_priors && puct_of(m, p),
    }
}

impl MoveNode {
    /// No result was counted that was not a visit, none above a sure win, and
    /// the prior is in range.
    pub open spec fn wf(self) -> bool {
        &&& self.total_score <= self.visits * SCORE_ONE
        &&& prior_fits(self.prior)
    }

    /// A move that nobody has tried.
    pub fn new(choice: MoveChoice, prior: Ratio) -> (r: MoveNode)
        requires
            prior_fits(prior),
        ensures
            r.wf(),
            r == fresh(choice, prior),
    {
        MoveNode { move_choice: choice, total_score: 0, visits: 0, prior, pending_visits: 0 }
    }

    /// What the upper confidence bound `mean + sqrt(2 ln(parent visits) / visits)`
    /// of this move is made of. A move that was never picked has an infinite
    /// bound, and no parts.
    pub fn ucb1(&self) -> (r: Option<Ucb>)
        requires
            self.wf(),
        ensures
            r is None <==> effective_visits(*self) == 0,
            r matches Some(u) ==> ucb_of(*self, u),
    {
        let eff_visits: u64 = self.visits as u64 + self.pending_visits as u64;
        if eff_visits == 0 {
            return None;
        }
        Some(
            Ucb {
                mean: Ratio::new(self.total_score as i128, SCORE_ONE as i128 * eff_visits as i128),
                visits: eff_visits,
            },
        )
    }

    /// What the prior-guided bound `q + 2 prior sqrt(parent visits) / (1 + visits)`
    /// of this move is made of. A move that was never picked starts from one half.
    pub fn puct(&self) -> (r: Puct)
        requires
            self.wf(),
        ensures
            puct_of(*self, r),
    {
        let eff_visits: u64 = self.visits as u64 + self.pending_visits as u64;
        let q = match self.ucb1() {
            None => Ratio::new(1, 2),
            Some(u) => u.mean,
        };
        let den: i128 = self.prior.den;
        let count: i128 = 1 + eff_visits as i128;
        assert(0 < den * count < 0x4_0000_0000 * PRIOR_LIMIT) by (nonlinear_arith)
            requires
                0 < den < PRIOR_LIMIT,
                0 < count < 0x4_0000_0000,
        ;
        Puct { q, weight: Ratio::new(2 * self.prior.num, den * count) }
    }

    /// What the bound of this move is made of, with priors or without.
    pub fn bound(&self, use_priors: bool) -> (r: Bound)
        requires
            self.wf(),
        ensures
            bound_of(*self, use_priors, r),
    {
        if use_priors {
            return Bound::Guided(self.puct());
        }
        match self.ucb1() {
            None => Bound::Untried,
            Some(u) => Bound::Upper(u),
        }
    }

    /// The mean result over the visits that came back; none without a visit.
    pub fn average_score(&self) -> (r: Option<Ratio>)
        requires
            self.wf(),
        ensures
            r is None <==> self.visits == 0,
            r matches Some(m) ==> m.wf() && m@ == over(
                self.total_score as int,
                SCORE_ONE * self.visits,
            ),
    {
        if self.visits == 0 {
            return None;
        }
        Some(Ratio::new(self.total_score as i128, SCORE_ONE as i128 * self.visits as i128))
    }
}

/// What the search found out about one move.
#[derive(Clone, Copy, Debug, PartialEq, Eq, Structural)]
pub struct MctsSideResult {
    pub move_choice: MoveChoice,
    pub total_score: u64,
    pub visits: u32,
}

/// The part of a move's statistics that is reported.
pub open spec fn reported(m: MoveNode) -> MctsSideResult {
    MctsSideResult { move_choice: m.move_choice, total_score: m.total_score, visits: m.visits }
}

impl MctsSideResult {
    /// The mean result of the move, zero without a visit.
    pub fn average_score(&self) -> (r: Ratio)
        ensures
            r.wf(),
            r@ == (if self.visits == 0 {
                0 as real
            } else {
                over(self.total_score as int, SCORE_ONE * self.visits)
            }),
    {
        if self.visits == 0 {
            return Ratio::whole(0);
        }
        Ratio::new(self.total_score as i128, SCORE_ONE as i128 * self.visits as i128)
    }
}

/// What the search found out about the moves of both players.
#[derive(Clone, Debug)]
pub struct MctsResult {
    pub s1: Vec<MctsSideResult>,
    pub s2: Vec<MctsSideResult>,
    pub iteration_count: u32,
}

/// One outcome of a turn: its chance in billionths of a percent, and what
/// happens to the position.
#[derive(Clone, Debug)]
pub struct StateInstructions<I> {
    pub percentage: u64,
    pub instruction_list: Vec<I>,
}

/// The outcomes of one pair of moves: `count` nodes from `first` on.
#[derive(Clone, Copy, Debug, PartialEq, Eq, Structural)]
pub struct ChildGroup {
    pub s1: usize,
    pub s2: usize,
    pub first: usize,
    pub count: usize,
}

/// A position in the search tree.
#[derive(Debug)]
pub struct Node<I> {
    pub root: bool,
    /// Where the parent stands in the tree; the root names itself.
    pub parent: usize,
    pub children: Vec<ChildGroup>,
    pub times_visited: u32,
    /// What led here from the parent.
    pub instructions: StateInstructions<I>,
    pub s1_choice: usize,
    pub s2_choice: usize,
    /// Statistics of the moves, kept apart for the two players.
    pub s1_options: Option<Vec<MoveNode>>,
    pub s2_options: Option<Vec<MoveNode>>,
    pub use_priors: bool,
}

/// A position in the search tree, in mathematical terms.
#[verifier::ext_equal]
pub struct NodeModel<I> {
    pub root: bool,
    pub parent: int,
    pub children: Seq<ChildGroup>,
    pub times_visited: int,
    pub percentage: int,
    pub instructions: Seq<I>,
    pub s1_choice: int,
    pub s2_choice: int,
    pub s1_options: Option<Seq<MoveNode>>,
    pub s2_options: Option<Seq<MoveNode>>,
    pub use_priors: bool,
}

/// The moves in a list that may not be there.
pub open spec fn listed(v: Option<Vec<MoveNode>>) -> Option<Seq<MoveNode>> {
    match v {
        Some(l) => Some(l@),
        None => None,
    }
}

impl<I> View for Node<I> {
    type V = NodeModel<I>;

    open spec fn view(&self) -> NodeModel<I> {
        NodeModel {
            root: self.root,
            parent: self.parent as int,
            children: self.children@,
            times_visited: self.times_visited as int,
            percentage: self.instructions.percentage as int,
            instructions: self.instructions.instruction_list@,
            s1_choice: self.s1_choice as int,
            s2_choice: self.s2_choice as int,
            s1_options: listed(self.s1_options),
            s2_options: listed(self.s2_options),
            use_priors: self.use_priors,
        }
    }
}

/// A position that nothing is known of yet.
pub open spec fn blank<I>(
    parent: int,
    percentage: int,
    instructions: Seq<I>,
    s1_choice: int,
    s2_choice: int,
) -> NodeModel<I> {
    NodeModel {
        root: false,
        parent,
        children: Seq::empty(),
        times_visited: 0,
        percentage,
        instructions,
        s1_choice,
        s2_choice,
        s1_options: None,
        s2_options: None,
        use_priors: false,
    }
}

/// The options of a player without priors: all equally likely.
pub open spec fn plain_options(choices: Seq<MoveChoice>) -> Seq<MoveNode> {
    Seq::new(choices.len(), |i: int| fresh(choices[i], uniform(choices.len() as int)))
}

/// The options of a player with priors. Where the priors run out, all moves are
/// taken as equally likely.
pub open spec fn guided_options(choices: Seq<MoveChoice>, priors: Seq<Ratio>) -> Seq<MoveNode> {
    Seq::new(
        choices.len(),
        |i: int|
            fresh(
                choices[i],
                if i < priors.len() {
                    priors[i]
                } else {
                    uniform(choices.len() as int)
                },
            ),
    )
}

/// Fresh statistics for the given moves.
pub(crate) fn list_options(choices: &Vec<MoveChoice>) -> (r: Vec<MoveNode>)
    ensures
        r@ == plain_options(choices@),
        forall|i: int| 0 <= i < r@.len() ==> (#[trigger] r@[i]).wf(),
{
    let priors: Vec<Ratio> = Vec::new();
    let r = list_guided_options(choices, priors.as_slice());
    assert(guided_options(choices@, priors@) =~= plain_options(choices@));
    r
}

/// Fresh statistics for the given moves, with priors as far as they reach.
pub(crate) fn list_guided_options(choices: &Vec<MoveChoice>, priors: &[Ratio]) -> (r: Vec<MoveNode>)
    requires
        priors_fit(priors@),
    ensures
        r@ == guided_options(choices@, priors@),
        forall|i: int| 0 <= i < r@.len() ==> (#[trigger] r@[i]).wf(),
{
    let mut r: Vec<MoveNode> = Vec::new();
    let mut i: usize = 0;
    while i < choices.len()
        invariant
            i <= choices@.len(),
            priors_fit(priors@),
            r@ =~= guided_options(choices@, priors@).take(i as int),
            forall|k: int| 0 <= k < r@.len() ==> (#[trigger] r@[k]).wf(),
        decreases choices@.len() - i,
    {
        let prior = if i < priors.len() {
            priors[i]
        } else {
            Ratio::new(1, choices.len() as i128)
        };
        r.push(MoveNode::new(choices[i], prior));
        i += 1;
    }
    r
}

} // verus!
