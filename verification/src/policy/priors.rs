//! From the policy network's ratings of actions to priors of moves.
#[allow(unused_imports)]
use crate::mcts::node::{priors_fit, PRIOR_LIMIT};
#[allow(unused_imports)]
use crate::mcts::sampling::weight_sum;
use crate::numbers::Ratio;
#[allow(unused_imports)]
use crate::numbers::{
    lemma_add_over, lemma_cancel, lemma_order_over, lemma_over_one, lemma_zero_over, total,
};
use crate::policy::v2::N_ACTIONS;
#[allow(unused_imports)]
use crate::state::{MOVE_SLOTS, TEAM_SIZE};
use crate::state::MoveChoice;
use vstd::prelude::*;

verus! {

/// The fixed-point number that stands for certainty.
pub const PROB_ONE: u64 = 1_000_000_000;

/// The rating of a move that the network does not know: one hundredth.
pub const UNRATED: u64 = 10_000_000;

/// The action that a move is to the network: the four moves come first, then the
/// five team members on the bench. Doing nothing counts as the first move.
pub open spec fn action_of(choice: MoveChoice, active_index: int) -> int {
    match choice {
        MoveChoice::Move(i) => i as int,
        MoveChoice::MoveTera(i) => i as int,
        MoveChoice::MoveMega(i) => i as int,
        MoveChoice::Switch(t) => if t < active_index {
            4 + t
        } else {
            3 + t
        },
        MoveChoice::NoMove => 0,
    }
}

/// The network's rating of a move.
pub open spec fn rating(probs: Seq<u64>, choice: MoveChoice, active_index: int) -> u64 {
    let a = action_of(choice, active_index);
    if a < probs.len() {
        probs[a]
    } else {
        UNRATED
    }
}

/// The network's ratings of all options.
pub open spec fn ratings(
    probs: Seq<u64>,
    options: Seq<MoveChoice>,
    active_index: int,
) -> Seq<u64> {
    Seq::new(options.len(), |i: int| rating(probs, options[i], active_index))
}

/// Weights as shares of their sum. Where the sum is zero, so are the shares.
pub open spec fn shares(weights: Seq<u64>) -> Seq<Ratio> {
    Seq::new(
        weights.len(),
        |i: int|
            Ratio {
                num: weights[i] as i128,
                den: if weight_sum(weights) > 0 {
                    weight_sum(weights) as i128
                } else {
                    1
                },
            },
    )
}

/// Weights as shares of their sum, as a softmax takes its exponentials. There are
/// less than 2^25 of them.
pub fn shares_of(weights: &[u64]) -> (r: Vec<Ratio>)
    requires
        weights@.len() < 0x200_0000,
    ensures
        r@ == shares(weights@),
        priors_fit(r@),
{
    let mut sum: i128 = 0;
    let mut i: usize = 0;
    while i < weights.len()
        invariant
            i <= weights@.len() < 0x200_0000,
            sum == weight_sum(weights@.take(i as int)),
            0 <= sum <= i * u64::MAX,
        decreases weights@.len() - i,
    {
        assert(weights@.take(i + 1).drop_last() =~= weights@.take(i as int));
        sum = sum + weights[i] as i128;
        i += 1;
    }
    assert(weights@.take(i as int) =~= weights@);
    let den: i128 = if sum > 0 {
        sum
    } else {
        1
    };
    let mut r: Vec<Ratio> = Vec::new();
    let mut k: usize = 0;
    while k < weights.len()
        invariant
            k <= weights@.len(),
            den == if weight_sum(weights@) > 0 {
                weight_sum(weights@)
            } else {
                1
            },
            0 < den < PRIOR_LIMIT,
            r@ =~= shares(weights@).take(k as int),
            priors_fit(r@),
        decreases weights@.len() - k,
    {
        r.push(Ratio::new(weights[k] as i128, den));
        k += 1;
    }
    r
}

/// The priors of the options, from the network's ratings of actions. A move that
/// the network does not know is rated one hundredth, and all ratings are scaled to
/// add up to one. There are less than 2^25 options.
pub fn map_priors_to_options(
    probs: &[u64],
    options: &[MoveChoice],
    active_index: usize,
) -> (r: Vec<Ratio>)
    requires
        options@.len() < 0x200_0000,
    ensures
        r@ == shares(ratings(probs@, options@, active_index as int)),
        priors_fit(r@),
{
    let mut rated: Vec<u64> = Vec::new();
    let n: u128 = probs.len() as u128;
    let mut i: usize = 0;
    while i < options.len()
        invariant
            i <= options@.len(),
            n == probs@.len(),
            rated@ =~= ratings(probs@, options@, active_index as int).take(i as int),
        decreases options@.len() - i,
    {
        let idx: u128 = match options[i] {
            MoveChoice::Move(m) => m as u128,
            MoveChoice::MoveTera(m) => m as u128,
            MoveChoice::MoveMega(m) => m as u128,
            MoveChoice::Switch(target) => if target < active_index {
                4 + target as u128
            } else {
                3 + target as u128
            },
            MoveChoice::NoMove => 0,
        };
        let p: u64 = if idx < n {
            probs[idx as usize]
        } else {
            UNRATED
        };
        rated.push(p);
        i += 1;
    }
    assert(rated@ =~= ratings(probs@, options@, active_index as int));
    shares_of(rated.as_slice())
}

/// The priors add up to one as soon as the network rates any option above zero.
pub proof fn law_priors_add_up_to_one(weights: Seq<u64>)
    requires
        0 < weight_sum(weights) < PRIOR_LIMIT,
    ensures
        total(shares(weights)) == 1 as real,
{
    let d = weight_sum(weights);
    lemma_partial_total(weights, d, weights.len() as int);
    assert(shares(weights).take(weights.len() as int) =~= shares(weights));
    assert(weights.take(weights.len() as int) =~= weights);
    lemma_cancel(1, 1, d);
    lemma_over_one(1);
}

proof fn lemma_partial_total(weights: Seq<u64>, d: int, n: int)
    requires
        0 < d < PRIOR_LIMIT,
        d == weight_sum(weights),
        0 <= n <= weights.len(),
    ensures
        total(shares(weights).take(n)) == weight_sum(weights.take(n)) as real / d as real,
    decreases n,
{
    if n == 0 {
        assert(shares(weights).take(0) =~= Seq::<Ratio>::empty());
        assert(weights.take(0) =~= Seq::<u64>::empty());
        lemma_zero_over(d);
    } else {
        lemma_partial_total(weights, d, n - 1);
        assert(shares(weights).take(n).drop_last() =~= shares(weights).take(n - 1));
        assert(weights.take(n).drop_last() =~= weights.take(n - 1));
        lemma_add_over(weight_sum(weights.take(n - 1)), weights[n - 1] as int, d);
        assert(shares(weights)[n - 1]@ == weights[n - 1] as int as real / d as real);
    }
}

/// A higher weight gives a higher share.
pub proof fn law_shares_keep_the_order(weights: Seq<u64>, i: int, j: int)
    requires
        0 < weight_sum(weights) < PRIOR_LIMIT,
        0 <= i < weights.len(),
        0 <= j < weights.len(),
    ensures
        weights[i] < weights[j] <==> shares(weights)[i]@ < shares(weights)[j]@,
{
    lemma_order_over(weights[i] as int, weights[j] as int, weight_sum(weights));
}

/// The four moves and the five team members on the bench are different actions, and
/// the network rates all of them.
pub proof fn law_actions_are_told_apart(
    active_index: int,
    i: usize,
    j: usize,
    t: usize,
    u: usize,
)
    requires
        0 <= active_index < TEAM_SIZE,
        i < MOVE_SLOTS,
        j < MOVE_SLOTS,
        i != j,
        t < TEAM_SIZE,
        u < TEAM_SIZE,
        t != active_index,
        u != active_index,
        t != u,
    ensures
        action_of(MoveChoice::Move(i), active_index) != action_of(
            MoveChoice::Move(j),
            active_index,
        ),
        action_of(MoveChoice::Switch(t), active_index) != action_of(
            MoveChoice::Switch(u),
            active_index,
        ),
        action_of(MoveChoice::Move(i), active_index) != action_of(
            MoveChoice::Switch(t),
            active_index,
        ),
        0 <= action_of(MoveChoice::Move(i), active_index) < N_ACTIONS,
        0 <= action_of(MoveChoice::Switch(t), active_index) < N_ACTIONS,
{
}

/// The network's ratings are, in their order, those of the four moves and of the five team
/// members who are not out; a terastallized or mega-evolved move is rated as the plain one,
/// and what lies beyond the ratings counts one hundredth, which is ten million billionths.
pub proof fn law_ratings_belong_to_actions(
    probs: Seq<u64>,
    active_index: int,
    i: usize,
    t: usize,
)
    requires
        0 <= active_index < 6,
        t != active_index,
    ensures
        i < probs.len() ==> {
            &&& rating(probs, MoveChoice::Move(i), active_index) == probs[i as int]
            &&& rating(probs, MoveChoice::MoveTera(i), active_index) == probs[i as int]
            &&& rating(probs, MoveChoice::MoveMega(i), active_index) == probs[i as int]
        },
        i >= probs.len() ==> rating(probs, MoveChoice::Move(i), active_index) == 10000000,
        t < active_index && 4 + t < probs.len() ==> rating(
            probs,
            MoveChoice::Switch(t),
            active_index,
        ) == probs[4 + t],
        t > active_index && 3 + t < probs.len() ==> rating(
            probs,
            MoveChoice::Switch(t),
            active_index,
        ) == probs[3 + t],
        t > active_index && 3 + t >= probs.len() ==> rating(
            probs,
            MoveChoice::Switch(t),
            active_index,
        ) == 10000000,
        probs.len() > 0 ==> rating(probs, MoveChoice::NoMove, active_index) == probs[0],
{
}

/// The prior of an option, times the sum of all ratings, is its rating.
pub proof fn law_priors_are_shares_of_the_ratings(
    probs: Seq<u64>,
    options: Seq<MoveChoice>,
    active_index: int,
    k: int,
)
    requires
        0 <= k < options.len(),
        0 < weight_sum(ratings(probs, options, active_index)) < PRIOR_LIMIT,
    ensures
        shares(ratings(probs, options, active_index)).len() == options.len(),
        shares(ratings(probs, options, active_index))[k]@ * weight_sum(
            ratings(probs, options, active_index),
        ) as real == rating(probs, options[k], active_index) as real,
{
    let d = weight_sum(ratings(probs, options, active_index));
    let (x, y): (real, real) = (rating(probs, options[k], active_index) as real, d as real);
    assert((x / y) * y == x) by (nonlinear_arith)
        requires
            y > 0 as real,
    ;
}

} // verus!
