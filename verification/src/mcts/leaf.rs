//! The result of a search iteration: the outcome of the battle where it is over,
//! else a mixture of a value network's estimate and the evaluation.
use crate::mcts::node::SCORE_ONE;
use vstd::prelude::*;

verus! {

/// How a value network's estimate enters the result. The weight `alpha` is in
/// units of [`SCORE_ONE`].
#[derive(Clone, Copy, Debug, PartialEq, Eq, Structural)]
pub struct Mixing {
    pub alpha: i64,
    /// Take the estimate as a correction of the evaluation, not as a share of a
    /// weighted mean.
    pub residual: bool,
}

/// The result of a battle that is over: a sure win or a sure loss of the first
/// player.
pub open spec fn outcome_score(battle_is_over: int) -> int {
    if battle_is_over == -1 {
        0
    } else {
        battle_is_over * SCORE_ONE
    }
}

/// The weighted mean of an estimate and the evaluation, rounded down.
pub open spec fn blend(alpha: int, value: int, heuristic: int) -> int {
    (alpha * value + (SCORE_ONE - alpha) * heuristic) / SCORE_ONE as int
}

/// `x`, or the bound that it exceeds.
pub open spec fn clamped(x: int, low: int, high: int) -> int {
    if x < low {
        low
    } else if x > high {
        high
    } else {
        x
    }
}

/// The evaluation corrected by an estimate around one half, held between a sure
/// loss and a sure win and rounded down.
pub open spec fn corrected(alpha: int, value: int, heuristic: int) -> int {
    clamped(
        heuristic * SCORE_ONE + alpha * (2 * value - SCORE_ONE),
        0,
        SCORE_ONE * SCORE_ONE,
    ) / SCORE_ONE as int
}

/// The network's estimate enters the result.
pub open spec fn wants_value(battle_is_over: int, mix: Mixing) -> bool {
    battle_is_over == 0 && (mix.alpha > 0 || mix.residual)
}

/// The evaluation enters the result.
pub open spec fn wants_heuristic(battle_is_over: int, mix: Mixing) -> bool {
    battle_is_over == 0 && (mix.alpha < SCORE_ONE || mix.residual)
}

/// The result at a leaf. `value` is the network's estimate and `heuristic` the
/// evaluation, both between a sure loss and a sure win.
pub open spec fn leaf_score(battle_is_over: int, mix: Mixing, value: int, heuristic: int) -> int {
    if battle_is_over != 0 {
        outcome_score(battle_is_over)
    } else if mix.residual {
        corrected(mix.alpha as int, value, heuristic)
    } else if mix.alpha >= SCORE_ONE {
        value
    } else if mix.alpha <= 0 {
        heuristic
    } else {
        blend(mix.alpha as int, value, heuristic)
    }
}

/// The result of a battle that is over; none while it goes on, when the position
/// has to be evaluated. One is a win of the first player, minus one a loss.
pub fn rollout(battle_is_over: i8) -> (r: Option<u64>)
    requires
        -1 <= battle_is_over <= 1,
    ensures
        r is None <==> battle_is_over == 0,
        r matches Some(s) ==> s == outcome_score(battle_is_over as int) && s <= SCORE_ONE,
{
    if battle_is_over == 0 {
        None
    } else if battle_is_over == -1 {
        Some(0)
    } else {
        Some(SCORE_ONE)
    }
}

/// Whether the network has to be asked about a leaf.
pub fn needs_value(battle_is_over: i8, mix: Mixing) -> (r: bool)
    ensures
        r == wants_value(battle_is_over as int, mix),
{
    battle_is_over == 0 && (mix.alpha > 0 || mix.residual)
}

/// Whether a leaf has to be evaluated.
pub fn needs_heuristic(battle_is_over: i8, mix: Mixing) -> (r: bool)
    ensures
        r == wants_heuristic(battle_is_over as int, mix),
{
    battle_is_over == 0 && (mix.alpha < SCORE_ONE as i64 || mix.residual)
}

/// The result at a leaf. An estimate or evaluation that does not enter it is
/// ignored.
pub fn score_leaf(battle_is_over: i8, mix: Mixing, value: u64, heuristic: u64) -> (r: u64)
    requires
        -1 <= battle_is_over <= 1,
        value <= SCORE_ONE,
        heuristic <= SCORE_ONE,
    ensures
        r == leaf_score(battle_is_over as int, mix, value as int, heuristic as int),
        r <= SCORE_ONE,
{
    if let Some(s) = rollout(battle_is_over) {
        return s;
    }
    let one: i128 = SCORE_ONE as i128;
    let alpha: i128 = mix.alpha as i128;
    let v: i128 = value as i128;
    let h: i128 = heuristic as i128;
    if mix.residual {
        let shift: i128 = 2 * v - one;
        assert(-0x1_0000_0000_0000_0000_0000_0000 <= alpha * shift
            <= 0x1_0000_0000_0000_0000_0000_0000) by (nonlinear_arith)
            requires
                -0x1_0000_0000 <= shift <= 0x1_0000_0000,
                -0x8000_0000_0000_0000 <= alpha <= 0x7fff_ffff_ffff_ffff,
        ;
        let raw: i128 = h * one + alpha * shift;
        let held: i128 = if raw < 0 {
            0
        } else if raw > one * one {
            one * one
        } else {
            raw
        };
        (held / one) as u64
    } else if alpha >= one {
        value
    } else if alpha <= 0 {
        heuristic
    } else {
        assert(0 <= alpha * v <= alpha * 0x1_0000_0000) by (nonlinear_arith)
            requires
                0 <= v <= 0x1_0000_0000,
                0 < alpha,
        ;
        let rest: i128 = one - alpha;
        assert(0 <= rest * h <= rest * 0x1_0000_0000) by (nonlinear_arith)
            requires
                0 <= h <= 0x1_0000_0000,
                0 <= rest,
        ;
        let sum: i128 = alpha * v + rest * h;
        assert(0 <= sum <= one * one);
        (sum / one) as u64
    }
}

/// Without a correction, a result lies between the estimate and the evaluation
/// that it is mixed from.
pub proof fn law_blend_lies_between(alpha: int, value: int, heuristic: int)
    requires
        0 <= alpha <= SCORE_ONE,
    ensures
        value <= heuristic ==> value <= blend(alpha, value, heuristic) <= heuristic,
        heuristic <= value ==> heuristic <= blend(alpha, value, heuristic) <= value,
{
    let one = SCORE_ONE as int;
    let sum = alpha * value + (one - alpha) * heuristic;
    let low = if value <= heuristic {
        value
    } else {
        heuristic
    };
    let high = if value <= heuristic {
        heuristic
    } else {
        value
    };
    assert(one * low <= sum <= one * high) by (nonlinear_arith)
        requires
            low <= value <= high,
            low <= heuristic <= high,
            0 <= alpha <= one,
            sum == alpha * value + (one - alpha) * heuristic,
    ;
}

/// A result lies between a sure loss and a sure win.
pub proof fn law_results_are_shares(battle_is_over: int, mix: Mixing, value: int, heuristic: int)
    requires
        -1 <= battle_is_over <= 1,
        0 <= value <= SCORE_ONE,
        0 <= heuristic <= SCORE_ONE,
    ensures
        0 <= leaf_score(battle_is_over, mix, value, heuristic) <= SCORE_ONE,
{
    if 0 < mix.alpha < SCORE_ONE {
        law_blend_lies_between(mix.alpha as int, value, heuristic);
    }
}

/// An estimate of exactly one half corrects nothing.
pub proof fn law_even_estimate_corrects_nothing(alpha: int, heuristic: int)
    requires
        0 <= heuristic <= SCORE_ONE,
    ensures
        corrected(alpha, SCORE_ONE as int / 2, heuristic) == heuristic,
{
    assert(alpha * (2 * (SCORE_ONE as int / 2) - SCORE_ONE) == 0) by (nonlinear_arith);
}

/// What is not wanted does not matter: an estimate that the network was not asked
/// for, and an evaluation that was not made, leave the result as it is.
pub proof fn law_unwanted_numbers_do_not_matter(
    battle_is_over: int,
    mix: Mixing,
    value: int,
    other_value: int,
    heuristic: int,
    other_heuristic: int,
)
    ensures
        !wants_value(battle_is_over, mix) ==> leaf_score(battle_is_over, mix, value, heuristic)
            == leaf_score(battle_is_over, mix, other_value, heuristic),
        !wants_heuristic(battle_is_over, mix) ==> leaf_score(battle_is_over, mix, value, heuristic)
            == leaf_score(battle_is_over, mix, value, other_heuristic),
{
}

} // verus!
