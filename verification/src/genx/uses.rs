//! What the uses of a recovery move are worth.
#[allow(unused_imports)]
use crate::genx::pokemon::{
    burn_points, can_recover, missing_recovery, missing_uses, pokemon_value, raw_value,
    recovery_move, recovery_tax, sleep_talk_points, status_move, status_points, wall_points,
    wall_with_choice_item, RECOVERY_PP_CAP, RECOVERY_PP_VALUE,
};
#[allow(unused_imports)]
use crate::genx::switches::EvalOff;
#[allow(unused_imports)]
use crate::state::{physical_count, Move, Pokemon};
#[allow(unused_imports)]
use crate::types::{Choices, PokemonStatus};
use vstd::prelude::*;

verus! {

/// Two Pokemon that differ in how often move `i` can still be used, at most.
pub open spec fn same_but_for_uses(p: Pokemon, q: Pokemon, i: int) -> bool {
    &&& q == (Pokemon { moves: q.moves, ..p })
    &&& p.moves@.len() == q.moves@.len()
    &&& 0 <= i < p.moves@.len()
    &&& q.moves@[i] == (Move { pp: q.moves@[i].pp, ..p.moves@[i] })
    &&& forall|j: int|
        #![trigger p.moves@[j]]
        #![trigger q.moves@[j]]
        0 <= j < p.moves@.len() && j != i ==> p.moves@[j] == q.moves@[j]
}

/// What one use of a recovery move is worth: twice as much in the stall mode, which
/// the baseline does not know.
pub open spec fn use_price(off: EvalOff, stall: bool) -> int {
    if stall && !off.baseline {
        2 * RECOVERY_PP_VALUE
    } else {
        RECOVERY_PP_VALUE as int
    }
}

proof fn lemma_counts(p: Pokemon, q: Pokemon, i: int, n: int)
    requires
        same_but_for_uses(p, q, i),
        recovery_move(p.moves@[i]),
        0 <= n <= p.moves@.len(),
    ensures
        physical_count(p.moves@, n) == physical_count(q.moves@, n),
        missing_recovery(q.moves@, n) == missing_recovery(p.moves@, n) + if i < n {
            missing_uses(q.moves@[i]) - missing_uses(p.moves@[i])
        } else {
            0
        },
    decreases n,
{
    if n > 0 {
        lemma_counts(p, q, i, n - 1);
        assert(n - 1 != i ==> p.moves@[n - 1] == q.moves@[n - 1]);
    }
}

proof fn lemma_traits(p: Pokemon, q: Pokemon, i: int)
    requires
        same_but_for_uses(p, q, i),
    ensures
        can_recover(p) ==> can_recover(q),
        wall_with_choice_item(p) ==> wall_with_choice_item(q),
{
    assert forall|j: int| 0 <= j < p.moves@.len() implies (#[trigger] p.moves@[j]).id
        == q.moves@[j].id && p.moves@[j].choice == q.moves@[j].choice by {}
    if can_recover(p) {
        let j = choose|j: int| 0 <= j < p.moves@.len() && recovery_move(#[trigger] p.moves@[j]);
        assert(recovery_move(q.moves@[j]));
    }
    if wall_with_choice_item(p) {
        let (j, k) = choose|j: int, k: int|
            0 <= j < k < p.moves@.len() && status_move(#[trigger] p.moves@[j]) && status_move(
                #[trigger] p.moves@[k],
            );
        assert(status_move(q.moves@[j]) && status_move(q.moves@[k]));
        assert forall|j: int| 0 <= j < q.moves@.len() implies (#[trigger] q.moves@[j]).id
            != Choices::TRICK && q.moves@[j].id != Choices::SWITCHEROO by {
            assert(p.moves@[j].id == q.moves@[j].id);
        }
    }
}

/// A Sleep Talk that can be used is the same one in both.
proof fn lemma_sleep_talk(p: Pokemon, q: Pokemon, i: int)
    requires
        same_but_for_uses(p, q, i),
        p.moves@[i].id == Choices::SLEEPTALK ==> (p.moves@[i].pp > 0 <==> q.moves@[i].pp > 0),
    ensures
        sleep_talk_points(p) == sleep_talk_points(q),
{
    if exists|j: int|
        0 <= j < p.moves@.len() && (#[trigger] p.moves@[j]).id == Choices::SLEEPTALK
            && p.moves@[j].pp > 0 {
        let j = choose|j: int|
            0 <= j < p.moves@.len() && (#[trigger] p.moves@[j]).id == Choices::SLEEPTALK
                && p.moves@[j].pp > 0;
        assert(q.moves@[j].id == Choices::SLEEPTALK && q.moves@[j].pp > 0);
    }
    if exists|j: int|
        0 <= j < q.moves@.len() && (#[trigger] q.moves@[j]).id == Choices::SLEEPTALK
            && q.moves@[j].pp > 0 {
        let j = choose|j: int|
            0 <= j < q.moves@.len() && (#[trigger] q.moves@[j]).id == Choices::SLEEPTALK
                && q.moves@[j].pp > 0;
        assert(p.moves@[j].id == Choices::SLEEPTALK && p.moves@[j].pp > 0);
    }
}

/// Every use of a recovery move up to the eighth is worth its price of 2 points, or 4 in
/// the stall mode: with fewer of them left
/// the Pokemon is worth that much less, and uses beyond the counted ones are worth
/// nothing. The floor of a Pokemon's worth hides the difference where it is reached,
/// and a sleeping Pokemon that runs out of Sleep Talk loses more.
pub proof fn law_recovery_uses_have_a_price(
    p: Pokemon,
    q: Pokemon,
    i: int,
    off: EvalOff,
    stall: bool,
)
    requires
        same_but_for_uses(p, q, i),
        recovery_move(p.moves@[i]),
        !off.pp,
        p.moves@[i].id == Choices::SLEEPTALK && p.status == PokemonStatus::SLEEP && !off.synergy
            ==> (p.moves@[i].pp > 0 <==> q.moves@[i].pp > 0),
    ensures
        raw_value(q, off, stall) == raw_value(p, off, stall) - (use_price(off, stall) * (
        missing_uses(q.moves@[i]) - missing_uses(p.moves@[i]))) as real,
        p.moves@[i].pp >= RECOVERY_PP_CAP && q.moves@[i].pp <= RECOVERY_PP_CAP ==> raw_value(
            q,
            off,
            stall,
        ) == raw_value(p, off, stall) - (use_price(off, stall) * (RECOVERY_PP_CAP
            - q.moves@[i].pp)) as real,
        p.moves@[i].pp >= RECOVERY_PP_CAP && q.moves@[i].pp >= RECOVERY_PP_CAP ==> pokemon_value(
            q,
            off,
            stall,
        ) == pokemon_value(p, off, stall),
        raw_value(p, off, stall) >= 0 as real && raw_value(q, off, stall) >= 0 as real
            ==> pokemon_value(q, off, stall) == pokemon_value(p, off, stall) - (use_price(
            off,
            stall,
        ) * (missing_uses(q.moves@[i]) - missing_uses(p.moves@[i]))) as real,
        p.moves@[i].pp >= 8 && q.moves@[i].pp <= 8 ==> raw_value(q, off, stall) == raw_value(
            p,
            off,
            stall,
        ) - (if stall && !off.baseline {
            4 * (8 - q.moves@[i].pp)
        } else {
            2 * (8 - q.moves@[i].pp)
        }) as real,
{
    let n = p.moves@.len() as int;
    lemma_counts(p, q, i, n);
    lemma_traits(p, q, i);
    lemma_traits(q, p, i);
    if p.status == PokemonStatus::SLEEP && !off.synergy {
        lemma_sleep_talk(p, q, i);
    }
    assert(burn_points(p, off) == burn_points(q, off));
    assert(status_points(p, off, stall) == status_points(q, off, stall));
    assert(wall_points(p, off) == wall_points(q, off));
    let price = use_price(off, stall);
    let before = missing_recovery(p.moves@, n);
    let more = missing_uses(q.moves@[i]) - missing_uses(p.moves@[i]);
    assert((before + more) * price == before * price + price * more) by (nonlinear_arith);
    assert(recovery_tax(q, off, stall) == recovery_tax(p, off, stall) + price * more);
    if more == 0 {
        assert(price * more == 0) by (nonlinear_arith)
            requires
                more == 0,
        ;
    }
}

} // verus!
