//! What holds of the evaluation as a whole.
#[allow(unused_imports)]
use crate::gen2::evaluate::{
    best_quarters, pokemon_value, position_value, threat, threat_quarters, POKEMON_ALIVE,
};
#[allow(unused_imports)]
use crate::matchup::TypeProfile;
#[allow(unused_imports)]
use crate::numbers::{lemma_order_over, over};
#[allow(unused_imports)]
use crate::state::{Pokemon, State};
#[allow(unused_imports)]
use crate::types::{Choices, MoveCategory};
use vstd::prelude::*;

verus! {

/// The evaluation is fair: seen from the other seat, a position is worth the
/// opposite.
pub proof fn law_mirrored_position_has_opposite_value(
    state: State,
    one: TypeProfile,
    two: TypeProfile,
)
    ensures
        position_value(state.mirrored(), two, one) == -position_value(state, one, two),
{
}

/// A Pokemon that still stands never counts for less than being alive, 60 points.
pub proof fn law_standing_pokemon_is_never_a_burden(p: Pokemon)
    ensures
        pokemon_value(p) >= POKEMON_ALIVE as real,
        pokemon_value(p) >= 60 as real,
{
}

/// Move `i` is an attack of the category that hits with more than `least` quarters
/// of its power.
pub open spec fn hits(
    a: Pokemon,
    profile: TypeProfile,
    category: MoveCategory,
    i: int,
    least: int,
) -> bool {
    &&& a.moves@[i].id != Choices::NONE
    &&& a.moves@[i].choice.category == category
    &&& profile.against(a.moves@[i].choice.move_type) > least
}

proof fn lemma_best_quarters(
    a: Pokemon,
    profile: TypeProfile,
    category: MoveCategory,
    n: int,
    least: int,
)
    requires
        least >= 0,
    ensures
        best_quarters(a, profile, category, n) >= 0,
        best_quarters(a, profile, category, n) > least <==> exists|i: int|
            0 <= i < n && #[trigger] hits(a, profile, category, i, least),
    decreases n,
{
    if n > 0 {
        lemma_best_quarters(a, profile, category, n - 1, least);
        if best_quarters(a, profile, category, n) > least && !(best_quarters(
            a,
            profile,
            category,
            n - 1,
        ) > least) {
            assert(hits(a, profile, category, n - 1, least));
        }
        if best_quarters(a, profile, category, n - 1) > least {
            let i = choose|i: int| 0 <= i < n - 1 && #[trigger] hits(a, profile, category, i, least);
            assert(0 <= i < n && hits(a, profile, category, i, least));
        }
        if exists|i: int| 0 <= i < n && #[trigger] hits(a, profile, category, i, least) {
            let i = choose|i: int| 0 <= i < n && #[trigger] hits(a, profile, category, i, least);
            if i < n - 1 {
                assert(0 <= i < n - 1 && hits(a, profile, category, i, least));
            }
        }
    }
}

/// A threat lies between zero and one.
pub proof fn law_threats_are_shares(a: Pokemon, profile: TypeProfile, category: MoveCategory)
    ensures
        0 as real <= threat(a, profile, category) <= 1 as real,
{
    let n = a.moves@.len() as int;
    lemma_best_quarters(a, profile, category, n, 0);
    let q = best_quarters(a, profile, category, n);
    lemma_order_over(0, threat_quarters(q), 4);
    lemma_order_over(threat_quarters(q), 4, 4);
    assert(over(4, 4) == 1 as real);
    assert(over(0, 4) == 0 as real);
}

/// A threat is full if and only if some attack of the category is super effective,
/// and nothing if and only if the target is immune to all of them.
pub proof fn law_threats_tell_the_best_effectiveness(
    a: Pokemon,
    profile: TypeProfile,
    category: MoveCategory,
)
    ensures
        threat(a, profile, category) == 1 as real <==> exists|i: int|
            0 <= i < a.moves@.len() && #[trigger] hits(a, profile, category, i, 4),
        threat(a, profile, category) == 0 as real <==> forall|i: int|
            0 <= i < a.moves@.len() ==> !#[trigger] hits(a, profile, category, i, 0),
{
    let n = a.moves@.len() as int;
    lemma_best_quarters(a, profile, category, n, 4);
    lemma_best_quarters(a, profile, category, n, 0);
    let q = best_quarters(a, profile, category, n);
    lemma_order_over(0, threat_quarters(q), 4);
    lemma_order_over(threat_quarters(q), 4, 4);
    assert(over(4, 4) == 1 as real);
    assert(over(0, 4) == 0 as real);
}

/// Where the best attack of the category is resisted twice it counts a quarter; where it
/// is resisted once or neutral it counts a half.
pub proof fn law_weaker_hits_count_less(
    a: Pokemon,
    profile: TypeProfile,
    category: MoveCategory,
    i: int,
)
    requires
        0 <= i < a.moves@.len(),
        a.moves@[i].id != Choices::NONE,
        a.moves@[i].choice.category == category,
        forall|k: int|
            0 <= k < a.moves@.len() && (#[trigger] a.moves@[k]).id != Choices::NONE
                && a.moves@[k].choice.category == category ==> profile.against(
                a.moves@[k].choice.move_type,
            ) <= profile.against(a.moves@[i].choice.move_type),
    ensures
        ({
            let best = profile.against(a.moves@[i].choice.move_type);
            threat(a, profile, category) == (if best == 0 {
                0 as real
            } else if best == 1 {
                1 as real / 4 as real
            } else if best <= 4 {
                1 as real / 2 as real
            } else {
                1 as real
            })
        }),
{
    let n = a.moves@.len() as int;
    let best = profile.against(a.moves@[i].choice.move_type);
    let q = best_quarters(a, profile, category, n);
    lemma_best_quarters(a, profile, category, n, best);
    if q > best {
        let k = choose|k: int| 0 <= k < n && #[trigger] hits(a, profile, category, k, best);
        assert(a.moves@[k].id != Choices::NONE);
    }
    if best > 0 {
        lemma_best_quarters(a, profile, category, n, best - 1);
        assert(hits(a, profile, category, i, best - 1));
    } else {
        lemma_best_quarters(a, profile, category, n, 0);
    }
    assert(q == best);
    assert(over(0, 4) == 0 as real);
    assert(over(1, 4) == 1 as real / 4 as real);
    assert(over(2, 4) == 1 as real / 2 as real);
    assert(over(4, 4) == 1 as real);
}

} // verus!
