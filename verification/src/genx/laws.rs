//! What holds of the evaluation as a whole.
#[allow(unused_imports)]
use crate::genx::active::volatiles_total;
#[allow(unused_imports)]
use crate::genx::evaluate::{
    active_value, bench_value, boost_value, boosts_ignored, hopeless, position_value,
    pressure, seat_value, used_tera, Pressure,
    POKEMON_SPEED_BOOST,
};
#[allow(unused_imports)]
use crate::genx::pokemon::{
    item_points, missing_recovery, pending_poison_heal, pokemon_value, raw_value, recovery_move,
    recovery_tax, status_points, synergy_points, wall_points, POKEMON_ALIVE, RECOVERY_PP_CAP,
    RECOVERY_PP_VALUE,
};
#[allow(unused_imports)]
use crate::genx::switches::EvalOff;
#[allow(unused_imports)]
use crate::genx::threat::{
    ability_tenths, attacking_stat, best_threat, burn_halves, damage, defending_stat,
    eff_sixteenths, guard_quarters, item_tenths, physical_threat, power, refined,
    special_threat, stab_halves, stat_halves,
};
#[allow(unused_imports)]
use crate::matchup::TypeProfile;
#[allow(unused_imports)]
use crate::numbers::{lemma_add_over, over};
#[allow(unused_imports)]
use crate::stages::multiplier;
#[allow(unused_imports)]
use crate::state::{Field, Move, Pokemon, Side, State, TEAM_SIZE};
#[allow(unused_imports)]
use crate::types::{Abilities, MoveCategory, PokemonVolatileStatus};
use vstd::prelude::*;

verus! {

/// The evaluation is fair: seen from the other seat, a position is worth the
/// opposite.
pub proof fn law_mirrored_position_has_opposite_value(
    state: State,
    one: TypeProfile,
    two: TypeProfile,
    off: EvalOff,
    stall: bool,
)
    ensures
        position_value(state.mirrored(), two, one, off, stall) == -position_value(
            state,
            one,
            two,
            off,
            stall,
        ),
{
}

/// A Pokemon that still stands never counts for less than being alive, 30 points, so it
/// never pays to keep an opposing one around.
pub proof fn law_standing_pokemon_is_never_a_burden(p: Pokemon, off: EvalOff, stall: bool)
    ensures
        pokemon_value(p, off, stall) >= POKEMON_ALIVE as real,
        pokemon_value(p, off, stall) >= 30 as real,
{
}

proof fn lemma_best_threat_range(
    a: Pokemon,
    d: Pokemon,
    profile: TypeProfile,
    fainted: int,
    off: EvalOff,
    category: MoveCategory,
    n: int,
)
    ensures
        0 as real <= best_threat(a, d, profile, fainted, off, category, n) <= 1 as real,
    decreases n,
{
    if n > 0 {
        lemma_best_threat_range(a, d, profile, fainted, off, category, n - 1);
    }
}

/// A threat is a share: it lies between zero and one.
pub proof fn law_threats_are_shares(
    a: Pokemon,
    d: Pokemon,
    profile: TypeProfile,
    fainted: int,
    off: EvalOff,
)
    ensures
        0 as real <= physical_threat(a, d, profile, fainted, off) <= 1 as real,
        0 as real <= special_threat(a, d, profile, fainted, off) <= 1 as real,
{
    lemma_best_threat_range(
        a,
        d,
        profile,
        fainted,
        off,
        MoveCategory::Physical,
        a.moves@.len() as int,
    );
    lemma_best_threat_range(
        a,
        d,
        profile,
        fainted,
        off,
        MoveCategory::Special,
        a.moves@.len() as int,
    );
}

/// With the threat group off nothing counts as hopeless: turning threats off
/// turns the hopeless term off as well.
pub proof fn law_threat_off_implies_hopeless_off(
    own: Side,
    foe: Side,
    foe_profile: TypeProfile,
    off: EvalOff,
)
    requires
        off.threat,
    ensures
        !hopeless(own.active(), pressure(own, foe, foe_profile, off)),
{
}

proof fn lemma_bench_without_stall(side: Side, off: EvalOff, n: int)
    requires
        off.baseline,
    ensures
        bench_value(side, off, true, n) == bench_value(side, off, false, n),
    decreases n,
{
    if n > 0 {
        lemma_bench_without_stall(side, off, n - 1);
    }
}

/// Under the baseline the stall mode changes nothing.
pub proof fn law_baseline_ignores_stall_mode(
    state: State,
    one: TypeProfile,
    two: TypeProfile,
    off: EvalOff,
)
    requires
        off.baseline,
    ensures
        position_value(state, one, two, off, true) == position_value(state, one, two, off, false),
{
    lemma_bench_without_stall(state.side_one, off, TEAM_SIZE as int);
    lemma_bench_without_stall(state.side_two, off, TEAM_SIZE as int);
}

/// The switches with the hazard group set to `h`.
pub open spec fn with_hazards(off: EvalOff, h: bool) -> EvalOff {
    EvalOff { hazards: h, ..off }
}

proof fn lemma_pokemon_hazards(p: Pokemon, off: EvalOff, h: bool, stall: bool)
    ensures
        pokemon_value(p, with_hazards(off, h), stall) == pokemon_value(p, off, stall),
{
    let o = with_hazards(off, h);
    assert(status_points(p, o, stall) == status_points(p, off, stall));
    assert(pending_poison_heal(p, o) == pending_poison_heal(p, off));
    assert(recovery_tax(p, o, stall) == recovery_tax(p, off, stall));
    assert(synergy_points(p, o) == synergy_points(p, off));
    assert(wall_points(p, o) == wall_points(p, off));
    assert(item_points(p, o) == item_points(p, off));
    assert(raw_value(p, o, stall) == raw_value(p, off, stall));
}

proof fn lemma_bench_hazards(side: Side, off: EvalOff, h: bool, stall: bool, n: int)
    ensures
        bench_value(side, with_hazards(off, h), stall, n) == bench_value(side, off, stall, n),
    decreases n,
{
    if n > 0 {
        lemma_bench_hazards(side, off, h, stall, n - 1);
        lemma_pokemon_hazards(side.pokemon@[n - 1], off, h, stall);
    }
}

proof fn lemma_volatiles_hazards(
    list: Seq<PokemonVolatileStatus>,
    p: Pokemon,
    off: EvalOff,
    h: bool,
)
    ensures
        volatiles_total(list, p, with_hazards(off, h)) == volatiles_total(list, p, off),
    decreases list.len(),
{
    if list.len() > 0 {
        lemma_volatiles_hazards(list.drop_last(), p, off, h);
    }
}

proof fn lemma_threat_hazards(
    a: Pokemon,
    d: Pokemon,
    profile: TypeProfile,
    fainted: int,
    off: EvalOff,
    h: bool,
    category: MoveCategory,
    n: int,
)
    ensures
        best_threat(a, d, profile, fainted, with_hazards(off, h), category, n) == best_threat(
            a,
            d,
            profile,
            fainted,
            off,
            category,
            n,
        ),
    decreases n,
{
    if n > 0 {
        lemma_threat_hazards(a, d, profile, fainted, off, h, category, n - 1);
        let m = a.moves@[n - 1];
        let q = profile.against(m.choice.move_type);
        assert(damage(a, d, m, q, fainted, with_hazards(off, h)) == damage(
            a,
            d,
            m,
            q,
            fainted,
            off,
        ));
    }
}

proof fn lemma_seat_hazards(
    own: Side,
    foe: Side,
    own_profile: TypeProfile,
    foe_profile: TypeProfile,
    field: Field,
    off: EvalOff,
    h: bool,
    stall: bool,
)
    ensures
        seat_value(own, foe, own_profile, foe_profile, field, with_hazards(off, h), stall)
            == seat_value(own, foe, own_profile, foe_profile, field, off, stall),
{
    let a = own.active();
    let d = foe.active();
    let fainted = crate::state::fainted_among(own.pokemon@, TEAM_SIZE as int);
    let n = a.moves@.len() as int;
    lemma_bench_hazards(own, off, h, stall, TEAM_SIZE as int);
    lemma_volatiles_hazards(own.volatile_statuses@, a, off, h);
    lemma_threat_hazards(a, d, foe_profile, fainted, off, h, MoveCategory::Physical, n);
    lemma_threat_hazards(a, d, foe_profile, fainted, off, h, MoveCategory::Special, n);
}

/// Both price lists for hazards are the same, so their switch has no effect.
pub proof fn law_hazard_switch_is_inert(
    state: State,
    one: TypeProfile,
    two: TypeProfile,
    off: EvalOff,
    h: bool,
    stall: bool,
)
    ensures
        position_value(state, one, two, with_hazards(off, h), stall) == position_value(
            state,
            one,
            two,
            off,
            stall,
        ),
{
    lemma_seat_hazards(state.side_one, state.side_two, one, two, state.field, off, h, stall);
    lemma_seat_hazards(state.side_two, state.side_one, two, one, state.field, off, h, stall);
}

proof fn lemma_nothing_missing(moves: Seq<Move>, n: int)
    requires
        0 <= n <= moves.len(),
        forall|i: int|
            0 <= i < moves.len() && recovery_move(#[trigger] moves[i]) ==> moves[i].pp
                >= RECOVERY_PP_CAP,
    ensures
        missing_recovery(moves, n) == 0,
    decreases n,
{
    if n > 0 {
        lemma_nothing_missing(moves, n - 1);
        assert(recovery_move(moves[n - 1]) ==> moves[n - 1].pp >= RECOVERY_PP_CAP);
    }
}

/// Recovery moves that still have all their counted uses cost nothing.
pub proof fn law_full_recovery_is_not_taxed(p: Pokemon, off: EvalOff, stall: bool)
    requires
        forall|i: int|
            0 <= i < p.moves@.len() && recovery_move(#[trigger] p.moves@[i]) ==> p.moves@[i].pp
                >= RECOVERY_PP_CAP,
    ensures
        recovery_tax(p, off, stall) == 0,
{
    lemma_nothing_missing(p.moves@, p.moves@.len() as int);
}

/// The side with other stages of the damage stats.
pub open spec fn with_damage_stages(side: Side, atk: i8, def: i8, spa: i8, spd: i8) -> Side {
    Side {
        attack_boost: atk,
        defense_boost: def,
        special_attack_boost: spa,
        special_defense_boost: spd,
        ..side
    }
}

proof fn lemma_bench_stages(
    side: Side,
    atk: i8,
    def: i8,
    spa: i8,
    spd: i8,
    off: EvalOff,
    stall: bool,
    n: int,
)
    ensures
        bench_value(with_damage_stages(side, atk, def, spa, spd), off, stall, n) == bench_value(
            side,
            off,
            stall,
            n,
        ),
    decreases n,
{
    if n > 0 {
        lemma_bench_stages(side, atk, def, spa, spd, off, stall, n - 1);
    }
}

/// Against an active Unaware that Mold Breaker does not see through, stages of
/// the damage stats are worth nothing, whatever they are.
pub proof fn law_unaware_voids_damage_boosts(
    own: Side,
    foe: Side,
    own_profile: TypeProfile,
    foe_profile: TypeProfile,
    field: Field,
    off: EvalOff,
    stall: bool,
    atk: i8,
    def: i8,
    spa: i8,
    spd: i8,
)
    requires
        boosts_ignored(own, foe, off),
    ensures
        seat_value(
            with_damage_stages(own, atk, def, spa, spd),
            foe,
            own_profile,
            foe_profile,
            field,
            off,
            stall,
        ) == seat_value(own, foe, own_profile, foe_profile, field, off, stall),
{
    let other = with_damage_stages(own, atk, def, spa, spd);
    lemma_bench_stages(own, atk, def, spa, spd, off, stall, TEAM_SIZE as int);
    let p = pressure(own, foe, foe_profile, off);
    assert(pressure(other, foe, foe_profile, off) == p);
    assert(active_value(other, foe, own_profile, p, field.trick_room, off) == active_value(
        own,
        foe,
        own_profile,
        p,
        field.trick_room,
        off,
    ));
    assert(used_tera(other) == used_tera(own)) by {
        assert(other.pokemon@ == own.pokemon@);
        if used_tera(own) {
            let i = choose|i: int| 0 <= i < TEAM_SIZE && (#[trigger] own.pokemon@[i]).terastallized;
            assert(other.pokemon@[i].terastallized);
        }
        if used_tera(other) {
            let i = choose|i: int|
                0 <= i < TEAM_SIZE && (#[trigger] other.pokemon@[i]).terastallized;
            assert(own.pokemon@[i].terastallized);
        }
    }
}

/// Trick Room turns the credit for a speed boost into the same cost.
pub proof fn law_trick_room_flips_speed_credit(side: Side, p: Pressure, ignored: bool)
    ensures
        boost_value(side, p, ignored, false) - boost_value(side, p, ignored, true) == 2 as real * (
        multiplier(side.speed_boost) * POKEMON_SPEED_BOOST as real),
{
}

proof fn lemma_linear(
    c: real,
    x: real,
    o: real,
    d: real,
    r1: real,
    r2: real,
    r3: real,
    r4: real,
)
    requires
        d > 0 as real,
    ensures
        c * ((x * o) / d) * r1 * r2 * r3 * r4 == (c * ((x * 1 as real) / d) * r1 * r2 * r3 * r4)
            * o,
{
    let y = x / d;
    assert((x * o) / d == y * o) by (nonlinear_arith)
        requires
            d > 0 as real,
            y == x / d,
    ;
    assert((x * 1 as real) / d == y);
    assert(c * (y * o) == (c * y) * o) by (nonlinear_arith);
    let a1 = c * y;
    assert((a1 * o) * r1 == (a1 * r1) * o) by (nonlinear_arith);
    let a2 = a1 * r1;
    assert((a2 * o) * r2 == (a2 * r2) * o) by (nonlinear_arith);
    let a3 = a2 * r2;
    assert((a3 * o) * r3 == (a3 * r3) * o) by (nonlinear_arith);
    let a4 = a3 * r3;
    assert((a4 * o) * r4 == (a4 * r4) * o) by (nonlinear_arith);
}

/// Supreme Overlord scales every hit by a tenth for each fallen ally.
pub proof fn law_supreme_overlord_scales_damage(
    a: Pokemon,
    d: Pokemon,
    m: Move,
    quarters: int,
    fainted: int,
    off: EvalOff,
)
    requires
        a.ability == Abilities::SUPREMEOVERLORD,
        !off.supremeoverlord,
    ensures
        damage(a, d, m, quarters, fainted, off) == damage(a, d, m, quarters, 0, off) * (1 as real
            + fainted as real / 10 as real),
{
    let physical = m.choice.category == MoveCategory::Physical;
    let e = eff_sixteenths(a, quarters, off);
    let x = attacking_stat(a, physical) as real * over(stat_halves(a, physical, off), 2);
    let c = over(84, 100) * power(a, m, off) as real;
    let o = over(10 + fainted, 10);
    lemma_add_over(10, fainted, 10);
    assert(o == 1 as real + fainted as real / 10 as real);
    assert(over(10, 10) == 1 as real);
    lemma_linear(
        c,
        x,
        o,
        defending_stat(d, physical) as real,
        over(stab_halves(a, m, off), 2),
        over(e, 16),
        over(burn_halves(a, m, physical, off), 2),
        if refined(off) {
            over(ability_tenths(a.ability, m.choice), 10) * over(
                item_tenths(a.item, physical, e),
                10,
            ) * over(guard_quarters(d, m.choice.move_type, physical, e), 4)
        } else {
            1 as real
        },
    );
}

/// In the stall mode used-up recovery moves cost twice as much.
pub proof fn law_stall_mode_doubles_the_recovery_tax(p: Pokemon, off: EvalOff)
    requires
        !off.baseline,
    ensures
        recovery_tax(p, off, true) == 2 * recovery_tax(p, off, false),
{
    let n = missing_recovery(p.moves@, p.moves@.len() as int);
    assert(n * (2 * RECOVERY_PP_VALUE) == 2 * (n * RECOVERY_PP_VALUE)) by (nonlinear_arith);
}

/// With the threat group off, boosts of attacking stats count in full, whatever the
/// attacks would do.
pub proof fn law_threat_off_counts_boosts_in_full(
    own: Side,
    foe: Side,
    foe_profile: TypeProfile,
    off: EvalOff,
)
    requires
        off.threat,
    ensures
        boost_value(own, pressure(own, foe, foe_profile, off), false, false) == multiplier(
            own.attack_boost,
        ) * 30 as real + multiplier(own.defense_boost) * 15 as real + multiplier(
            own.special_attack_boost,
        ) * 30 as real + multiplier(own.special_defense_boost) * 15 as real + multiplier(
            own.speed_boost,
        ) * 30 as real,
{
    let x = multiplier(own.attack_boost) * 30 as real;
    let y = multiplier(own.special_attack_boost) * 30 as real;
    assert(x * 1 as real == x && y * 1 as real == y) by (nonlinear_arith);
}

} // verus!
