//! The value of a position for the first player.
use crate::genx::active::{
    evaluate_active_volatiles, evaluate_hazards, evaluate_pending_effects, evaluate_tera_active,
    evaluate_terrain_for_active, evaluate_weather_for_active,
};
#[allow(unused_imports)]
use crate::genx::active::{
    hazard_points, pending_points, tera_points, terrain_points, volatiles_total,
    weather_points,
};
use crate::genx::pokemon::{choice_locked_into_status, evaluate_pokemon};
#[allow(unused_imports)]
use crate::genx::pokemon::{locked_into_status, pokemon_value, scorable};
use crate::genx::switches::{stall_mode, EvalOff, StallMode};
use crate::genx::threat::{threat_vs, Threat};
#[allow(unused_imports)]
use crate::genx::threat::{has_status_option, physical_threat, special_threat, threat_den};
use crate::matchup::TypeProfile;
use crate::numbers::{Ratio, Score};
#[allow(unused_imports)]
use crate::numbers::{
    lemma_cross, lemma_order_over, lemma_real_mul, lemma_zero_over, over,
};
use crate::stages::{boost_credit, full_credit};
#[allow(unused_imports)]
use crate::stages::{multiplier, stages_ok};
use crate::state::{Field, Pokemon, Side, State, TEAM_SIZE};
#[allow(unused_imports)]
use crate::state::fainted_among;
use crate::types::{Abilities, Terrain, Weather};
use vstd::prelude::*;

verus! {

/// Cost of having terastallized.
pub const USED_TERA: i128 = -75;

/// Cost of an active Pokemon that is locked into status moves.
pub const CHOICE_LOCKED_STATUS: i128 = -35;

/// Cost of an active Pokemon that has nothing useful to do.
pub const HOPELESS_MATCHUP: i128 = -50;

/// Credit for moving first.
pub const SPEED_TIER_BONUS: i128 = 20;

pub const POKEMON_ATTACK_BOOST: i128 = 30;

pub const POKEMON_DEFENSE_BOOST: i128 = 15;

pub const POKEMON_SPECIAL_ATTACK_BOOST: i128 = 30;

pub const POKEMON_SPECIAL_DEFENSE_BOOST: i128 = 15;

pub const POKEMON_SPEED_BOOST: i128 = 30;

pub const REFLECT: i128 = 20;

pub const LIGHT_SCREEN: i128 = 20;

pub const AURORA_VEIL: i128 = 40;

pub const SAFE_GUARD: i128 = 5;

pub const TAILWIND: i128 = 7;

pub const HEALING_WISH: i128 = 30;

/// The evaluation is defined for this side: the stat stages of an active Pokemon
/// that still stands exist, and so does the value of every one that stands.
pub open spec fn scorable_side(side: Side, off: EvalOff) -> bool {
    &&& side.wf()
    &&& side.active().hp > 0 ==> stages_ok(side)
    &&& forall|i: int|
        0 <= i < TEAM_SIZE && (#[trigger] side.pokemon@[i]).hp > 0 ==> scorable(
            side.pokemon@[i],
            off,
        )
}

/// How hard one active Pokemon hits the other, as the evaluation counts it.
pub struct Pressure {
    pub physical: real,
    pub special: real,
    pub has_status: bool,
}

/// How hard the active Pokemon of `own` hits that of `foe`; full pressure while
/// the group is off. `foe_profile` is the type profile of the one that is hit.
pub open spec fn pressure(own: Side, foe: Side, foe_profile: TypeProfile, off: EvalOff) -> Pressure {
    if off.threat {
        Pressure { physical: 1 as real, special: 1 as real, has_status: true }
    } else {
        let fainted = fainted_among(own.pokemon@, TEAM_SIZE as int);
        Pressure {
            physical: physical_threat(own.active(), foe.active(), foe_profile, fainted, off),
            special: special_threat(own.active(), foe.active(), foe_profile, fainted, off),
            has_status: has_status_option(own.active()),
        }
    }
}

/// An opposing Unaware makes boosts of damage stats worthless, unless Mold
/// Breaker sees through it.
pub open spec fn boosts_ignored(own: Side, foe: Side, off: EvalOff) -> bool {
    !off.unaware && foe.active().ability == Abilities::UNAWARE && own.active().ability
        != Abilities::MOLDBREAKER
}

/// What the stat stages of a side are worth. Attacking stages count as far as
/// the attacks do damage, and in Trick Room being faster is a loss.
pub open spec fn boost_value(side: Side, p: Pressure, ignored: bool, trick_room: bool) -> real {
    (if ignored {
        0 as real
    } else {
        multiplier(side.attack_boost) * POKEMON_ATTACK_BOOST as real * p.physical + multiplier(
            side.defense_boost,
        ) * POKEMON_DEFENSE_BOOST as real + multiplier(side.special_attack_boost)
            * POKEMON_SPECIAL_ATTACK_BOOST as real * p.special + multiplier(
            side.special_defense_boost,
        ) * POKEMON_SPECIAL_DEFENSE_BOOST as real
    }) + {
        let speed = multiplier(side.speed_boost) * POKEMON_SPEED_BOOST as real;
        if trick_room {
            -speed
        } else {
            speed
        }
    }
}

/// What the Pokemon that is out is worth beyond what it is worth on the bench.
pub open spec fn active_value(
    own: Side,
    foe: Side,
    own_profile: TypeProfile,
    p: Pressure,
    trick_room: bool,
    off: EvalOff,
) -> real {
    let a = own.active();
    volatiles_total(own.volatile_statuses@, a, off) as real + (if !off.locks && locked_into_status(
        a,
    ) {
        CHOICE_LOCKED_STATUS as real
    } else {
        0 as real
    }) + (if off.tera {
        0 as real
    } else {
        tera_points(a, own_profile) as real
    }) + boost_value(own, p, boosts_ignored(own, foe, off), trick_room)
}

/// What the first `n` team members that still stand are worth on the bench.
pub open spec fn bench_value(side: Side, off: EvalOff, stall: bool, n: int) -> real
    decreases n,
{
    if n <= 0 {
        0 as real
    } else {
        bench_value(side, off, stall, n - 1) + {
            let m = side.pokemon@[n - 1];
            if m.hp > 0 {
                pokemon_value(m, off, stall) + hazard_points(m, side, off) as real
            } else {
                0 as real
            }
        }
    }
}

/// Somebody on the team has terastallized.
pub open spec fn used_tera(side: Side) -> bool {
    exists|i: int| 0 <= i < TEAM_SIZE && (#[trigger] side.pokemon@[i]).terastallized
}

/// What the conditions on a side are worth to it.
pub open spec fn condition_points(side: Side) -> int {
    let c = side.side_conditions;
    c.reflect * REFLECT + c.light_screen * LIGHT_SCREEN + c.aurora_veil * AURORA_VEIL + c.safeguard
        * SAFE_GUARD + c.tailwind * TAILWIND + c.healing_wish * HEALING_WISH
}

/// What weather and terrain are worth to the Pokemon that is out.
pub open spec fn field_points(a: Pokemon, field: Field, off: EvalOff) -> int {
    (if off.weather {
        0
    } else {
        weather_points(a, field.weather, field.trick_room)
    }) + if off.terrain {
        0
    } else {
        terrain_points(a, field.terrain, field.trick_room)
    }
}

/// The Pokemon that is out can neither do damage nor anything else.
pub open spec fn hopeless(a: Pokemon, p: Pressure) -> bool {
    a.hp > 0 && p.physical == 0 as real && p.special == 0 as real && !p.has_status
}

/// The Pokemon `a` moves before `b`.
pub open spec fn moves_first(a: Pokemon, b: Pokemon, trick_room: bool) -> bool {
    if trick_room {
        a.speed < b.speed
    } else {
        a.speed > b.speed
    }
}

/// The stronger of the two threats.
pub open spec fn strongest(p: Pressure) -> real {
    if p.physical < p.special {
        p.special
    } else {
        p.physical
    }
}

/// Moving first counts as far as one hits hard and the other is already hurt.
pub open spec fn speed_value(own: Side, foe: Side, p: Pressure, trick_room: bool, off: EvalOff) -> real {
    let (a, b) = (own.active(), foe.active());
    if !off.speedtier && a.hp > 0 && b.hp > 0 && moves_first(a, b, trick_room) && strongest(p)
        > 0 as real {
        SPEED_TIER_BONUS as real * strongest(p) * (1 as real - b.hp as real / b.maxhp as real)
    } else {
        0 as real
    }
}

/// What the position is worth to the player of `own`, before the worth to the
/// other player is set against it.
pub open spec fn seat_value(
    own: Side,
    foe: Side,
    own_profile: TypeProfile,
    foe_profile: TypeProfile,
    field: Field,
    off: EvalOff,
    stall: bool,
) -> real {
    let a = own.active();
    let p = pressure(own, foe, foe_profile, off);
    bench_value(own, off, stall, TEAM_SIZE as int) + (if a.hp > 0 {
        active_value(own, foe, own_profile, p, field.trick_room, off) + field_points(
            a,
            field,
            off,
        ) as real
    } else {
        0 as real
    }) + (if used_tera(own) {
        USED_TERA as real
    } else {
        0 as real
    }) + condition_points(own) as real + (if off.pending {
        0 as real
    } else {
        pending_points(own) as real
    }) + (if !off.hopeless && hopeless(a, p) {
        HOPELESS_MATCHUP as real
    } else {
        0 as real
    }) + speed_value(own, foe, p, field.trick_room, off)
}

/// The value of a position for the first player: what it is worth to the first
/// player less what it is worth to the second. The profiles tell how hard
/// attacks of each type hit the two active Pokemon.
pub open spec fn position_value(
    state: State,
    one: TypeProfile,
    two: TypeProfile,
    off: EvalOff,
    stall: bool,
) -> real {
    seat_value(state.side_one, state.side_two, one, two, state.field, off, stall) - seat_value(
        state.side_two,
        state.side_one,
        two,
        one,
        state.field,
        off,
        stall,
    )
}

/// A threat whose fractions have bounded denominators.
spec fn small(t: Threat) -> bool {
    &&& t.physical.wf()
    &&& t.special.wf()
    &&& 0 <= t.physical.num <= t.physical.den <= 0x40_0000_0000_0000
    &&& 0 <= t.special.num <= t.special.den <= 0x40_0000_0000_0000
}

spec fn shows(t: Threat, p: Pressure) -> bool {
    t.physical@ == p.physical && t.special@ == p.special && t.has_status == p.has_status
}

/// The pressure that the active Pokemon of `own` puts on that of `foe`.
fn measure_pressure(own: &Side, foe: &Side, foe_profile: &TypeProfile, off: &EvalOff) -> (r: Threat)
    requires
        own.wf(),
        foe.wf(),
        foe_profile.wf(),
    ensures
        small(r),
        shows(r, pressure(*own, *foe, *foe_profile, *off)),
{
    if off.threat {
        Threat { physical: Ratio::whole(1), special: Ratio::whole(1), has_status: true }
    } else {
        let fainted: u8 = own.num_fainted_pkmn() as u8;
        let a = &own.pokemon[own.active_index];
        let b = &foe.pokemon[foe.active_index];
        let t = threat_vs(a, b, foe_profile, fainted, off);
        proof {
            lemma_threat_den(*b, true);
            lemma_threat_den(*b, false);
        }
        t
    }
}

proof fn lemma_threat_den(d: Pokemon, physical: bool)
    ensures
        0 < threat_den(d, physical) <= 0x40_0000_0000_0000,
{
    let s = crate::genx::threat::defending_stat(d, physical);
    let h = crate::genx::threat::at_least_one(d.maxhp as int);
    assert(0 < s * h <= 0x3fff_0001) by (nonlinear_arith)
        requires
            1 <= s <= 0x7fff,
            1 <= h <= 0x7fff,
    ;
}

/// What the stat stages of a side are worth.
fn evaluate_boosts(side: &Side, t: &Threat, ignored: bool, trick_room: bool, p: Ghost<Pressure>) -> (r:
    Score)
    requires
        stages_ok(*side),
        small(*t),
        shows(*t, p@),
    ensures
        r.wf(),
        r@ == boost_value(*side, p@, ignored, trick_room),
{
    let mut score = Score::zero();
    if !ignored {
        score.add_ratio(boost_credit(side.attack_boost, POKEMON_ATTACK_BOOST, t.physical));
        score.add_ratio(full_credit(side.defense_boost, POKEMON_DEFENSE_BOOST));
        score.add_ratio(
            boost_credit(side.special_attack_boost, POKEMON_SPECIAL_ATTACK_BOOST, t.special),
        );
        score.add_ratio(
            full_credit(side.special_defense_boost, POKEMON_SPECIAL_DEFENSE_BOOST),
        );
    }
    let speed = full_credit(side.speed_boost, POKEMON_SPEED_BOOST);
    if trick_room {
        score.sub_ratio(speed);
    } else {
        score.add_ratio(speed);
    }
    score
}

/// What the team members that still stand are worth on the bench.
fn evaluate_bench(side: &Side, off: &EvalOff, stall: bool) -> (r: Score)
    requires
        scorable_side(*side, *off),
    ensures
        r.wf(),
        r@ == bench_value(*side, *off, stall, TEAM_SIZE as int),
{
    let mut score = Score::zero();
    let mut i: usize = 0;
    while i < TEAM_SIZE
        invariant
            i <= TEAM_SIZE,
            scorable_side(*side, *off),
            score.wf(),
            score@ == bench_value(*side, *off, stall, i as int),
        decreases TEAM_SIZE - i,
    {
        let m = &side.pokemon[i];
        if m.hp > 0 {
            score.add_ratio(evaluate_pokemon(m, off, stall));
            score.add_whole(evaluate_hazards(m, side, off) as i128);
        }
        i += 1;
    }
    score
}

/// Whether somebody on the team has terastallized.
fn has_used_tera(side: &Side) -> (r: bool)
    requires
        side.wf(),
    ensures
        r == used_tera(*side),
{
    let mut i: usize = 0;
    while i < TEAM_SIZE
        invariant
            i <= TEAM_SIZE,
            side.wf(),
            forall|k: int| 0 <= k < i ==> !(#[trigger] side.pokemon@[k]).terastallized,
        decreases TEAM_SIZE - i,
    {
        if side.pokemon[i].terastallized {
            assert(side.pokemon@[i as int].terastallized);
            return true;
        }
        i += 1;
    }
    false
}

/// What the conditions on a side are worth to it.
fn evaluate_conditions(side: &Side) -> (r: i128)
    ensures
        r == condition_points(*side),
        -0x10_0000 <= r <= 0x10_0000,
{
    let c = &side.side_conditions;
    c.reflect as i128 * REFLECT + c.light_screen as i128 * LIGHT_SCREEN + c.aurora_veil as i128
        * AURORA_VEIL + c.safeguard as i128 * SAFE_GUARD + c.tailwind as i128 * TAILWIND
        + c.healing_wish as i128 * HEALING_WISH
}

/// The share of the hit points that is gone, times a fraction and a base worth.
proof fn lemma_missing(base: int, num: int, den: int, hp: int, m: int)
    requires
        den > 0,
        m > 0,
    ensures
        over(base * num * (m - hp), den * m) == base as real * over(num, den) * (1 as real
            - hp as real / m as real),
{
    lemma_real_mul(base, num);
    lemma_real_mul(base * num, m - hp);
    lemma_real_mul(den, m);
    let (b, n, d, h, q) = (base as real, num as real, den as real, hp as real, m as real);
    let x = n / d;
    let y = h / q;
    assert(x * d == n) by (nonlinear_arith)
        requires
            d > 0 as real,
            x == n / d,
    ;
    assert(y * q == h) by (nonlinear_arith)
        requires
            q > 0 as real,
            y == h / q,
    ;
    let v = b * x * (1 as real - y);
    let one_less = 1 as real - y;
    assert(one_less * q == q - y * q) by (nonlinear_arith)
        requires
            one_less == 1 as real - y,
    ;
    assert((b * x * one_less) * (d * q) == (b * (x * d)) * (one_less * q)) by (nonlinear_arith);
    let t = b * n * (q - h);
    let e = d * q;
    assert(e > 0 as real) by (nonlinear_arith)
        requires
            d > 0 as real,
            q > 0 as real,
            e == d * q,
    ;
    assert(v * e == t);
    assert(v == t / e) by (nonlinear_arith)
        requires
            v * e == t,
            e > 0 as real,
    ;
}

/// The stronger of the two threats.
fn stronger(t: &Threat, p: Ghost<Pressure>) -> (r: Ratio)
    requires
        small(*t),
        shows(*t, p@),
    ensures
        r.wf(),
        0 <= r.num <= r.den <= 0x40_0000_0000_0000,
        r@ == strongest(p@),
{
    let (a, b) = (t.physical, t.special);
    let (an, ad, bn, bd) = (a.num, a.den, b.num, b.den);
    assert(0 <= an * bd <= 0x1000_0000_0000_0000_0000_0000_0000 && 0 <= bn * ad
        <= 0x1000_0000_0000_0000_0000_0000_0000) by (nonlinear_arith)
        requires
            0 <= an <= 0x40_0000_0000_0000,
            0 <= bn <= 0x40_0000_0000_0000,
            0 <= ad <= 0x40_0000_0000_0000,
            0 <= bd <= 0x40_0000_0000_0000,
    ;
    proof {
        lemma_cross(an as int, ad as int, bn as int, bd as int);
    }
    if an * bd < bn * ad {
        b
    } else {
        a
    }
}

/// Credit for moving first.
fn evaluate_speed(
    own: &Side,
    foe: &Side,
    t: &Threat,
    trick_room: bool,
    off: &EvalOff,
    p: Ghost<Pressure>,
) -> (r: Ratio)
    requires
        scorable_side(*own, *off),
        scorable_side(*foe, *off),
        small(*t),
        shows(*t, p@),
    ensures
        r.wf(),
        r@ == speed_value(*own, *foe, p@, trick_room, *off),
{
    let a = &own.pokemon[own.active_index];
    let b = &foe.pokemon[foe.active_index];
    let first = if trick_room {
        a.speed < b.speed
    } else {
        a.speed > b.speed
    };
    if !off.speedtier && a.hp > 0 && b.hp > 0 && first {
        let s = stronger(t, p);
        proof {
            lemma_order_over(0, s.num as int, s.den as int);
            lemma_zero_over(s.den as int);
        }
        if s.num > 0 {
            let (n, d): (i128, i128) = (s.num, s.den);
            let m: i128 = b.maxhp as i128;
            let gone: i128 = m - b.hp as i128;
            assert(-0x4000_0000_0000_0000_0000 <= 20 * n * gone <= 0x4000_0000_0000_0000_0000)
                by (nonlinear_arith)
                requires
                    0 <= n <= 0x40_0000_0000_0000,
                    -0x1_0000 <= gone <= 0x1_0000,
            ;
            assert(0 < d * m <= 0x4000_0000_0000_0000_0000) by (nonlinear_arith)
                requires
                    0 < d <= 0x40_0000_0000_0000,
                    0 < m <= 0x7fff,
            ;
            proof {
                lemma_missing(
                    SPEED_TIER_BONUS as int,
                    n as int,
                    d as int,
                    b.hp as int,
                    m as int,
                );
            }
            return Ratio::new(SPEED_TIER_BONUS * n * gone, d * m);
        }
    }
    Ratio::whole(0)
}

/// What weather and terrain are worth to the Pokemon that is out.
fn evaluate_field(pokemon: &Pokemon, field: &Field, off: &EvalOff) -> (r: i128)
    ensures
        r == field_points(*pokemon, *field, *off),
        -200 <= r <= 200,
{
    let mut points: i128 = 0;
    if !off.weather && field.weather != Weather::NONE {
        points += evaluate_weather_for_active(pokemon, field.weather, field.trick_room) as i128;
    }
    if !off.terrain && field.terrain != Terrain::NONE {
        points += evaluate_terrain_for_active(pokemon, field.terrain, field.trick_room) as i128;
    }
    points
}

/// What the Pokemon that is out is worth beyond what it is worth on the bench.
fn evaluate_active(
    own: &Side,
    foe: &Side,
    own_profile: &TypeProfile,
    t: &Threat,
    field: &Field,
    off: &EvalOff,
    p: Ghost<Pressure>,
) -> (r: Score)
    requires
        scorable_side(*own, *off),
        own.active().hp > 0,
        foe.wf(),
        own_profile.wf(),
        small(*t),
        shows(*t, p@),
    ensures
        r.wf(),
        r@ == active_value(*own, *foe, *own_profile, p@, field.trick_room, *off) + field_points(
            own.active(),
            *field,
            *off,
        ) as real,
{
    let a = &own.pokemon[own.active_index];
    let b = &foe.pokemon[foe.active_index];
    let ignored = !off.unaware && b.ability == Abilities::UNAWARE && a.ability
        != Abilities::MOLDBREAKER;
    let mut score = evaluate_boosts(own, t, ignored, field.trick_room, p);
    score.add_whole(evaluate_active_volatiles(a, own, off));
    if !off.locks && choice_locked_into_status(a) {
        score.add_whole(CHOICE_LOCKED_STATUS);
    }
    if !off.tera {
        score.add_whole(evaluate_tera_active(a, own_profile) as i128);
    }
    score.add_whole(evaluate_field(a, field, off));
    score
}

/// What the position is worth to the player of `own`.
fn evaluate_seat(
    own: &Side,
    foe: &Side,
    own_profile: &TypeProfile,
    foe_profile: &TypeProfile,
    field: &Field,
    off: &EvalOff,
    stall: bool,
) -> (r: Score)
    requires
        scorable_side(*own, *off),
        scorable_side(*foe, *off),
        own_profile.wf(),
        foe_profile.wf(),
    ensures
        r.wf(),
        r@ == seat_value(*own, *foe, *own_profile, *foe_profile, *field, *off, stall),
{
    let t = measure_pressure(own, foe, foe_profile, off);
    let ghost p = pressure(*own, *foe, *foe_profile, *off);
    let a = &own.pokemon[own.active_index];
    let mut score = evaluate_bench(own, off, stall);
    if a.hp > 0 {
        let active = evaluate_active(own, foe, own_profile, &t, field, off, Ghost(p));
        score.add_score(&active);
    }
    if has_used_tera(own) {
        score.add_whole(USED_TERA);
    }
    score.add_whole(evaluate_conditions(own));
    if !off.pending {
        score.add_whole(evaluate_pending_effects(own) as i128);
    }
    proof {
        lemma_zero_over(t.physical.den as int);
        lemma_zero_over(t.special.den as int);
        lemma_order_over(0, t.physical.num as int, t.physical.den as int);
        lemma_order_over(0, t.special.num as int, t.special.den as int);
    }
    if !off.hopeless && a.hp > 0 && t.physical.num == 0 && t.special.num == 0 && !t.has_status {
        score.add_whole(HOPELESS_MATCHUP);
    }
    score.add_ratio(evaluate_speed(own, foe, &t, field.trick_room, off, Ghost(p)));
    score
}

/// The value of a position for the first player. `one` and `two` tell how hard
/// attacks of each type hit the active Pokemon of the two sides.
pub fn evaluate(
    state: &State,
    one: &TypeProfile,
    two: &TypeProfile,
    off: &EvalOff,
    mode: &StallMode,
) -> (r: Score)
    requires
        scorable_side(state.side_one, *off),
        scorable_side(state.side_two, *off),
        one.wf(),
        two.wf(),
    ensures
        r.wf(),
        r@ == position_value(*state, *one, *two, *off, mode.on),
{
    let stall = stall_mode(mode);
    let mut score = evaluate_seat(
        &state.side_one,
        &state.side_two,
        one,
        two,
        &state.field,
        off,
        stall,
    );
    let other = evaluate_seat(
        &state.side_two,
        &state.side_one,
        two,
        one,
        &state.field,
        off,
        stall,
    );
    score.sub_score(&other);
    score
}

} // verus!
