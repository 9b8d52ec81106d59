//! What fallen allies are worth to an attacker with Supreme Overlord.
#[allow(unused_imports)]
use crate::genx::active::{pending_points, volatiles_total};
#[allow(unused_imports)]
use crate::genx::evaluate::{
    active_value, bench_value, boost_value, boosts_ignored, hopeless, position_value, pressure,
    seat_value, speed_value, strongest, used_tera, Pressure, HOPELESS_MATCHUP, POKEMON_ATTACK_BOOST,
    SPEED_TIER_BONUS, USED_TERA,
};
#[allow(unused_imports)]
use crate::genx::laws::law_supreme_overlord_scales_damage;
#[allow(unused_imports)]
use crate::genx::switches::EvalOff;
#[allow(unused_imports)]
use crate::genx::threat::{at_least_one, best_threat, damage, hit_threat};
#[allow(unused_imports)]
use crate::matchup::TypeProfile;
#[allow(unused_imports)]
use crate::numbers::{lemma_order_over, lemma_zero_over, over};
#[allow(unused_imports)]
use crate::stages::{boost_hundredths, multiplier, stage_ok};
#[allow(unused_imports)]
use crate::state::{fainted_among, Field, Pokemon, Side, State, TEAM_SIZE};
#[allow(unused_imports)]
use crate::types::{Abilities, MoveCategory};
use vstd::prelude::*;

verus! {

/// Two sides with the same Pokemon out. On the bench of `many` more have fallen;
/// the benches may differ in any other way too.
pub open spec fn more_fallen(few: Side, many: Side) -> bool {
    &&& few.wf()
    &&& many == (Side { pokemon: many.pokemon, ..few })
    &&& many.pokemon@.len() == few.pokemon@.len()
    &&& many.active() == few.active()
    &&& fainted_among(many.pokemon@, TEAM_SIZE as int) > fainted_among(
        few.pokemon@,
        TEAM_SIZE as int,
    )
}

/// Two sides that differ in the ability of the Pokemon that is out, at most.
pub open spec fn same_but_for_ability(s: Side, t: Side) -> bool {
    &&& s.wf()
    &&& t == (Side { pokemon: t.pokemon, ..s })
    &&& t.pokemon@.len() == s.pokemon@.len()
    &&& t.active() == (Pokemon { ability: t.active().ability, ..s.active() })
    &&& forall|k: int|
        #![trigger s.pokemon@[k]]
        #![trigger t.pokemon@[k]]
        0 <= k < TEAM_SIZE && k != s.active_index ==> s.pokemon@[k] == t.pokemon@[k]
}

proof fn lemma_fainted_nonneg(team: Seq<Pokemon>, n: int)
    ensures
        fainted_among(team, n) >= 0,
    decreases n,
{
    if n > 0 {
        lemma_fainted_nonneg(team, n - 1);
    }
}

proof fn lemma_fainted_same(s: Side, t: Side, n: int)
    requires
        same_but_for_ability(s, t),
        0 <= n <= TEAM_SIZE,
    ensures
        fainted_among(s.pokemon@, n) == fainted_among(t.pokemon@, n),
    decreases n,
{
    if n > 0 {
        lemma_fainted_same(s, t, n - 1);
        if n - 1 != s.active_index {
            assert(s.pokemon@[n - 1] == t.pokemon@[n - 1]);
        }
    }
}

/// A share grows with a factor of the damage, and stays nothing where it was.
proof fn lemma_share_grows(d: real, o0: real, o1: real, h: real)
    requires
        (0 as real) < o0 < o1,
        h > 0 as real,
    ensures
        ({
            let s0 = d * o0 / h / over(1, 2);
            let s1 = d * o1 / h / over(1, 2);
            &&& s0 > 0 as real ==> s1 > s0
            &&& s0 <= 0 as real ==> s1 <= 0 as real
        }),
{
    let u0 = d * o0;
    let u1 = d * o1;
    let w0 = u0 / h;
    let w1 = u1 / h;
    assert(w0 * h == u0 && w1 * h == u1) by (nonlinear_arith)
        requires
            h > 0 as real,
            w0 == u0 / h,
            w1 == u1 / h,
    ;
    let half = over(1, 2);
    assert(half == 1 as real / 2 as real);
    assert(w0 / half == 2 as real * w0 && w1 / half == 2 as real * w1) by (nonlinear_arith)
        requires
            half == 1 as real / 2 as real,
    ;
    if w0 > 0 as real {
        assert(u0 > 0 as real) by (nonlinear_arith)
            requires
                w0 > 0 as real,
                h > 0 as real,
                w0 * h == u0,
        ;
        assert(u1 > u0) by (nonlinear_arith)
            requires
                u0 == d * o0,
                u1 == d * o1,
                (0 as real) < o0 < o1,
                u0 > 0 as real,
        ;
        assert(w1 > w0) by (nonlinear_arith)
            requires
                u1 > u0,
                w0 * h == u0,
                w1 * h == u1,
                h > 0 as real,
        ;
    } else {
        assert(u0 <= 0 as real) by (nonlinear_arith)
            requires
                w0 <= 0 as real,
                h > 0 as real,
                w0 * h == u0,
        ;
        assert(u1 <= 0 as real) by (nonlinear_arith)
            requires
                u0 == d * o0,
                u1 == d * o1,
                (0 as real) < o0 < o1,
                u0 <= 0 as real,
        ;
        assert(w1 <= 0 as real) by (nonlinear_arith)
            requires
                u1 <= 0 as real,
                w1 * h == u1,
                h > 0 as real,
        ;
    }
}

/// More fallen allies make the best threat of Supreme Overlord greater, unless it is
/// nothing or full already.
proof fn lemma_threat_grows(
    a: Pokemon,
    d: Pokemon,
    profile: TypeProfile,
    f0: int,
    f1: int,
    off: EvalOff,
    category: MoveCategory,
    n: int,
)
    requires
        a.ability == Abilities::SUPREMEOVERLORD,
        !off.supremeoverlord,
        0 <= f0 < f1,
        n <= a.moves@.len(),
    ensures
        ({
            let b0 = best_threat(a, d, profile, f0, off, category, n);
            let b1 = best_threat(a, d, profile, f1, off, category, n);
            &&& 0 as real <= b0 <= b1
            &&& b0 <= 1 as real
            &&& (0 as real) < b0 < 1 as real ==> b0 < b1
        }),
    decreases n,
{
    if n > 0 {
        lemma_threat_grows(a, d, profile, f0, f1, off, category, n - 1);
        let m = a.moves@[n - 1];
        let q = profile.against(m.choice.move_type);
        law_supreme_overlord_scales_damage(a, d, m, q, f0, off);
        law_supreme_overlord_scales_damage(a, d, m, q, f1, off);
        let o0 = 1 as real + f0 as real / 10 as real;
        let o1 = 1 as real + f1 as real / 10 as real;
        let h = at_least_one(d.maxhp as int) as real;
        lemma_share_grows(damage(a, d, m, q, 0, off), o0, o1, h);
        let h0 = hit_threat(a, d, m, q, f0, off);
        let h1 = hit_threat(a, d, m, q, f1, off);
        assert(h0 > 0 as real ==> h1 >= h0);
        assert((0 as real) < h0 < 1 as real ==> h1 > h0);
        assert(h0 <= 1 as real);
    }
}

/// Fallen allies are nothing to an attacker without Supreme Overlord.
proof fn lemma_threat_stays(
    a: Pokemon,
    d: Pokemon,
    profile: TypeProfile,
    f0: int,
    f1: int,
    off: EvalOff,
    category: MoveCategory,
    n: int,
)
    requires
        a.ability != Abilities::SUPREMEOVERLORD,
    ensures
        best_threat(a, d, profile, f0, off, category, n) == best_threat(
            a,
            d,
            profile,
            f1,
            off,
            category,
            n,
        ),
    decreases n,
{
    if n > 0 {
        lemma_threat_stays(a, d, profile, f0, f1, off, category, n - 1);
        let m = a.moves@[n - 1];
        let q = profile.against(m.choice.move_type);
        assert(damage(a, d, m, q, f0, off) == damage(a, d, m, q, f1, off));
        assert(hit_threat(a, d, m, q, f0, off) == hit_threat(a, d, m, q, f1, off));
    }
}

/// An ability on the field changes nothing about what the bench gains or loses.
proof fn lemma_bench(
    few: Side,
    many: Side,
    few_other: Side,
    many_other: Side,
    off: EvalOff,
    stall: bool,
    n: int,
)
    requires
        more_fallen(few, many),
        same_but_for_ability(few, few_other),
        same_but_for_ability(many, many_other),
        few_other.active().ability == many_other.active().ability,
        0 <= n <= TEAM_SIZE,
    ensures
        bench_value(many, off, stall, n) - bench_value(few, off, stall, n) == bench_value(
            many_other,
            off,
            stall,
            n,
        ) - bench_value(few_other, off, stall, n),
    decreases n,
{
    if n > 0 {
        lemma_bench(few, many, few_other, many_other, off, stall, n - 1);
        let k = n - 1;
        if k != few.active_index {
            assert(few.pokemon@[k] == few_other.pokemon@[k]);
            assert(many.pokemon@[k] == many_other.pokemon@[k]);
        } else {
            assert(few.pokemon@[k] == many.pokemon@[k]);
            assert(few_other.pokemon@[k] == many_other.pokemon@[k]);
        }
    }
}

proof fn lemma_used_tera(s: Side, t: Side)
    requires
        same_but_for_ability(s, t),
    ensures
        used_tera(s) == used_tera(t),
{
    assert forall|k: int| 0 <= k < TEAM_SIZE implies (#[trigger] s.pokemon@[k]).terastallized
        == t.pokemon@[k].terastallized by {
        if k == s.active_index {
            assert(s.pokemon@[k] == s.active() && t.pokemon@[k] == t.active());
        }
    }
    if used_tera(s) {
        let k = choose|k: int| 0 <= k < TEAM_SIZE && (#[trigger] s.pokemon@[k]).terastallized;
        assert(t.pokemon@[k].terastallized);
    }
    if used_tera(t) {
        let k = choose|k: int| 0 <= k < TEAM_SIZE && (#[trigger] t.pokemon@[k]).terastallized;
        assert(s.pokemon@[k].terastallized);
    }
}

/// What depends on the pressure that the active Pokemon puts on the other.
pub open spec fn pressed(own: Side, foe: Side, p: Pressure, field: Field, off: EvalOff) -> real {
    boost_value(own, p, boosts_ignored(own, foe, off), field.trick_room) + (if !off.hopeless
        && hopeless(own.active(), p) {
        HOPELESS_MATCHUP as real
    } else {
        0 as real
    }) + speed_value(own, foe, p, field.trick_room, off)
}

/// What a change on the bench is worth, apart from what comes through the pressure,
/// does not depend on the ability on the field.
proof fn lemma_seat(
    few: Side,
    many: Side,
    few_other: Side,
    many_other: Side,
    foe: Side,
    one: TypeProfile,
    two: TypeProfile,
    field: Field,
    off: EvalOff,
    stall: bool,
)
    requires
        more_fallen(few, many),
        same_but_for_ability(few, few_other),
        same_but_for_ability(many, many_other),
        few_other.active().ability == many_other.active().ability,
        few.active().hp > 0,
    ensures
        ({
            let seat = |s: Side| seat_value(s, foe, one, two, field, off, stall);
            let push = |s: Side| pressed(s, foe, pressure(s, foe, two, off), field, off);
            (seat(many) - push(many)) - (seat(few) - push(few)) == (seat(many_other) - push(
                many_other,
            )) - (seat(few_other) - push(few_other))
        }),
{
    lemma_bench(few, many, few_other, many_other, off, stall, TEAM_SIZE as int);
    lemma_used_tera(few, few_other);
    lemma_used_tera(many, many_other);
    lemma_rest(few, many, foe, one, two, field, off, stall);
    assert(few_other.active() == many_other.active());
    lemma_rest(few_other, many_other, foe, one, two, field, off, stall);
}

/// Apart from the bench, from used-up terastallization and from the pressure, a seat
/// depends on the Pokemon that is out.
proof fn lemma_rest(
    few: Side,
    many: Side,
    foe: Side,
    one: TypeProfile,
    two: TypeProfile,
    field: Field,
    off: EvalOff,
    stall: bool,
)
    requires
        many == (Side { pokemon: many.pokemon, ..few }),
        many.active() == few.active(),
        few.active().hp > 0,
    ensures
        ({
            let seat = |s: Side| seat_value(s, foe, one, two, field, off, stall);
            let push = |s: Side| pressed(s, foe, pressure(s, foe, two, off), field, off);
            let bench = |s: Side|
                bench_value(s, off, stall, TEAM_SIZE as int) + if used_tera(s) {
                    USED_TERA as real
                } else {
                    0 as real
                };
            seat(many) - push(many) - bench(many) == seat(few) - push(few) - bench(few)
        }),
{
    let a = few.active();
    assert(volatiles_total(few.volatile_statuses@, a, off) == volatiles_total(
        many.volatile_statuses@,
        many.active(),
        off,
    ));
    assert(pending_points(few) == pending_points(many));
}

/// The other player's seat depends on nothing but the Pokemon that is out.
proof fn lemma_foe_seat(
    few: Side,
    many: Side,
    foe: Side,
    one: TypeProfile,
    two: TypeProfile,
    field: Field,
    off: EvalOff,
    stall: bool,
)
    requires
        many.active() == few.active(),
    ensures
        seat_value(foe, many, two, one, field, off, stall) == seat_value(
            foe,
            few,
            two,
            one,
            field,
            off,
            stall,
        ),
{
    let r = pressure(foe, few, one, off);
    assert(pressure(foe, many, one, off) == r);
    assert(boosts_ignored(foe, few, off) == boosts_ignored(foe, many, off));
    assert(active_value(foe, few, two, r, field.trick_room, off) == active_value(
        foe,
        many,
        two,
        r,
        field.trick_room,
        off,
    ));
    assert(speed_value(foe, few, r, field.trick_room, off) == speed_value(
        foe,
        many,
        r,
        field.trick_room,
        off,
    ));
}

/// Greater threats are worth more to a boosted attacker.
proof fn lemma_pressed_grows(
    few: Side,
    many: Side,
    foe: Side,
    p0: Pressure,
    p1: Pressure,
    field: Field,
    off: EvalOff,
)
    requires
        many == (Side { pokemon: many.pokemon, ..few }),
        many.active() == few.active(),
        !boosts_ignored(few, foe, off),
        stage_ok(few.attack_boost),
        stage_ok(few.special_attack_boost),
        few.attack_boost > 0,
        few.special_attack_boost >= 0,
        (0 as real) < p0.physical < p1.physical,
        0 as real <= p0.special <= p1.special,
        foe.active().hp > 0 ==> foe.active().hp <= foe.active().maxhp,
    ensures
        multiplier(few.attack_boost) > 0 as real,
        pressed(many, foe, p1, field, off) - pressed(few, foe, p0, field, off) >= multiplier(
            few.attack_boost,
        ) * POKEMON_ATTACK_BOOST as real * (p1.physical - p0.physical),
{
    let x = multiplier(few.attack_boost) * POKEMON_ATTACK_BOOST as real;
    let y = multiplier(few.special_attack_boost) * 30 as real;
    lemma_zero_over(100);
    lemma_order_over(0, boost_hundredths(few.attack_boost as int), 100);
    lemma_order_over(boost_hundredths(few.special_attack_boost as int), 0, 100);
    assert(x == multiplier(few.attack_boost) * 30 as real);
    assert(x * p1.physical - x * p0.physical == x * (p1.physical - p0.physical))
        by (nonlinear_arith);
    let ds = p1.special - p0.special;
    assert(y * p1.special - y * p0.special == y * ds) by (nonlinear_arith)
        requires
            ds == p1.special - p0.special,
    ;
    assert(y * ds >= 0 as real) by (nonlinear_arith)
        requires
            y >= 0 as real,
            ds >= 0 as real,
    ;
    let b = foe.active();
    let (s0, s1) = (strongest(p0), strongest(p1));
    assert((0 as real) < s0 <= s1);
    if b.hp > 0 {
        let share = b.hp as real / b.maxhp as real;
        assert(share <= 1 as real) by (nonlinear_arith)
            requires
                share == b.hp as real / b.maxhp as real,
                0 < b.hp <= b.maxhp,
        ;
        let miss = 1 as real - share;
        let bonus = SPEED_TIER_BONUS as real;
        assert(bonus * s1 * miss >= bonus * s0 * miss) by (nonlinear_arith)
            requires
                miss >= 0 as real,
                s1 >= s0,
                bonus > 0 as real,
        ;
    }
}

/// Fallen allies raise the value of a position with a boosted Supreme Overlord
/// attacker, and of no other. The same allies fall once with Supreme Overlord out and
/// once with another ability: what the position gains or loses, it gains or loses in
/// both cases, except that the threat of Supreme Overlord, where it is neither
/// nothing nor full, grows, and the boost of the attack counts accordingly more.
pub proof fn law_fallen_allies_raise_supreme_overlord(
    few: State,
    many: State,
    few_other: State,
    many_other: State,
    one: TypeProfile,
    two: TypeProfile,
    off: EvalOff,
    stall: bool,
)
    requires
        more_fallen(few.side_one, many.side_one),
        same_but_for_ability(few.side_one, few_other.side_one),
        same_but_for_ability(many.side_one, many_other.side_one),
        many.side_two == few.side_two,
        few_other.side_two == few.side_two,
        many_other.side_two == few.side_two,
        many.field == few.field,
        few_other.field == few.field,
        many_other.field == few.field,
        few.side_one.active().ability == Abilities::SUPREMEOVERLORD,
        few_other.side_one.active().ability == many_other.side_one.active().ability,
        few_other.side_one.active().ability != Abilities::SUPREMEOVERLORD,
        !off.threat,
        !off.supremeoverlord,
        few.side_one.active().hp > 0,
        stage_ok(few.side_one.attack_boost),
        stage_ok(few.side_one.special_attack_boost),
        few.side_one.attack_boost > 0,
        few.side_one.special_attack_boost >= 0,
        !boosts_ignored(few.side_one, few.side_two, off),
        few.side_two.active().hp > 0 ==> few.side_two.active().hp <= few.side_two.active().maxhp,
        (0 as real) < pressure(few.side_one, few.side_two, two, off).physical < 1 as real,
    ensures
        ({
            let value = |s: State| position_value(s, one, two, off, stall);
            let push = |s: State| pressure(s.side_one, s.side_two, two, off);
            let gain = multiplier(few.side_one.attack_boost) * POKEMON_ATTACK_BOOST as real * (push(
                many,
            ).physical - push(few).physical);
            &&& push(many).physical > push(few).physical
            &&& push(many_other) == push(few_other)
            &&& gain > 0 as real
            &&& (value(many) - value(many_other)) - (value(few) - value(few_other)) >= gain
        }),
{
    let (s0, s1, t0, t1) = (few.side_one, many.side_one, few_other.side_one, many_other.side_one);
    let foe = few.side_two;
    let field = few.field;
    let a = s0.active();
    let d = foe.active();
    let f0 = fainted_among(s0.pokemon@, TEAM_SIZE as int);
    let f1 = fainted_among(s1.pokemon@, TEAM_SIZE as int);
    let n = a.moves@.len() as int;
    lemma_fainted_nonneg(s0.pokemon@, TEAM_SIZE as int);
    lemma_fainted_same(s0, t0, TEAM_SIZE as int);
    lemma_fainted_same(s1, t1, TEAM_SIZE as int);
    lemma_threat_grows(a, d, two, f0, f1, off, MoveCategory::Physical, n);
    lemma_threat_grows(a, d, two, f0, f1, off, MoveCategory::Special, n);
    let b = t0.active();
    assert(t1.active() == b);
    lemma_threat_stays(b, d, two, f0, f1, off, MoveCategory::Physical, n);
    lemma_threat_stays(b, d, two, f0, f1, off, MoveCategory::Special, n);
    let p0 = pressure(s0, foe, two, off);
    let p1 = pressure(s1, foe, two, off);
    let r = pressure(t0, foe, two, off);
    assert(pressure(t1, foe, two, off) == r);
    assert(pressed(t0, foe, r, field, off) == pressed(t1, foe, r, field, off));
    lemma_pressed_grows(s0, s1, foe, p0, p1, field, off);
    lemma_seat(s0, s1, t0, t1, foe, one, two, field, off, stall);
    lemma_foe_seat(s0, s1, foe, one, two, field, off, stall);
    lemma_foe_seat(t0, t1, foe, one, two, field, off, stall);
    let x = multiplier(s0.attack_boost) * POKEMON_ATTACK_BOOST as real;
    assert(x == multiplier(s0.attack_boost) * 30 as real);
    let more = p1.physical - p0.physical;
    assert(x * more > 0 as real) by (nonlinear_arith)
        requires
            x > 0 as real,
            more > 0 as real,
    ;
}

} // verus!
