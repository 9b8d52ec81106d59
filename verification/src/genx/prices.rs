//! What single changes on a side are worth in points.
#[allow(unused_imports)]
use crate::genx::active::{
    hazard_points, pending_points, volatiles_total, SPIKES, SPIKES_BASE, STEALTH_ROCK,
    STEALTH_ROCK_BASE,
};
#[allow(unused_imports)]
use crate::genx::evaluate::{
    active_value, bench_value, boost_value, boosts_ignored, condition_points, position_value,
    pressure, seat_value, speed_value, used_tera,
};
#[allow(unused_imports)]
use crate::genx::switches::EvalOff;
#[allow(unused_imports)]
use crate::matchup::TypeProfile;
#[allow(unused_imports)]
use crate::state::standing_with;
#[allow(unused_imports)]
use crate::state::{Field, Pokemon, Side, SideConditions, State};
#[allow(unused_imports)]
use crate::types::{Abilities, Items, PokemonType, PokemonVolatileStatus};
use vstd::prelude::*;

verus! {

/// A team is worth the same on the bench behind the same hazards.
pub proof fn lemma_same_bench(a: Side, b: Side, off: EvalOff, stall: bool, n: int)
    requires
        a.pokemon == b.pokemon,
        a.side_conditions.spikes == b.side_conditions.spikes,
        a.side_conditions.toxic_spikes == b.side_conditions.toxic_spikes,
        a.side_conditions.stealth_rock == b.side_conditions.stealth_rock,
        a.side_conditions.sticky_web == b.side_conditions.sticky_web,
    ensures
        bench_value(a, off, stall, n) == bench_value(b, off, stall, n),
    decreases n,
{
    if n > 0 {
        lemma_same_bench(a, b, off, stall, n - 1);
        assert(hazard_points(a.pokemon@[n - 1], a, off) == hazard_points(
            b.pokemon@[n - 1],
            b,
            off,
        ));
    }
}

/// Sides whose team is the same.
pub open spec fn same_team(a: Side, b: Side) -> bool {
    &&& a.pokemon == b.pokemon
    &&& a.active_index == b.active_index
}

/// What the other player's seat is worth depends on nothing but the active Pokemon.
pub proof fn lemma_foe_seat(
    a: Side,
    b: Side,
    foe: Side,
    own_profile: TypeProfile,
    foe_profile: TypeProfile,
    field: Field,
    off: EvalOff,
    stall: bool,
)
    requires
        a.active() == b.active(),
    ensures
        seat_value(foe, a, foe_profile, own_profile, field, off, stall) == seat_value(
            foe,
            b,
            foe_profile,
            own_profile,
            field,
            off,
            stall,
        ),
{
    let p = pressure(foe, a, own_profile, off);
    assert(p == pressure(foe, b, own_profile, off));
    assert(boosts_ignored(foe, a, off) == boosts_ignored(foe, b, off));
    assert(active_value(foe, a, foe_profile, p, field.trick_room, off) == active_value(
        foe,
        b,
        foe_profile,
        p,
        field.trick_room,
        off,
    ));
    assert(speed_value(foe, a, p, field.trick_room, off) == speed_value(
        foe,
        b,
        p,
        field.trick_room,
        off,
    ));
}

/// How much more a seat is worth than another one with the same team.
pub proof fn lemma_own_seat(
    a: Side,
    b: Side,
    foe: Side,
    own_profile: TypeProfile,
    foe_profile: TypeProfile,
    field: Field,
    off: EvalOff,
    stall: bool,
)
    requires
        same_team(a, b),
    ensures
        ({
            let p = pressure(a, foe, foe_profile, off);
            seat_value(b, foe, own_profile, foe_profile, field, off, stall) - seat_value(
                a,
                foe,
                own_profile,
                foe_profile,
                field,
                off,
                stall,
            ) == (bench_value(b, off, stall, 6) - bench_value(a, off, stall, 6)) + (if a.active().hp
                > 0 {
                active_value(b, foe, own_profile, p, field.trick_room, off) - active_value(
                    a,
                    foe,
                    own_profile,
                    p,
                    field.trick_room,
                    off,
                )
            } else {
                0 as real
            }) + (condition_points(b) as real - condition_points(a) as real) + (if off.pending {
                0 as real
            } else {
                pending_points(b) as real - pending_points(a) as real
            })
        }),
{
    assert(a.active() == b.active());
    let p = pressure(a, foe, foe_profile, off);
    assert(p == pressure(b, foe, foe_profile, off));
    assert(used_tera(a) == used_tera(b));
    assert(speed_value(a, foe, p, field.trick_room, off) == speed_value(
        b,
        foe,
        p,
        field.trick_room,
        off,
    ));
}

/// The active Pokemon is worth the same with the same stages and the same statuses.
proof fn lemma_same_active(
    a: Side,
    b: Side,
    foe: Side,
    own_profile: TypeProfile,
    foe_profile: TypeProfile,
    trick_room: bool,
    off: EvalOff,
)
    requires
        same_team(a, b),
        a.attack_boost == b.attack_boost,
        a.defense_boost == b.defense_boost,
        a.special_attack_boost == b.special_attack_boost,
        a.special_defense_boost == b.special_defense_boost,
        a.speed_boost == b.speed_boost,
    ensures
        ({
            let p = pressure(a, foe, foe_profile, off);
            active_value(b, foe, own_profile, p, trick_room, off) - active_value(
                a,
                foe,
                own_profile,
                p,
                trick_room,
                off,
            ) == volatiles_total(b.volatile_statuses@, b.active(), off) as real - volatiles_total(
                a.volatile_statuses@,
                a.active(),
                off,
            ) as real
        }),
{
    assert(a.active() == b.active());
    let p = pressure(a, foe, foe_profile, off);
    assert(boosts_ignored(a, foe, off) == boosts_ignored(b, foe, off));
    assert(boost_value(a, p, boosts_ignored(a, foe, off), trick_room) == boost_value(
        b,
        p,
        boosts_ignored(a, foe, off),
        trick_room,
    ));
}

/// Only the first player's side conditions differ, and no hazard does.
pub open spec fn screens_differ(s: State, t: State) -> bool {
    let c = s.side_one.side_conditions;
    let d = t.side_one.side_conditions;
    &&& t == (State { side_one: Side { side_conditions: d, ..s.side_one }, ..s })
    &&& d == (SideConditions {
        reflect: d.reflect,
        light_screen: d.light_screen,
        aurora_veil: d.aurora_veil,
        safeguard: d.safeguard,
        tailwind: d.tailwind,
        healing_wish: d.healing_wish,
        ..c
    })
}

/// Every count of Reflect on the first player's side is worth 20 points, of Light
/// Screen 20, of Aurora Veil 40, of Safeguard 5, of Tailwind 7 and of Healing Wish 30.
pub proof fn law_screens_have_their_price(
    s: State,
    t: State,
    one: TypeProfile,
    two: TypeProfile,
    off: EvalOff,
    stall: bool,
)
    requires
        screens_differ(s, t),
    ensures
        ({
            let c = s.side_one.side_conditions;
            let d = t.side_one.side_conditions;
            position_value(t, one, two, off, stall) - position_value(s, one, two, off, stall) == (20
                * (d.reflect - c.reflect) + 20 * (d.light_screen - c.light_screen) + 40 * (
            d.aurora_veil - c.aurora_veil) + 5 * (d.safeguard - c.safeguard) + 7 * (d.tailwind
                - c.tailwind) + 30 * (d.healing_wish - c.healing_wish)) as real
        }),
{
    let a = s.side_one;
    let b = t.side_one;
    lemma_same_bench(a, b, off, stall, 6);
    lemma_same_active(a, b, s.side_two, one, two, s.field.trick_room, off);
    lemma_own_seat(a, b, s.side_two, one, two, s.field, off, stall);
    lemma_foe_seat(a, b, s.side_two, one, two, s.field, off, stall);
}

/// A side is never worse off for more of a screen, and better off for any one of them.
pub proof fn law_screens_help_their_side(
    s: State,
    t: State,
    one: TypeProfile,
    two: TypeProfile,
    off: EvalOff,
    stall: bool,
)
    requires
        screens_differ(s, t),
        s.side_one.side_conditions.reflect <= t.side_one.side_conditions.reflect,
        s.side_one.side_conditions.light_screen <= t.side_one.side_conditions.light_screen,
        s.side_one.side_conditions.aurora_veil <= t.side_one.side_conditions.aurora_veil,
        s.side_one.side_conditions.safeguard <= t.side_one.side_conditions.safeguard,
        s.side_one.side_conditions.tailwind <= t.side_one.side_conditions.tailwind,
        s.side_one.side_conditions.healing_wish <= t.side_one.side_conditions.healing_wish,
    ensures
        position_value(s, one, two, off, stall) <= position_value(t, one, two, off, stall),
        s != t ==> position_value(s, one, two, off, stall) < position_value(t, one, two, off,
            stall),
{
    law_screens_have_their_price(s, t, one, two, off, stall);
    if s != t {
        assert(s.side_one.side_conditions != t.side_one.side_conditions);
    }
}

proof fn lemma_hazard_products(c: SideConditions, off: EvalOff)
    ensures
        c.stealth_rock * (if off.hazards {
            STEALTH_ROCK_BASE
        } else {
            STEALTH_ROCK
        }) == -10 * c.stealth_rock,
        c.spikes * (if off.hazards {
            SPIKES_BASE
        } else {
            SPIKES
        }) == -7 * c.spikes,
{
    let (x, y): (int, int) = (c.stealth_rock as int, c.spikes as int);
    let rock: int = if off.hazards {
        STEALTH_ROCK_BASE as int
    } else {
        STEALTH_ROCK as int
    };
    let spike: int = if off.hazards {
        SPIKES_BASE as int
    } else {
        SPIKES as int
    };
    assert(x * rock == -10 * x) by (nonlinear_arith)
        requires
            rock == -10,
    ;
    assert(y * spike == -7 * y) by (nonlinear_arith)
        requires
            spike == -7,
    ;
}

proof fn lemma_hazard_bench(a: Side, b: Side, off: EvalOff, stall: bool, n: int)
    requires
        a.pokemon == b.pokemon,
    ensures
        ({
            let (c, d) = (a.side_conditions, b.side_conditions);
            let open = |p: Pokemon| p.item != Items::HEAVYDUTYBOOTS && p.ability
                != Abilities::MAGICGUARD;
            let low = |p: Pokemon| p.item != Items::HEAVYDUTYBOOTS && p.ability
                != Abilities::MAGICGUARD && p.grounded;
            let webbed = |p: Pokemon| p.item != Items::HEAVYDUTYBOOTS && p.grounded;
            bench_value(b, off, stall, n) - bench_value(a, off, stall, n) == (standing_with(
                a.pokemon@,
                n,
                open,
            ) * (-10 * (d.stealth_rock - c.stealth_rock)) + standing_with(a.pokemon@, n, low) * (
            -7 * (d.spikes - c.spikes) - 7 * (d.toxic_spikes - c.toxic_spikes)) + standing_with(
                a.pokemon@,
                n,
                webbed,
            ) * (-25 * (d.sticky_web - c.sticky_web))) as real
        }),
    decreases n,
{
    let (c, d) = (a.side_conditions, b.side_conditions);
    let open = |p: Pokemon| p.item != Items::HEAVYDUTYBOOTS && p.ability != Abilities::MAGICGUARD;
    let low = |p: Pokemon| p.item != Items::HEAVYDUTYBOOTS && p.ability != Abilities::MAGICGUARD
        && p.grounded;
    let webbed = |p: Pokemon| p.item != Items::HEAVYDUTYBOOTS && p.grounded;
    let x = -10 * (d.stealth_rock - c.stealth_rock);
    let y = -7 * (d.spikes - c.spikes) - 7 * (d.toxic_spikes - c.toxic_spikes);
    let z = -25 * (d.sticky_web - c.sticky_web);
    if n > 0 {
        lemma_hazard_bench(a, b, off, stall, n - 1);
        let m = a.pokemon@[n - 1];
        let (i, j, k): (int, int, int) = (
            standing_with(a.pokemon@, n - 1, open),
            standing_with(a.pokemon@, n - 1, low),
            standing_with(a.pokemon@, n - 1, webbed),
        );
        assert((i + 1) * x == i * x + x) by (nonlinear_arith);
        assert((j + 1) * y == j * y + y) by (nonlinear_arith);
        assert((k + 1) * z == k * z + z) by (nonlinear_arith);
        lemma_hazard_products(c, off);
        lemma_hazard_products(d, off);
        assert(hazard_points(m, b, off) - hazard_points(m, a, off) == (if open(m) {
            x
        } else {
            0
        }) + (if low(m) {
            y
        } else {
            0
        }) + (if webbed(m) {
            z
        } else {
            0
        }));
    } else {
        assert(0 * x == 0 && 0 * y == 0 && 0 * z == 0);
    }
}

/// Every layer of Stealth Rock on the first player's side costs 10 points for each
/// Pokemon of the team that still stands, wears no Heavy-Duty Boots and has no Magic
/// Guard; every layer of Spikes or of Toxic Spikes costs 7 for each of these that
/// touches the ground; and every Sticky Web costs 25 for each one without boots that
/// touches the ground, Magic Guard or not.
pub proof fn law_hazards_cost_every_standing_pokemon(
    s: State,
    t: State,
    one: TypeProfile,
    two: TypeProfile,
    off: EvalOff,
    stall: bool,
)
    requires
        t == (State {
            side_one: Side { side_conditions: t.side_one.side_conditions, ..s.side_one },
            ..s
        }),
        t.side_one.side_conditions == (SideConditions {
            stealth_rock: t.side_one.side_conditions.stealth_rock,
            spikes: t.side_one.side_conditions.spikes,
            toxic_spikes: t.side_one.side_conditions.toxic_spikes,
            sticky_web: t.side_one.side_conditions.sticky_web,
            ..s.side_one.side_conditions
        }),
    ensures
        ({
            let (c, d) = (s.side_one.side_conditions, t.side_one.side_conditions);
            let team = s.side_one.pokemon@;
            let open = |p: Pokemon| p.item != Items::HEAVYDUTYBOOTS && p.ability
                != Abilities::MAGICGUARD;
            let low = |p: Pokemon| p.item != Items::HEAVYDUTYBOOTS && p.ability
                != Abilities::MAGICGUARD && p.grounded;
            let webbed = |p: Pokemon| p.item != Items::HEAVYDUTYBOOTS && p.grounded;
            position_value(t, one, two, off, stall) - position_value(s, one, two, off, stall) == (
            standing_with(team, 6, open) * (-10 * (d.stealth_rock - c.stealth_rock))
                + standing_with(team, 6, low) * (-7 * (d.spikes - c.spikes) - 7 * (d.toxic_spikes
                - c.toxic_spikes)) + standing_with(team, 6, webbed) * (-25 * (d.sticky_web
                - c.sticky_web))) as real
        }),
{
    let a = s.side_one;
    let b = t.side_one;
    lemma_hazard_bench(a, b, off, stall, 6);
    lemma_same_active(a, b, s.side_two, one, two, s.field.trick_room, off);
    lemma_own_seat(a, b, s.side_two, one, two, s.field, off, stall);
    lemma_foe_seat(a, b, s.side_two, one, two, s.field, off, stall);
}

/// A volatile status that comes to those of the first player's active Pokemon, while it
/// stands, changes the value by its price in points. Three of them count even with the
/// group off; a fainted Pokemon has nothing to gain or lose.
pub proof fn law_volatile_statuses_have_their_price(
    s: State,
    t: State,
    v: PokemonVolatileStatus,
    one: TypeProfile,
    two: TypeProfile,
    off: EvalOff,
    stall: bool,
)
    requires
        t == (State {
            side_one: Side { volatile_statuses: t.side_one.volatile_statuses, ..s.side_one },
            ..s
        }),
        t.side_one.volatile_statuses@ == s.side_one.volatile_statuses@.push(v),
    ensures
        ({
            let a = s.side_one.active();
            position_value(t, one, two, off, stall) - position_value(s, one, two, off, stall) == (
            if a.hp <= 0 {
                0int
            } else {
                match v {
                    PokemonVolatileStatus::LEECHSEED => -30,
                    PokemonVolatileStatus::SUBSTITUTE => 40,
                    PokemonVolatileStatus::CONFUSION => -20,
                    _ => if off.volatiles {
                        0
                    } else {
                        match v {
                            PokemonVolatileStatus::PERISH1 => -120,
                            PokemonVolatileStatus::PERISH2 => -50,
                            PokemonVolatileStatus::PERISH3 => -20,
                            PokemonVolatileStatus::PERISH4 => -10,
                            PokemonVolatileStatus::ENCORE => -25,
                            PokemonVolatileStatus::TAUNT => -15,
                            PokemonVolatileStatus::DISABLE => -10,
                            PokemonVolatileStatus::TORMENT => -10,
                            PokemonVolatileStatus::HEALBLOCK => -15,
                            PokemonVolatileStatus::OCTOLOCK => -20,
                            PokemonVolatileStatus::YAWN => -25,
                            PokemonVolatileStatus::SALTCURE => if a.is_type(PokemonType::WATER)
                                || a.is_type(PokemonType::STEEL) {
                                -30
                            } else {
                                -15
                            },
                            PokemonVolatileStatus::PARTIALLYTRAPPED => -8,
                            PokemonVolatileStatus::TARSHOT => -5,
                            PokemonVolatileStatus::GLAIVERUSH => -30,
                            PokemonVolatileStatus::SLOWSTART => -25,
                            PokemonVolatileStatus::NIGHTMARE => -15,
                            PokemonVolatileStatus::CURSE => -25,
                            PokemonVolatileStatus::INGRAIN => 8,
                            PokemonVolatileStatus::AQUARING => 6,
                            PokemonVolatileStatus::MAGNETRISE => 5,
                            PokemonVolatileStatus::DESTINYBOND => 5,
                            PokemonVolatileStatus::FOCUSENERGY => 5,
                            PokemonVolatileStatus::LASERFOCUS => 8,
                            PokemonVolatileStatus::PROTOSYNTHESISATK => 18,
                            PokemonVolatileStatus::QUARKDRIVEATK => 18,
                            PokemonVolatileStatus::PROTOSYNTHESISDEF => 9,
                            PokemonVolatileStatus::QUARKDRIVEDEF => 9,
                            PokemonVolatileStatus::PROTOSYNTHESISSPA => 18,
                            PokemonVolatileStatus::QUARKDRIVESPA => 18,
                            PokemonVolatileStatus::PROTOSYNTHESISSPD => 9,
                            PokemonVolatileStatus::QUARKDRIVESPD => 9,
                            PokemonVolatileStatus::PROTOSYNTHESISSPE => 30,
                            PokemonVolatileStatus::QUARKDRIVESPE => 30,
                            _ => 0,
                        }
                    },
                }
            }) as real
        }),
{
    let a = s.side_one;
    let b = t.side_one;
    lemma_same_bench(a, b, off, stall, 6);
    lemma_same_active(a, b, s.side_two, one, two, s.field.trick_room, off);
    lemma_own_seat(a, b, s.side_two, one, two, s.field, off, stall);
    lemma_foe_seat(a, b, s.side_two, one, two, s.field, off, stall);
    let list = a.volatile_statuses@;
    assert(list.push(v).drop_last() =~= list);
    assert(list.push(v).last() == v);
}

/// A Wish that has yet to land is worth 15 points to the side that made it, and a
/// Future Sight 18, however far off they are; with the group off neither counts.
pub proof fn law_pending_effects_have_their_price(
    s: State,
    t: State,
    one: TypeProfile,
    two: TypeProfile,
    off: EvalOff,
    stall: bool,
)
    requires
        t == (State {
            side_one: Side {
                wish: t.side_one.wish,
                future_sight: t.side_one.future_sight,
                ..s.side_one
            },
            ..s
        }),
        s.side_one.wish.0 <= 0,
        s.side_one.future_sight.0 <= 0,
    ensures
        position_value(t, one, two, off, stall) - position_value(s, one, two, off, stall) == (
        if off.pending {
            0int
        } else {
            (if t.side_one.wish.0 > 0 {
                15int
            } else {
                0
            }) + if t.side_one.future_sight.0 > 0 {
                18int
            } else {
                0
            }
        }) as real,
{
    let a = s.side_one;
    let b = t.side_one;
    lemma_same_bench(a, b, off, stall, 6);
    lemma_same_active(a, b, s.side_two, one, two, s.field.trick_room, off);
    lemma_own_seat(a, b, s.side_two, one, two, s.field, off, stall);
    lemma_foe_seat(a, b, s.side_two, one, two, s.field, off, stall);
}

} // verus!
