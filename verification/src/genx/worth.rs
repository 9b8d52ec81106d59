//! What the state of a single Pokemon is worth in points.
#[allow(unused_imports)]
use crate::genx::active::{hazard_points, pending_points};
#[allow(unused_imports)]
use crate::genx::evaluate::{
    active_value, bench_value, boost_value, boosts_ignored, condition_points, field_points,
        hopeless,
    position_value, pressure, seat_value, speed_value, used_tera, HOPELESS_MATCHUP,
};
#[allow(unused_imports)]
use crate::genx::pokemon::{
    burn_points, can_recover, item_points, missing_recovery, orb_points, pending_poison_heal,
    pokemon_value, recovery_move, recovery_tax, regenerator_points, sleep_talk_points,
    sludge_points, status_move, status_points, synergy_points, toxic_base, wall_points,
    wall_with_choice_item,
};
#[allow(unused_imports)]
use crate::genx::prices::lemma_foe_seat;
#[allow(unused_imports)]
use crate::genx::switches::EvalOff;
#[allow(unused_imports)]
use crate::matchup::TypeProfile;
#[allow(unused_imports)]
use crate::numbers::{lemma_cancel, lemma_order_over, lemma_over_one, lemma_zero_over};
#[allow(unused_imports)]
use crate::state::{fainted_among, physical_count, Field, Move, Pokemon, Side, State};
#[allow(unused_imports)]
use crate::types::{Abilities, Choices, Items, MoveTarget, PokemonStatus, PokemonType};
use vstd::prelude::*;

verus! {

/// The move heals its user.
pub open spec fn heals(m: Move) -> bool {
    m.id != Choices::NONE && (m.id == Choices::REST || (m.choice.heal matches Some(h) && h.target
        == MoveTarget::User))
}

/// A number, but at least 30.
pub open spec fn at_least_thirty(x: real) -> real {
    if x < 30 as real {
        30 as real
    } else {
        x
    }
}

proof fn lemma_health(p: Pokemon)
    requires
        p.hp > 0,
        p.maxhp > 0,
    ensures
        (100 * p.hp) as real / p.maxhp as real > 0 as real,
{
    lemma_order_over(0, 100 * p.hp, p.maxhp as int);
    lemma_zero_over(p.maxhp as int);
}

proof fn lemma_no_recovery(moves: Seq<Move>, n: int)
    requires
        0 <= n <= moves.len(),
        forall|i: int| 0 <= i < moves.len() ==> !heals(#[trigger] moves[i]),
    ensures
        missing_recovery(moves, n) == 0,
    decreases n,
{
    if n > 0 {
        lemma_no_recovery(moves, n - 1);
        assert(!heals(moves[n - 1]));
    }
}

/// A standing Pokemon at full health without an item, a recovery move or a status is
/// worth 130 points, and every hundredth of its hit points that is missing costs one.
/// Regenerator gives half of what it would heal back.
pub proof fn law_health_is_worth_a_hundred(p: Pokemon, off: EvalOff, stall: bool)
    requires
        p.hp > 0,
        p.maxhp > 0,
        p.status == PokemonStatus::NONE,
        p.item == Items::NONE,
        forall|i: int| 0 <= i < p.moves@.len() ==> !heals(#[trigger] p.moves@[i]),
    ensures
        p.ability != Abilities::REGENERATOR || off.synergy || p.hp >= p.maxhp ==> pokemon_value(
            p,
            off,
            stall,
        ) == 30 as real + (100 * p.hp) as real / p.maxhp as real,
        p.hp == p.maxhp ==> pokemon_value(p, off, stall) == 130 as real,
        p.ability == Abilities::REGENERATOR && !off.synergy && p.hp < p.maxhp ==> ({
            let missing = (p.maxhp - p.hp) as real;
            let third = p.maxhp as real / 3 as real;
            pokemon_value(p, off, stall) == 30 as real + (100 * p.hp) as real / p.maxhp as real + (
            1 as real / 2 as real) * (if missing < third {
                missing
            } else {
                third
            }) / p.maxhp as real * 100 as real
        }),
{
    lemma_health(p);
    lemma_no_recovery(p.moves@, p.moves@.len() as int);
    assert(recovery_tax(p, off, stall) == 0);
    assert(synergy_points(p, off) == 0);
    assert(wall_points(p, off) == 0);
    assert(item_points(p, off) == 0);
    assert(pending_poison_heal(p, off) == 0);
    assert(status_points(p, off, stall) == 0 as real);
    if p.hp == p.maxhp {
        lemma_cancel(100, 1, p.maxhp as int);
        lemma_over_one(100);
        assert((100 * p.hp) as real / p.maxhp as real == 100 as real);
    }
    if p.ability == Abilities::REGENERATOR && p.hp < p.maxhp {
        lemma_regenerator(p);
    }
}

proof fn lemma_regenerator(p: Pokemon)
    requires
        p.ability == Abilities::REGENERATOR,
        0 < p.hp < p.maxhp,
    ensures
        ({
            let missing = (p.maxhp - p.hp) as real;
            let third = p.maxhp as real / 3 as real;
            regenerator_points(p) == (1 as real / 2 as real) * (if missing < third {
                missing
            } else {
                third
            }) / p.maxhp as real * 100 as real
        }),
        regenerator_points(p) >= 0 as real,
{
    let missing = (p.maxhp - p.hp) as real;
    let third = p.maxhp as real / 3 as real;
    let healed = if missing < third {
        missing
    } else {
        third
    };
    let m = p.maxhp as real;
    let x = (1 as real / 2 as real) * healed / m;
    let k = crate::genx::pokemon::POKEMON_HP as real;
    assert(x * k == x * 100 as real) by (nonlinear_arith)
        requires
            k == 100 as real,
    ;
    assert(healed >= 0 as real);
    assert(x >= 0 as real) by (nonlinear_arith)
        requires
            healed >= 0 as real,
            m > 0 as real,
            x == (1 as real / 2 as real) * healed / m,
    ;
}

/// A status or an item leaves alone what the moves of a Pokemon are good for.
proof fn lemma_same_moves(p: Pokemon, q: Pokemon, off: EvalOff, stall: bool)
    requires
        p.moves == q.moves,
        p.hp == q.hp,
        p.maxhp == q.maxhp,
        p.ability == q.ability,
    ensures
        can_recover(p) == can_recover(q),
        recovery_tax(p, off, stall) == recovery_tax(q, off, stall),
        regenerator_points(p) == regenerator_points(q),
{
    assert(can_recover(p) == can_recover(q));
}

/// A status costs a Pokemon of an ordinary ability: freezing 40 points, sleep 25 or with
/// a usable Sleep Talk 10, paralysis 25, toxic 30 or 48 for a Pokemon that recovers in
/// the stall mode, poison 10, and a burn 25 for every physical move, half as much for a
/// special attacker. A standing Pokemon never counts for less than 30.
pub proof fn law_statuses_have_their_price(p: Pokemon, q: Pokemon, off: EvalOff, stall: bool)
    requires
        q == (Pokemon { status: q.status, ..p }),
        p.status == PokemonStatus::NONE,
        pokemon_value(p, off, stall) > 30 as real,
        p.item != Items::TOXICORB,
        p.item != Items::FLAMEORB,
        p.ability != Abilities::POISONHEAL,
        p.ability != Abilities::GUTS,
        p.ability != Abilities::MARVELSCALE,
        p.ability != Abilities::QUICKFEET,
        p.ability != Abilities::TOXICBOOST,
        p.ability != Abilities::FLAREBOOST,
        p.ability != Abilities::MAGICGUARD,
    ensures
        ({
            let talks = !off.synergy && exists|i: int|
                0 <= i < p.moves@.len() && (#[trigger] p.moves@[i]).id == Choices::SLEEPTALK
                    && p.moves@[i].pp > 0;
            let recovers = exists|i: int| 0 <= i < p.moves@.len() && heals(#[trigger] p.moves@[i]);
            let physical = physical_count(p.moves@, p.moves@.len() as int);
            let price = match q.status {
                PokemonStatus::FREEZE => -40 as real,
                PokemonStatus::SLEEP => if talks {
                    -10 as real
                } else {
                    -25 as real
                },
                PokemonStatus::PARALYZE => -25 as real,
                PokemonStatus::TOXIC => if stall && !off.baseline && recovers {
                    -48 as real
                } else {
                    -30 as real
                },
                PokemonStatus::POISON => -10 as real,
                PokemonStatus::BURN => if p.special_attack > p.attack {
                    (physical * -25) as real / 2 as real
                } else {
                    (physical * -25) as real
                },
                PokemonStatus::NONE => 0 as real,
            };
            pokemon_value(q, off, stall) == at_least_thirty(pokemon_value(p, off, stall) + price)
        }),
{
    lemma_same_moves(p, q, off, stall);
    lemma_heals(p);
    assert(wall_with_choice_item(p) == wall_with_choice_item(q));
    assert(item_points(p, off) == item_points(q, off));
    assert(sludge_points(p) == sludge_points(q));
    assert(orb_points(p) == 0 && orb_points(q) == 0);
    assert(pending_poison_heal(p, off) == 0 && pending_poison_heal(q, off) == 0);
}

proof fn lemma_heals(p: Pokemon)
    ensures
        can_recover(p) <==> exists|i: int| 0 <= i < p.moves@.len() && heals(#[trigger] p.moves@[i]),
{
    if can_recover(p) {
        let i = choose|i: int| 0 <= i < p.moves@.len() && recovery_move(#[trigger] p.moves@[i]);
        assert(heals(p.moves@[i]));
    }
    if exists|i: int| 0 <= i < p.moves@.len() && heals(#[trigger] p.moves@[i]) {
        let i = choose|i: int| 0 <= i < p.moves@.len() && heals(#[trigger] p.moves@[i]);
        assert(recovery_move(p.moves@[i]));
    }
}

/// Some abilities make a status welcome: being poisoned is worth 35 points with Poison
/// Heal, or 15 with that group off, and 10 with Guts, Marvel Scale, Quick Feet, Toxic
/// Boost or Magic Guard; being burned is worth 50 with Guts, Marvel Scale or Quick Feet,
/// and with Flare Boost unless the synergies are off.
pub proof fn law_some_abilities_welcome_a_status(p: Pokemon, q: Pokemon, off: EvalOff, stall: bool)
    requires
        q == (Pokemon { status: q.status, ..p }),
        p.status == PokemonStatus::NONE,
        pokemon_value(p, off, stall) > 30 as real,
        p.item != Items::TOXICORB,
        p.item != Items::FLAMEORB,
    ensures
        ({
            let poisoned = q.status == PokemonStatus::POISON || q.status == PokemonStatus::TOXIC;
            let burned = q.status == PokemonStatus::BURN;
            let a = p.ability;
            let before = pokemon_value(p, off, stall);
            let after = pokemon_value(q, off, stall);
            &&& poisoned && a == Abilities::POISONHEAL && !off.poisonheal ==> after == before
                + 35 as real
            &&& poisoned && a == Abilities::POISONHEAL && off.poisonheal ==> after == before
                + 15 as real
            &&& poisoned && (a == Abilities::GUTS || a == Abilities::MARVELSCALE || a
                == Abilities::QUICKFEET || a == Abilities::TOXICBOOST || a == Abilities::MAGICGUARD)
                ==> after == before + 10 as real
            &&& burned && (a == Abilities::GUTS || a == Abilities::MARVELSCALE || a
                == Abilities::QUICKFEET || (a == Abilities::FLAREBOOST && !off.synergy)) ==> after
                == before + 50 as real
        }),
{
    lemma_same_moves(p, q, off, stall);
    assert(wall_with_choice_item(p) == wall_with_choice_item(q));
    assert(item_points(p, off) == item_points(q, off));
    assert(sludge_points(p) == sludge_points(q));
    assert(orb_points(p) == 0 && orb_points(q) == 0);
    assert(pending_poison_heal(p, off) == 0 && pending_poison_heal(q, off) == 0);
}

/// An item has its price, whatever it is while item prices are off 10 points. Beyond it,
/// a choice item costs 20 on a Pokemon with two status moves that cannot hand it off;
/// Black Sludge costs 21 to who is not of the Poison type; and an orb that has yet to go
/// off is worth 15 with an ability that its status feeds, 8 with Quick Feet, nothing with
/// Poison Heal or Magic Guard, and costs 16 otherwise. A Toxic Orb in the hands of Poison
/// Heal is worth another 15.
#[verifier::rlimit(40)]
pub proof fn law_items_have_their_price(p: Pokemon, q: Pokemon, off: EvalOff, stall: bool)
    requires
        q == (Pokemon { item: q.item, ..p }),
        p.item == Items::NONE,
        pokemon_value(p, off, stall) > 30 as real,
    ensures
        ({
            let (i, a) = (q.item, q.ability);
            let price = if off.items {
                if i == Items::NONE {
                    0int
                } else {
                    10int
                }
            } else {
                match i {
                    Items::NONE => 0int,
                    Items::CHOICEBAND => 13,
                    Items::CHOICESPECS => 13,
                    Items::CHOICESCARF => 13,
                    Items::EVIOLITE => 13,
                    Items::LOADEDDICE => 12,
                    Items::LIFEORB => 9,
                    Items::HEAVYDUTYBOOTS => 9,
                    Items::LEFTOVERS => 9,
                    Items::BLACKSLUDGE => 9,
                    Items::ASSAULTVEST => 9,
                    Items::FOCUSSASH => 8,
                    Items::ROCKYHELMET => 7,
                    Items::AIRBALLOON => 7,
                    Items::EXPERTBELT => 7,
                    Items::MUSCLEBAND => 7,
                    Items::WISEGLASSES => 7,
                    Items::PUNCHINGGLOVE => 7,
                    Items::SITRUSBERRY => 6,
                    Items::COVERTCLOAK => 6,
                    Items::CLEARAMULET => 6,
                    Items::POWERHERB => 6,
                    Items::WEAKNESSPOLICY => 6,
                    Items::SHELLBELL => 6,
                    Items::BOOSTERENERGY => 4,
                    Items::TOXICORB => 4,
                    Items::FLAMEORB => 4,
                    Items::STICKYBARB => -10,
                    _ => 5,
                }
            };
            let choice = i == Items::CHOICEBAND || i == Items::CHOICESPECS
                || i == Items::CHOICESCARF;
            let stuck = choice && (forall|k: int|
                0 <= k < q.moves@.len() ==> (#[trigger] q.moves@[k]).id != Choices::TRICK
                    && q.moves@[k].id != Choices::SWITCHEROO) && exists|j: int, k: int|
                0 <= j < k < q.moves@.len() && status_move(#[trigger] q.moves@[j]) && status_move(
                    #[trigger] q.moves@[k],
                );
            let wall = if !off.locks && stuck {
                -20int
            } else {
                0int
            };
            let orb = if off.synergy || q.status != PokemonStatus::NONE || (i != Items::FLAMEORB
                && i
                != Items::TOXICORB) {
                0int
            } else if (i == Items::FLAMEORB && (a == Abilities::GUTS || a == Abilities::FLAREBOOST))
                || (i == Items::TOXICORB && a == Abilities::TOXICBOOST) {
                15
            } else if a == Abilities::QUICKFEET {
                8
            } else if a == Abilities::POISONHEAL || a == Abilities::MAGICGUARD {
                0
            } else {
                -16
            };
            let healing = if !off.poisonheal && a == Abilities::POISONHEAL && q.status
                == PokemonStatus::NONE && i == Items::TOXICORB {
                15int
            } else {
                0int
            };
            let sludge = if !off.synergy && i == Items::BLACKSLUDGE && !q.is_type(
                PokemonType::POISON,
            ) {
                -21int
            } else {
                0int
            };
            pokemon_value(q, off, stall) == at_least_thirty(
                pokemon_value(p, off, stall) + (price + wall + orb + healing + sludge) as real,
            )
        }),
{
    lemma_same_moves(p, q, off, stall);
    assert(status_points(p, off, stall) == status_points(q, off, stall)) by {
        assert(burn_points(p, off) == burn_points(q, off));
        assert(toxic_base(p, off, stall) == toxic_base(q, off, stall));
    }
    assert(sleep_talk_points(p) == sleep_talk_points(q));
    assert(wall_points(p, off) == 0);
    assert(item_points(p, off) == 0);
    assert(orb_points(p) == 0 && sludge_points(p) == 0 && pending_poison_heal(p, off) == 0);
}

/// A Pokemon on the bench that still stands counts by what it is worth alone, and by what
/// the hazards cost it.
pub proof fn law_bench_counts_by_worth(
    s: State,
    t: State,
    k: int,
    one: TypeProfile,
    two: TypeProfile,
    off: EvalOff,
    stall: bool,
)
    requires
        s.side_one.pokemon@.len() == 6,
        0 <= k < 6,
        k != s.side_one.active_index,
        s.side_one.active_index < 6,
        t == (State { side_one: Side { pokemon: t.side_one.pokemon, ..s.side_one }, ..s }),
        t.side_one.pokemon@ == s.side_one.pokemon@.update(k, t.side_one.pokemon@[k]),
        s.side_one.pokemon@[k].hp > 0,
        t.side_one.pokemon@[k].hp > 0,
        s.side_one.pokemon@[k].terastallized == t.side_one.pokemon@[k].terastallized,
    ensures
        ({
            let (p, q) = (s.side_one.pokemon@[k], t.side_one.pokemon@[k]);
            position_value(t, one, two, off, stall) - position_value(s, one, two, off, stall)
                == pokemon_value(q, off, stall) - pokemon_value(p, off, stall) + (hazard_points(
                q,
                t.side_one,
                off,
            ) - hazard_points(p, s.side_one, off)) as real
        }),
{
    let (a, b) = (s.side_one, t.side_one);
    lemma_tera_same(a, b, k);
    lemma_bench_seat(a, b, k, s.side_two, one, two, s.field, off, stall);
}

/// A fallen Pokemon on the bench counts for nothing, whatever else it is.
pub proof fn law_the_fallen_count_for_nothing(
    s: State,
    t: State,
    k: int,
    one: TypeProfile,
    two: TypeProfile,
    off: EvalOff,
    stall: bool,
)
    requires
        s.side_one.pokemon@.len() == 6,
        0 <= k < 6,
        k != s.side_one.active_index,
        s.side_one.active_index < 6,
        t == (State { side_one: Side { pokemon: t.side_one.pokemon, ..s.side_one }, ..s }),
        t.side_one.pokemon@ == s.side_one.pokemon@.update(k, t.side_one.pokemon@[k]),
        s.side_one.pokemon@[k].hp <= 0,
        t.side_one.pokemon@[k].hp <= 0,
        s.side_one.pokemon@[k].terastallized == t.side_one.pokemon@[k].terastallized,
    ensures
        position_value(t, one, two, off, stall) == position_value(s, one, two, off, stall),
{
    let (a, b) = (s.side_one, t.side_one);
    lemma_tera_same(a, b, k);
    lemma_bench_seat(a, b, k, s.side_two, one, two, s.field, off, stall);
}

/// The first one of a team to terastallize costs its side 75 points, and no other one
/// does.
#[verifier::rlimit(40)]
pub proof fn law_terastallizing_has_its_price(
    s: State,
    t: State,
    k: int,
    one: TypeProfile,
    two: TypeProfile,
    off: EvalOff,
    stall: bool,
)
    requires
        s.side_one.pokemon@.len() == 6,
        0 <= k < 6,
        k != s.side_one.active_index,
        s.side_one.active_index < 6,
        t == (State { side_one: Side { pokemon: t.side_one.pokemon, ..s.side_one }, ..s }),
        t.side_one.pokemon@ == s.side_one.pokemon@.update(
            k,
            (Pokemon { terastallized: true, ..s.side_one.pokemon@[k] }),
        ),
        s.side_one.pokemon@[k].hp > 0,
    ensures
        position_value(t, one, two, off, stall) == position_value(s, one, two, off,
            stall) + (if exists|
            i: int,
        | 0 <= i < 6 && (#[trigger] s.side_one.pokemon@[i]).terastallized {
            0 as real
        } else {
            -75 as real
        }),
{
    let (a, b) = (s.side_one, t.side_one);
    let (p, q) = (a.pokemon@[k], b.pokemon@[k]);
    assert(q == (Pokemon { terastallized: true, ..p }));
    assert(pokemon_value(p, off, stall) == pokemon_value(q, off, stall)) by {
        lemma_same_moves(p, q, off, stall);
        assert(wall_with_choice_item(p) == wall_with_choice_item(q));
        assert(sleep_talk_points(p) == sleep_talk_points(q));
        assert(status_points(p, off, stall) == status_points(q, off, stall));
    }
    assert(hazard_points(p, a, off) == hazard_points(q, b, off));
    assert(b.pokemon@[k].terastallized);
    assert(used_tera(b));
    lemma_bench_seat(a, b, k, s.side_two, one, two, s.field, off, stall);
}

proof fn lemma_tera_same(a: Side, b: Side, k: int)
    requires
        a.pokemon@.len() == 6,
        0 <= k < 6,
        b.pokemon@ == a.pokemon@.update(k, b.pokemon@[k]),
        a.pokemon@[k].terastallized == b.pokemon@[k].terastallized,
    ensures
        used_tera(a) == used_tera(b),
{
    if used_tera(a) {
        let i = choose|i: int| 0 <= i < 6 && (#[trigger] a.pokemon@[i]).terastallized;
        assert(b.pokemon@[i].terastallized);
    }
    if used_tera(b) {
        let i = choose|i: int| 0 <= i < 6 && (#[trigger] b.pokemon@[i]).terastallized;
        assert(a.pokemon@[i].terastallized);
    }
}

proof fn lemma_bench(a: Side, b: Side, k: int, off: EvalOff, stall: bool, n: int)
    requires
        a.pokemon@.len() == 6,
        0 <= k < 6,
        0 <= n <= 6,
        b == (Side { pokemon: b.pokemon, ..a }),
        b.pokemon@ == a.pokemon@.update(k, b.pokemon@[k]),
        a.pokemon@[k].hp > 0 <==> b.pokemon@[k].hp > 0,
    ensures
        fainted_among(a.pokemon@, n) == fainted_among(b.pokemon@, n),
        n <= k ==> bench_value(a, off, stall, n) == bench_value(b, off, stall, n),
        n > k ==> bench_value(b, off, stall, n) - bench_value(a, off, stall, n) == (
        if a.pokemon@[k].hp > 0 {
            pokemon_value(b.pokemon@[k], off, stall) - pokemon_value(a.pokemon@[k], off, stall) + (
            hazard_points(b.pokemon@[k], b, off) - hazard_points(a.pokemon@[k], a, off)) as real
        } else {
            0 as real
        }),
    decreases n,
{
    if n > 0 {
        lemma_bench(a, b, k, off, stall, n - 1);
        if n - 1 != k {
            assert(hazard_points(a.pokemon@[n - 1], a, off) == hazard_points(
                b.pokemon@[n - 1],
                b,
                off,
            ));
        }
    }
}

proof fn lemma_bench_active(
    a: Side,
    b: Side,
    k: int,
    foe: Side,
    own_profile: TypeProfile,
    foe_profile: TypeProfile,
    trick_room: bool,
    off: EvalOff,
)
    requires
        a.pokemon@.len() == 6,
        0 <= k < 6,
        k != a.active_index,
        a.active_index < 6,
        b == (Side { pokemon: b.pokemon, ..a }),
        b.pokemon@ == a.pokemon@.update(k, b.pokemon@[k]),
        fainted_among(a.pokemon@, 6) == fainted_among(b.pokemon@, 6),
    ensures
        a.active() == b.active(),
        pressure(a, foe, foe_profile, off) == pressure(b, foe, foe_profile, off),
        ({
            let p = pressure(a, foe, foe_profile, off);
            &&& active_value(a, foe, own_profile, p, trick_room, off) == active_value(
                b,
                foe,
                own_profile,
                p,
                trick_room,
                off,
            )
            &&& speed_value(a, foe, p, trick_room, off) == speed_value(b, foe, p, trick_room, off)
        }),
{
    assert(a.active() == b.active());
    let p = pressure(a, foe, foe_profile, off);
    assert(boost_value(a, p, boosts_ignored(a, foe, off), trick_room) == boost_value(
        b,
        p,
        boosts_ignored(b, foe, off),
        trick_room,
    ));
}

#[verifier::rlimit(40)]
proof fn lemma_bench_seat(
    a: Side,
    b: Side,
    k: int,
    foe: Side,
    own_profile: TypeProfile,
    foe_profile: TypeProfile,
    field: Field,
    off: EvalOff,
    stall: bool,
)
    requires
        a.pokemon@.len() == 6,
        0 <= k < 6,
        k != a.active_index,
        a.active_index < 6,
        b == (Side { pokemon: b.pokemon, ..a }),
        b.pokemon@ == a.pokemon@.update(k, b.pokemon@[k]),
        a.pokemon@[k].hp > 0 <==> b.pokemon@[k].hp > 0,
    ensures
        seat_value(foe, a, foe_profile, own_profile, field, off, stall) == seat_value(
            foe,
            b,
            foe_profile,
            own_profile,
            field,
            off,
            stall,
        ),
        seat_value(b, foe, own_profile, foe_profile, field, off, stall) - seat_value(
            a,
            foe,
            own_profile,
            foe_profile,
            field,
            off,
            stall,
        ) == (if a.pokemon@[k].hp > 0 {
            pokemon_value(b.pokemon@[k], off, stall) - pokemon_value(a.pokemon@[k], off, stall) + (
            hazard_points(b.pokemon@[k], b, off) - hazard_points(a.pokemon@[k], a, off)) as real
        } else {
            0 as real
        }) + (if used_tera(b) {
            -75 as real
        } else {
            0 as real
        }) - (if used_tera(a) {
            -75 as real
        } else {
            0 as real
        }),
{
    lemma_bench(a, b, k, off, stall, 6);
    lemma_bench_active(a, b, k, foe, own_profile, foe_profile, field.trick_room, off);
    lemma_foe_seat(a, b, foe, own_profile, foe_profile, field, off, stall);
    lemma_parts(a, foe, own_profile, foe_profile, field, off, stall);
    lemma_parts(b, foe, own_profile, foe_profile, field, off, stall);
    assert(condition_points(a) == condition_points(b));
    assert(pending_points(a) == pending_points(b));
}

/// What a seat is worth, with the active Pokemon's part in one number.
spec fn rest_of_seat(
    own: Side,
    foe: Side,
    own_profile: TypeProfile,
    foe_profile: TypeProfile,
    field: Field,
    off: EvalOff,
) -> real {
    let a = own.active();
    let p = pressure(own, foe, foe_profile, off);
    (if a.hp > 0 {
        active_value(own, foe, own_profile, p, field.trick_room, off) + field_points(
            a,
            field,
            off,
        ) as real
    } else {
        0 as real
    }) + condition_points(own) as real + (if off.pending {
        0 as real
    } else {
        pending_points(own) as real
    }) + (if !off.hopeless && hopeless(a, p) {
        HOPELESS_MATCHUP as real
    } else {
        0 as real
    }) + speed_value(own, foe, p, field.trick_room, off)
}

proof fn lemma_parts(
    own: Side,
    foe: Side,
    own_profile: TypeProfile,
    foe_profile: TypeProfile,
    field: Field,
    off: EvalOff,
    stall: bool,
)
    ensures
        seat_value(own, foe, own_profile, foe_profile, field, off, stall) == bench_value(
            own,
            off,
            stall,
            6,
        ) + (if used_tera(own) {
            -75 as real
        } else {
            0 as real
        }) + rest_of_seat(own, foe, own_profile, foe_profile, field, off),
{
}

} // verus!
