//! What single changes in a position are worth in points.
#[allow(unused_imports)]
use crate::gen2::evaluate::{
    best_quarters, boost_value, condition_points, knows_recovery, knows_sleep_talk, pokemon_value,
    position_value, restores, seat_value, standing, team_value, threat, volatiles_total,
    POKEMON_ATTACK_BOOST, POKEMON_DEFENSE_BOOST, POKEMON_SPECIAL_ATTACK_BOOST,
    POKEMON_SPECIAL_DEFENSE_BOOST, POKEMON_SPEED_BOOST, SPIKES,
};
#[allow(unused_imports)]
use crate::matchup::TypeProfile;
#[allow(unused_imports)]
use crate::numbers::{lemma_cancel, lemma_order_over, lemma_over_one, lemma_zero_over};
#[allow(unused_imports)]
use crate::stages::{law_stages_have_their_weight, multiplier};
#[allow(unused_imports)]
use crate::state::{physical_count, standing_with, Pokemon, Side, State};
#[allow(unused_imports)]
use crate::types::{Choices, Items, MoveCategory, PokemonStatus, PokemonVolatileStatus};
use vstd::prelude::*;

verus! {

proof fn lemma_same_team(a: Side, b: Side, n: int)
    requires
        a.pokemon == b.pokemon,
    ensures
        team_value(a, n) == team_value(b, n),
        standing(a, n) == standing(b, n),
        standing(a, n) == standing_with(a.pokemon@, n, |p: Pokemon| true),
    decreases n,
{
    if n > 0 {
        lemma_same_team(a, b, n - 1);
    }
}

/// What the other player's seat is worth depends on nothing but the active Pokemon.
proof fn lemma_foe_seat(a: Side, b: Side, foe: Side, own_profile: TypeProfile)
    requires
        a.active().hp == b.active().hp,
        a.active().speed == b.active().speed,
    ensures
        seat_value(foe, a, own_profile) == seat_value(foe, b, own_profile),
{
}

/// How much more a seat is worth than another one with the same team.
proof fn lemma_own_seat(a: Side, b: Side, foe: Side, foe_profile: TypeProfile)
    requires
        a.pokemon == b.pokemon,
        a.active_index == b.active_index,
    ensures
        ({
            let physical = threat(a.active(), foe_profile, MoveCategory::Physical);
            let special = threat(a.active(), foe_profile, MoveCategory::Special);
            seat_value(b, foe, foe_profile) - seat_value(a, foe, foe_profile) == (if a.active().hp
                > 0 {
                volatiles_total(b.volatile_statuses@) as real - volatiles_total(
                    a.volatile_statuses@,
                ) as real + boost_value(b, physical, special) - boost_value(a, physical, special)
            } else {
                0 as real
            }) + condition_points(b) as real - condition_points(a) as real + (if b.future_sight.0
                > 0 {
                -25 as real
            } else {
                0 as real
            }) - (if a.future_sight.0 > 0 {
                -25 as real
            } else {
                0 as real
            })
        }),
{
    lemma_same_team(a, b, 6);
    assert(a.active() == b.active());
}

/// Every count of Reflect or of Light Screen on the first player's side is worth 20
/// points, of Safeguard 5; every layer of Spikes costs 12 for each Pokemon of the team
/// that still stands.
pub proof fn law_side_conditions_have_their_price(
    s: State,
    t: State,
    one: TypeProfile,
    two: TypeProfile,
)
    requires
        t == (State {
            side_one: Side { side_conditions: t.side_one.side_conditions, ..s.side_one },
            ..s
        }),
    ensures
        ({
            let (c, d) = (s.side_one.side_conditions, t.side_one.side_conditions);
            position_value(t, one, two) - position_value(s, one, two) == (20 * (d.reflect
                - c.reflect) + 20 * (d.light_screen - c.light_screen) + 5 * (d.safeguard
                - c.safeguard) - 12 * (d.spikes - c.spikes) * standing_with(
                s.side_one.pokemon@,
                6,
                |p: Pokemon| true,
            )) as real
        }),
{
    let (a, b) = (s.side_one, t.side_one);
    lemma_own_seat(a, b, s.side_two, two);
    lemma_foe_seat(a, b, s.side_two, one);
    lemma_same_team(a, b, 6);
    let n = standing(a, 6);
    let (x, y): (int, int) = (a.side_conditions.spikes as int, b.side_conditions.spikes as int);
    let price: int = SPIKES as int;
    assert(y * price * n - x * price * n == -(12 * (y - x) * n)) by (nonlinear_arith)
        requires
            price == -12,
    ;
    let physical = threat(a.active(), two, MoveCategory::Physical);
    let special = threat(a.active(), two, MoveCategory::Special);
    assert(boost_value(a, physical, special) == boost_value(b, physical, special));
}

/// A volatile status that comes to those of the first player's active Pokemon, while it
/// stands, changes the value by its price in points.
pub proof fn law_volatile_statuses_have_their_price(
    s: State,
    t: State,
    v: PokemonVolatileStatus,
    one: TypeProfile,
    two: TypeProfile,
)
    requires
        t == (State {
            side_one: Side { volatile_statuses: t.side_one.volatile_statuses, ..s.side_one },
            ..s
        }),
        t.side_one.volatile_statuses@ == s.side_one.volatile_statuses@.push(v),
    ensures
        position_value(t, one, two) - position_value(s, one, two) == (if s.side_one.active().hp
            <= 0 {
            0int
        } else {
            match v {
                PokemonVolatileStatus::LEECHSEED => -30,
                PokemonVolatileStatus::SUBSTITUTE => 40,
                PokemonVolatileStatus::CONFUSION => -20,
                PokemonVolatileStatus::ENCORE => -30,
                PokemonVolatileStatus::DISABLE => -12,
                PokemonVolatileStatus::MUSTRECHARGE => -35,
                PokemonVolatileStatus::PARTIALLYTRAPPED => -15,
                PokemonVolatileStatus::FORESIGHT => -10,
                PokemonVolatileStatus::PERISH4 => -12,
                PokemonVolatileStatus::PERISH3 => -25,
                PokemonVolatileStatus::PERISH2 => -50,
                PokemonVolatileStatus::PERISH1 => -80,
                _ => 0,
            }
        }) as real,
{
    let (a, b) = (s.side_one, t.side_one);
    lemma_own_seat(a, b, s.side_two, two);
    lemma_foe_seat(a, b, s.side_two, one);
    lemma_same_team(a, b, 6);
    let list = a.volatile_statuses@;
    assert(list.push(v).drop_last() =~= list);
    assert(list.push(v).last() == v);
    let physical = threat(a.active(), two, MoveCategory::Physical);
    let special = threat(a.active(), two, MoveCategory::Special);
    assert(boost_value(a, physical, special) == boost_value(b, physical, special));
}

/// A Future Sight that has yet to land costs the side it stands on 25 points.
pub proof fn law_future_sight_has_its_price(
    s: State,
    t: State,
    one: TypeProfile,
    two: TypeProfile,
)
    requires
        t == (State {
            side_one: Side { future_sight: t.side_one.future_sight, ..s.side_one },
            ..s
        }),
        s.side_one.future_sight.0 <= 0,
        t.side_one.future_sight.0 > 0,
    ensures
        position_value(t, one, two) == position_value(s, one, two) - 25 as real,
{
    let (a, b) = (s.side_one, t.side_one);
    lemma_own_seat(a, b, s.side_two, two);
    lemma_foe_seat(a, b, s.side_two, one);
    lemma_same_team(a, b, 6);
    let physical = threat(a.active(), two, MoveCategory::Physical);
    let special = threat(a.active(), two, MoveCategory::Special);
    assert(boost_value(a, physical, special) == boost_value(b, physical, special));
}

/// Stat stages of the Pokemon that is out are worth 30 points for attack and special
/// attack, as far as the attacks of that kind hit, 15 for defense and special defense, and
/// 30 for speed, times how much the stage counts.
pub proof fn law_stages_have_their_price(s: State, t: State, one: TypeProfile, two: TypeProfile)
    requires
        t == (State {
            side_one: Side {
                attack_boost: t.side_one.attack_boost,
                defense_boost: t.side_one.defense_boost,
                special_attack_boost: t.side_one.special_attack_boost,
                special_defense_boost: t.side_one.special_defense_boost,
                speed_boost: t.side_one.speed_boost,
                ..s.side_one
            },
            ..s
        }),
        s.side_one.active().hp > 0,
    ensures
        ({
            let (a, b) = (s.side_one, t.side_one);
            let physical = threat(a.active(), two, MoveCategory::Physical);
            let special = threat(a.active(), two, MoveCategory::Special);
            position_value(t, one, two) - position_value(s, one, two) == (multiplier(b.attack_boost)
                - multiplier(a.attack_boost)) * 30 as real * physical + (multiplier(b.defense_boost)
                - multiplier(a.defense_boost)) * 15 as real + (multiplier(b.special_attack_boost)
                - multiplier(a.special_attack_boost)) * 30 as real * special + (multiplier(
                b.special_defense_boost,
            ) - multiplier(a.special_defense_boost)) * 15 as real + (multiplier(b.speed_boost)
                - multiplier(a.speed_boost)) * 30 as real
        }),
{
    let (a, b) = (s.side_one, t.side_one);
    lemma_own_seat(a, b, s.side_two, two);
    lemma_foe_seat(a, b, s.side_two, one);
    lemma_same_team(a, b, 6);
    let physical = threat(a.active(), two, MoveCategory::Physical);
    let special = threat(a.active(), two, MoveCategory::Special);
    lemma_boost_prices(a, physical, special);
    lemma_boost_prices(b, physical, special);
    lemma_split(multiplier(b.attack_boost), multiplier(a.attack_boost), physical);
    lemma_split(multiplier(b.special_attack_boost), multiplier(a.special_attack_boost), special);
    assert(condition_points(a) == condition_points(b));
    assert(position_value(t, one, two) - position_value(s, one, two) == boost_value(
        b,
        physical,
        special,
    ) - boost_value(a, physical, special));
}

proof fn lemma_boost_prices(side: Side, physical: real, special: real)
    ensures
        boost_value(side, physical,
            special) == multiplier(side.attack_boost) * 30 as real * physical
            + multiplier(side.defense_boost) * 15 as real + multiplier(side.special_attack_boost)
            * 30 as real * special + multiplier(side.special_defense_boost) * 15 as real
            + multiplier(side.speed_boost) * 30 as real,
{
    lemma_factor(multiplier(side.attack_boost), POKEMON_ATTACK_BOOST as real, 30 as real);
    lemma_factor(multiplier(side.defense_boost), POKEMON_DEFENSE_BOOST as real, 15 as real);
    lemma_factor(
        multiplier(side.special_attack_boost),
        POKEMON_SPECIAL_ATTACK_BOOST as real,
        30 as real,
    );
    lemma_factor(
        multiplier(side.special_defense_boost),
        POKEMON_SPECIAL_DEFENSE_BOOST as real,
        15 as real,
    );
    lemma_factor(multiplier(side.speed_boost), POKEMON_SPEED_BOOST as real, 30 as real);
}

proof fn lemma_factor(x: real, k: real, c: real)
    requires
        k == c,
    ensures
        x * k == x * c,
{
}

proof fn lemma_split(x: real, y: real, z: real)
    ensures
        (x - y) * 30 as real * z == x * 30 as real * z - y * 30 as real * z,
{
    assert((x - y) * 30 as real * z
        == x * 30 as real * z - y * 30 as real * z) by (nonlinear_arith);
}

/// A Pokemon that is out and whose attacks all do nothing costs its side 50 points.
pub proof fn law_hopeless_matchups_cost(
    state: State,
    one: TypeProfile,
    two: TypeProfile,
    other: TypeProfile,
)
    requires
        state.side_one.active().hp > 0,
        state.side_one.attack_boost == 0,
        state.side_one.special_attack_boost == 0,
        state.side_one.active().speed <= state.side_two.active().speed,
        ({
            let a = state.side_one.active();
            &&& threat(a, two, MoveCategory::Physical) == 0 as real
            &&& threat(a, two, MoveCategory::Special) == 0 as real
            &&& threat(a, other, MoveCategory::Physical) != 0 as real || threat(
                a,
                other,
                MoveCategory::Special,
            ) != 0 as real
        }),
    ensures
        position_value(state, one, two) == position_value(state, one, other) - 50 as real,
{
    let side = state.side_one;
    let a = side.active();
    law_stages_have_their_weight(0);
    lemma_nothing(threat(a, other, MoveCategory::Physical));
    lemma_nothing(threat(a, other, MoveCategory::Special));
    lemma_nothing(0 as real);
    let x = boost_value(side, 0 as real, 0 as real);
    let y = boost_value(
        side,
        threat(a, other, MoveCategory::Physical),
        threat(a, other, MoveCategory::Special),
    );
    lemma_boost_prices(side, 0 as real, 0 as real);
    lemma_boost_prices(
        side,
        threat(a, other, MoveCategory::Physical),
        threat(a, other, MoveCategory::Special),
    );
    assert(x == y);
}

proof fn lemma_nothing(z: real)
    ensures
        0 as real * 30 as real * z == 0 as real,
{
    assert(0 as real * 30 as real * z == 0 as real) by (nonlinear_arith);
}

/// Being the faster one is worth 20 points times the better of one's two threats.
pub proof fn law_moving_first_has_its_price(
    s: State,
    t: State,
    one: TypeProfile,
    two: TypeProfile,
)
    requires
        s.side_one.pokemon@.len() == 6,
        s.side_one.active_index < 6,
        t == (State { side_one: Side { pokemon: t.side_one.pokemon, ..s.side_one }, ..s }),
        t.side_one.pokemon@ == s.side_one.pokemon@.update(
            s.side_one.active_index as int,
            (Pokemon { speed: t.side_one.active().speed, ..s.side_one.active() }),
        ),
        s.side_one.active().hp > 0,
        s.side_two.active().hp > 0,
        s.side_one.active().speed == s.side_two.active().speed,
        t.side_one.active().speed > s.side_two.active().speed,
    ensures
        ({
            let physical = threat(s.side_one.active(), two, MoveCategory::Physical);
            let special = threat(s.side_one.active(), two, MoveCategory::Special);
            let best = if physical < special {
                special
            } else {
                physical
            };
            position_value(t, one, two) - position_value(s, one, two) == (if best > 0 as real {
                20 as real * best
            } else {
                0 as real
            })
        }),
{
    let (a, b) = (s.side_one, t.side_one);
    let k = a.active_index as int;
    lemma_speed_team(a, b, k, 6);
    lemma_speed_threat(a.active(), b.active(), two, MoveCategory::Physical,
        a.active().moves@.len() as int);
    lemma_speed_threat(a.active(), b.active(), two, MoveCategory::Special,
        a.active().moves@.len() as int);
    let physical = threat(a.active(), two, MoveCategory::Physical);
    let special = threat(a.active(), two, MoveCategory::Special);
    assert(boost_value(a, physical, special) == boost_value(b, physical, special));
    assert(condition_points(a) == condition_points(b));
}

proof fn lemma_speed_team(a: Side, b: Side, k: int, n: int)
    requires
        a.pokemon@.len() == 6,
        0 <= k < 6,
        n <= 6,
        b.pokemon@ == a.pokemon@.update(k, (Pokemon { speed: b.pokemon@[k].speed,
            ..a.pokemon@[k] })),
    ensures
        team_value(a, n) == team_value(b, n),
        standing(a, n) == standing(b, n),
    decreases n,
{
    if n > 0 {
        lemma_speed_team(a, b, k, n - 1);
        if n - 1 == k {
            lemma_speed_value(a.pokemon@[k], b.pokemon@[k]);
        }
    }
}

proof fn lemma_speed_value(p: Pokemon, q: Pokemon)
    requires
        q == (Pokemon { speed: q.speed, ..p }),
    ensures
        pokemon_value(p) == pokemon_value(q),
{
    assert(knows_recovery(p) == knows_recovery(q));
    assert(knows_sleep_talk(p) == knows_sleep_talk(q));
}

proof fn lemma_speed_threat(
    p: Pokemon,
    q: Pokemon,
    profile: TypeProfile,
    category: MoveCategory,
    n: int,
)
    requires
        q == (Pokemon { speed: q.speed, ..p }),
    ensures
        best_quarters(p, profile, category, n) == best_quarters(q, profile, category, n),
        threat(p, profile, category) == threat(q, profile, category) || n != p.moves@.len(),
    decreases n,
{
    if n > 0 {
        lemma_speed_threat(p, q, profile, category, n - 1);
    }
}

/// A Pokemon on the bench that still stands counts by what it is worth alone.
pub proof fn law_bench_counts_by_worth(
    s: State,
    t: State,
    k: int,
    one: TypeProfile,
    two: TypeProfile,
)
    requires
        s.side_one.pokemon@.len() == 6,
        0 <= k < 6,
        k != s.side_one.active_index,
        s.side_one.active_index < 6,
        t == (State { side_one: Side { pokemon: t.side_one.pokemon, ..s.side_one }, ..s }),
        t.side_one.pokemon@ == s.side_one.pokemon@.update(k, t.side_one.pokemon@[k]),
        s.side_one.pokemon@[k].hp > 0,
        t.side_one.pokemon@[k].hp > 0,
    ensures
        position_value(t, one, two) - position_value(s, one, two) == pokemon_value(
            t.side_one.pokemon@[k],
        ) - pokemon_value(s.side_one.pokemon@[k]),
{
    let (a, b) = (s.side_one, t.side_one);
    lemma_bench_team(a, b, k, 6);
    assert(a.active() == b.active());
    let physical = threat(a.active(), two, MoveCategory::Physical);
    let special = threat(a.active(), two, MoveCategory::Special);
    assert(boost_value(a, physical, special) == boost_value(b, physical, special));
    assert(condition_points(a) == condition_points(b));
}

proof fn lemma_bench_team(a: Side, b: Side, k: int, n: int)
    requires
        a.pokemon@.len() == 6,
        0 <= k < 6,
        0 <= n <= 6,
        b.pokemon@ == a.pokemon@.update(k, b.pokemon@[k]),
        a.pokemon@[k].hp > 0 <==> b.pokemon@[k].hp > 0,
    ensures
        standing(a, n) == standing(b, n),
        n <= k ==> team_value(a, n) == team_value(b, n),
        n > k ==> team_value(b, n) - team_value(a, n) == (if a.pokemon@[k].hp > 0 {
            pokemon_value(b.pokemon@[k]) - pokemon_value(a.pokemon@[k])
        } else {
            0 as real
        }),
    decreases n,
{
    if n > 0 {
        lemma_bench_team(a, b, k, n - 1);
    }
}

/// A fallen Pokemon on the bench counts for nothing, whatever else it is.
pub proof fn law_the_fallen_count_for_nothing(
    s: State,
    t: State,
    k: int,
    one: TypeProfile,
    two: TypeProfile,
)
    requires
        s.side_one.pokemon@.len() == 6,
        0 <= k < 6,
        k != s.side_one.active_index,
        s.side_one.active_index < 6,
        t == (State { side_one: Side { pokemon: t.side_one.pokemon, ..s.side_one }, ..s }),
        t.side_one.pokemon@ == s.side_one.pokemon@.update(k, t.side_one.pokemon@[k]),
        s.side_one.pokemon@[k].hp <= 0,
        t.side_one.pokemon@[k].hp <= 0,
    ensures
        position_value(t, one, two) == position_value(s, one, two),
{
    let (a, b) = (s.side_one, t.side_one);
    lemma_bench_team(a, b, k, 6);
    assert(a.active() == b.active());
    let physical = threat(a.active(), two, MoveCategory::Physical);
    let special = threat(a.active(), two, MoveCategory::Special);
    assert(boost_value(a, physical, special) == boost_value(b, physical, special));
    assert(condition_points(a) == condition_points(b));
}

/// A standing Pokemon at full health without an item, a recovery move or a status is
/// worth 160 points, and every hundredth of its hit points that is missing costs one.
pub proof fn law_health_is_worth_a_hundred(p: Pokemon)
    requires
        p.hp > 0,
        p.maxhp > 0,
        p.status == PokemonStatus::NONE,
        p.item == Items::NONE,
        forall|i: int| 0 <= i < p.moves@.len() ==> {
            let id = (#[trigger] p.moves@[i]).id;
            id != Choices::REST && id != Choices::RECOVER && id != Choices::SOFTBOILED && id
                != Choices::MILKDRINK && id != Choices::MOONLIGHT && id != Choices::MORNINGSUN && id
                != Choices::SYNTHESIS
        },
    ensures
        pokemon_value(p) == 60 as real + (100 * p.hp) as real / p.maxhp as real,
        p.hp == p.maxhp ==> pokemon_value(p) == 160 as real,
{
    lemma_health(p);
    assert(!knows_recovery(p));
    if p.hp == p.maxhp {
        lemma_cancel(100, 1, p.maxhp as int);
        lemma_over_one(100);
    }
}

proof fn lemma_health(p: Pokemon)
    requires
        p.hp > 0,
        p.maxhp > 0,
    ensures
        (100 * p.hp) as real / p.maxhp as real > 0 as real,
{
    lemma_order_over(0, 100 * p.hp, p.maxhp as int);
    lemma_zero_over(p.maxhp as int);
}

/// Any item is worth 10 points to a Pokemon in good health.
pub proof fn law_items_have_their_price(p: Pokemon, q: Pokemon)
    requires
        p.hp > 0,
        p.maxhp > 0,
        p.status == PokemonStatus::NONE,
        q == (Pokemon { item: q.item, ..p }),
        p.item == Items::NONE,
        q.item != Items::NONE,
    ensures
        pokemon_value(q) == pokemon_value(p) + 10 as real,
{
    lemma_health(p);
    assert(knows_recovery(p) == knows_recovery(q));
}

/// Knowing a move that restores hit points is worth 8 points to a Pokemon in good
/// health, however many of them it knows.
pub proof fn law_recovery_has_its_price(p: Pokemon, q: Pokemon, i: int)
    requires
        p.hp > 0,
        p.maxhp > 0,
        p.status == PokemonStatus::NONE,
        q == (Pokemon { moves: q.moves, ..p }),
        forall|k: int| 0 <= k < p.moves@.len() ==> {
            let id = (#[trigger] p.moves@[k]).id;
            id != Choices::REST && id != Choices::RECOVER && id != Choices::SOFTBOILED && id
                != Choices::MILKDRINK && id != Choices::MOONLIGHT && id != Choices::MORNINGSUN && id
                != Choices::SYNTHESIS
        },
        0 <= i < q.moves@.len(),
        ({
            let id = q.moves@[i].id;
            id == Choices::REST || id == Choices::RECOVER || id == Choices::SOFTBOILED || id
                == Choices::MILKDRINK || id == Choices::MOONLIGHT || id == Choices::MORNINGSUN || id
                == Choices::SYNTHESIS
        }),
    ensures
        pokemon_value(q) == pokemon_value(p) + 8 as real,
{
    lemma_health(p);
    assert(!knows_recovery(p));
    assert(restores(q.moves@[i].id));
    assert(knows_recovery(q));
}

/// A status costs a healthy Pokemon: freezing 40 points, sleep 25 or with Sleep Talk 10,
/// paralysis 25, toxic 30, poison 10, and a burn 25 for every physical move, half as much
/// for a special attacker. A standing Pokemon never counts for less than 60.
pub proof fn law_statuses_have_their_price(p: Pokemon, q: Pokemon)
    requires
        p.hp > 0,
        p.maxhp > 0,
        q == (Pokemon { status: q.status, ..p }),
        p.status == PokemonStatus::NONE,
    ensures
        ({
            let talks = exists|i: int|
                0 <= i < p.moves@.len() && (#[trigger] p.moves@[i]).id == Choices::SLEEPTALK;
            let physical = physical_count(p.moves@, p.moves@.len() as int);
            let price = match q.status {
                PokemonStatus::FREEZE => -40 as real,
                PokemonStatus::SLEEP => if talks {
                    -10 as real
                } else {
                    -25 as real
                },
                PokemonStatus::PARALYZE => -25 as real,
                PokemonStatus::TOXIC => -30 as real,
                PokemonStatus::POISON => -10 as real,
                PokemonStatus::BURN => if p.special_attack > p.attack {
                    (physical * -25) as real / 2 as real
                } else {
                    (physical * -25) as real
                },
                PokemonStatus::NONE => 0 as real,
            };
            pokemon_value(q) == (if pokemon_value(p) + price < 60 as real {
                60 as real
            } else {
                pokemon_value(p) + price
            })
        }),
{
    lemma_health(p);
    assert(knows_recovery(p) == knows_recovery(q));
    assert(knows_sleep_talk(p) == knows_sleep_talk(q));
}

} // verus!
