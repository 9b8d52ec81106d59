//! What the field, the stages, speed and the matchup are worth in points.
#[allow(unused_imports)]
use crate::genx::active::{
    hazard_points, resistance_points, tera_points, volatiles_total, weather_points,
};
#[allow(unused_imports)]
use crate::genx::evaluate::{
    active_value, bench_value, boost_value, boosts_ignored, field_points, hopeless, moves_first,
    position_value, pressure, seat_value, speed_value, used_tera, Pressure, POKEMON_ATTACK_BOOST,
    POKEMON_DEFENSE_BOOST, POKEMON_SPECIAL_ATTACK_BOOST, POKEMON_SPECIAL_DEFENSE_BOOST,
    POKEMON_SPEED_BOOST,
};
#[allow(unused_imports)]
use crate::genx::pokemon::{
    locked_into_status, pokemon_value, recovery_tax, sleep_talk_points, status_points,
    wall_with_choice_item,
};
#[allow(unused_imports)]
use crate::genx::prices::{lemma_foe_seat, lemma_own_seat, lemma_same_bench};
#[allow(unused_imports)]
use crate::genx::switches::EvalOff;
#[allow(unused_imports)]
use crate::genx::threat::{best_threat, damage, has_status_option};
#[allow(unused_imports)]
use crate::matchup::TypeProfile;
#[allow(unused_imports)]
use crate::stages::{law_stages_have_their_weight, multiplier};
#[allow(unused_imports)]
use crate::state::{fainted_among, Field, Pokemon, Side, State};
#[allow(unused_imports)]
use crate::types::{Abilities, MoveCategory, PokemonType, Terrain, Weather};
use vstd::prelude::*;

verus! {

proof fn lemma_factor(x: real, k: real, c: real)
    requires
        k == c,
    ensures
        x * k == x * c,
{
}

proof fn lemma_boost_prices(side: Side, p: Pressure, ignored: bool, trick_room: bool)
    ensures
        !ignored ==> boost_value(side, p, ignored, trick_room) == multiplier(side.attack_boost)
            * 30 as real * p.physical + multiplier(side.defense_boost) * 15 as real + multiplier(
            side.special_attack_boost,
        ) * 30 as real * p.special + multiplier(side.special_defense_boost) * 15 as real + (
        if trick_room {
            -(multiplier(side.speed_boost) * 30 as real)
        } else {
            multiplier(side.speed_boost) * 30 as real
        }),
        ignored ==> boost_value(side, p, ignored, trick_room) == (if trick_room {
            -(multiplier(side.speed_boost) * 30 as real)
        } else {
            multiplier(side.speed_boost) * 30 as real
        }),
{
    lemma_factor(multiplier(side.attack_boost), POKEMON_ATTACK_BOOST as real, 30 as real);
    lemma_factor(multiplier(side.defense_boost), POKEMON_DEFENSE_BOOST as real, 15 as real);
    lemma_factor(
        multiplier(side.special_attack_boost),
        POKEMON_SPECIAL_ATTACK_BOOST as real,
        30 as real,
    );
    lemma_factor(
        multiplier(side.special_defense_boost),
        POKEMON_SPECIAL_DEFENSE_BOOST as real,
        15 as real,
    );
    lemma_factor(multiplier(side.speed_boost), POKEMON_SPEED_BOOST as real, 30 as real);
}

proof fn lemma_split(x: real, y: real, z: real)
    ensures
        (x - y) * 30 as real * z == x * 30 as real * z - y * 30 as real * z,
{
    assert((x - y) * 30 as real * z
        == x * 30 as real * z - y * 30 as real * z) by (nonlinear_arith);
}

/// Only the stat stages of the first player differ.
pub open spec fn stages_differ(s: State, t: State) -> bool {
    t == (State {
        side_one: Side {
            attack_boost: t.side_one.attack_boost,
            defense_boost: t.side_one.defense_boost,
            special_attack_boost: t.side_one.special_attack_boost,
            special_defense_boost: t.side_one.special_defense_boost,
            speed_boost: t.side_one.speed_boost,
            ..s.side_one
        },
        ..s
    })
}

proof fn lemma_stages_seat(
    s: State,
    t: State,
    one: TypeProfile,
    two: TypeProfile,
    off: EvalOff,
    stall: bool,
)
    requires
        stages_differ(s, t),
        s.side_one.active().hp > 0,
    ensures
        ({
            let (a, b) = (s.side_one, t.side_one);
            let p = pressure(a, s.side_two, two, off);
            let ignored = boosts_ignored(a, s.side_two, off);
            position_value(t, one, two, off, stall) - position_value(s, one, two, off, stall)
                == boost_value(b, p, ignored, s.field.trick_room) - boost_value(
                a,
                p,
                ignored,
                s.field.trick_room,
            )
        }),
{
    let (a, b) = (s.side_one, t.side_one);
    lemma_same_bench(a, b, off, stall, 6);
    lemma_own_seat(a, b, s.side_two, one, two, s.field, off, stall);
    lemma_foe_seat(a, b, s.side_two, one, two, s.field, off, stall);
    assert(a.active() == b.active());
    assert(boosts_ignored(a, s.side_two, off) == boosts_ignored(b, s.side_two, off));
}

/// Stat stages of the Pokemon that is out are worth 30 points for attack and special
/// attack, as far as the attacks of that kind hit, 15 for defense and special defense, and
/// 30 for speed, times how much the stage counts; in a Trick Room speed counts the
/// opposite.
pub proof fn law_stages_have_their_price(
    s: State,
    t: State,
    one: TypeProfile,
    two: TypeProfile,
    off: EvalOff,
    stall: bool,
)
    requires
        stages_differ(s, t),
        s.side_one.active().hp > 0,
        off.unaware || s.side_two.active().ability != Abilities::UNAWARE
            || s.side_one.active().ability == Abilities::MOLDBREAKER,
    ensures
        ({
            let (a, b) = (s.side_one, t.side_one);
            let p = pressure(a, s.side_two, two, off);
            let faster = (multiplier(b.speed_boost) - multiplier(a.speed_boost)) * 30 as real;
            position_value(t, one, two, off, stall) - position_value(s, one, two, off, stall) == (
            multiplier(b.attack_boost) - multiplier(a.attack_boost)) * 30 as real * p.physical + (
            multiplier(b.defense_boost) - multiplier(a.defense_boost)) * 15 as real + (multiplier(
                b.special_attack_boost,
            ) - multiplier(a.special_attack_boost)) * 30 as real * p.special + (multiplier(
                b.special_defense_boost,
            ) - multiplier(a.special_defense_boost)) * 15 as real + (if s.field.trick_room {
                -faster
            } else {
                faster
            })
        }),
{
    let (a, b) = (s.side_one, t.side_one);
    lemma_stages_seat(s, t, one, two, off, stall);
    let p = pressure(a, s.side_two, two, off);
    lemma_boost_prices(a, p, false, s.field.trick_room);
    lemma_boost_prices(b, p, false, s.field.trick_room);
    lemma_split(multiplier(b.attack_boost), multiplier(a.attack_boost), p.physical);
    lemma_split(multiplier(b.special_attack_boost), multiplier(a.special_attack_boost), p.special);
}

proof fn lemma_field_seat(
    own: Side,
    foe: Side,
    own_profile: TypeProfile,
    foe_profile: TypeProfile,
    f: Field,
    g: Field,
    off: EvalOff,
    stall: bool,
)
    requires
        f.trick_room == g.trick_room,
    ensures
        seat_value(own, foe, own_profile, foe_profile, g, off, stall) - seat_value(
            own,
            foe,
            own_profile,
            foe_profile,
            f,
            off,
            stall,
        ) == (if own.active().hp > 0 {
            (field_points(own.active(), g, off) - field_points(own.active(), f, off)) as real
        } else {
            0 as real
        }),
{
}

proof fn lemma_sun(p: Pokemon, w: Weather, trick_room: bool, fast: int)
    requires
        w == Weather::SUN || w == Weather::HARSHSUN,
        fast == (if trick_room {
            0int
        } else {
            25int
        }),
    ensures
        weather_points(p, w, trick_room) == ({
                    (if p.is_type(PokemonType::FIRE) {
                        8int
                    } else {
                        0
                    }) - (if p.is_type(PokemonType::WATER) {
                        8int
                    } else {
                        0
                    }) + (match p.ability {
                        Abilities::CHLOROPHYLL => fast,
                        Abilities::SOLARPOWER => 5,
                        Abilities::FLOWERGIFT => 5,
                        Abilities::LEAFGUARD => 5,
                        Abilities::DRYSKIN => -8,
                        _ => 0,
                    })
        }),
{
}

/// In the sun the Fire type gains 8 points and the Water type loses as many; Chlorophyll
/// is worth 25 unless in a Trick Room, Solar Power, Flower Gift and Leaf Guard 5, and Dry
/// Skin loses 8. Both Pokemon that are out count.
#[verifier::rlimit(60)]
pub proof fn law_sun_has_its_price(
    s: State,
    t: State,
    one: TypeProfile,
    two: TypeProfile,
    off: EvalOff,
    stall: bool,
)
    requires
        t == (State { field: Field { weather: t.field.weather, ..s.field }, ..s }),
        s.field.weather == Weather::NONE,
        t.field.weather == Weather::SUN || t.field.weather == Weather::HARSHSUN,
    ensures
        ({
            let w = t.field.weather;
            let fast = if s.field.trick_room {
                0int
            } else {
                25int
            };
            let worth = |p: Pokemon|
                if p.hp <= 0 || off.weather {
                    0int
                } else {
                    (if p.is_type(PokemonType::FIRE) {
                        8int
                    } else {
                        0
                    }) - (if p.is_type(PokemonType::WATER) {
                        8int
                    } else {
                        0
                    }) + (match p.ability {
                        Abilities::CHLOROPHYLL => fast,
                        Abilities::SOLARPOWER => 5,
                        Abilities::FLOWERGIFT => 5,
                        Abilities::LEAFGUARD => 5,
                        Abilities::DRYSKIN => -8,
                        _ => 0,
                    })
                };
            position_value(t, one, two, off, stall) - position_value(s, one, two, off, stall) == (
            worth(s.side_one.active()) - worth(s.side_two.active())) as real
        }),
{
    lemma_field_seat(s.side_one, s.side_two, one, two, s.field, t.field, off, stall);
    lemma_field_seat(s.side_two, s.side_one, two, one, s.field, t.field, off, stall);
    let fast = if s.field.trick_room {
        0int
    } else {
        25int
    };
    lemma_sun(s.side_one.active(), t.field.weather, s.field.trick_room, fast);
    lemma_sun(s.side_two.active(), t.field.weather, s.field.trick_room, fast);
}

proof fn lemma_rain(p: Pokemon, w: Weather, trick_room: bool, fast: int)
    requires
        w == Weather::RAIN || w == Weather::HEAVYRAIN,
        fast == (if trick_room {
            0int
        } else {
            25int
        }),
    ensures
        weather_points(p, w, trick_room) == ({
                    (if p.is_type(PokemonType::WATER) {
                        8int
                    } else {
                        0
                    }) - (if p.is_type(PokemonType::FIRE) {
                        8int
                    } else {
                        0
                    }) + (match p.ability {
                        Abilities::SWIFTSWIM => fast,
                        Abilities::RAINDISH => 6,
                        Abilities::DRYSKIN => 6,
                        Abilities::HYDRATION => 5,
                        _ => 0,
                    })
        }),
{
}

/// In the rain the Water type gains 8 points and the Fire type loses as many; Swift Swim
/// is worth 25 unless in a Trick Room, Rain Dish and Dry Skin 6, and Hydration 5.
#[verifier::rlimit(60)]
pub proof fn law_rain_has_its_price(
    s: State,
    t: State,
    one: TypeProfile,
    two: TypeProfile,
    off: EvalOff,
    stall: bool,
)
    requires
        t == (State { field: Field { weather: t.field.weather, ..s.field }, ..s }),
        s.field.weather == Weather::NONE,
        t.field.weather == Weather::RAIN || t.field.weather == Weather::HEAVYRAIN,
    ensures
        ({
            let w = t.field.weather;
            let fast = if s.field.trick_room {
                0int
            } else {
                25int
            };
            let worth = |p: Pokemon|
                if p.hp <= 0 || off.weather {
                    0int
                } else {
                    (if p.is_type(PokemonType::WATER) {
                        8int
                    } else {
                        0
                    }) - (if p.is_type(PokemonType::FIRE) {
                        8int
                    } else {
                        0
                    }) + (match p.ability {
                        Abilities::SWIFTSWIM => fast,
                        Abilities::RAINDISH => 6,
                        Abilities::DRYSKIN => 6,
                        Abilities::HYDRATION => 5,
                        _ => 0,
                    })
                };
            position_value(t, one, two, off, stall) - position_value(s, one, two, off, stall) == (
            worth(s.side_one.active()) - worth(s.side_two.active())) as real
        }),
{
    lemma_field_seat(s.side_one, s.side_two, one, two, s.field, t.field, off, stall);
    lemma_field_seat(s.side_two, s.side_one, two, one, s.field, t.field, off, stall);
    let fast = if s.field.trick_room {
        0int
    } else {
        25int
    };
    lemma_rain(s.side_one.active(), t.field.weather, s.field.trick_room, fast);
    lemma_rain(s.side_two.active(), t.field.weather, s.field.trick_room, fast);
}

proof fn lemma_sand(p: Pokemon, w: Weather, trick_room: bool, fast: int)
    requires
        w == Weather::SAND,
        fast == (if trick_room {
            0int
        } else {
            25int
        }),
    ensures
        weather_points(p, w, trick_room) == ({
                    (if p.is_type(PokemonType::ROCK) {
                        8int
                    } else if p.is_type(PokemonType::GROUND) || p.is_type(PokemonType::STEEL) {
                        0
                    } else {
                        match p.ability {
                            Abilities::MAGICGUARD => 0,
                            Abilities::OVERCOAT => 0,
                            Abilities::SANDVEIL => 0,
                            Abilities::SANDFORCE => 0,
                            Abilities::SANDRUSH => 0,
                            _ => -8,
                        }
                    }) + (match p.ability {
                        Abilities::SANDRUSH => fast,
                        Abilities::SANDFORCE => 5,
                        Abilities::SANDVEIL => 5,
                        _ => 0,
                    })
        }),
{
}

/// In a sandstorm the Rock type gains 8 points, and whom it wears down loses as many; Sand
/// Rush is worth 25 unless in a Trick Room, Sand Force and Sand Veil 5.
#[verifier::rlimit(60)]
pub proof fn law_sand_has_its_price(
    s: State,
    t: State,
    one: TypeProfile,
    two: TypeProfile,
    off: EvalOff,
    stall: bool,
)
    requires
        t == (State { field: Field { weather: t.field.weather, ..s.field }, ..s }),
        s.field.weather == Weather::NONE,
        t.field.weather == Weather::SAND,
    ensures
        ({
            let w = t.field.weather;
            let fast = if s.field.trick_room {
                0int
            } else {
                25int
            };
            let worth = |p: Pokemon|
                if p.hp <= 0 || off.weather {
                    0int
                } else {
                    (if p.is_type(PokemonType::ROCK) {
                        8int
                    } else if p.is_type(PokemonType::GROUND) || p.is_type(PokemonType::STEEL) {
                        0
                    } else {
                        match p.ability {
                            Abilities::MAGICGUARD => 0,
                            Abilities::OVERCOAT => 0,
                            Abilities::SANDVEIL => 0,
                            Abilities::SANDFORCE => 0,
                            Abilities::SANDRUSH => 0,
                            _ => -8,
                        }
                    }) + (match p.ability {
                        Abilities::SANDRUSH => fast,
                        Abilities::SANDFORCE => 5,
                        Abilities::SANDVEIL => 5,
                        _ => 0,
                    })
                };
            position_value(t, one, two, off, stall) - position_value(s, one, two, off, stall) == (
            worth(s.side_one.active()) - worth(s.side_two.active())) as real
        }),
{
    lemma_field_seat(s.side_one, s.side_two, one, two, s.field, t.field, off, stall);
    lemma_field_seat(s.side_two, s.side_one, two, one, s.field, t.field, off, stall);
    let fast = if s.field.trick_room {
        0int
    } else {
        25int
    };
    lemma_sand(s.side_one.active(), t.field.weather, s.field.trick_room, fast);
    lemma_sand(s.side_two.active(), t.field.weather, s.field.trick_room, fast);
}

proof fn lemma_hail(p: Pokemon, w: Weather, trick_room: bool, fast: int)
    requires
        w == Weather::HAIL || w == Weather::SNOW,
        fast == (if trick_room {
            0int
        } else {
            25int
        }),
    ensures
        weather_points(p, w, trick_room) == ({
                    (if p.is_type(PokemonType::ICE) {
                        8int
                    } else if w == Weather::SNOW {
                        0
                    } else {
                        match p.ability {
                            Abilities::MAGICGUARD => 0,
                            Abilities::OVERCOAT => 0,
                            Abilities::ICEBODY => 0,
                            Abilities::SNOWCLOAK => 0,
                            Abilities::SLUSHRUSH => 0,
                            _ => -8,
                        }
                    }) + (match p.ability {
                        Abilities::SLUSHRUSH => fast,
                        Abilities::ICEBODY => 6,
                        Abilities::SNOWCLOAK => 5,
                        _ => 0,
                    })
        }),
{
}

/// In hail and snow the Ice type gains 8 points, and whom hail wears down loses as many;
/// Slush Rush is worth 25 unless in a Trick Room, Ice Body 6 and Snow Cloak 5.
#[verifier::rlimit(60)]
pub proof fn law_hail_has_its_price(
    s: State,
    t: State,
    one: TypeProfile,
    two: TypeProfile,
    off: EvalOff,
    stall: bool,
)
    requires
        t == (State { field: Field { weather: t.field.weather, ..s.field }, ..s }),
        s.field.weather == Weather::NONE,
        t.field.weather == Weather::HAIL || t.field.weather == Weather::SNOW,
    ensures
        ({
            let w = t.field.weather;
            let fast = if s.field.trick_room {
                0int
            } else {
                25int
            };
            let worth = |p: Pokemon|
                if p.hp <= 0 || off.weather {
                    0int
                } else {
                    (if p.is_type(PokemonType::ICE) {
                        8int
                    } else if w == Weather::SNOW {
                        0
                    } else {
                        match p.ability {
                            Abilities::MAGICGUARD => 0,
                            Abilities::OVERCOAT => 0,
                            Abilities::ICEBODY => 0,
                            Abilities::SNOWCLOAK => 0,
                            Abilities::SLUSHRUSH => 0,
                            _ => -8,
                        }
                    }) + (match p.ability {
                        Abilities::SLUSHRUSH => fast,
                        Abilities::ICEBODY => 6,
                        Abilities::SNOWCLOAK => 5,
                        _ => 0,
                    })
                };
            position_value(t, one, two, off, stall) - position_value(s, one, two, off, stall) == (
            worth(s.side_one.active()) - worth(s.side_two.active())) as real
        }),
{
    lemma_field_seat(s.side_one, s.side_two, one, two, s.field, t.field, off, stall);
    lemma_field_seat(s.side_two, s.side_one, two, one, s.field, t.field, off, stall);
    let fast = if s.field.trick_room {
        0int
    } else {
        25int
    };
    lemma_hail(s.side_one.active(), t.field.weather, s.field.trick_room, fast);
    lemma_hail(s.side_two.active(), t.field.weather, s.field.trick_room, fast);
}

/// Terrain is worth to each Pokemon that is out and touches the ground: electric terrain 8
/// points, 5 more to the Electric type and 25 more to Surge Surfer unless in a Trick Room;
/// grassy terrain 5, and 5 more each to the Grass type and to Grass Pelt; misty terrain 12,
/// and 4 more to who is not of the Fairy type; psychic terrain 4, and 5 more to the Psychic
/// type.
pub proof fn law_terrain_has_its_price(
    s: State,
    t: State,
    one: TypeProfile,
    two: TypeProfile,
    off: EvalOff,
    stall: bool,
)
    requires
        t == (State { field: Field { terrain: t.field.terrain, ..s.field }, ..s }),
        s.field.terrain == Terrain::NONE,
    ensures
        ({
            let worth = |p: Pokemon|
                if p.hp <= 0 || off.terrain || !p.grounded {
                    0int
                } else {
                    match t.field.terrain {
                        Terrain::ELECTRICTERRAIN => 8int + (if p.is_type(PokemonType::ELECTRIC) {
                            5int
                        } else {
                            0
                        }) + (if p.ability == Abilities::SURGESURFER && !s.field.trick_room {
                            25int
                        } else {
                            0
                        }),
                        Terrain::GRASSYTERRAIN => 5int + (if p.is_type(PokemonType::GRASS) {
                            5int
                        } else {
                            0
                        }) + (if p.ability == Abilities::GRASSPELT {
                            5int
                        } else {
                            0
                        }),
                        Terrain::MISTYTERRAIN => if p.is_type(PokemonType::FAIRY) {
                            12int
                        } else {
                            16
                        },
                        Terrain::PSYCHICTERRAIN => if p.is_type(PokemonType::PSYCHIC) {
                            9int
                        } else {
                            4
                        },
                        Terrain::NONE => 0int,
                    }
                };
            position_value(t, one, two, off, stall) - position_value(s, one, two, off, stall) == (
            worth(s.side_one.active()) - worth(s.side_two.active())) as real
        }),
{
    lemma_field_seat(s.side_one, s.side_two, one, two, s.field, t.field, off, stall);
    lemma_field_seat(s.side_two, s.side_one, two, one, s.field, t.field, off, stall);
}

proof fn lemma_resistances(a: TypeProfile, b: TypeProfile, slot: int, n: int)
    requires
        a.quarters@.len() == 20,
        b.quarters@ == a.quarters@.update(slot, b.quarters@[slot]),
        0 <= slot < 18,
        0 <= n <= 18,
    ensures
        ({
            let bonus = |q: u8|
                if q == 0 {
                    6int
                } else if q == 1 {
                    3
                } else if q == 2 {
                    2
                } else if q >= 8 {
                    -2
                } else {
                    0
                };
            resistance_points(b, n) - resistance_points(a, n) == (if n > slot {
                bonus(b.quarters@[slot]) - bonus(a.quarters@[slot])
            } else {
                0
            })
        }),
    decreases n,
{
    if n > 0 {
        lemma_resistances(a, b, slot, n - 1);
    }
}

/// To a terastallized Pokemon every type that cannot touch it is worth 6 points, every one
/// that it resists twice 3, every one that it resists 2, and every one it is weak to costs
/// 2.
pub proof fn law_tera_resistances_have_their_price(
    p: Pokemon,
    a: TypeProfile,
    b: TypeProfile,
    slot: int,
)
    requires
        p.terastallized,
        a.wf(),
        b.quarters@ == a.quarters@.update(slot, b.quarters@[slot]),
        0 <= slot < 18,
    ensures
        ({
            let bonus = |q: u8|
                if q == 0 {
                    6int
                } else if q == 1 {
                    3
                } else if q == 2 {
                    2
                } else if q >= 8 {
                    -2
                } else {
                    0
                };
            tera_points(p, b) - tera_points(p, a) == bonus(b.quarters@[slot]) - bonus(
                a.quarters@[slot],
            )
        }),
{
    lemma_resistances(a, b, slot, 18);
}

/// An attack of its new type is worth 12 points to a terastallized Pokemon, and a Pokemon
/// that has not terastallized gets nothing.
pub proof fn law_tera_attacks_have_their_price(p: Pokemon, q: Pokemon, profile: TypeProfile, i: int)
    requires
        q == (Pokemon { moves: q.moves, ..p }),
        forall|k: int|
            0 <= k < p.moves@.len() ==> (#[trigger] p.moves@[k]).choice.move_type != p.tera_type
                || p.moves@[k].choice.category == MoveCategory::Status,
        0 <= i < q.moves@.len(),
        q.moves@[i].choice.move_type == p.tera_type,
        q.moves@[i].choice.category != MoveCategory::Status,
    ensures
        p.terastallized ==> tera_points(q, profile) == tera_points(p, profile) + 12,
        !p.terastallized ==> tera_points(q, profile) == 0 && tera_points(p, profile) == 0,
{
}

/// Where the other player's Pokemon has fallen, what having terastallized is worth to the
/// first player's counts in full, and only that depends on what hits it.
pub proof fn law_tera_counts_for_the_active(
    state: State,
    a: TypeProfile,
    b: TypeProfile,
    two: TypeProfile,
    off: EvalOff,
    stall: bool,
)
    requires
        state.side_one.active().hp > 0,
        state.side_two.active().hp <= 0,
    ensures
        position_value(state, b, two, off, stall) - position_value(state, a, two, off, stall) == (
        if off.tera {
            0int
        } else {
            tera_points(state.side_one.active(), b) - tera_points(state.side_one.active(), a)
        }) as real,
{
    lemma_tera_own(state.side_one, state.side_two, a, b, two, state.field, off, stall);
    lemma_tera_fallen(state.side_two, state.side_one, two, a, b, state.field, off, stall);
}

proof fn lemma_tera_own(
    own: Side,
    foe: Side,
    a: TypeProfile,
    b: TypeProfile,
    two: TypeProfile,
    field: Field,
    off: EvalOff,
    stall: bool,
)
    requires
        own.active().hp > 0,
    ensures
        seat_value(own, foe, b, two, field, off, stall) - seat_value(
            own,
            foe,
            a,
            two,
            field,
            off,
            stall,
        ) == (if off.tera {
            0int
        } else {
            tera_points(own.active(), b) - tera_points(own.active(), a)
        }) as real,
{
}

proof fn lemma_tera_fallen(
    own: Side,
    foe: Side,
    own_profile: TypeProfile,
    a: TypeProfile,
    b: TypeProfile,
    field: Field,
    off: EvalOff,
    stall: bool,
)
    requires
        own.active().hp <= 0,
    ensures
        seat_value(own, foe, own_profile, a, field, off, stall) == seat_value(
            own,
            foe,
            own_profile,
            b,
            field,
            off,
            stall,
        ),
{
}

/// A Pokemon that is out and can neither do damage nor anything else costs its side 50
/// points.
pub proof fn law_hopeless_matchups_cost(
    state: State,
    one: TypeProfile,
    two: TypeProfile,
    other: TypeProfile,
    off: EvalOff,
    stall: bool,
)
    requires
        !off.hopeless,
        !off.threat,
        state.side_one.active().hp > 0,
        state.side_one.attack_boost == 0,
        state.side_one.special_attack_boost == 0,
        !state.field.trick_room,
        state.side_one.active().speed <= state.side_two.active().speed,
        !state.side_two.active().terastallized,
        ({
            let p = pressure(state.side_one, state.side_two, two, off);
            let q = pressure(state.side_one, state.side_two, other, off);
            &&& p.physical == 0 as real
            &&& p.special == 0 as real
            &&& !p.has_status
            &&& q.physical != 0 as real || q.special != 0 as real
        }),
    ensures
        position_value(state, one, two, off, stall) == position_value(state, one, other, off, stall)
            - 50 as real,
{
    let (own, foe) = (state.side_one, state.side_two);
    let p = pressure(own, foe, two, off);
    let q = pressure(own, foe, other, off);
    let ignored = boosts_ignored(own, foe, off);
    law_stages_have_their_weight(0);
    lemma_boost_prices(own, p, ignored, false);
    lemma_boost_prices(own, q, ignored, false);
    lemma_nothing(p.physical);
    lemma_nothing(p.special);
    lemma_nothing(q.physical);
    lemma_nothing(q.special);
    assert(boost_value(own, p, ignored, false) == boost_value(own, q, ignored, false));
    assert(active_value(own, foe, one, p, false, off) == active_value(own, foe, one, q, false,
        off));
    lemma_untouched(foe, own, one, two, other, state.field, off, stall);
    assert(hopeless(own.active(), p) && !hopeless(own.active(), q));
    assert(speed_value(own, foe, p, false, off) == 0 as real);
    assert(speed_value(own, foe, q, false, off) == 0 as real);
}

proof fn lemma_untouched(
    own: Side,
    foe: Side,
    foe_profile: TypeProfile,
    a: TypeProfile,
    b: TypeProfile,
    field: Field,
    off: EvalOff,
    stall: bool,
)
    requires
        !own.active().terastallized,
    ensures
        seat_value(own, foe, a, foe_profile, field, off, stall) == seat_value(
            own,
            foe,
            b,
            foe_profile,
            field,
            off,
            stall,
        ),
{
    assert(tera_points(own.active(), a) == tera_points(own.active(), b));
}

proof fn lemma_nothing(z: real)
    ensures
        0 as real * 30 as real * z == 0 as real,
{
    assert(0 as real * 30 as real * z == 0 as real) by (nonlinear_arith);
}

proof fn lemma_speed_threat(
    p: Pokemon,
    q: Pokemon,
    d: Pokemon,
    profile: TypeProfile,
    fainted: int,
    off: EvalOff,
    category: MoveCategory,
    n: int,
)
    requires
        q == (Pokemon { speed: q.speed, ..p }),
    ensures
        best_threat(p, d, profile, fainted, off, category, n) == best_threat(
            q,
            d,
            profile,
            fainted,
            off,
            category,
            n,
        ),
    decreases n,
{
    if n > 0 {
        lemma_speed_threat(p, q, d, profile, fainted, off, category, n - 1);
        let m = p.moves@[n - 1];
        let e = profile.against(m.choice.move_type);
        assert(damage(p, d, m, e, fainted, off) == damage(q, d, m, e, fainted, off));
    }
}

proof fn lemma_speed_defender(
    a: Pokemon,
    p: Pokemon,
    q: Pokemon,
    profile: TypeProfile,
    fainted: int,
    off: EvalOff,
    category: MoveCategory,
    n: int,
)
    requires
        q == (Pokemon { speed: q.speed, ..p }),
    ensures
        best_threat(a, p, profile, fainted, off, category, n) == best_threat(
            a,
            q,
            profile,
            fainted,
            off,
            category,
            n,
        ),
    decreases n,
{
    if n > 0 {
        lemma_speed_defender(a, p, q, profile, fainted, off, category, n - 1);
        let m = a.moves@[n - 1];
        let e = profile.against(m.choice.move_type);
        assert(damage(a, p, m, e, fainted, off) == damage(a, q, m, e, fainted, off));
    }
}

/// Only the speed of the first player's active Pokemon differs.
pub open spec fn speed_differs(a: Side, b: Side) -> bool {
    &&& a.pokemon@.len() == 6
    &&& a.active_index < 6
    &&& b == (Side { pokemon: b.pokemon, ..a })
    &&& b.pokemon@ == a.pokemon@.update(
        a.active_index as int,
        (Pokemon { speed: b.active().speed, ..a.active() }),
    )
}

proof fn lemma_speed_bench(a: Side, b: Side, off: EvalOff, stall: bool, n: int)
    requires
        speed_differs(a, b),
        0 <= n <= 6,
    ensures
        bench_value(a, off, stall, n) == bench_value(b, off, stall, n),
        fainted_among(a.pokemon@, n) == fainted_among(b.pokemon@, n),
    decreases n,
{
    if n > 0 {
        lemma_speed_bench(a, b, off, stall, n - 1);
        let (p, q) = (a.pokemon@[n - 1], b.pokemon@[n - 1]);
        assert(hazard_points(p, a, off) == hazard_points(q, b, off));
        assert(pokemon_value(p, off, stall) == pokemon_value(q, off, stall)) by {
            assert(wall_with_choice_item(p) == wall_with_choice_item(q));
            assert(sleep_talk_points(p) == sleep_talk_points(q));
            assert(recovery_tax(p, off, stall) == recovery_tax(q, off, stall));
            assert(status_points(p, off, stall) == status_points(q, off, stall));
        }
    }
}

proof fn lemma_speed_tera(a: Side, b: Side)
    requires
        speed_differs(a, b),
    ensures
        used_tera(a) == used_tera(b),
{
    if used_tera(a) {
        let i = choose|i: int| 0 <= i < 6 && (#[trigger] a.pokemon@[i]).terastallized;
        assert(b.pokemon@[i].terastallized);
    }
    if used_tera(b) {
        let i = choose|i: int| 0 <= i < 6 && (#[trigger] b.pokemon@[i]).terastallized;
        assert(a.pokemon@[i].terastallized);
    }
}

proof fn lemma_speed_pressure(
    a: Side,
    b: Side,
    foe: Side,
    one: TypeProfile,
    two: TypeProfile,
    off: EvalOff,
)
    requires
        speed_differs(a, b),
    ensures
        pressure(a, foe, two, off) == pressure(b, foe, two, off),
        pressure(foe, a, one, off) == pressure(foe, b, one, off),
{
    let (p, q) = (a.active(), b.active());
    assert(q == (Pokemon { speed: q.speed, ..p }));
    lemma_speed_bench(a, b, off, false, 6);
    let n = p.moves@.len() as int;
    let f = fainted_among(a.pokemon@, 6);
    lemma_speed_threat(p, q, foe.active(), two, f, off, MoveCategory::Physical, n);
    lemma_speed_threat(p, q, foe.active(), two, f, off, MoveCategory::Special, n);
    let g = fainted_among(foe.pokemon@, 6);
    let m = foe.active().moves@.len() as int;
    lemma_speed_defender(foe.active(), p, q, one, g, off, MoveCategory::Physical, m);
    lemma_speed_defender(foe.active(), p, q, one, g, off, MoveCategory::Special, m);
    assert(has_status_option(p) == has_status_option(q));
}

proof fn lemma_speed_seats(
    a: Side,
    b: Side,
    foe: Side,
    one: TypeProfile,
    two: TypeProfile,
    field: Field,
    off: EvalOff,
    stall: bool,
)
    requires
        speed_differs(a, b),
    ensures
        ({
            let p = pressure(a, foe, two, off);
            seat_value(b, foe, one, two, field, off, stall) - seat_value(
                a,
                foe,
                one,
                two,
                field,
                off,
                stall,
            ) == speed_value(b, foe, p, field.trick_room, off) - speed_value(
                a,
                foe,
                p,
                field.trick_room,
                off,
            )
        }),
{
    let (x, y) = (a.active(), b.active());
    lemma_speed_bench(a, b, off, stall, 6);
    lemma_speed_tera(a, b);
    lemma_speed_pressure(a, b, foe, one, two, off);
    let p = pressure(a, foe, two, off);
    assert(tera_points(x, one) == tera_points(y, one));
    assert(locked_into_status(x) == locked_into_status(y));
    lemma_speed_volatiles(a.volatile_statuses@, x, y, off);
    assert(boost_value(a, p, boosts_ignored(a, foe, off), field.trick_room) == boost_value(
        b,
        p,
        boosts_ignored(b, foe, off),
        field.trick_room,
    ));
    assert(active_value(a, foe, one, p, field.trick_room, off) == active_value(
        b,
        foe,
        one,
        p,
        field.trick_room,
        off,
    ));
    assert(field_points(x, field, off) == field_points(y, field, off));
}

proof fn lemma_speed_volatiles(
    list: Seq<crate::types::PokemonVolatileStatus>,
    p: Pokemon,
    q: Pokemon,
    off: EvalOff,
)
    requires
        q == (Pokemon { speed: q.speed, ..p }),
    ensures
        volatiles_total(list, p, off) == volatiles_total(list, q, off),
    decreases list.len(),
{
    if list.len() > 0 {
        lemma_speed_volatiles(list.drop_last(), p, q, off);
    }
}

proof fn lemma_speed_foe(
    a: Side,
    b: Side,
    foe: Side,
    one: TypeProfile,
    two: TypeProfile,
    field: Field,
    off: EvalOff,
    stall: bool,
)
    requires
        speed_differs(a, b),
        !moves_first(foe.active(), a.active(), field.trick_room),
        !moves_first(foe.active(), b.active(), field.trick_room),
    ensures
        seat_value(foe, a, two, one, field, off, stall) == seat_value(
            foe,
            b,
            two,
            one,
            field,
            off,
            stall,
        ),
{
    lemma_speed_pressure(a, b, foe, one, two, off);
    assert(boosts_ignored(foe, a, off) == boosts_ignored(foe, b, off));
}

/// Moving first, which is being faster or in a Trick Room slower, is worth 20 points times
/// the stronger of one's two threats times the share of hit points that the other one has
/// lost.
pub proof fn law_moving_first_has_its_price(
    s: State,
    t: State,
    one: TypeProfile,
    two: TypeProfile,
    off: EvalOff,
    stall: bool,
)
    requires
        speed_differs(s.side_one, t.side_one),
        t == (State { side_one: t.side_one, ..s }),
        s.side_one.active().hp > 0,
        s.side_two.active().hp > 0,
        s.side_one.active().speed == s.side_two.active().speed,
        s.field.trick_room ==> t.side_one.active().speed < s.side_two.active().speed,
        !s.field.trick_room ==> t.side_one.active().speed > s.side_two.active().speed,
    ensures
        ({
            let p = pressure(s.side_one, s.side_two, two, off);
            let b = s.side_two.active();
            let best = if p.physical < p.special {
                p.special
            } else {
                p.physical
            };
            position_value(t, one, two, off, stall) - position_value(s, one, two, off, stall) == (
            if !off.speedtier && best > 0 as real {
                20 as real * best * (1 as real - b.hp as real / b.maxhp as real)
            } else {
                0 as real
            })
        }),
{
    let (a, b) = (s.side_one, t.side_one);
    lemma_speed_seats(a, b, s.side_two, one, two, s.field, off, stall);
    lemma_speed_foe(a, b, s.side_two, one, two, s.field, off, stall);
}

} // verus!
