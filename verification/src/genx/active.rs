//! Terms that depend on the field and on being the Pokemon that is out.
use crate::genx::switches::EvalOff;
use crate::matchup::{TypeProfile, ATTACK_TYPES};
use crate::state::{Pokemon, Side};
use crate::types::{
    Abilities, Items, MoveCategory, PokemonType, PokemonVolatileStatus, Terrain, Weather,
};
use vstd::prelude::*;

verus! {

pub const LEECH_SEED: i64 = -30;

pub const SUBSTITUTE: i64 = 40;

pub const CONFUSION: i64 = -20;

pub const STEALTH_ROCK: i64 = -10;

pub const SPIKES: i64 = -7;

/// Price of Stealth Rock while hazard prices are off.
pub const STEALTH_ROCK_BASE: i64 = -10;

/// Price of Spikes while hazard prices are off.
pub const SPIKES_BASE: i64 = -7;

pub const TOXIC_SPIKES: i64 = -7;

pub const STICKY_WEB: i64 = -25;

pub const WEATHER_TYPE_BOOSTED: i64 = 8;

pub const WEATHER_TYPE_SUPPRESSED: i64 = -8;

pub const WEATHER_SPEED_ABILITY: i64 = 25;

pub const WEATHER_PASSIVE_DAMAGE: i64 = -8;

pub const WEATHER_PASSIVE_HEAL: i64 = 6;

pub const WEATHER_ABILITY_MINOR: i64 = 5;

pub const TERRAIN_GRASSY_HEAL: i64 = 5;

pub const TERRAIN_MISTY_STATUS_BLOCK: i64 = 12;

pub const TERRAIN_MISTY_DRAGON_RESIST: i64 = 4;

pub const TERRAIN_ELECTRIC_SLEEP_BLOCK: i64 = 8;

pub const TERRAIN_PSYCHIC_PRIORITY_BLOCK: i64 = 4;

pub const TERRAIN_TYPE_BOOSTED: i64 = 5;

pub const WISH_PENDING: i64 = 15;

pub const FUTURE_SIGHT_PENDING: i64 = 18;

pub const PERISH_1: i64 = -120;

pub const PERISH_2: i64 = -50;

pub const PERISH_3: i64 = -20;

pub const PERISH_4: i64 = -10;

pub const ENCORE: i64 = -25;

pub const TAUNT: i64 = -15;

pub const YAWN: i64 = -25;

pub const SALTCURE: i64 = -15;

/// Salt Cure hurts Water and Steel twice as much.
pub const SALTCURE_WEAK: i64 = -30;

pub const DESTINY_BOND: i64 = 5;

pub const DISABLE: i64 = -10;

pub const TORMENT: i64 = -10;

pub const HEAL_BLOCK: i64 = -15;

pub const OCTOLOCK: i64 = -20;

pub const PARTIALLY_TRAPPED: i64 = -8;

pub const INGRAIN: i64 = 8;

pub const AQUA_RING: i64 = 6;

pub const MAGNET_RISE: i64 = 5;

pub const TAR_SHOT: i64 = -5;

pub const GLAIVE_RUSH: i64 = -30;

pub const SLOW_START: i64 = -25;

pub const FOCUS_ENERGY: i64 = 5;

pub const LASER_FOCUS: i64 = 8;

pub const NIGHTMARE_VS: i64 = -15;

pub const CURSE_ON_ACTIVE: i64 = -25;

pub const PARADOX_ATK: i64 = 18;

pub const PARADOX_DEF: i64 = 9;

pub const PARADOX_SPA: i64 = 18;

pub const PARADOX_SPD: i64 = 9;

pub const PARADOX_SPE: i64 = 30;

pub const TERA_RESIST_BONUS: i64 = 2;

pub const TERA_DOUBLE_RESIST_BONUS: i64 = 3;

pub const TERA_IMMUNE_BONUS: i64 = 6;

pub const TERA_WEAK_PENALTY: i64 = -2;

pub const TERA_STAB_AVAILABLE: i64 = 12;

/// What the hazards on its side cost a Pokemon. Boots ward all of them off,
/// Magic Guard all but the web, and only what stands on the ground suffers from
/// spikes and webs.
pub open spec fn hazard_points(p: Pokemon, side: Side, off: EvalOff) -> int {
    let c = side.side_conditions;
    let rock = if off.hazards {
        STEALTH_ROCK_BASE
    } else {
        STEALTH_ROCK
    };
    let spike = if off.hazards {
        SPIKES_BASE
    } else {
        SPIKES
    };
    if p.item == Items::HEAVYDUTYBOOTS {
        0
    } else {
        (if p.ability == Abilities::MAGICGUARD {
            0
        } else {
            c.stealth_rock * rock + if p.grounded {
                c.spikes * spike + c.toxic_spikes * TOXIC_SPIKES
            } else {
                0
            }
        }) + if p.grounded {
            c.sticky_web * STICKY_WEB
        } else {
            0
        }
    }
}

/// What the hazards on its side cost a Pokemon.
pub fn evaluate_hazards(pokemon: &Pokemon, side: &Side, off: &EvalOff) -> (r: i64)
    ensures
        r == hazard_points(*pokemon, *side, *off),
        -10000 <= r <= 10000,
{
    let sr: i64 = if off.hazards {
        STEALTH_ROCK_BASE
    } else {
        STEALTH_ROCK
    };
    let sp: i64 = if off.hazards {
        SPIKES_BASE
    } else {
        SPIKES
    };
    let mut score: i64 = 0;
    if pokemon.item != Items::HEAVYDUTYBOOTS {
        if pokemon.ability != Abilities::MAGICGUARD {
            score += side.side_conditions.stealth_rock as i64 * sr;
            if pokemon.grounded {
                score += side.side_conditions.spikes as i64 * sp;
                score += side.side_conditions.toxic_spikes as i64 * TOXIC_SPIKES;
            }
        }
        if pokemon.grounded {
            score += side.side_conditions.sticky_web as i64 * STICKY_WEB;
        }
    }
    score
}

/// What a volatile status is worth to the Pokemon that has it. With the group
/// off, only three of them count.
pub open spec fn volatile_points(vs: PokemonVolatileStatus, p: Pokemon, off: EvalOff) -> int {
    match vs {
        PokemonVolatileStatus::LEECHSEED => LEECH_SEED as int,
        PokemonVolatileStatus::SUBSTITUTE => SUBSTITUTE as int,
        PokemonVolatileStatus::CONFUSION => CONFUSION as int,
        _ => if off.volatiles {
            0
        } else {
            extra_volatile_points(vs, p)
        },
    }
}

/// What the volatile statuses beyond the basic three are worth.
pub open spec fn extra_volatile_points(vs: PokemonVolatileStatus, p: Pokemon) -> int {
    match vs {
        PokemonVolatileStatus::PERISH1 => PERISH_1 as int,
        PokemonVolatileStatus::PERISH2 => PERISH_2 as int,
        PokemonVolatileStatus::PERISH3 => PERISH_3 as int,
        PokemonVolatileStatus::PERISH4 => PERISH_4 as int,
        PokemonVolatileStatus::ENCORE => ENCORE as int,
        PokemonVolatileStatus::TAUNT => TAUNT as int,
        PokemonVolatileStatus::DISABLE => DISABLE as int,
        PokemonVolatileStatus::TORMENT => TORMENT as int,
        PokemonVolatileStatus::HEALBLOCK => HEAL_BLOCK as int,
        PokemonVolatileStatus::OCTOLOCK => OCTOLOCK as int,
        PokemonVolatileStatus::YAWN => YAWN as int,
        PokemonVolatileStatus::SALTCURE => if p.is_type(PokemonType::WATER) || p.is_type(
            PokemonType::STEEL,
        ) {
            SALTCURE_WEAK as int
        } else {
            SALTCURE as int
        },
        PokemonVolatileStatus::PARTIALLYTRAPPED => PARTIALLY_TRAPPED as int,
        PokemonVolatileStatus::TARSHOT => TAR_SHOT as int,
        PokemonVolatileStatus::GLAIVERUSH => GLAIVE_RUSH as int,
        PokemonVolatileStatus::SLOWSTART => SLOW_START as int,
        PokemonVolatileStatus::NIGHTMARE => NIGHTMARE_VS as int,
        PokemonVolatileStatus::CURSE => CURSE_ON_ACTIVE as int,
        PokemonVolatileStatus::INGRAIN => INGRAIN as int,
        PokemonVolatileStatus::AQUARING => AQUA_RING as int,
        PokemonVolatileStatus::MAGNETRISE => MAGNET_RISE as int,
        PokemonVolatileStatus::DESTINYBOND => DESTINY_BOND as int,
        PokemonVolatileStatus::FOCUSENERGY => FOCUS_ENERGY as int,
        PokemonVolatileStatus::LASERFOCUS => LASER_FOCUS as int,
        PokemonVolatileStatus::PROTOSYNTHESISATK
        | PokemonVolatileStatus::QUARKDRIVEATK => PARADOX_ATK as int,
        PokemonVolatileStatus::PROTOSYNTHESISDEF
        | PokemonVolatileStatus::QUARKDRIVEDEF => PARADOX_DEF as int,
        PokemonVolatileStatus::PROTOSYNTHESISSPA
        | PokemonVolatileStatus::QUARKDRIVESPA => PARADOX_SPA as int,
        PokemonVolatileStatus::PROTOSYNTHESISSPD
        | PokemonVolatileStatus::QUARKDRIVESPD => PARADOX_SPD as int,
        PokemonVolatileStatus::PROTOSYNTHESISSPE
        | PokemonVolatileStatus::QUARKDRIVESPE => PARADOX_SPE as int,
        _ => 0,
    }
}

/// What the volatile statuses in `list` are worth together.
pub open spec fn volatiles_total(
    list: Seq<PokemonVolatileStatus>,
    p: Pokemon,
    off: EvalOff,
) -> int
    decreases list.len(),
{
    if list.len() == 0 {
        0
    } else {
        volatiles_total(list.drop_last(), p, off) + volatile_points(list.last(), p, off)
    }
}

fn evaluate_extra_volatile(vs: PokemonVolatileStatus, pokemon: &Pokemon) -> (r: i64)
    ensures
        r == extra_volatile_points(vs, *pokemon),
        -120 <= r <= 30,
{
    match vs {
        PokemonVolatileStatus::PERISH1 => PERISH_1,
        PokemonVolatileStatus::PERISH2 => PERISH_2,
        PokemonVolatileStatus::PERISH3 => PERISH_3,
        PokemonVolatileStatus::PERISH4 => PERISH_4,
        PokemonVolatileStatus::ENCORE => ENCORE,
        PokemonVolatileStatus::TAUNT => TAUNT,
        PokemonVolatileStatus::DISABLE => DISABLE,
        PokemonVolatileStatus::TORMENT => TORMENT,
        PokemonVolatileStatus::HEALBLOCK => HEAL_BLOCK,
        PokemonVolatileStatus::OCTOLOCK => OCTOLOCK,
        PokemonVolatileStatus::YAWN => YAWN,
        PokemonVolatileStatus::SALTCURE => if pokemon.has_type(PokemonType::WATER)
            || pokemon.has_type(PokemonType::STEEL) {
            SALTCURE_WEAK
        } else {
            SALTCURE
        },
        PokemonVolatileStatus::PARTIALLYTRAPPED => PARTIALLY_TRAPPED,
        PokemonVolatileStatus::TARSHOT => TAR_SHOT,
        PokemonVolatileStatus::GLAIVERUSH => GLAIVE_RUSH,
        PokemonVolatileStatus::SLOWSTART => SLOW_START,
        PokemonVolatileStatus::NIGHTMARE => NIGHTMARE_VS,
        PokemonVolatileStatus::CURSE => CURSE_ON_ACTIVE,
        PokemonVolatileStatus::INGRAIN => INGRAIN,
        PokemonVolatileStatus::AQUARING => AQUA_RING,
        PokemonVolatileStatus::MAGNETRISE => MAGNET_RISE,
        PokemonVolatileStatus::DESTINYBOND => DESTINY_BOND,
        PokemonVolatileStatus::FOCUSENERGY => FOCUS_ENERGY,
        PokemonVolatileStatus::LASERFOCUS => LASER_FOCUS,
        PokemonVolatileStatus::PROTOSYNTHESISATK
        | PokemonVolatileStatus::QUARKDRIVEATK => PARADOX_ATK,
        PokemonVolatileStatus::PROTOSYNTHESISDEF
        | PokemonVolatileStatus::QUARKDRIVEDEF => PARADOX_DEF,
        PokemonVolatileStatus::PROTOSYNTHESISSPA
        | PokemonVolatileStatus::QUARKDRIVESPA => PARADOX_SPA,
        PokemonVolatileStatus::PROTOSYNTHESISSPD
        | PokemonVolatileStatus::QUARKDRIVESPD => PARADOX_SPD,
        PokemonVolatileStatus::PROTOSYNTHESISSPE
        | PokemonVolatileStatus::QUARKDRIVESPE => PARADOX_SPE,
        _ => 0,
    }
}

/// What the volatile statuses of a side are worth to its active Pokemon.
pub fn evaluate_active_volatiles(pokemon: &Pokemon, side: &Side, off: &EvalOff) -> (r: i128)
    ensures
        r == volatiles_total(side.volatile_statuses@, *pokemon, *off),
        -(120 * u64::MAX) <= r <= 40 * u64::MAX,
{
    let mut score: i128 = 0;
    let mut i: usize = 0;
    while i < side.volatile_statuses.len()
        invariant
            i <= side.volatile_statuses@.len(),
            score == volatiles_total(side.volatile_statuses@.take(i as int), *pokemon, *off),
            -(120 * i) <= score <= 40 * i,
        decreases side.volatile_statuses@.len() - i,
    {
        let vs = side.volatile_statuses[i];
        assert(side.volatile_statuses@.take(i + 1).drop_last()
            =~= side.volatile_statuses@.take(i as int));
        score += match vs {
            PokemonVolatileStatus::LEECHSEED => LEECH_SEED as i128,
            PokemonVolatileStatus::SUBSTITUTE => SUBSTITUTE as i128,
            PokemonVolatileStatus::CONFUSION => CONFUSION as i128,
            _ => if off.volatiles {
                0
            } else {
                evaluate_extra_volatile(vs, pokemon) as i128
            },
        };
        i += 1;
    }
    assert(side.volatile_statuses@.take(i as int) =~= side.volatile_statuses@);
    score
}

/// A Wish or a Future Sight that has yet to land counts for the side that set
/// it up.
pub open spec fn pending_points(side: Side) -> int {
    (if side.future_sight.0 > 0 {
        FUTURE_SIGHT_PENDING as int
    } else {
        0
    }) + if side.wish.0 > 0 {
        WISH_PENDING as int
    } else {
        0
    }
}

/// What the effects that have yet to land are worth to their side.
pub fn evaluate_pending_effects(side: &Side) -> (r: i64)
    ensures
        r == pending_points(*side),
        0 <= r <= 33,
{
    let mut score: i64 = 0;
    if side.future_sight.0 > 0 {
        score += FUTURE_SIGHT_PENDING;
    }
    if side.wish.0 > 0 {
        score += WISH_PENDING;
    }
    score
}

/// What the resistances and weaknesses in the first `n` type slots are worth.
pub open spec fn resistance_points(profile: TypeProfile, n: int) -> int
    decreases n,
{
    if n <= 0 {
        0
    } else {
        resistance_points(profile, n - 1) + {
            let q = profile.quarters@[n - 1];
            if q == 0 {
                TERA_IMMUNE_BONUS as int
            } else if q <= 1 {
                TERA_DOUBLE_RESIST_BONUS as int
            } else if q <= 2 {
                TERA_RESIST_BONUS as int
            } else if q >= 8 {
                TERA_WEAK_PENALTY as int
            } else {
                0
            }
        }
    }
}

/// What having terastallized is worth: the resistances of the new type, and an
/// attack that it strengthens.
pub open spec fn tera_points(p: Pokemon, profile: TypeProfile) -> int {
    if !p.terastallized {
        0
    } else {
        resistance_points(profile, ATTACK_TYPES as int) + if exists|i: int|
            0 <= i < p.moves@.len() && (#[trigger] p.moves@[i]).choice.move_type == p.tera_type
                && p.moves@[i].choice.category != MoveCategory::Status {
            TERA_STAB_AVAILABLE as int
        } else {
            0
        }
    }
}

/// What having terastallized is worth to the active Pokemon. `profile` tells how
/// hard attacks of each type hit it.
pub fn evaluate_tera_active(pokemon: &Pokemon, profile: &TypeProfile) -> (r: i64)
    requires
        profile.wf(),
    ensures
        r == tera_points(*pokemon, *profile),
        -36 <= r <= 120,
{
    if !pokemon.terastallized {
        return 0;
    }
    let mut score: i64 = 0;
    let mut t: usize = 0;
    while t < ATTACK_TYPES
        invariant
            t <= ATTACK_TYPES,
            profile.wf(),
            score == resistance_points(*profile, t as int),
            -2 * t <= score <= 6 * t,
        decreases ATTACK_TYPES - t,
    {
        let q: u8 = profile.quarters[t];
        if q == 0 {
            score += TERA_IMMUNE_BONUS;
        } else if q <= 1 {
            score += TERA_DOUBLE_RESIST_BONUS;
        } else if q <= 2 {
            score += TERA_RESIST_BONUS;
        } else if q >= 8 {
            score += TERA_WEAK_PENALTY;
        }
        t += 1;
    }
    let mut i: usize = 0;
    while i < pokemon.moves.len()
        invariant
            i <= pokemon.moves@.len(),
            pokemon.terastallized,
            score == resistance_points(*profile, ATTACK_TYPES as int),
            -36 <= score <= 108,
            forall|k: int|
                0 <= k < i ==> !((#[trigger] pokemon.moves@[k]).choice.move_type
                    == pokemon.tera_type && pokemon.moves@[k].choice.category
                    != MoveCategory::Status),
        decreases pokemon.moves@.len() - i,
    {
        let mv = &pokemon.moves[i];
        if mv.choice.move_type == pokemon.tera_type && mv.choice.category != MoveCategory::Status {
            assert(pokemon.moves@[i as int].choice.move_type == pokemon.tera_type);
            return score + TERA_STAB_AVAILABLE;
        }
        i += 1;
    }
    score
}

/// Credit for an ability that doubles speed; being fast is no use in Trick Room.
pub open spec fn speed_ability_points(trick_room: bool) -> int {
    if trick_room {
        0
    } else {
        WEATHER_SPEED_ABILITY as int
    }
}

/// Weather strengthens or weakens attacks of some types.
pub open spec fn weather_type_points(p: Pokemon, weather: Weather) -> int {
    let gain = |t: PokemonType| if p.is_type(t) {
        WEATHER_TYPE_BOOSTED as int
    } else {
        0
    };
    let loss = |t: PokemonType| if p.is_type(t) {
        WEATHER_TYPE_SUPPRESSED as int
    } else {
        0
    };
    match weather {
        Weather::SUN | Weather::HARSHSUN => gain(PokemonType::FIRE) + loss(PokemonType::WATER),
        Weather::RAIN | Weather::HEAVYRAIN => gain(PokemonType::WATER) + loss(PokemonType::FIRE),
        Weather::SAND => gain(PokemonType::ROCK),
        Weather::HAIL | Weather::SNOW => gain(PokemonType::ICE),
        Weather::NONE => 0,
    }
}

/// The weather wears the Pokemon down at the end of every turn.
pub open spec fn chipped_by(p: Pokemon, weather: Weather) -> bool {
    match weather {
        Weather::SAND => !(p.is_type(PokemonType::ROCK) || p.is_type(PokemonType::GROUND)
            || p.is_type(PokemonType::STEEL) || p.ability == Abilities::MAGICGUARD || p.ability
            == Abilities::OVERCOAT || p.ability == Abilities::SANDVEIL || p.ability
            == Abilities::SANDFORCE || p.ability == Abilities::SANDRUSH),
        Weather::HAIL => !(p.is_type(PokemonType::ICE) || p.ability == Abilities::MAGICGUARD
            || p.ability == Abilities::OVERCOAT || p.ability == Abilities::ICEBODY || p.ability
            == Abilities::SNOWCLOAK || p.ability == Abilities::SLUSHRUSH),
        _ => false,
    }
}

/// Abilities that the weather feeds.
pub open spec fn weather_ability_points(
    ability: Abilities,
    weather: Weather,
    trick_room: bool,
) -> int {
    match weather {
        Weather::SUN | Weather::HARSHSUN => match ability {
            Abilities::CHLOROPHYLL => speed_ability_points(trick_room),
            Abilities::SOLARPOWER
            | Abilities::FLOWERGIFT
            | Abilities::LEAFGUARD => WEATHER_ABILITY_MINOR as int,
            Abilities::DRYSKIN => WEATHER_PASSIVE_DAMAGE as int,
            _ => 0,
        },
        Weather::RAIN | Weather::HEAVYRAIN => match ability {
            Abilities::SWIFTSWIM => speed_ability_points(trick_room),
            Abilities::RAINDISH | Abilities::DRYSKIN => WEATHER_PASSIVE_HEAL as int,
            Abilities::HYDRATION => WEATHER_ABILITY_MINOR as int,
            _ => 0,
        },
        Weather::SAND => match ability {
            Abilities::SANDRUSH => speed_ability_points(trick_room),
            Abilities::SANDFORCE | Abilities::SANDVEIL => WEATHER_ABILITY_MINOR as int,
            _ => 0,
        },
        Weather::HAIL | Weather::SNOW => match ability {
            Abilities::SLUSHRUSH => speed_ability_points(trick_room),
            Abilities::ICEBODY => WEATHER_PASSIVE_HEAL as int,
            Abilities::SNOWCLOAK => WEATHER_ABILITY_MINOR as int,
            _ => 0,
        },
        Weather::NONE => 0,
    }
}

/// What the weather is worth to the active Pokemon.
pub open spec fn weather_points(p: Pokemon, weather: Weather, trick_room: bool) -> int {
    weather_type_points(p, weather) + (if chipped_by(p, weather) {
        WEATHER_PASSIVE_DAMAGE as int
    } else {
        0
    }) + weather_ability_points(p.ability, weather, trick_room)
}

/// What the weather is worth to the active Pokemon.
pub fn evaluate_weather_for_active(pokemon: &Pokemon, weather: Weather, trick_room: bool) -> (r:
    i64)
    ensures
        r == weather_points(*pokemon, weather, trick_room),
        -100 <= r <= 100,
{
    let speed_bonus: i64 = if trick_room {
        0
    } else {
        WEATHER_SPEED_ABILITY
    };
    let mut score: i64 = 0;
    match weather {
        Weather::SUN | Weather::HARSHSUN => {
            if pokemon.has_type(PokemonType::FIRE) {
                score += WEATHER_TYPE_BOOSTED;
            }
            if pokemon.has_type(PokemonType::WATER) {
                score += WEATHER_TYPE_SUPPRESSED;
            }
            match pokemon.ability {
                Abilities::CHLOROPHYLL => score += speed_bonus,
                Abilities::SOLARPOWER | Abilities::FLOWERGIFT | Abilities::LEAFGUARD => score +=
                WEATHER_ABILITY_MINOR,
                Abilities::DRYSKIN => score += WEATHER_PASSIVE_DAMAGE,
                _ => {},
            }
        },
        Weather::RAIN | Weather::HEAVYRAIN => {
            if pokemon.has_type(PokemonType::WATER) {
                score += WEATHER_TYPE_BOOSTED;
            }
            if pokemon.has_type(PokemonType::FIRE) {
                score += WEATHER_TYPE_SUPPRESSED;
            }
            match pokemon.ability {
                Abilities::SWIFTSWIM => score += speed_bonus,
                Abilities::RAINDISH | Abilities::DRYSKIN => score += WEATHER_PASSIVE_HEAL,
                Abilities::HYDRATION => score += WEATHER_ABILITY_MINOR,
                _ => {},
            }
        },
        Weather::SAND => {
            if pokemon.has_type(PokemonType::ROCK) {
                score += WEATHER_TYPE_BOOSTED;
            }
            let immune = pokemon.has_type(PokemonType::ROCK) || pokemon.has_type(
                PokemonType::GROUND,
            ) || pokemon.has_type(PokemonType::STEEL)
                || matches!(pokemon.ability, Abilities::MAGICGUARD
                    | Abilities::OVERCOAT | Abilities::SANDVEIL | Abilities::SANDFORCE
                    | Abilities::SANDRUSH);
            if !immune {
                score += WEATHER_PASSIVE_DAMAGE;
            }
            match pokemon.ability {
                Abilities::SANDRUSH => score += speed_bonus,
                Abilities::SANDFORCE | Abilities::SANDVEIL => score += WEATHER_ABILITY_MINOR,
                _ => {},
            }
        },
        Weather::HAIL | Weather::SNOW => {
            if pokemon.has_type(PokemonType::ICE) {
                score += WEATHER_TYPE_BOOSTED;
            }
            if weather == Weather::HAIL {
                let immune = pokemon.has_type(PokemonType::ICE)
                    || matches!(pokemon.ability, Abilities::MAGICGUARD
                        | Abilities::OVERCOAT | Abilities::ICEBODY | Abilities::SNOWCLOAK
                        | Abilities::SLUSHRUSH);
                if !immune {
                    score += WEATHER_PASSIVE_DAMAGE;
                }
            }
            match pokemon.ability {
                Abilities::SLUSHRUSH => score += speed_bonus,
                Abilities::ICEBODY => score += WEATHER_PASSIVE_HEAL,
                Abilities::SNOWCLOAK => score += WEATHER_ABILITY_MINOR,
                _ => {},
            }
        },
        Weather::NONE => {},
    }
    score
}

/// What the terrain is worth to the active Pokemon; only what stands on the
/// ground feels it.
pub open spec fn terrain_points(p: Pokemon, terrain: Terrain, trick_room: bool) -> int {
    let typed = |t: PokemonType| if p.is_type(t) {
        TERRAIN_TYPE_BOOSTED as int
    } else {
        0
    };
    if !p.grounded {
        0
    } else {
        match terrain {
            Terrain::ELECTRICTERRAIN => TERRAIN_ELECTRIC_SLEEP_BLOCK + typed(PokemonType::ELECTRIC)
                + if p.ability == Abilities::SURGESURFER {
                speed_ability_points(trick_room)
            } else {
                0
            },
            Terrain::GRASSYTERRAIN => TERRAIN_GRASSY_HEAL + typed(PokemonType::GRASS)
                + if p.ability == Abilities::GRASSPELT {
                WEATHER_ABILITY_MINOR as int
            } else {
                0
            },
            Terrain::MISTYTERRAIN => TERRAIN_MISTY_STATUS_BLOCK + if p.is_type(PokemonType::FAIRY) {
                0
            } else {
                TERRAIN_MISTY_DRAGON_RESIST as int
            },
            Terrain::PSYCHICTERRAIN => TERRAIN_PSYCHIC_PRIORITY_BLOCK + typed(PokemonType::PSYCHIC),
            Terrain::NONE => 0,
        }
    }
}

/// What the terrain is worth to the active Pokemon.
pub fn evaluate_terrain_for_active(pokemon: &Pokemon, terrain: Terrain, trick_room: bool) -> (r:
    i64)
    ensures
        r == terrain_points(*pokemon, terrain, trick_room),
        -100 <= r <= 100,
{
    if !pokemon.grounded {
        return 0;
    }
    let speed_bonus: i64 = if trick_room {
        0
    } else {
        WEATHER_SPEED_ABILITY
    };
    let mut score: i64 = 0;
    match terrain {
        Terrain::ELECTRICTERRAIN => {
            score += TERRAIN_ELECTRIC_SLEEP_BLOCK;
            if pokemon.has_type(PokemonType::ELECTRIC) {
                score += TERRAIN_TYPE_BOOSTED;
            }
            if pokemon.ability == Abilities::SURGESURFER {
                score += speed_bonus;
            }
        },
        Terrain::GRASSYTERRAIN => {
            score += TERRAIN_GRASSY_HEAL;
            if pokemon.has_type(PokemonType::GRASS) {
                score += TERRAIN_TYPE_BOOSTED;
            }
            if pokemon.ability == Abilities::GRASSPELT {
                score += WEATHER_ABILITY_MINOR;
            }
        },
        Terrain::MISTYTERRAIN => {
            score += TERRAIN_MISTY_STATUS_BLOCK;
            if !pokemon.has_type(PokemonType::FAIRY) {
                score += TERRAIN_MISTY_DRAGON_RESIST;
            }
        },
        Terrain::PSYCHICTERRAIN => {
            score += TERRAIN_PSYCHIC_PRIORITY_BLOCK;
            if pokemon.has_type(PokemonType::PSYCHIC) {
                score += TERRAIN_TYPE_BOOSTED;
            }
        },
        Terrain::NONE => {},
    }
    score
}

} // verus!
