//! The second-generation encoding: 609 features from the first player's seat.
use crate::matchup::TYPE_SLOTS;
use crate::numbers::{ratio_flag, Ratio};
use crate::policy::chart::{effectiveness_quarters, is_physical_type, N_TYPES};
#[allow(unused_imports)]
use crate::policy::chart::{charted_pair, physical_type};
use crate::policy::moves::MoveTable;
#[allow(unused_imports)]
use crate::numbers::lemma_cross;
#[allow(unused_imports)]
use crate::state::fainted_among;
use crate::state::{
    Choice, Effect, Move, Pokemon, Side, State, TypePair, MOVE_SLOTS, TEAM_SIZE,
};
use crate::types::{
    Choices, Items, MoveCategory, PokemonStatus, PokemonType, PokemonVolatileStatus, Weather,
};
use vstd::prelude::*;

verus! {

pub const MOVE_FEATURES: usize = 31;

pub const POKEMON_FEATURES: usize = 38;

pub const SIDE_EXTRAS: usize = 12;

pub const GLOBAL_FEATURES: usize = 5;

/// Number of features: 4 * 31 + 6 * 38 * 2 + 12 * 2 + 5.
pub const STATE_FEATURES: usize = 609;

/// Number of actions that the policy network rates.
pub const N_ACTIONS: usize = 9;

/// The status conditions in the order of their features.
pub const STATUS_ORDER: [PokemonStatus; 7] = [
    PokemonStatus::NONE,
    PokemonStatus::BURN,
    PokemonStatus::SLEEP,
    PokemonStatus::FREEZE,
    PokemonStatus::PARALYZE,
    PokemonStatus::POISON,
    PokemonStatus::TOXIC,
];

/// The items with a feature of their own in the second generation.
pub const ITEM_ORDER_GEN2: [Items; 5] = [
    Items::LEFTOVERS,
    Items::THICKCLUB,
    Items::LIGHTBALL,
    Items::MIRACLEBERRY,
    Items::MINTBERRY,
];

/// The items that take these places in later generations.
pub const ITEM_ORDER_MODERN: [Items; 5] = [
    Items::LEFTOVERS,
    Items::CHOICEBAND,
    Items::CHOICESCARF,
    Items::CHOICESPECS,
    Items::LIFEORB,
];

/// `x / d`, held between `low / d` and `high / d`.
pub open spec fn share(x: int, low: int, high: int, d: int) -> Ratio {
    Ratio {
        num: (if x < low {
            low
        } else if x > high {
            high
        } else {
            x
        }) as i128,
        den: d as i128,
    }
}

/// `n / d` as a feature.
pub open spec fn part(n: int, d: int) -> Ratio {
    Ratio { num: n as i128, den: d as i128 }
}

/// `x / d`, held between `low / d` and `high / d`.
pub(crate) fn held_share(x: i128, low: i128, high: i128, d: i128) -> (r: Ratio)
    requires
        d > 0,
        low <= high,
        i128::MIN < low,
    ensures
        r.wf(),
        r == share(x as int, low as int, high as int, d as int),
{
    if x < low {
        Ratio::new(low, d)
    } else if x > high {
        Ratio::new(high, d)
    } else {
        Ratio::new(x, d)
    }
}

/// The remaining hit points as a share of the maximum. A maximum below one counts
/// as one.
pub open spec fn hp_share(p: Pokemon) -> Ratio {
    part(
        p.hp as int,
        if p.maxhp < 1 {
            1
        } else {
            p.maxhp as int
        },
    )
}

/// The remaining hit points as a share of the maximum.
pub(crate) fn hp_fraction(p: &Pokemon) -> (r: Ratio)
    ensures
        r.wf(),
        r == hp_share(*p),
{
    let m: i128 = if p.maxhp < 1 {
        1
    } else {
        p.maxhp as i128
    };
    Ratio::new(p.hp as i128, m)
}

/// A stat at a stage, as a fraction.
pub open spec fn boosted(stat: int, stage: int) -> Ratio {
    if stage >= 0 {
        part(stat * (2 + stage), 2)
    } else {
        part(stat * 2, 2 - stage)
    }
}

/// A stat at a stage.
pub fn apply_boost(stat: i16, stage: i8) -> (r: Ratio)
    ensures
        r.wf(),
        r == boosted(stat as int, stage as int),
        r.den <= 130,
        -0x100_0000 <= r.num <= 0x100_0000,
{
    let s: i128 = stat as i128;
    let g: i128 = stage as i128;
    if g >= 0 {
        assert(-0x100_0000 <= s * (2 + g) <= 0x100_0000) by (nonlinear_arith)
            requires
                -32768 <= s <= 32767,
                0 <= g <= 127,
        ;
        Ratio::new(s * (2 + g), 2)
    } else {
        Ratio::new(s * 2, 2 - g)
    }
}

/// One of the first types by type: the feature is set where the type is `t1` or
/// `t2`.
pub open spec fn type_flags(t1: PokemonType, t2: PokemonType, n: int) -> Seq<Ratio> {
    Seq::new(n as nat, |i: int| ratio_flag(TYPE_SLOTS[i] == t1 || TYPE_SLOTS[i] == t2))
}

/// Writes the features of two types.
pub(crate) fn write_type_flags(t1: PokemonType, t2: PokemonType, n: usize, out: &mut Vec<Ratio>)
    requires
        n <= 20,
    ensures
        final(out)@ == old(out)@ + type_flags(t1, t2, n as int),
{
    let mut i: usize = 0;
    while i < n
        invariant
            i <= n <= 20,
            out@ =~= old(out)@ + type_flags(t1, t2, i as int),
        decreases n - i,
    {
        out.push(Ratio::flag(TYPE_SLOTS[i] == t1 || TYPE_SLOTS[i] == t2));
        i += 1;
    }
}

/// The status of a Pokemon, one feature for each condition.
pub open spec fn status_flags(s: PokemonStatus) -> Seq<Ratio> {
    Seq::new(7, |i: int| ratio_flag(STATUS_ORDER[i] == s))
}

/// Writes the features of a status.
pub(crate) fn write_status_flags(s: PokemonStatus, out: &mut Vec<Ratio>)
    ensures
        final(out)@ == old(out)@ + status_flags(s),
{
    let mut i: usize = 0;
    while i < 7
        invariant
            i <= 7,
            out@ =~= old(out)@ + status_flags(s).take(i as int),
        decreases 7 - i,
    {
        out.push(Ratio::flag(STATUS_ORDER[i] == s));
        i += 1;
    }
}

/// The move inflicts `status` outright.
pub open spec fn inflicts(c: Choice, status: PokemonStatus) -> bool {
    c.status matches Some(e) && e.status == status
}

/// A secondary effect of the move inflicts `status`.
pub open spec fn may_inflict(c: Choice, status: PokemonStatus) -> bool {
    c.secondaries matches Some(list) && exists|k: int|
        0 <= k < list@.len() && (#[trigger] list@[k]).effect == Effect::Status(status)
}

/// What the table says of type, power, accuracy, and whether the move is a status
/// move. A move that it does not know is a harmless Normal one.
pub open spec fn basics(entry: Option<Choice>) -> (PokemonType, int, int, bool) {
    match entry {
        Some(c) => (
            c.move_type,
            c.base_power as int,
            c.accuracy as int,
            c.category == MoveCategory::Status,
        ),
        None => (PokemonType::NORMAL, 0, 100, true),
    }
}

/// What the move does besides damage: puts to sleep, paralyzes, poisons, burns,
/// changes stages, heals, drives out.
pub open spec fn effect_flags(id: Choices, entry: Option<Choice>) -> Seq<Ratio> {
    match entry {
        Some(c) => seq![
            ratio_flag(inflicts(c, PokemonStatus::SLEEP)),
            ratio_flag(
                inflicts(c, PokemonStatus::PARALYZE) || may_inflict(c, PokemonStatus::PARALYZE),
            ),
            ratio_flag(
                inflicts(c, PokemonStatus::POISON) || inflicts(c, PokemonStatus::TOXIC)
                    || may_inflict(c, PokemonStatus::POISON) || may_inflict(
                    c,
                    PokemonStatus::TOXIC,
                ),
            ),
            ratio_flag(inflicts(c, PokemonStatus::BURN) || may_inflict(c, PokemonStatus::BURN)),
            ratio_flag(c.boost),
            ratio_flag(
                c.heal is Some || c.drain || id == Choices::REST || id == Choices::RECOVER || id
                    == Choices::MORNINGSUN || id == Choices::SOFTBOILED || id
                    == Choices::MOONLIGHT,
            ),
            ratio_flag(id == Choices::ROAR || id == Choices::WHIRLWIND),
        ],
        None => Seq::new(7, |i: int| ratio_flag(false)),
    }
}

/// The features of a move in the hands of a user, against an opponent.
pub open spec fn move_code(
    m: Move,
    entry: Option<Choice>,
    user: TypePair,
    foe: TypePair,
) -> Seq<Ratio> {
    let (t, power, accuracy, status) = basics(entry);
    type_flags(t, t, N_TYPES as int) + seq![
        part(power, 250),
        part(accuracy, 100),
        ratio_flag(!status && physical_type(t)),
        ratio_flag(status),
        ratio_flag(t == user.0 || t == user.1),
        if m.id == Choices::NONE {
            ratio_flag(false)
        } else {
            share(m.pp as int, -128, 32, 32)
        },
        part(charted_pair(t, foe.0, foe.1), 16),
    ] + effect_flags(m.id, entry)
}

/// Which status conditions the secondary effects of a move inflict: paralysis,
/// poison of either kind, burns.
fn secondary_statuses(c: &Choice) -> (r: (bool, bool, bool))
    ensures
        r.0 == may_inflict(*c, PokemonStatus::PARALYZE),
        r.1 == (may_inflict(*c, PokemonStatus::POISON) || may_inflict(*c, PokemonStatus::TOXIC)),
        r.2 == may_inflict(*c, PokemonStatus::BURN),
{
    let mut par = false;
    let mut psn = false;
    let mut tox = false;
    let mut brn = false;
    if let Some(list) = &c.secondaries {
        let mut k: usize = 0;
        while k < list.len()
            invariant
                k <= list@.len(),
                par <==> exists|q: int|
                    0 <= q < k && (#[trigger] list@[q]).effect == Effect::Status(
                        PokemonStatus::PARALYZE,
                    ),
                psn <==> exists|q: int|
                    0 <= q < k && (#[trigger] list@[q]).effect == Effect::Status(
                        PokemonStatus::POISON,
                    ),
                tox <==> exists|q: int|
                    0 <= q < k && (#[trigger] list@[q]).effect == Effect::Status(
                        PokemonStatus::TOXIC,
                    ),
                brn <==> exists|q: int|
                    0 <= q < k && (#[trigger] list@[q]).effect == Effect::Status(
                        PokemonStatus::BURN,
                    ),
            decreases list@.len() - k,
        {
            let e = list[k].effect;
            assert(list@[k as int].effect == e);
            if let Effect::Status(status) = e {
                if status == PokemonStatus::PARALYZE {
                    par = true;
                } else if status == PokemonStatus::POISON {
                    psn = true;
                } else if status == PokemonStatus::TOXIC {
                    tox = true;
                } else if status == PokemonStatus::BURN {
                    brn = true;
                }
            }
            k += 1;
        }
    }
    (par, psn || tox, brn)
}

/// Writes what a move does besides damage.
fn write_effect_flags(id: Choices, entry: Option<&Choice>, out: &mut Vec<Ratio>)
    ensures
        final(out)@ == old(out)@ + effect_flags(
            id,
            match entry {
                Some(c) => Some(*c),
                None => None,
            },
        ),
{
    let ghost start = out@;
    match entry {
        Some(c) => {
            let (par, psn, brn) = secondary_statuses(c);
            let status: Option<PokemonStatus> = match &c.status {
                Some(e) => Some(e.status),
                None => None,
            };
            out.push(Ratio::flag(status == Some(PokemonStatus::SLEEP)));
            out.push(Ratio::flag(status == Some(PokemonStatus::PARALYZE) || par));
            out.push(
                Ratio::flag(
                    status == Some(PokemonStatus::POISON) || status == Some(PokemonStatus::TOXIC)
                        || psn,
                ),
            );
            out.push(Ratio::flag(status == Some(PokemonStatus::BURN) || brn));
            out.push(Ratio::flag(c.boost));
            out.push(
                Ratio::flag(
                    c.heal.is_some() || c.drain || matches!(id, Choices::REST | Choices::RECOVER
                        | Choices::MORNINGSUN | Choices::SOFTBOILED | Choices::MOONLIGHT),
                ),
            );
            out.push(Ratio::flag(id == Choices::ROAR || id == Choices::WHIRLWIND));
            assert(out@ =~= start + effect_flags(id, Some(*c)));
        },
        None => {
            let mut i: usize = 0;
            while i < 7
                invariant
                    i <= 7,
                    out@ =~= start + Seq::new(i as nat, |k: int| ratio_flag(false)),
                decreases 7 - i,
            {
                out.push(Ratio::flag(false));
                i += 1;
            }
        },
    }
}

/// Writes the features of a move in the hands of a user, against an opponent.
fn move_features(
    m: &Move,
    entry: Option<&Choice>,
    user_types: TypePair,
    opp_types: TypePair,
    out: &mut Vec<Ratio>,
)
    ensures
        final(out)@ == old(out)@ + move_code(
            *m,
            match entry {
                Some(c) => Some(*c),
                None => None,
            },
            user_types,
            opp_types,
        ),
{
    let ghost start = out@;
    let ghost e: Option<Choice> = match entry {
        Some(c) => Some(*c),
        None => None,
    };
    let (move_type, base_power, accuracy, is_status): (PokemonType, i32, i32, bool) = match entry {
        Some(c) => (c.move_type, c.base_power, c.accuracy, c.category == MoveCategory::Status),
        None => (PokemonType::NORMAL, 0, 100, true),
    };
    write_type_flags(move_type, move_type, N_TYPES, out);
    out.push(Ratio::new(base_power as i128, 250));
    out.push(Ratio::new(accuracy as i128, 100));
    out.push(Ratio::flag(!is_status && is_physical_type(move_type)));
    out.push(Ratio::flag(is_status));
    out.push(Ratio::flag(move_type == user_types.0 || move_type == user_types.1));
    let pp = if m.id == Choices::NONE {
        Ratio::flag(false)
    } else {
        held_share(m.pp as i128, -128, 32, 32)
    };
    out.push(pp);
    out.push(
        Ratio::new(effectiveness_quarters(move_type, opp_types.0, opp_types.1) as i128, 16),
    );
    let ghost middle = out@;
    write_effect_flags(m.id, entry, out);
    assert(out@ =~= start + move_code(*m, e, user_types, opp_types));
}

/// The features of a stat, at a stage where there is one.
pub open spec fn stat_code(stat: i16, stage: Option<i8>) -> Ratio {
    match stage {
        Some(s) => part(
            boosted(stat as int, s as int).num as int,
            500 * boosted(stat as int, s as int).den,
        ),
        None => part(stat as int, 500),
    }
}

/// The stages of the five stats of the active Pokemon.
#[derive(Clone, Copy, Debug, PartialEq, Eq, Structural)]
pub struct Stages {
    pub attack: i8,
    pub defense: i8,
    pub special_attack: i8,
    pub special_defense: i8,
    pub speed: i8,
}

/// The stages on a side.
pub open spec fn stages_of(s: Side) -> Stages {
    Stages {
        attack: s.attack_boost,
        defense: s.defense_boost,
        special_attack: s.special_attack_boost,
        special_defense: s.special_defense_boost,
        speed: s.speed_boost,
    }
}

/// The five stats, at the stages of the active Pokemon or without any.
pub open spec fn stats_code(p: Pokemon, stages: Option<Stages>) -> Seq<Ratio> {
    match stages {
        Some(g) => seq![
            stat_code(p.attack, Some(g.attack)),
            stat_code(p.defense, Some(g.defense)),
            stat_code(p.special_attack, Some(g.special_attack)),
            stat_code(p.special_defense, Some(g.special_defense)),
            stat_code(p.speed, Some(g.speed)),
        ],
        None => seq![
            stat_code(p.attack, None),
            stat_code(p.defense, None),
            stat_code(p.special_attack, None),
            stat_code(p.special_defense, None),
            stat_code(p.speed, None),
        ],
    }
}

/// The items with a feature of their own.
pub open spec fn item_order(gen2: bool) -> [Items; 5] {
    if gen2 {
        ITEM_ORDER_GEN2
    } else {
        ITEM_ORDER_MODERN
    }
}

/// The item: one feature for each of five items, one for any other, one for none.
pub open spec fn item_code(item: Items, gen2: bool) -> Seq<Ratio> {
    let order = item_order(gen2);
    let listed = exists|k: int| 0 <= k < 5 && #[trigger] order[k] == item;
    Seq::new(5, |i: int| ratio_flag(order[i] == item)) + seq![
        ratio_flag(!listed && item != Items::NONE),
        ratio_flag(!listed && item == Items::NONE),
    ]
}

/// The features of a team member.
pub open spec fn pokemon_code(p: Pokemon, stages: Option<Stages>, gen2: bool) -> Seq<Ratio> {
    seq![hp_share(p), ratio_flag(p.hp > 0)] + type_flags(p.types.0, p.types.1, N_TYPES as int)
        + stats_code(p, stages) + status_flags(p.status) + item_code(p.item, gen2)
}

/// Writes a stat, at a stage where there is one.
fn write_stat(stat: i16, stage: Option<i8>, out: &mut Vec<Ratio>)
    ensures
        final(out)@ == old(out)@.push(stat_code(stat, stage)),
{
    match stage {
        Some(s) => {
            let b = apply_boost(stat, s);
            out.push(Ratio::new(b.num, 500 * b.den));
        },
        None => {
            out.push(Ratio::new(stat as i128, 500));
        },
    }
}

/// Writes the features of an item.
fn write_item(item: Items, gen2: bool, out: &mut Vec<Ratio>)
    ensures
        final(out)@ == old(out)@ + item_code(item, gen2),
{
    let ghost start = out@;
    let order = if gen2 {
        ITEM_ORDER_GEN2
    } else {
        ITEM_ORDER_MODERN
    };
    let mut matched = false;
    let mut i: usize = 0;
    while i < 5
        invariant
            i <= 5,
            order == item_order(gen2),
            matched <==> exists|k: int| 0 <= k < i && #[trigger] order[k] == item,
            out@ =~= start + Seq::new(i as nat, |k: int| ratio_flag(order[k] == item)),
        decreases 5 - i,
    {
        let hit = order[i] == item;
        assert(order[i as int] == item <==> hit);
        if hit {
            matched = true;
        }
        out.push(Ratio::flag(hit));
        i += 1;
    }
    out.push(Ratio::flag(!matched && item != Items::NONE));
    out.push(Ratio::flag(!matched && item == Items::NONE));
    assert(out@ =~= start + item_code(item, gen2));
}

/// Writes the five stats of a team member.
fn write_stats(pkmn: &Pokemon, stages: Option<Stages>, out: &mut Vec<Ratio>)
    ensures
        final(out)@ == old(out)@ + stats_code(*pkmn, stages),
{
    let ghost start = out@;
    match stages {
        Some(g) => {
            write_stat(pkmn.attack, Some(g.attack), out);
            write_stat(pkmn.defense, Some(g.defense), out);
            write_stat(pkmn.special_attack, Some(g.special_attack), out);
            write_stat(pkmn.special_defense, Some(g.special_defense), out);
            write_stat(pkmn.speed, Some(g.speed), out);
        },
        None => {
            write_stat(pkmn.attack, None, out);
            write_stat(pkmn.defense, None, out);
            write_stat(pkmn.special_attack, None, out);
            write_stat(pkmn.special_defense, None, out);
            write_stat(pkmn.speed, None, out);
        },
    }
    assert(out@ =~= start + stats_code(*pkmn, stages));
}

/// Writes the features of a team member.
fn pokemon_features_v2(pkmn: &Pokemon, stages: Option<Stages>, gen2: bool, out: &mut Vec<Ratio>)
    ensures
        final(out)@ == old(out)@ + pokemon_code(*pkmn, stages, gen2),
{
    let ghost start = out@;
    out.push(hp_fraction(pkmn));
    out.push(Ratio::flag(pkmn.hp > 0));
    write_type_flags(pkmn.types.0, pkmn.types.1, N_TYPES, out);
    write_stats(pkmn, stages, out);
    write_status_flags(pkmn.status, out);
    write_item(pkmn.item, gen2, out);
    assert(out@ =~= start + pokemon_code(*pkmn, stages, gen2));
}

/// The features of the first `n` moves of a Pokemon, against an opponent.
pub open spec fn moves_code(p: Pokemon, foe: TypePair, table: MoveTable, n: int) -> Seq<Ratio>
    decreases n,
{
    if n <= 0 {
        Seq::empty()
    } else {
        moves_code(p, foe, table, n - 1) + move_code(
            p.moves@[n - 1],
            table.lookup(p.moves@[n - 1].id),
            p.types,
            foe,
        )
    }
}

/// The features of the first `n` members of a team. The stages of the side are
/// those of the active one.
pub open spec fn team_code(s: Side, gen2: bool, n: int) -> Seq<Ratio>
    decreases n,
{
    if n <= 0 {
        Seq::empty()
    } else {
        team_code(s, gen2, n - 1) + pokemon_code(
            s.pokemon@[n - 1],
            if n - 1 == s.active_index {
                Some(stages_of(s))
            } else {
                None
            },
            gen2,
        )
    }
}

/// Some member of the team is asleep.
pub open spec fn someone_asleep(s: Side) -> bool {
    exists|k: int|
        0 <= k < TEAM_SIZE && (#[trigger] s.pokemon@[k]).status == PokemonStatus::SLEEP
}

/// The features of a side as a whole.
pub open spec fn extras_code(own: Side, foe: Side) -> Seq<Ratio> {
    let c = own.side_conditions;
    let v = own.volatile_statuses@;
    seq![
        part(c.spikes as int, 3),
        ratio_flag(c.reflect > 0),
        ratio_flag(c.light_screen > 0),
        ratio_flag(someone_asleep(foe)),
        part(TEAM_SIZE - fainted_among(own.pokemon@, TEAM_SIZE as int), 6),
        ratio_flag(v.contains(PokemonVolatileStatus::SUBSTITUTE)),
        ratio_flag(v.contains(PokemonVolatileStatus::ENCORE)),
        ratio_flag(v.contains(PokemonVolatileStatus::DISABLE)),
        ratio_flag(v.contains(PokemonVolatileStatus::MUSTRECHARGE)),
        ratio_flag(v.contains(PokemonVolatileStatus::PARTIALLYTRAPPED)),
        share(own.active().sleep_turns as int, 0, 7, 7),
        share(own.active().rest_turns as int, 0, 2, 2),
    ]
}

/// The features of the field: sun, rain, sand, whether the first player is faster,
/// and one that is kept free.
pub open spec fn global_code(state: State) -> Seq<Ratio> {
    let w = state.field.weather;
    let own = state.side_one;
    let foe = state.side_two;
    seq![
        ratio_flag(w == Weather::SUN || w == Weather::HARSHSUN),
        ratio_flag(w == Weather::RAIN || w == Weather::HEAVYRAIN),
        ratio_flag(w == Weather::SAND),
        ratio_flag(
            boosted(own.active().speed as int, own.speed_boost as int)@ > boosted(
                foe.active().speed as int,
                foe.speed_boost as int,
            )@,
        ),
        ratio_flag(false),
    ]
}

/// All features of a position.
pub open spec fn state_code(state: State, table: MoveTable, gen2: bool) -> Seq<Ratio> {
    moves_code(state.side_one.active(), state.side_two.active().types, table, MOVE_SLOTS as int)
        + team_code(state.side_one, gen2, TEAM_SIZE as int) + team_code(
        state.side_two,
        gen2,
        TEAM_SIZE as int,
    ) + extras_code(state.side_one, state.side_two) + extras_code(state.side_two, state.side_one)
        + global_code(state)
}

/// Writes the features of all members of a team.
fn write_team(s: &Side, gen2: bool, out: &mut Vec<Ratio>)
    requires
        s.wf(),
    ensures
        final(out)@ == old(out)@ + team_code(*s, gen2, TEAM_SIZE as int),
{
    let ghost start = out@;
    let stages = Stages {
        attack: s.attack_boost,
        defense: s.defense_boost,
        special_attack: s.special_attack_boost,
        special_defense: s.special_defense_boost,
        speed: s.speed_boost,
    };
    let mut p: usize = 0;
    while p < TEAM_SIZE
        invariant
            p <= TEAM_SIZE,
            s.wf(),
            stages == stages_of(*s),
            out@ =~= start + team_code(*s, gen2, p as int),
        decreases TEAM_SIZE - p,
    {
        let boosts = if p == s.active_index {
            Some(stages)
        } else {
            None
        };
        pokemon_features_v2(&s.pokemon[p], boosts, gen2, out);
        p += 1;
    }
}

/// Whether a volatile status is on a side.
pub(crate) fn has_volatile(s: &Side, v: PokemonVolatileStatus) -> (r: bool)
    ensures
        r == s.volatile_statuses@.contains(v),
{
    let mut i: usize = 0;
    while i < s.volatile_statuses.len()
        invariant
            i <= s.volatile_statuses@.len(),
            forall|k: int| 0 <= k < i ==> s.volatile_statuses@[k] != v,
        decreases s.volatile_statuses@.len() - i,
    {
        if s.volatile_statuses[i] == v {
            return true;
        }
        i += 1;
    }
    false
}

/// Whether some member of the team is asleep.
fn has_sleeper(s: &Side) -> (r: bool)
    requires
        s.wf(),
    ensures
        r == someone_asleep(*s),
{
    let mut i: usize = 0;
    while i < TEAM_SIZE
        invariant
            i <= TEAM_SIZE,
            s.wf(),
            forall|k: int|
                0 <= k < i ==> (#[trigger] s.pokemon@[k]).status != PokemonStatus::SLEEP,
        decreases TEAM_SIZE - i,
    {
        if s.pokemon[i].status == PokemonStatus::SLEEP {
            assert(s.pokemon@[i as int].status == PokemonStatus::SLEEP);
            return true;
        }
        i += 1;
    }
    false
}

/// Writes the features of a side as a whole.
fn write_side_extras(own: &Side, foe: &Side, out: &mut Vec<Ratio>)
    requires
        own.wf(),
        foe.wf(),
    ensures
        final(out)@ == old(out)@ + extras_code(*own, *foe),
{
    let ghost start = out@;
    let active = &own.pokemon[own.active_index];
    let c = &own.side_conditions;
    out.push(Ratio::new(c.spikes as i128, 3));
    out.push(Ratio::flag(c.reflect > 0));
    out.push(Ratio::flag(c.light_screen > 0));
    out.push(Ratio::flag(has_sleeper(foe)));
    out.push(Ratio::new((TEAM_SIZE - own.num_fainted_pkmn()) as i128, 6));
    out.push(Ratio::flag(has_volatile(own, PokemonVolatileStatus::SUBSTITUTE)));
    out.push(Ratio::flag(has_volatile(own, PokemonVolatileStatus::ENCORE)));
    out.push(Ratio::flag(has_volatile(own, PokemonVolatileStatus::DISABLE)));
    out.push(Ratio::flag(has_volatile(own, PokemonVolatileStatus::MUSTRECHARGE)));
    out.push(Ratio::flag(has_volatile(own, PokemonVolatileStatus::PARTIALLYTRAPPED)));
    out.push(held_share(active.sleep_turns as i128, 0, 7, 7));
    out.push(held_share(active.rest_turns as i128, 0, 2, 2));
    assert(out@ =~= start + extras_code(*own, *foe));
}

/// Writes the features of the field.
fn write_global(state: &State, out: &mut Vec<Ratio>)
    requires
        state.wf(),
    ensures
        final(out)@ == old(out)@ + global_code(*state),
{
    let ghost start = out@;
    let w = state.field.weather;
    out.push(Ratio::flag(w == Weather::SUN || w == Weather::HARSHSUN));
    out.push(Ratio::flag(w == Weather::RAIN || w == Weather::HEAVYRAIN));
    out.push(Ratio::flag(w == Weather::SAND));
    let own = &state.side_one;
    let foe = &state.side_two;
    let mine = apply_boost(own.pokemon[own.active_index].speed, own.speed_boost);
    let theirs = apply_boost(foe.pokemon[foe.active_index].speed, foe.speed_boost);
    assert(-0x1_0000_0000 <= mine.num * theirs.den <= 0x1_0000_0000) by (nonlinear_arith)
        requires
            -0x100_0000 <= mine.num <= 0x100_0000,
            0 < theirs.den <= 130,
    ;
    assert(-0x1_0000_0000 <= theirs.num * mine.den <= 0x1_0000_0000) by (nonlinear_arith)
        requires
            -0x100_0000 <= theirs.num <= 0x100_0000,
            0 < mine.den <= 130,
    ;
    proof {
        lemma_cross(theirs.num as int, theirs.den as int, mine.num as int, mine.den as int);
    }
    out.push(Ratio::flag(mine.num * theirs.den > theirs.num * mine.den));
    out.push(Ratio::flag(false));
    assert(out@ =~= start + global_code(*state));
}

/// The second-generation encoding of a position. `gen2` tells which items have a
/// feature of their own.
pub fn extract_features(state: &State, table: &MoveTable, gen2: bool) -> (r: Vec<Ratio>)
    requires
        state.wf(),
        state.side_one.active().moves@.len() >= MOVE_SLOTS,
    ensures
        r@ == state_code(*state, *table, gen2),
        r@.len() == STATE_FEATURES,
{
    let mut features: Vec<Ratio> = Vec::new();
    let s1 = &state.side_one;
    let s2 = &state.side_two;
    let s1_active = &s1.pokemon[s1.active_index];
    let s2_active = &s2.pokemon[s2.active_index];
    let mut i: usize = 0;
    while i < MOVE_SLOTS
        invariant
            i <= MOVE_SLOTS,
            s1_active.moves@.len() >= MOVE_SLOTS,
            features@ =~= moves_code(*s1_active, s2_active.types, *table, i as int),
        decreases MOVE_SLOTS - i,
    {
        let m = &s1_active.moves[i];
        let entry = table.get(m.id);
        move_features(m, entry, s1_active.types, s2_active.types, &mut features);
        i += 1;
    }
    write_team(s1, gen2, &mut features);
    write_team(s2, gen2, &mut features);
    write_side_extras(s1, s2, &mut features);
    write_side_extras(s2, s1, &mut features);
    write_global(state, &mut features);
    assert(features@ =~= state_code(*state, *table, gen2));
    proof {
        law_encoding_has_fixed_length(*state, *table, gen2);
    }
    features
}

/// Every position has the same number of features.
pub proof fn law_encoding_has_fixed_length(state: State, table: MoveTable, gen2: bool)
    ensures
        state_code(state, table, gen2).len() == STATE_FEATURES,
{
    lemma_moves_length(
        state.side_one.active(),
        state.side_two.active().types,
        table,
        MOVE_SLOTS as int,
    );
    lemma_team_length(state.side_one, gen2, TEAM_SIZE as int);
    lemma_team_length(state.side_two, gen2, TEAM_SIZE as int);
}

/// Every move takes 31 features.
pub proof fn lemma_moves_length(p: Pokemon, foe: TypePair, table: MoveTable, n: int)
    requires
        n >= 0,
    ensures
        moves_code(p, foe, table, n).len() == n * MOVE_FEATURES,
    decreases n,
{
    if n > 0 {
        lemma_moves_length(p, foe, table, n - 1);
    }
}

/// Every team member takes 38 features.
pub proof fn lemma_team_length(s: Side, gen2: bool, n: int)
    requires
        n >= 0,
    ensures
        team_code(s, gen2, n).len() == n * POKEMON_FEATURES,
    decreases n,
{
    if n > 0 {
        lemma_team_length(s, gen2, n - 1);
    }
}

} // verus!
