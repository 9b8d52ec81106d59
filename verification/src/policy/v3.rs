//! The modern encoding: 2738 features, side by side. Each side has six team
//! members and what concerns the side as a whole; the field comes last.
use crate::numbers::{ratio_flag, Ratio};
use crate::policy::moves::MoveTable;
use crate::policy::v2::{held_share, hp_fraction, write_status_flags, write_type_flags};
#[allow(unused_imports)]
use crate::policy::v2::{hp_share, part, share, status_flags, type_flags};
use crate::state::{Choice, Pokemon, Side, State, MOVE_SLOTS, TEAM_SIZE};
use crate::text::{chars_of, same_word};
#[allow(unused_imports)]
use crate::text::same_ignoring_case;
use crate::types::{
    Abilities, Choices, Items, MoveCategory, PokemonSideCondition, Terrain, Weather,
};
use vstd::prelude::*;
use vstd::string::StrSliceExecFns;

verus! {

pub const POKEMON_V3_FEATURES: usize = 223;

/// The features of a team member without its moves.
pub const N_MON_CORE: usize = 95;

pub const N_MOVE_FEATURES: usize = 31;

pub const SIDE_V3_EXTRAS: usize = 26;

pub const GLOBAL_V3_FEATURES: usize = 10;

/// Number of features: 6 * 223 * 2 + 26 * 2 + 10.
pub const STATE_V3_FEATURES: usize = 2738;

/// What the ability stands for: a sturdy shell, a booster, healing on the way out,
/// no chip damage, a scare, no regard for stages, blocked status moves, strength
/// in the fallen.
pub open spec fn ability_code(a: Abilities) -> Seq<Ratio> {
    seq![
        ratio_flag(a == Abilities::MULTISCALE || a == Abilities::SHADOWSHIELD),
        ratio_flag(a == Abilities::PROTOSYNTHESIS || a == Abilities::QUARKDRIVE),
        ratio_flag(a == Abilities::REGENERATOR),
        ratio_flag(a == Abilities::MAGICGUARD || a == Abilities::LEVITATE),
        ratio_flag(a == Abilities::INTIMIDATE),
        ratio_flag(a == Abilities::UNAWARE),
        ratio_flag(
            a == Abilities::MAGICBOUNCE || a == Abilities::GOODASGOLD || a
                == Abilities::PURIFYINGSALT,
        ),
        ratio_flag(a == Abilities::SUPREMEOVERLORD),
    ]
}

/// The item locks its holder into one move.
pub open spec fn choice_lock(i: Items) -> bool {
    i == Items::CHOICEBAND || i == Items::CHOICESPECS || i == Items::CHOICESCARF
}

/// What the item stands for. One feature is kept free.
pub open spec fn item_code(i: Items) -> Seq<Ratio> {
    seq![
        ratio_flag(i == Items::HEAVYDUTYBOOTS),
        ratio_flag(choice_lock(i)),
        ratio_flag(i == Items::CHOICESCARF),
        ratio_flag(i == Items::LIFEORB),
        ratio_flag(i == Items::FOCUSSASH),
        ratio_flag(i == Items::AIRBALLOON),
        ratio_flag(i == Items::LEFTOVERS || i == Items::BLACKSLUDGE || i == Items::SITRUSBERRY),
        ratio_flag(i == Items::ROCKYHELMET),
        ratio_flag(i == Items::BOOSTERENERGY),
        ratio_flag(false),
        ratio_flag(i == Items::TOXICORB || i == Items::FLAMEORB),
    ]
}

/// The five stats.
pub open spec fn plain_stats(p: Pokemon) -> Seq<Ratio> {
    seq![
        part(p.attack as int, 500),
        part(p.defense as int, 500),
        part(p.special_attack as int, 500),
        part(p.special_defense as int, 500),
        part(p.speed as int, 500),
    ]
}

/// The types of a team member: those it has now, those it was born with, the one
/// it can change to, and whether it has.
pub open spec fn types_code(p: Pokemon) -> Seq<Ratio> {
    type_flags(p.types.0, p.types.1, 20) + type_flags(p.base_types.0, p.base_types.1, 20)
        + type_flags(p.tera_type, p.tera_type, 20) + seq![ratio_flag(p.terastallized)]
}

/// The features of a team member without its moves.
pub open spec fn core_code(p: Pokemon) -> Seq<Ratio> {
    seq![hp_share(p), ratio_flag(p.hp > 0)] + types_code(p) + plain_stats(p) + status_flags(
        p.status,
    ) + seq![share(p.sleep_turns as int, 0, 4, 4)] + ability_code(p.ability) + item_code(p.item)
}

/// The moves that clear hazards away.
pub open spec fn clears_hazards(id: Choices) -> bool {
    ||| id == Choices::RAPIDSPIN
    ||| id == Choices::DEFOG
    ||| id == Choices::TIDYUP
    ||| id == Choices::COURTCHANGE
    ||| id == Choices::MORTALSPIN
}

/// The condition hurts those who come in.
pub open spec fn is_hazard(c: PokemonSideCondition) -> bool {
    ||| c == PokemonSideCondition::Spikes
    ||| c == PokemonSideCondition::Stealthrock
    ||| c == PokemonSideCondition::StickyWeb
    ||| c == PokemonSideCondition::ToxicSpikes
}

/// The condition halves damage.
pub open spec fn is_screen(c: PokemonSideCondition) -> bool {
    ||| c == PokemonSideCondition::Reflect
    ||| c == PokemonSideCondition::LightScreen
    ||| c == PokemonSideCondition::AuroraVeil
}

/// No feature is set.
pub open spec fn zeros(n: int) -> Seq<Ratio> {
    Seq::new(n as nat, |i: int| ratio_flag(false))
}

/// What a move is good for: leaving, setting up, recovering, inflicting a status,
/// striking first, setting hazards, clearing them, screens, driving out.
pub open spec fn purpose_code(id: Choices, c: Choice) -> Seq<Ratio> {
    let status = c.category == MoveCategory::Status;
    seq![
        ratio_flag(c.flags.pivot),
        ratio_flag(status && c.boost),
        ratio_flag(c.heal is Some),
        ratio_flag(status && c.status is Some),
        ratio_flag(!status && c.priority > 0),
        ratio_flag(c.side_condition matches Some(e) && is_hazard(e.condition)),
        ratio_flag(clears_hazards(id)),
        ratio_flag(c.side_condition matches Some(e) && is_screen(e.condition)),
        ratio_flag(c.flags.drag),
    ]
}

/// The power of a move, its accuracy, and whether it is a status or a special move.
/// An accuracy of zero stands for a move that cannot miss.
pub open spec fn strength_code(c: Choice) -> Seq<Ratio> {
    seq![
        share(c.base_power as int, 0, 200, 200),
        if c.accuracy <= 0 {
            ratio_flag(true)
        } else {
            share(c.accuracy as int, 0, 100, 100)
        },
        ratio_flag(c.category == MoveCategory::Status),
        ratio_flag(c.category == MoveCategory::Special),
    ]
}

/// The features of a known move: its type, its strength, and what it is good for.
pub open spec fn known_move_code(id: Choices, c: Choice) -> Seq<Ratio> {
    type_flags(c.move_type, c.move_type, 18) + strength_code(c) + purpose_code(id, c)
}

/// The features of a move. An empty slot and a move that the table does not know
/// have none.
pub open spec fn move_code(id: Choices, table: MoveTable) -> Seq<Ratio> {
    if id == Choices::NONE {
        zeros(31)
    } else {
        match table.lookup(id) {
            Some(c) => known_move_code(id, c),
            None => zeros(31),
        }
    }
}

/// How much of the first `n` moves can still be used.
pub open spec fn pp_code(p: Pokemon, n: int) -> Seq<Ratio> {
    Seq::new(n as nat, |i: int| share(p.moves@[i].pp as int, 0, 32, 32))
}

/// The features of the first `n` moves of a team member.
pub open spec fn moves_code(p: Pokemon, table: MoveTable, n: int) -> Seq<Ratio>
    decreases n,
{
    if n <= 0 {
        Seq::empty()
    } else {
        moves_code(p, table, n - 1) + move_code(p.moves@[n - 1].id, table)
    }
}

/// The features of a team member.
pub open spec fn pokemon_code(p: Pokemon, table: MoveTable) -> Seq<Ratio> {
    core_code(p) + pp_code(p, MOVE_SLOTS as int) + moves_code(p, table, MOVE_SLOTS as int)
}

/// Who of the team is out.
pub open spec fn active_code(s: Side) -> Seq<Ratio> {
    Seq::new(6, |i: int| ratio_flag(i == s.active_index))
}

/// The five stat stages that count in battle.
pub open spec fn stat_stages_code(s: Side) -> Seq<Ratio> {
    seq![
        share(s.attack_boost as int, -6, 6, 6),
        share(s.defense_boost as int, -6, 6, 6),
        share(s.special_attack_boost as int, -6, 6, 6),
        share(s.special_defense_boost as int, -6, 6, 6),
        share(s.speed_boost as int, -6, 6, 6),
    ]
}

/// The stages of hitting and of dodging.
pub open spec fn hit_stages_code(s: Side) -> Seq<Ratio> {
    seq![
        share(s.accuracy_boost as int, -6, 6, 6),
        share(s.evasion_boost as int, -6, 6, 6),
    ]
}

/// Hazards, screens and the like.
pub open spec fn conditions_code(s: Side) -> Seq<Ratio> {
    let c = s.side_conditions;
    seq![
        share(c.spikes as int, 0, 3, 3),
        ratio_flag(c.stealth_rock > 0),
        ratio_flag(c.sticky_web > 0),
        share(c.toxic_spikes as int, 0, 2, 2),
        ratio_flag(c.reflect > 0),
        ratio_flag(c.light_screen > 0),
        ratio_flag(c.aurora_veil > 0),
        ratio_flag(c.tailwind > 0),
        ratio_flag(c.safeguard > 0),
    ]
}

/// What the player is forced to.
pub open spec fn force_code(s: Side) -> Seq<Ratio> {
    seq![
        ratio_flag(s.force_switch),
        ratio_flag(s.force_trapped),
        ratio_flag(s.slow_uturn_move),
        ratio_flag(s.baton_passing),
    ]
}

/// The features of a side as a whole: who is out, the stages, what is on the field,
/// and what the player is forced to.
pub open spec fn extras_code(s: Side) -> Seq<Ratio> {
    active_code(s) + stat_stages_code(s) + hit_stages_code(s) + conditions_code(s) + force_code(s)
}

/// The features of the first `n` members of a team.
pub open spec fn team_code(s: Side, table: MoveTable, n: int) -> Seq<Ratio>
    decreases n,
{
    if n <= 0 {
        Seq::empty()
    } else {
        team_code(s, table, n - 1) + pokemon_code(s.pokemon@[n - 1], table)
    }
}

/// The features of a side.
pub open spec fn side_code(s: Side, table: MoveTable) -> Seq<Ratio> {
    team_code(s, table, TEAM_SIZE as int) + extras_code(s)
}

/// The features of weather and terrain.
pub open spec fn sky_code(w: Weather, t: Terrain) -> Seq<Ratio> {
    seq![
        ratio_flag(w == Weather::SUN || w == Weather::HARSHSUN),
        ratio_flag(w == Weather::RAIN || w == Weather::HEAVYRAIN),
        ratio_flag(w == Weather::SAND),
        ratio_flag(w == Weather::SNOW),
        ratio_flag(w == Weather::HAIL),
        ratio_flag(t == Terrain::ELECTRICTERRAIN),
        ratio_flag(t == Terrain::GRASSYTERRAIN),
        ratio_flag(t == Terrain::MISTYTERRAIN),
        ratio_flag(t == Terrain::PSYCHICTERRAIN),
    ]
}

/// The features of the field.
pub open spec fn global_code(state: State) -> Seq<Ratio> {
    sky_code(state.field.weather, state.field.active_terrain).push(ratio_flag(state.field.trick_room))
}

/// All features of a position.
pub open spec fn state_code(state: State, table: MoveTable) -> Seq<Ratio> {
    side_code(state.side_one, table) + side_code(state.side_two, table) + global_code(state)
}

fn write_ability_flags(a: Abilities, out: &mut Vec<Ratio>)
    ensures
        final(out)@ == old(out)@ + ability_code(a),
{
    let ghost start = out@;
    out.push(Ratio::flag(a == Abilities::MULTISCALE || a == Abilities::SHADOWSHIELD));
    out.push(Ratio::flag(a == Abilities::PROTOSYNTHESIS || a == Abilities::QUARKDRIVE));
    out.push(Ratio::flag(a == Abilities::REGENERATOR));
    out.push(Ratio::flag(a == Abilities::MAGICGUARD || a == Abilities::LEVITATE));
    out.push(Ratio::flag(a == Abilities::INTIMIDATE));
    out.push(Ratio::flag(a == Abilities::UNAWARE));
    out.push(
        Ratio::flag(
            a == Abilities::MAGICBOUNCE || a == Abilities::GOODASGOLD || a
                == Abilities::PURIFYINGSALT,
        ),
    );
    out.push(Ratio::flag(a == Abilities::SUPREMEOVERLORD));
    assert(out@ =~= start + ability_code(a));
}

fn write_item_flags(i: Items, out: &mut Vec<Ratio>)
    ensures
        final(out)@ == old(out)@ + item_code(i),
{
    let ghost start = out@;
    out.push(Ratio::flag(i == Items::HEAVYDUTYBOOTS));
    out.push(
        Ratio::flag(
            i == Items::CHOICEBAND || i == Items::CHOICESPECS || i == Items::CHOICESCARF,
        ),
    );
    out.push(Ratio::flag(i == Items::CHOICESCARF));
    out.push(Ratio::flag(i == Items::LIFEORB));
    out.push(Ratio::flag(i == Items::FOCUSSASH));
    out.push(Ratio::flag(i == Items::AIRBALLOON));
    out.push(
        Ratio::flag(i == Items::LEFTOVERS || i == Items::BLACKSLUDGE || i == Items::SITRUSBERRY),
    );
    out.push(Ratio::flag(i == Items::ROCKYHELMET));
    out.push(Ratio::flag(i == Items::BOOSTERENERGY));
    out.push(Ratio::flag(false));
    out.push(Ratio::flag(i == Items::TOXICORB || i == Items::FLAMEORB));
    assert(out@ =~= start + item_code(i));
}

fn write_types(p: &Pokemon, out: &mut Vec<Ratio>)
    ensures
        final(out)@ == old(out)@ + types_code(*p),
{
    let ghost start = out@;
    write_type_flags(p.types.0, p.types.1, 20, out);
    write_type_flags(p.base_types.0, p.base_types.1, 20, out);
    write_type_flags(p.tera_type, p.tera_type, 20, out);
    out.push(Ratio::flag(p.terastallized));
    assert(out@ =~= start + types_code(*p));
}

fn write_plain_stats(p: &Pokemon, out: &mut Vec<Ratio>)
    ensures
        final(out)@ == old(out)@ + plain_stats(*p),
{
    let ghost start = out@;
    out.push(Ratio::new(p.attack as i128, 500));
    out.push(Ratio::new(p.defense as i128, 500));
    out.push(Ratio::new(p.special_attack as i128, 500));
    out.push(Ratio::new(p.special_defense as i128, 500));
    out.push(Ratio::new(p.speed as i128, 500));
    assert(out@ =~= start + plain_stats(*p));
}

/// Writes the features of a team member without its moves.
pub fn pokemon_features_v3_core(p: &Pokemon, out: &mut Vec<Ratio>)
    ensures
        final(out)@ == old(out)@ + core_code(*p),
{
    let ghost start = out@;
    out.push(hp_fraction(p));
    out.push(Ratio::flag(p.hp > 0));
    write_types(p, out);
    write_plain_stats(p, out);
    write_status_flags(p.status, out);
    out.push(held_share(p.sleep_turns as i128, 0, 4, 4));
    write_ability_flags(p.ability, out);
    write_item_flags(p.item, out);
    assert(out@ =~= start + core_code(*p));
}

/// Whether a move clears hazards away.
pub fn is_hazard_remover(c: Choices) -> (r: bool)
    ensures
        r == clears_hazards(c),
{
    matches!(c, Choices::RAPIDSPIN | Choices::DEFOG | Choices::TIDYUP | Choices::COURTCHANGE
        | Choices::MORTALSPIN)
}

fn write_zeros(n: usize, out: &mut Vec<Ratio>)
    ensures
        final(out)@ == old(out)@ + zeros(n as int),
{
    let mut i: usize = 0;
    while i < n
        invariant
            i <= n,
            out@ =~= old(out)@ + zeros(i as int),
        decreases n - i,
    {
        out.push(Ratio::flag(false));
        i += 1;
    }
}

fn write_strength(c: &Choice, out: &mut Vec<Ratio>)
    ensures
        final(out)@ == old(out)@ + strength_code(*c),
{
    let ghost start = out@;
    out.push(held_share(c.base_power as i128, 0, 200, 200));
    let acc = if c.accuracy <= 0 {
        Ratio::flag(true)
    } else {
        held_share(c.accuracy as i128, 0, 100, 100)
    };
    out.push(acc);
    out.push(Ratio::flag(c.category == MoveCategory::Status));
    out.push(Ratio::flag(c.category == MoveCategory::Special));
    assert(out@ =~= start + strength_code(*c));
}

fn write_purpose(id: Choices, c: &Choice, out: &mut Vec<Ratio>)
    ensures
        final(out)@ == old(out)@ + purpose_code(id, *c),
{
    let ghost start = out@;
    let is_status = c.category == MoveCategory::Status;
    let hazard = match &c.side_condition {
        Some(e) => matches!(e.condition, PokemonSideCondition::Spikes
            | PokemonSideCondition::Stealthrock | PokemonSideCondition::StickyWeb
            | PokemonSideCondition::ToxicSpikes),
        None => false,
    };
    let screen = match &c.side_condition {
        Some(e) => matches!(e.condition, PokemonSideCondition::Reflect
            | PokemonSideCondition::LightScreen | PokemonSideCondition::AuroraVeil),
        None => false,
    };
    out.push(Ratio::flag(c.flags.pivot));
    out.push(Ratio::flag(is_status && c.boost));
    out.push(Ratio::flag(c.heal.is_some()));
    out.push(Ratio::flag(is_status && c.status.is_some()));
    out.push(Ratio::flag(!is_status && c.priority > 0));
    out.push(Ratio::flag(hazard));
    out.push(Ratio::flag(is_hazard_remover(id)));
    out.push(Ratio::flag(screen));
    out.push(Ratio::flag(c.flags.drag));
    assert(out@ =~= start + purpose_code(id, *c));
}

fn write_known_move(id: Choices, c: &Choice, out: &mut Vec<Ratio>)
    ensures
        final(out)@ == old(out)@ + known_move_code(id, *c),
{
    let ghost start = out@;
    write_type_flags(c.move_type, c.move_type, 18, out);
    write_strength(c, out);
    write_purpose(id, c, out);
    assert(out@ =~= start + known_move_code(id, *c));
}

/// Writes the features of a move.
fn write_move_features_v3(id: Choices, table: &MoveTable, out: &mut Vec<Ratio>)
    ensures
        final(out)@ == old(out)@ + move_code(id, *table),
{
    if id == Choices::NONE {
        write_zeros(N_MOVE_FEATURES, out);
        return;
    }
    match table.get(id) {
        Some(c) => write_known_move(id, c, out),
        None => write_zeros(N_MOVE_FEATURES, out),
    }
}

/// Writes the features of a team member.
pub fn pokemon_features_v3(p: &Pokemon, table: &MoveTable, out: &mut Vec<Ratio>)
    requires
        p.moves@.len() >= MOVE_SLOTS,
    ensures
        final(out)@ == old(out)@ + pokemon_code(*p, *table),
{
    let ghost start = out@;
    pokemon_features_v3_core(p, out);
    let ghost core = out@;
    let mut i: usize = 0;
    while i < MOVE_SLOTS
        invariant
            i <= MOVE_SLOTS,
            p.moves@.len() >= MOVE_SLOTS,
            out@ =~= core + pp_code(*p, i as int),
        decreases MOVE_SLOTS - i,
    {
        out.push(held_share(p.moves[i].pp as i128, 0, 32, 32));
        i += 1;
    }
    let ghost base = out@;
    let mut k: usize = 0;
    while k < MOVE_SLOTS
        invariant
            k <= MOVE_SLOTS,
            p.moves@.len() >= MOVE_SLOTS,
            out@ =~= base + moves_code(*p, *table, k as int),
        decreases MOVE_SLOTS - k,
    {
        write_move_features_v3(p.moves[k].id, table, out);
        k += 1;
    }
    assert(out@ =~= start + pokemon_code(*p, *table));
}

/// Writes who of the team is out.
pub(crate) fn write_active(s: &Side, out: &mut Vec<Ratio>)
    ensures
        final(out)@ == old(out)@ + active_code(*s),
{
    let ghost start = out@;
    let mut i: usize = 0;
    while i < 6
        invariant
            i <= 6,
            out@ =~= start + active_code(*s).take(i as int),
        decreases 6 - i,
    {
        out.push(Ratio::flag(i == s.active_index));
        i += 1;
    }
}

/// Writes the five stat stages that count in battle.
pub(crate) fn write_stat_stages(s: &Side, out: &mut Vec<Ratio>)
    ensures
        final(out)@ == old(out)@ + stat_stages_code(*s),
{
    let ghost start = out@;
    out.push(held_share(s.attack_boost as i128, -6, 6, 6));
    out.push(held_share(s.defense_boost as i128, -6, 6, 6));
    out.push(held_share(s.special_attack_boost as i128, -6, 6, 6));
    out.push(held_share(s.special_defense_boost as i128, -6, 6, 6));
    out.push(held_share(s.speed_boost as i128, -6, 6, 6));
    assert(out@ =~= start + stat_stages_code(*s));
}

fn write_conditions(s: &Side, out: &mut Vec<Ratio>)
    ensures
        final(out)@ == old(out)@ + conditions_code(*s),
{
    let ghost start = out@;
    let c = &s.side_conditions;
    out.push(held_share(c.spikes as i128, 0, 3, 3));
    out.push(Ratio::flag(c.stealth_rock > 0));
    out.push(Ratio::flag(c.sticky_web > 0));
    out.push(held_share(c.toxic_spikes as i128, 0, 2, 2));
    out.push(Ratio::flag(c.reflect > 0));
    out.push(Ratio::flag(c.light_screen > 0));
    out.push(Ratio::flag(c.aurora_veil > 0));
    out.push(Ratio::flag(c.tailwind > 0));
    out.push(Ratio::flag(c.safeguard > 0));
    assert(out@ =~= start + conditions_code(*s));
}

/// Writes the features of a side as a whole.
pub fn write_side_extras_v3(s: &Side, out: &mut Vec<Ratio>)
    ensures
        final(out)@ == old(out)@ + extras_code(*s),
{
    let ghost start = out@;
    write_active(s, out);
    write_stat_stages(s, out);
    out.push(held_share(s.accuracy_boost as i128, -6, 6, 6));
    out.push(held_share(s.evasion_boost as i128, -6, 6, 6));
    write_conditions(s, out);
    out.push(Ratio::flag(s.force_switch));
    out.push(Ratio::flag(s.force_trapped));
    out.push(Ratio::flag(s.slow_uturn_move));
    out.push(Ratio::flag(s.baton_passing));
    assert(out@ =~= start + extras_code(*s));
}

/// Every member of both teams has the move slots that are encoded.
pub open spec fn slots_filled(s: Side) -> bool {
    forall|k: int| 0 <= k < TEAM_SIZE ==> (#[trigger] s.pokemon@[k]).moves@.len() >= MOVE_SLOTS
}

fn write_side(s: &Side, table: &MoveTable, out: &mut Vec<Ratio>)
    requires
        s.wf(),
        slots_filled(*s),
    ensures
        final(out)@ == old(out)@ + side_code(*s, *table),
{
    let ghost start = out@;
    let mut p: usize = 0;
    while p < TEAM_SIZE
        invariant
            p <= TEAM_SIZE,
            s.wf(),
            slots_filled(*s),
            out@ =~= start + team_code(*s, *table, p as int),
        decreases TEAM_SIZE - p,
    {
        pokemon_features_v3(&s.pokemon[p], table, out);
        p += 1;
    }
    write_side_extras_v3(s, out);
    assert(out@ =~= start + side_code(*s, *table));
}

/// Writes the features of weather and terrain.
pub(crate) fn write_sky(w: Weather, t: Terrain, out: &mut Vec<Ratio>)
    ensures
        final(out)@ == old(out)@ + sky_code(w, t),
{
    let ghost start = out@;
    out.push(Ratio::flag(w == Weather::SUN || w == Weather::HARSHSUN));
    out.push(Ratio::flag(w == Weather::RAIN || w == Weather::HEAVYRAIN));
    out.push(Ratio::flag(w == Weather::SAND));
    out.push(Ratio::flag(w == Weather::SNOW));
    out.push(Ratio::flag(w == Weather::HAIL));
    out.push(Ratio::flag(t == Terrain::ELECTRICTERRAIN));
    out.push(Ratio::flag(t == Terrain::GRASSYTERRAIN));
    out.push(Ratio::flag(t == Terrain::MISTYTERRAIN));
    out.push(Ratio::flag(t == Terrain::PSYCHICTERRAIN));
    assert(out@ =~= start + sky_code(w, t));
}

/// Writes the features of the field.
pub fn write_global_v3(state: &State, out: &mut Vec<Ratio>)
    ensures
        final(out)@ == old(out)@ + global_code(*state),
{
    let ghost start = out@;
    write_sky(state.field.weather, state.field.active_terrain, out);
    out.push(Ratio::flag(state.field.trick_room));
    assert(out@ =~= start + global_code(*state));
}

/// The modern encoding of a position.
pub fn extract_features_v3(state: &State, table: &MoveTable) -> (r: Vec<Ratio>)
    requires
        state.wf(),
        slots_filled(state.side_one),
        slots_filled(state.side_two),
    ensures
        r@ == state_code(*state, *table),
        r@.len() == STATE_V3_FEATURES,
{
    let mut features: Vec<Ratio> = Vec::new();
    write_side(&state.side_one, table, &mut features);
    write_side(&state.side_two, table, &mut features);
    write_global_v3(state, &mut features);
    assert(features@ =~= state_code(*state, *table));
    proof {
        law_encoding_has_fixed_length(*state, *table);
    }
    features
}

/// The text ends in the mark of a terastallized move.
pub open spec fn marked_tera(text: Seq<char>) -> bool {
    &&& text.len() >= 5
    &&& text.skip(text.len() - 5) == "-tera"@
}

/// The name of the move that a text stands for. The mark of a terastallized move
/// is taken off; an empty name and "none" stand for no move.
pub open spec fn move_name(text: Seq<char>) -> Option<Seq<char>> {
    let name = if marked_tera(text) {
        text.take(text.len() - 5)
    } else {
        text
    };
    if name.len() == 0 || same_ignoring_case(name, "none"@) {
        None
    } else {
        Some(name)
    }
}

/// The name of the move that a text stands for, to be looked up by the caller.
pub fn name_of_move<'a>(move_id: &'a str) -> (r: Option<&'a str>)
    ensures
        match r {
            Some(name) => move_name(move_id@) == Some(name@),
            None => move_name(move_id@) is None,
        },
{
    proof {
        reveal_strlit("-tera");
    }
    let text = chars_of(move_id);
    let n: usize = text.len();
    let marked = n >= 5 && text[n - 5] == '-' && text[n - 4] == 't' && text[n - 3] == 'e' && text[n
        - 2] == 'r' && text[n - 1] == 'a';
    proof {
        if marked {
            assert(move_id@.skip(n - 5) =~= "-tera"@);
        } else if marked_tera(move_id@) {
            let end = move_id@.skip(n - 5);
            assert(end[0] == move_id@[n - 5] && end[1] == move_id@[n - 4] && end[2] == move_id@[n
                - 3] && end[3] == move_id@[n - 2] && end[4] == move_id@[n - 1]);
        }
    }
    let name: &'a str = if marked {
        move_id.substring_char(0, n - 5)
    } else {
        move_id
    };
    if marked {
        assert(name@ =~= move_id@.take(n - 5));
    }
    if name.unicode_len() == 0 || same_word(name, "none") {
        return None;
    }
    Some(name)
}

/// The features of the move that a text stands for. `found` is the move that is
/// known under its name.
pub open spec fn named_move_code(
    text: Seq<char>,
    found: Option<Choices>,
    table: MoveTable,
) -> Seq<Ratio> {
    match found {
        Some(id) => if move_name(text) is Some {
            move_code(id, table)
        } else {
            zeros(31)
        },
        None => zeros(31),
    }
}

/// The features of the move that a text stands for. `found` is the move that is
/// known under its name; there are none where the name is unknown, and none where
/// the text stands for no move.
pub fn extract_move_features_v3(
    move_id: &str,
    found: Option<Choices>,
    table: &MoveTable,
) -> (r: Vec<Ratio>)
    ensures
        r@ == named_move_code(move_id@, found, *table),
        r@.len() == N_MOVE_FEATURES,
{
    let mut out: Vec<Ratio> = Vec::new();
    let named = name_of_move(move_id).is_some();
    match found {
        Some(id) if named => write_move_features_v3(id, table, &mut out),
        _ => write_zeros(N_MOVE_FEATURES, &mut out),
    }
    assert(out@ =~= named_move_code(move_id@, found, *table));
    out
}

/// A terastallized move has the name and the features of the plain one.
pub proof fn law_tera_moves_share_features(
    name: Seq<char>,
    found: Option<Choices>,
    table: MoveTable,
)
    requires
        !marked_tera(name),
    ensures
        move_name(name + "-tera"@) == move_name(name),
        named_move_code(name + "-tera"@, found, table) == named_move_code(name, found, table),
{
    reveal_strlit("-tera");
    let long = name + "-tera"@;
    assert(long.skip(long.len() - 5) =~= "-tera"@);
    assert(long.take(long.len() - 5) =~= name);
}

/// The features without moves are the beginning of the full ones.
pub proof fn law_core_is_the_head_of_the_full_encoding(p: Pokemon, table: MoveTable)
    ensures
        core_code(p).len() == N_MON_CORE,
        pokemon_code(p, table).take(N_MON_CORE as int) == core_code(p),
{
    assert(core_code(p).len() == N_MON_CORE);
    assert(pokemon_code(p, table).take(N_MON_CORE as int) =~= core_code(p));
}

/// Every move takes 31 features.
pub proof fn lemma_moves_length(p: Pokemon, table: MoveTable, n: int)
    requires
        n >= 0,
    ensures
        moves_code(p, table, n).len() == n * N_MOVE_FEATURES,
    decreases n,
{
    if n > 0 {
        lemma_moves_length(p, table, n - 1);
    }
}

/// Every team member takes 223 features.
pub proof fn lemma_team_length(s: Side, table: MoveTable, n: int)
    requires
        n >= 0,
    ensures
        team_code(s, table, n).len() == n * POKEMON_V3_FEATURES,
    decreases n,
{
    if n > 0 {
        lemma_team_length(s, table, n - 1);
        lemma_moves_length(s.pokemon@[n - 1], table, MOVE_SLOTS as int);
    }
}

/// Every position has the same number of features, and each part its place.
pub proof fn law_encoding_has_fixed_length(state: State, table: MoveTable)
    ensures
        side_code(state.side_one, table).len() == 1364,
        side_code(state.side_two, table).len() == 1364,
        state_code(state, table).len() == STATE_V3_FEATURES,
{
    lemma_team_length(state.side_one, table, TEAM_SIZE as int);
    lemma_team_length(state.side_two, table, TEAM_SIZE as int);
}

/// Seen from the other seat, the two halves change places and the field stays.
pub proof fn law_mirrored_position_swaps_the_halves(state: State, table: MoveTable)
    ensures
        state_code(state.mirrored(), table) == state_code(state, table).subrange(1364, 2728)
            + state_code(state, table).take(1364) + state_code(state, table).skip(2728),
{
    law_encoding_has_fixed_length(state, table);
    let code = state_code(state, table);
    assert(code.take(1364) =~= side_code(state.side_one, table));
    assert(code.subrange(1364, 2728) =~= side_code(state.side_two, table));
    assert(code.skip(2728) =~= global_code(state));
}

/// Nothing, and the word none in whatever case, with the mark of a terastallized move or
/// without, name no move; any other text does.
pub proof fn law_some_names_stand_for_no_move(text: Seq<char>)
    ensures
        text.len() == 0 ==> move_name(text) is None,
        same_ignoring_case(text, "none"@) ==> move_name(text) is None,
        !marked_tera(text) && text.len() > 0 && !same_ignoring_case(text, "none"@) ==> move_name(text)
            == Some(text),
{
    reveal_strlit("none");
}

/// A text that names no known move has 31 features, and all of them are zero; a text that
/// names one has the features of that move.
pub proof fn law_named_moves_have_their_features(
    text: Seq<char>,
    id: Choices,
    table: MoveTable,
    k: int,
)
    requires
        0 <= k < 31,
    ensures
        named_move_code(text, None, table).len() == 31,
        named_move_code(text, None, table)[k] == (Ratio { num: 0, den: 1 }),
        move_name(text) is None ==> named_move_code(text, Some(id), table)[k] == (Ratio {
            num: 0,
            den: 1,
        }),
        move_name(text) is Some ==> named_move_code(text, Some(id), table) == move_code(id, table),
{
}

} // verus!
