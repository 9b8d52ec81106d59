//! The encoding for one fixed team, Bulky Offense: 184 features, always seen from
//! the seat of the player who holds the team.
use crate::numbers::{ratio_flag, Ratio};
use crate::policy::chart::atk_type_index;
#[allow(unused_imports)]
use crate::policy::chart::index_among;
use crate::policy::v2::{held_share, hp_fraction, write_type_flags};
#[allow(unused_imports)]
use crate::policy::v2::{hp_share, share, type_flags};
use crate::policy::v3::{write_active, write_sky, write_stat_stages};
#[allow(unused_imports)]
use crate::policy::v3::{active_code, choice_lock, sky_code, stat_stages_code, zeros};
use crate::state::{Pokemon, Side, State, MOVE_SLOTS, TEAM_SIZE};
use crate::types::{Items, PokemonName, PokemonStatus, PokemonType};
use vstd::prelude::*;

verus! {

pub const N_BO_SIDE: usize = 30;

pub const N_OPP_SIDE: usize = 126;

pub const N_FIELD_BO: usize = 18;

pub const N_MATCHUP_BO: usize = 10;

/// Number of features: 30 + 126 + 18 + 10.
pub const STATE_BO_FEATURES: usize = 184;

/// Number of roles that an opponent can have.
pub const N_OPP_ROLES: usize = 10;

pub const ROLE_FIRE_STEEL_WALL: usize = 0;

pub const ROLE_PRIORITY_BREAKER: usize = 1;

pub const ROLE_WEATHER_SETTER: usize = 3;

pub const ROLE_HAZARD_SETTER: usize = 4;

pub const ROLE_REMOVER: usize = 5;

pub const ROLE_PHYS_SWEEPER: usize = 6;

pub const ROLE_SPEC_SWEEPER: usize = 7;

pub const ROLE_WALLBREAKER: usize = 8;

pub const ROLE_OTHER: usize = 9;

/// Places of the team that matter by themselves.
pub const GARGANACL: usize = 0;

pub const GREATTUSK: usize = 2;

pub const HATTERENE: usize = 3;

pub const DRAGONITE: usize = 5;

/// The place of a Pokemon on the team.
pub open spec fn place_of(name: PokemonName) -> Option<int> {
    match name {
        PokemonName::GARGANACL => Some(0),
        PokemonName::DARKRAI => Some(1),
        PokemonName::GREATTUSK => Some(2),
        PokemonName::HATTERENE => Some(3),
        PokemonName::TORNADUSTHERIAN => Some(4),
        PokemonName::DRAGONITE => Some(5),
        _ => None,
    }
}

/// The place of a Pokemon on the team.
pub fn bo_canonical_slot(name: PokemonName) -> (r: Option<usize>)
    ensures
        r is Some <==> place_of(name) is Some,
        r matches Some(c) ==> place_of(name) == Some(c as int) && c < TEAM_SIZE,
{
    match name {
        PokemonName::GARGANACL => Some(0),
        PokemonName::DARKRAI => Some(1),
        PokemonName::GREATTUSK => Some(2),
        PokemonName::HATTERENE => Some(3),
        PokemonName::TORNADUSTHERIAN => Some(4),
        PokemonName::DRAGONITE => Some(5),
        _ => None,
    }
}

/// Whether a Pokemon is on the team.
pub fn is_bo_mon(name: PokemonName) -> (r: bool)
    ensures
        r == place_of(name) is Some,
{
    bo_canonical_slot(name).is_some()
}

/// What an opponent is there for.
pub open spec fn role_of(name: PokemonName) -> int {
    match name {
        PokemonName::HEATRAN | PokemonName::SKARMORY | PokemonName::CORVIKNIGHT
        | PokemonName::GHOLDENGO | PokemonName::CLODSIRE | PokemonName::TOXAPEX
        | PokemonName::BLISSEY | PokemonName::CLEFABLE
        | PokemonName::DONDOZO => ROLE_FIRE_STEEL_WALL as int,
        PokemonName::TINGLU | PokemonName::GLIMMORA
        | PokemonName::LANDORUSTHERIAN => ROLE_HAZARD_SETTER as int,
        PokemonName::IRONTREADS => ROLE_REMOVER as int,
        PokemonName::KINGAMBIT | PokemonName::MAMOSWINE | PokemonName::RILLABOOM
        | PokemonName::BISHARP => ROLE_PRIORITY_BREAKER as int,
        PokemonName::PELIPPER | PokemonName::TORKOAL | PokemonName::TYRANITAR
        | PokemonName::NINETALES => ROLE_WEATHER_SETTER as int,
        PokemonName::ROARINGMOON | PokemonName::DRAGONITE | PokemonName::VOLCARONA
        | PokemonName::BAXCALIBUR | PokemonName::BARRASKEWDA | PokemonName::EXCADRILL
        | PokemonName::GREATTUSK => ROLE_PHYS_SWEEPER as int,
        PokemonName::WALKINGWAKE | PokemonName::IRONVALIANT | PokemonName::IRONMOTH
        | PokemonName::RAGINGBOLT | PokemonName::MANAPHY
        | PokemonName::ARCHALUDON => ROLE_SPEC_SWEEPER as int,
        PokemonName::DARKRAI | PokemonName::PECHARUNT | PokemonName::HOOPAUNBOUND
        | PokemonName::KYUREM | PokemonName::URSALUNA => ROLE_WALLBREAKER as int,
        _ => ROLE_OTHER as int,
    }
}

/// What an opponent is there for.
pub fn opp_role_of(name: PokemonName) -> (r: usize)
    ensures
        r == role_of(name),
        r < N_OPP_ROLES,
{
    match name {
        PokemonName::HEATRAN | PokemonName::SKARMORY | PokemonName::CORVIKNIGHT
        | PokemonName::GHOLDENGO | PokemonName::CLODSIRE | PokemonName::TOXAPEX
        | PokemonName::BLISSEY | PokemonName::CLEFABLE
        | PokemonName::DONDOZO => ROLE_FIRE_STEEL_WALL,
        PokemonName::TINGLU | PokemonName::GLIMMORA
        | PokemonName::LANDORUSTHERIAN => ROLE_HAZARD_SETTER,
        PokemonName::IRONTREADS => ROLE_REMOVER,
        PokemonName::KINGAMBIT | PokemonName::MAMOSWINE | PokemonName::RILLABOOM
        | PokemonName::BISHARP => ROLE_PRIORITY_BREAKER,
        PokemonName::PELIPPER | PokemonName::TORKOAL | PokemonName::TYRANITAR
        | PokemonName::NINETALES => ROLE_WEATHER_SETTER,
        PokemonName::ROARINGMOON | PokemonName::DRAGONITE | PokemonName::VOLCARONA
        | PokemonName::BAXCALIBUR | PokemonName::BARRASKEWDA | PokemonName::EXCADRILL
        | PokemonName::GREATTUSK => ROLE_PHYS_SWEEPER,
        PokemonName::WALKINGWAKE | PokemonName::IRONVALIANT | PokemonName::IRONMOTH
        | PokemonName::RAGINGBOLT | PokemonName::MANAPHY
        | PokemonName::ARCHALUDON => ROLE_SPEC_SWEEPER,
        PokemonName::DARKRAI | PokemonName::PECHARUNT | PokemonName::HOOPAUNBOUND
        | PokemonName::KYUREM | PokemonName::URSALUNA => ROLE_WALLBREAKER,
        _ => ROLE_OTHER,
    }
}

/// A wall that resists much of what the team throws at it.
pub open spec fn walls(name: PokemonName) -> bool {
    ||| name == PokemonName::HEATRAN
    ||| name == PokemonName::SKARMORY
    ||| name == PokemonName::CORVIKNIGHT
    ||| name == PokemonName::GHOLDENGO
}

/// Whether a Pokemon walls the team.
pub fn is_fire_steel_wall(name: PokemonName) -> (r: bool)
    ensures
        r == walls(name),
{
    matches!(name, PokemonName::HEATRAN | PokemonName::SKARMORY | PokemonName::CORVIKNIGHT
        | PokemonName::GHOLDENGO)
}

/// It has a strong attack that strikes first.
pub open spec fn strikes_first(name: PokemonName) -> bool {
    ||| name == PokemonName::KINGAMBIT
    ||| name == PokemonName::MAMOSWINE
    ||| name == PokemonName::RILLABOOM
    ||| name == PokemonName::DRAGONITE
    ||| name == PokemonName::BISHARP
    ||| name == PokemonName::RAGINGBOLT
}

/// Whether a Pokemon has a strong attack that strikes first.
pub fn is_strong_priority_user(name: PokemonName) -> (r: bool)
    ensures
        r == strikes_first(name),
{
    matches!(name, PokemonName::KINGAMBIT | PokemonName::MAMOSWINE | PokemonName::RILLABOOM
        | PokemonName::DRAGONITE | PokemonName::BISHARP | PokemonName::RAGINGBOLT)
}

/// It likes to swap its item for another's.
pub open spec fn tricks(name: PokemonName) -> bool {
    ||| name == PokemonName::GHOLDENGO
    ||| name == PokemonName::IRONBOULDER
    ||| name == PokemonName::HOOPAUNBOUND
    ||| name == PokemonName::ALAKAZAM
    ||| name == PokemonName::GENGAR
    ||| name == PokemonName::LATIOS
    ||| name == PokemonName::LATIAS
}

/// Whether a Pokemon likes to swap its item for another's.
pub fn is_trick_item_user(name: PokemonName) -> (r: bool)
    ensures
        r == tricks(name),
{
    matches!(name, PokemonName::GHOLDENGO | PokemonName::IRONBOULDER | PokemonName::HOOPAUNBOUND
        | PokemonName::ALAKAZAM | PokemonName::GENGAR | PokemonName::LATIOS | PokemonName::LATIAS)
}

/// The feature that an item sets.
pub open spec fn item_place(item: Items) -> int {
    match item {
        Items::HEAVYDUTYBOOTS => 0,
        Items::CHOICESCARF => 1,
        Items::CHOICESPECS => 2,
        Items::CHOICEBAND => 3,
        Items::LIFEORB => 4,
        Items::BOOSTERENERGY => 5,
        _ => 6,
    }
}

/// The feature that an item sets.
pub fn item_flag_idx(item: Items) -> (r: usize)
    ensures
        r == item_place(item),
        r < 7,
{
    match item {
        Items::HEAVYDUTYBOOTS => 0,
        Items::CHOICESCARF => 1,
        Items::CHOICESPECS => 2,
        Items::CHOICEBAND => 3,
        Items::LIFEORB => 4,
        Items::BOOSTERENERGY => 5,
        _ => 6,
    }
}

/// Salt Cure does nothing to this type.
pub open spec fn shrugs_off_salt(t: PokemonType) -> bool {
    t == PokemonType::STEEL || t == PokemonType::GHOST
}

/// Whether one of two types makes Salt Cure useless.
pub fn defensive_blocks_salt_cure(t1: PokemonType, t2: PokemonType) -> (r: bool)
    ensures
        r == (shrugs_off_salt(t1) || shrugs_off_salt(t2)),
{
    matches!(t1, PokemonType::STEEL | PokemonType::GHOST) || matches!(t2, PokemonType::STEEL
        | PokemonType::GHOST)
}

/// Where a type stands among those that attacks can have.
pub fn bo_type_index_18(t: PokemonType) -> (r: Option<usize>)
    ensures
        r is Some <==> index_among(t, 18) is Some,
        r matches Some(i) ==> index_among(t, 18) == Some(i as int) && i < 18,
{
    atk_type_index(t)
}

/// How many of the first `n` members are on the team.
pub open spec fn members_among(s: Side, n: int) -> int
    decreases n,
{
    if n <= 0 {
        0
    } else {
        members_among(s, n - 1) + if place_of(s.pokemon@[n - 1].id) is Some {
            1int
        } else {
            0int
        }
    }
}

/// Counts the members of a side that are on the team.
pub fn count_bo_mons(s: &Side) -> (r: usize)
    requires
        s.wf(),
    ensures
        r == members_among(*s, TEAM_SIZE as int),
        r <= TEAM_SIZE,
{
    let mut r: usize = 0;
    let mut p: usize = 0;
    while p < TEAM_SIZE
        invariant
            p <= TEAM_SIZE,
            r <= p,
            s.wf(),
            r == members_among(*s, p as int),
        decreases TEAM_SIZE - p,
    {
        if is_bo_mon(s.pokemon[p].id) {
            r += 1;
        }
        p += 1;
    }
    r
}

/// The second player holds the team: more of its members are there than on the
/// first player's side.
pub open spec fn held_by_second(state: State) -> bool {
    members_among(state.side_two, TEAM_SIZE as int) > members_among(
        state.side_one,
        TEAM_SIZE as int,
    )
}

/// Who holds the team: 0 for the first player, 1 for the second. In doubt it is the
/// first player.
pub fn detect_bo_side(state: &State) -> (r: usize)
    requires
        state.wf(),
    ensures
        r == if held_by_second(*state) {
            1int
        } else {
            0int
        },
{
    let s1: usize = count_bo_mons(&state.side_one);
    let s2: usize = count_bo_mons(&state.side_two);
    if s2 > s1 {
        1
    } else {
        0
    }
}

/// The last of the first `n` slots that holds the Pokemon with this place on the
/// team.
pub open spec fn slot_with(s: Side, place: int, n: int) -> Option<int>
    decreases n,
{
    if n <= 0 {
        None
    } else if place_of(s.pokemon@[n - 1].id) == Some(place) {
        Some(n - 1)
    } else {
        slot_with(s, place, n - 1)
    }
}

/// The Pokemon with this place on the team, if it is there.
pub open spec fn holder(s: Side, place: int) -> Option<Pokemon> {
    match slot_with(s, place, TEAM_SIZE as int) {
        Some(k) => Some(s.pokemon@[k]),
        None => None,
    }
}

/// The Pokemon with this place on the team is out.
pub open spec fn place_is_out(s: Side, place: int) -> bool {
    slot_with(s, place, TEAM_SIZE as int) == Some(s.active_index as int)
}

/// The slot that holds the Pokemon with a place on the team.
fn find_slot(s: &Side, place: usize) -> (r: Option<usize>)
    requires
        s.wf(),
    ensures
        r is Some <==> slot_with(*s, place as int, TEAM_SIZE as int) is Some,
        r matches Some(k) ==> slot_with(*s, place as int, TEAM_SIZE as int) == Some(k as int) && k
            < TEAM_SIZE,
{
    let mut found: Option<usize> = None;
    let mut k: usize = 0;
    while k < TEAM_SIZE
        invariant
            k <= TEAM_SIZE,
            s.wf(),
            found is Some <==> slot_with(*s, place as int, k as int) is Some,
            found matches Some(f) ==> slot_with(*s, place as int, k as int) == Some(f as int) && f
                < k,
        decreases TEAM_SIZE - k,
    {
        if bo_canonical_slot(s.pokemon[k].id) == Some(place) {
            found = Some(k);
        }
        k += 1;
    }
    found
}

/// Hit points, whether there is a status, and whether it stands.
pub open spec fn vitals(p: Pokemon) -> Seq<Ratio> {
    seq![hp_share(p), ratio_flag(p.status != PokemonStatus::NONE), ratio_flag(p.hp > 0)]
}

fn write_vitals(p: &Pokemon, out: &mut Vec<Ratio>)
    ensures
        final(out)@ == old(out)@ + vitals(*p),
{
    let ghost start = out@;
    out.push(hp_fraction(p));
    out.push(Ratio::flag(p.status != PokemonStatus::NONE));
    out.push(Ratio::flag(p.hp > 0));
    assert(out@ =~= start + vitals(*p));
}

/// The vitals of the first `n` places on the team.
pub open spec fn team_vitals(s: Side, n: int) -> Seq<Ratio>
    decreases n,
{
    if n <= 0 {
        Seq::empty()
    } else {
        team_vitals(s, n - 1) + match holder(s, n - 1) {
            Some(p) => vitals(p),
            None => zeros(3),
        }
    }
}

/// The features of the side that holds the team: the vitals by place, who is out,
/// the stages, and whether Great Tusk has used up its energy.
pub open spec fn bo_side_code(s: Side) -> Seq<Ratio> {
    team_vitals(s, TEAM_SIZE as int) + Seq::new(
        6,
        |c: int| ratio_flag(place_of(s.active().id) == Some(c)),
    ) + stat_stages_code(s) + seq![
        ratio_flag(
            holder(s, GREATTUSK as int) matches Some(p) && p.hp > 0 && p.item
                != Items::BOOSTERENERGY,
        ),
    ]
}

/// Writes the features of the side that holds the team.
fn encode_bo_side(s: &Side, out: &mut Vec<Ratio>)
    requires
        s.wf(),
    ensures
        final(out)@ == old(out)@ + bo_side_code(*s),
{
    let ghost start = out@;
    let mut c: usize = 0;
    while c < TEAM_SIZE
        invariant
            c <= TEAM_SIZE,
            s.wf(),
            out@ =~= start + team_vitals(*s, c as int),
        decreases TEAM_SIZE - c,
    {
        match find_slot(s, c) {
            Some(k) => write_vitals(&s.pokemon[k], out),
            None => {
                out.push(Ratio::flag(false));
                out.push(Ratio::flag(false));
                out.push(Ratio::flag(false));
            },
        }
        c += 1;
    }
    let ghost base = out@;
    let ghost places = Seq::new(6, |q: int| ratio_flag(place_of(s.active().id) == Some(q)));
    let active = bo_canonical_slot(s.pokemon[s.active_index].id);
    let mut q: usize = 0;
    while q < 6
        invariant
            q <= 6,
            s.wf(),
            active is Some <==> place_of(s.active().id) is Some,
            active matches Some(a) ==> place_of(s.active().id) == Some(a as int),
            places == Seq::new(6, |q: int| ratio_flag(place_of(s.active().id) == Some(q))),
            out@ =~= base + places.take(q as int),
        decreases 6 - q,
    {
        out.push(Ratio::flag(active == Some(q)));
        q += 1;
    }
    write_stat_stages(s, out);
    let online = match find_slot(s, GREATTUSK) {
        Some(k) => s.pokemon[k].hp > 0 && s.pokemon[k].item != Items::BOOSTERENERGY,
        None => false,
    };
    out.push(Ratio::flag(online));
    assert(out@ =~= start + bo_side_code(*s));
}

/// The vitals of the first `n` slots.
pub open spec fn slot_vitals(s: Side, n: int) -> Seq<Ratio>
    decreases n,
{
    if n <= 0 {
        Seq::empty()
    } else {
        slot_vitals(s, n - 1) + vitals(s.pokemon@[n - 1])
    }
}

/// The slot of a team member on the bench: the active one is left out.
pub open spec fn bench_slot(s: Side, b: int) -> int {
    if b < s.active_index {
        b
    } else {
        b + 1
    }
}

/// The roles of the first `n` members on the bench.
pub open spec fn bench_roles(s: Side, n: int) -> Seq<Ratio>
    decreases n,
{
    if n <= 0 {
        Seq::empty()
    } else {
        bench_roles(s, n - 1) + one_hot(role_of(s.pokemon@[bench_slot(s, n - 1)].id), 10)
    }
}

/// One of `n` features is set.
pub open spec fn one_hot(set: int, n: int) -> Seq<Ratio> {
    Seq::new(n as nat, |i: int| ratio_flag(i == set))
}

fn write_one_hot(set: usize, n: usize, out: &mut Vec<Ratio>)
    ensures
        final(out)@ == old(out)@ + one_hot(set as int, n as int),
{
    let mut i: usize = 0;
    while i < n
        invariant
            i <= n,
            out@ =~= old(out)@ + one_hot(set as int, n as int).take(i as int),
        decreases n - i,
    {
        out.push(Ratio::flag(i == set));
        i += 1;
    }
}

/// Which of the four moves of the active Pokemon are disabled.
pub open spec fn disabled_code(p: Pokemon) -> Seq<Ratio> {
    Seq::new(4, |i: int| ratio_flag(p.moves@[i].disabled))
}

/// The features of the opponent's side: the vitals by slot, the types of the active
/// Pokemon, the roles on the bench, who is out, the stages, the item of the active
/// Pokemon and its disabled moves.
pub open spec fn opp_side_code(s: Side) -> Seq<Ratio> {
    let a = s.active();
    slot_vitals(s, TEAM_SIZE as int) + type_flags(a.types.0, a.types.0, 18) + type_flags(
        a.types.1,
        a.types.1,
        18,
    ) + bench_roles(s, 5) + active_code(s) + stat_stages_code(s) + one_hot(item_place(a.item), 7)
        + disabled_code(a)
}

fn write_slot_vitals(s: &Side, out: &mut Vec<Ratio>)
    requires
        s.wf(),
    ensures
        final(out)@ == old(out)@ + slot_vitals(*s, TEAM_SIZE as int),
{
    let ghost start = out@;
    let mut k: usize = 0;
    while k < TEAM_SIZE
        invariant
            k <= TEAM_SIZE,
            s.wf(),
            out@ =~= start + slot_vitals(*s, k as int),
        decreases TEAM_SIZE - k,
    {
        write_vitals(&s.pokemon[k], out);
        k += 1;
    }
}

fn write_bench_roles(s: &Side, out: &mut Vec<Ratio>)
    requires
        s.wf(),
    ensures
        final(out)@ == old(out)@ + bench_roles(*s, 5),
{
    let ghost start = out@;
    let mut b: usize = 0;
    while b < 5
        invariant
            b <= 5,
            s.wf(),
            out@ =~= start + bench_roles(*s, b as int),
        decreases 5 - b,
    {
        let slot: usize = if b < s.active_index {
            b
        } else {
            b + 1
        };
        write_one_hot(opp_role_of(s.pokemon[slot].id), N_OPP_ROLES, out);
        b += 1;
    }
}

fn write_disabled(p: &Pokemon, out: &mut Vec<Ratio>)
    requires
        p.moves@.len() >= MOVE_SLOTS,
    ensures
        final(out)@ == old(out)@ + disabled_code(*p),
{
    let ghost start = out@;
    let mut i: usize = 0;
    while i < 4
        invariant
            i <= 4,
            p.moves@.len() >= MOVE_SLOTS,
            out@ =~= start + disabled_code(*p).take(i as int),
        decreases 4 - i,
    {
        out.push(Ratio::flag(p.moves[i].disabled));
        i += 1;
    }
}

/// Writes the features of the opponent's side.
fn encode_opp_side(s: &Side, out: &mut Vec<Ratio>)
    requires
        s.wf(),
        s.active().moves@.len() >= MOVE_SLOTS,
    ensures
        final(out)@ == old(out)@ + opp_side_code(*s),
{
    let ghost start = out@;
    let a = &s.pokemon[s.active_index];
    write_slot_vitals(s, out);
    write_type_flags(a.types.0, a.types.0, 18, out);
    write_type_flags(a.types.1, a.types.1, 18, out);
    write_bench_roles(s, out);
    write_active(s, out);
    write_stat_stages(s, out);
    write_one_hot(item_flag_idx(a.item), 7, out);
    write_disabled(a, out);
    assert(out@ =~= start + opp_side_code(*s));
}

/// Stealth Rock, Spikes and Toxic Spikes on a side.
pub open spec fn hazard_code(s: Side) -> Seq<Ratio> {
    let c = s.side_conditions;
    seq![
        ratio_flag(c.stealth_rock > 0),
        share(c.spikes as int, 0, 3, 3),
        share(c.toxic_spikes as int, 0, 2, 2),
    ]
}

/// Some screen stands on a side.
pub open spec fn screened(s: Side) -> bool {
    s.side_conditions.reflect > 0 || s.side_conditions.light_screen > 0
        || s.side_conditions.aurora_veil > 0
}

/// The features of the field, the team's side first.
pub open spec fn field_code(state: State, own: Side, foe: Side) -> Seq<Ratio> {
    sky_code(state.field.weather, state.field.active_terrain) + seq![ratio_flag(state.field.trick_room)]
        + hazard_code(own) + hazard_code(foe) + seq![
        ratio_flag(screened(own)),
        ratio_flag(screened(foe)),
    ]
}

fn write_hazards(s: &Side, out: &mut Vec<Ratio>)
    ensures
        final(out)@ == old(out)@ + hazard_code(*s),
{
    let ghost start = out@;
    let c = &s.side_conditions;
    out.push(Ratio::flag(c.stealth_rock > 0));
    out.push(held_share(c.spikes as i128, 0, 3, 3));
    out.push(held_share(c.toxic_spikes as i128, 0, 2, 2));
    assert(out@ =~= start + hazard_code(*s));
}

fn has_screen(s: &Side) -> (r: bool)
    ensures
        r == screened(*s),
{
    let c = &s.side_conditions;
    c.reflect > 0 || c.light_screen > 0 || c.aurora_veil > 0
}

/// Writes the features of the field.
fn encode_field_bo(state: &State, own: &Side, foe: &Side, out: &mut Vec<Ratio>)
    ensures
        final(out)@ == old(out)@ + field_code(*state, *own, *foe),
{
    let ghost start = out@;
    write_sky(state.field.weather, state.field.active_terrain, out);
    out.push(Ratio::flag(state.field.trick_room));
    write_hazards(own, out);
    write_hazards(foe, out);
    out.push(Ratio::flag(has_screen(own)));
    out.push(Ratio::flag(has_screen(foe)));
    assert(out@ =~= start + field_code(*state, *own, *foe));
}

/// Someone on the side still stands who walls the team.
pub open spec fn wall_stands(s: Side) -> bool {
    exists|k: int|
        0 <= k < TEAM_SIZE && (#[trigger] s.pokemon@[k]).hp > 0 && walls(s.pokemon@[k].id)
}

/// Someone on the side still stands who strikes first.
pub open spec fn striker_stands(s: Side) -> bool {
    exists|k: int|
        0 <= k < TEAM_SIZE && (#[trigger] s.pokemon@[k]).hp > 0 && strikes_first(s.pokemon@[k].id)
}

/// Someone on the side still stands who wears a Rocky Helmet.
pub open spec fn helmet_stands(s: Side) -> bool {
    exists|k: int|
        0 <= k < TEAM_SIZE && (#[trigger] s.pokemon@[k]).hp > 0 && s.pokemon@[k].item
            == Items::ROCKYHELMET
}

/// Someone on the side still stands who likes to swap a choice item away.
pub open spec fn trickster_stands(s: Side) -> bool {
    exists|k: int|
        0 <= k < TEAM_SIZE && (#[trigger] s.pokemon@[k]).hp > 0 && tricks(s.pokemon@[k].id)
            && choice_lock(s.pokemon@[k].item)
}

/// A stage as far as it is raised.
pub open spec fn raised(stage: i8) -> int {
    if stage > 0 {
        stage as int
    } else {
        0
    }
}

/// How far the five stats are raised together.
pub open spec fn raised_total(s: Side) -> int {
    raised(s.attack_boost) + raised(s.defense_boost) + raised(s.special_attack_boost) + raised(
        s.special_defense_boost,
    ) + raised(s.speed_boost)
}

/// What the team has going for it: a Dragonite on the rise, Hatterene out, an
/// energized Great Tusk out, a Garganacl out whose salt bites, and whether the
/// opponent outruns Dragonite by half.
pub open spec fn chances_code(own: Side, foe: Side) -> Seq<Ratio> {
    seq![
        if place_is_out(own, DRAGONITE as int) {
            share(own.attack_boost as int, 0, 6, 6)
        } else {
            ratio_flag(false)
        },
        ratio_flag(place_is_out(own, HATTERENE as int)),
        ratio_flag(
            place_is_out(own, GREATTUSK as int) && own.active().item != Items::BOOSTERENERGY,
        ),
        ratio_flag(
            place_is_out(own, GARGANACL as int) && !shrugs_off_salt(foe.active().types.0)
                && !shrugs_off_salt(foe.active().types.1),
        ),
        ratio_flag(
            holder(own, DRAGONITE as int) matches Some(d) && d.speed > 0 && 2 * foe.active().speed
                > 3 * d.speed,
        ),
    ]
}

/// What the opponent has against the team: a wall, a first striker, a helmet, a
/// trickster, and how far the active Pokemon's stats are raised.
pub open spec fn dangers_code(foe: Side) -> Seq<Ratio> {
    seq![
        ratio_flag(wall_stands(foe)),
        ratio_flag(striker_stands(foe)),
        ratio_flag(helmet_stands(foe)),
        ratio_flag(trickster_stands(foe)),
        share(raised_total(foe), 0, 6, 6),
    ]
}

/// The features of the match-up.
pub open spec fn matchup_code(own: Side, foe: Side) -> Seq<Ratio> {
    chances_code(own, foe) + dangers_code(foe)
}

fn raise_of(stage: i8) -> (r: i128)
    ensures
        r == raised(stage),
        0 <= r <= 127,
{
    if stage > 0 {
        stage as i128
    } else {
        0
    }
}

fn write_chances(own: &Side, foe: &Side, out: &mut Vec<Ratio>)
    requires
        own.wf(),
        foe.wf(),
    ensures
        final(out)@ == old(out)@ + chances_code(*own, *foe),
{
    let ghost start = out@;
    let active = Some(own.active_index);
    let mine = &own.pokemon[own.active_index];
    let theirs = &foe.pokemon[foe.active_index];
    let dragonite = find_slot(own, DRAGONITE);
    let rise = if dragonite == active {
        held_share(own.attack_boost as i128, 0, 6, 6)
    } else {
        Ratio::flag(false)
    };
    out.push(rise);
    out.push(Ratio::flag(find_slot(own, HATTERENE) == active));
    out.push(
        Ratio::flag(find_slot(own, GREATTUSK) == active && mine.item != Items::BOOSTERENERGY),
    );
    out.push(
        Ratio::flag(
            find_slot(own, GARGANACL) == active && !defensive_blocks_salt_cure(
                theirs.types.0,
                theirs.types.1,
            ),
        ),
    );
    let outrun = match dragonite {
        Some(k) => own.pokemon[k].speed > 0 && 2 * theirs.speed as i32 > 3
            * own.pokemon[k].speed as i32,
        None => false,
    };
    out.push(Ratio::flag(outrun));
    assert(out@ =~= start + chances_code(*own, *foe));
}

fn write_dangers(foe: &Side, out: &mut Vec<Ratio>)
    requires
        foe.wf(),
    ensures
        final(out)@ == old(out)@ + dangers_code(*foe),
{
    let ghost start = out@;
    let mut wall = false;
    let mut striker = false;
    let mut helmet = false;
    let mut trickster = false;
    let mut k: usize = 0;
    while k < TEAM_SIZE
        invariant
            k <= TEAM_SIZE,
            foe.wf(),
            wall <==> exists|q: int|
                0 <= q < k && (#[trigger] foe.pokemon@[q]).hp > 0 && walls(foe.pokemon@[q].id),
            striker <==> exists|q: int|
                0 <= q < k && (#[trigger] foe.pokemon@[q]).hp > 0 && strikes_first(
                    foe.pokemon@[q].id,
                ),
            helmet <==> exists|q: int|
                0 <= q < k && (#[trigger] foe.pokemon@[q]).hp > 0 && foe.pokemon@[q].item
                    == Items::ROCKYHELMET,
            trickster <==> exists|q: int|
                0 <= q < k && (#[trigger] foe.pokemon@[q]).hp > 0 && tricks(foe.pokemon@[q].id)
                    && choice_lock(foe.pokemon@[q].item),
        decreases TEAM_SIZE - k,
    {
        let p = &foe.pokemon[k];
        assert(foe.pokemon@[k as int] == *p);
        if p.hp > 0 {
            if is_fire_steel_wall(p.id) {
                wall = true;
            }
            if is_strong_priority_user(p.id) {
                striker = true;
            }
            if p.item == Items::ROCKYHELMET {
                helmet = true;
            }
            if is_trick_item_user(p.id) && matches!(p.item, Items::CHOICESCARF | Items::CHOICESPECS
                | Items::CHOICEBAND) {
                trickster = true;
            }
        }
        k += 1;
    }
    out.push(Ratio::flag(wall));
    out.push(Ratio::flag(striker));
    out.push(Ratio::flag(helmet));
    out.push(Ratio::flag(trickster));
    let sum: i128 = raise_of(foe.attack_boost) + raise_of(foe.defense_boost) + raise_of(
        foe.special_attack_boost,
    ) + raise_of(foe.special_defense_boost) + raise_of(foe.speed_boost);
    out.push(held_share(sum, 0, 6, 6));
    assert(out@ =~= start + dangers_code(*foe));
}

/// Writes the features of the match-up.
fn encode_matchup_bo(own: &Side, foe: &Side, out: &mut Vec<Ratio>)
    requires
        own.wf(),
        foe.wf(),
    ensures
        final(out)@ == old(out)@ + matchup_code(*own, *foe),
{
    let ghost start = out@;
    write_chances(own, foe, out);
    write_dangers(foe, out);
    assert(out@ =~= start + matchup_code(*own, *foe));
}

/// The side that holds the team.
pub open spec fn team_side(state: State) -> Side {
    if held_by_second(state) {
        state.side_two
    } else {
        state.side_one
    }
}

/// The side that faces the team.
pub open spec fn facing_side(state: State) -> Side {
    if held_by_second(state) {
        state.side_one
    } else {
        state.side_two
    }
}

/// All features of a position.
pub open spec fn state_code(state: State) -> Seq<Ratio> {
    bo_side_code(team_side(state)) + opp_side_code(facing_side(state)) + field_code(
        state,
        team_side(state),
        facing_side(state),
    ) + matchup_code(team_side(state), facing_side(state))
}

/// The encoding of a position for the player who holds the team.
pub fn extract_features_bo(state: &State) -> (r: Vec<Ratio>)
    requires
        state.wf(),
        facing_side(*state).active().moves@.len() >= MOVE_SLOTS,
    ensures
        r@ == state_code(*state),
        r@.len() == STATE_BO_FEATURES,
{
    let mut features: Vec<Ratio> = Vec::new();
    let second = detect_bo_side(state) == 1;
    let own = if second {
        &state.side_two
    } else {
        &state.side_one
    };
    let foe = if second {
        &state.side_one
    } else {
        &state.side_two
    };
    encode_bo_side(own, &mut features);
    encode_opp_side(foe, &mut features);
    encode_field_bo(state, own, foe, &mut features);
    encode_matchup_bo(own, foe, &mut features);
    assert(features@ =~= state_code(*state));
    proof {
        law_encoding_has_fixed_length(*state);
    }
    features
}

/// Every position has the same number of features.
pub proof fn law_encoding_has_fixed_length(state: State)
    ensures
        state_code(state).len() == STATE_BO_FEATURES,
{
    lemma_lengths(team_side(state), facing_side(state), 6);
    lemma_bench_length(facing_side(state), 5);
}

/// Every Pokemon takes three features.
pub proof fn lemma_lengths(own: Side, foe: Side, n: int)
    requires
        n >= 0,
    ensures
        team_vitals(own, n).len() == 3 * n,
        slot_vitals(foe, n).len() == 3 * n,
    decreases n,
{
    if n > 0 {
        lemma_lengths(own, foe, n - 1);
    }
}

/// Every role takes ten features.
pub proof fn lemma_bench_length(s: Side, n: int)
    requires
        n >= 0,
    ensures
        bench_roles(s, n).len() == 10 * n,
    decreases n,
{
    if n > 0 {
        lemma_bench_length(s, n - 1);
    }
}

/// The same features come out whichever seat the team's player sits in, as long as
/// it is clear who holds the team.
pub proof fn law_encoding_does_not_depend_on_the_seat(state: State)
    requires
        members_among(state.side_one, TEAM_SIZE as int) != members_among(
            state.side_two,
            TEAM_SIZE as int,
        ),
    ensures
        state_code(state.mirrored()) == state_code(state),
{
}

} // verus!
