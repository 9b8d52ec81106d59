//! The battle position, as plain values.
use crate::types::{
    Abilities, Choices, Items, MoveCategory, MoveTarget, PokemonName, PokemonSideCondition,
    PokemonStatus, PokemonType, PokemonVolatileStatus, Terrain, Weather,
};
use vstd::prelude::*;

verus! {

/// Number of Pokemon on a team.
pub const TEAM_SIZE: usize = 6;

/// Number of move slots that the feature encoders read.
pub const MOVE_SLOTS: usize = 4;

/// Properties of a move that abilities and encoders react to.
#[derive(Clone, Copy, Debug, PartialEq, Eq, Structural)]
pub struct MoveFlags {
    pub contact: bool,
    pub slicing: bool,
    pub bite: bool,
    pub punch: bool,
    pub pivot: bool,
    pub drag: bool,
}

/// The status that a move inflicts outright.
#[derive(Clone, Copy, Debug, PartialEq, Eq, Structural)]
pub struct StatusEffect {
    pub status: PokemonStatus,
}

/// The healing that a move brings.
#[derive(Clone, Copy, Debug, PartialEq, Eq, Structural)]
pub struct Heal {
    pub target: MoveTarget,
}

/// The side condition that a move sets up.
#[derive(Clone, Copy, Debug, PartialEq, Eq, Structural)]
pub struct SideConditionEffect {
    pub condition: PokemonSideCondition,
}

/// What a secondary effect does.
#[derive(Clone, Copy, Debug, PartialEq, Eq, Structural)]
pub enum Effect {
    Status(PokemonStatus),
    Other,
}

/// A secondary effect of a move.
#[derive(Clone, Copy, Debug, PartialEq, Eq, Structural)]
pub struct Secondary {
    pub effect: Effect,
}

/// What a move does. Power and accuracy are whole numbers.
#[derive(Clone, Debug)]
pub struct Choice {
    pub move_type: PokemonType,
    pub category: MoveCategory,
    pub base_power: i32,
    pub accuracy: i32,
    pub priority: i8,
    pub flags: MoveFlags,
    pub status: Option<StatusEffect>,
    pub secondaries: Option<Vec<Secondary>>,
    pub side_condition: Option<SideConditionEffect>,
    pub heal: Option<Heal>,
    /// The move changes stat stages outright.
    pub boost: bool,
    /// The move drains what it deals.
    pub drain: bool,
}

/// A move slot.
#[derive(Clone, Debug)]
pub struct Move {
    pub id: Choices,
    pub disabled: bool,
    pub pp: i8,
    pub choice: Choice,
}

/// The one or two types of a Pokemon; a missing second one is `TYPELESS`.
#[derive(Clone, Copy, Debug, PartialEq, Eq, Structural)]
pub struct TypePair(pub PokemonType, pub PokemonType);

/// A member of a team.
#[derive(Clone, Debug)]
pub struct Pokemon {
    pub id: PokemonName,
    pub types: TypePair,
    pub base_types: TypePair,
    pub tera_type: PokemonType,
    pub terastallized: bool,
    pub hp: i16,
    pub maxhp: i16,
    pub attack: i16,
    pub defense: i16,
    pub special_attack: i16,
    pub special_defense: i16,
    pub speed: i16,
    pub ability: Abilities,
    pub item: Items,
    pub status: PokemonStatus,
    pub sleep_turns: i8,
    pub rest_turns: i8,
    pub moves: Vec<Move>,
    /// Whether the battle rules treat it as standing on the ground.
    pub grounded: bool,
    /// The types that the battle rules currently count it as having.
    pub current_types: Vec<PokemonType>,
}

impl Pokemon {
    /// The battle rules count it as being of type `t`.
    pub open spec fn is_type(self, t: PokemonType) -> bool {
        self.current_types@.contains(t)
    }

    /// Whether the battle rules count it as being of type `t`.
    pub fn has_type(&self, t: PokemonType) -> (r: bool)
        ensures
            r == self.is_type(t),
    {
        let mut i: usize = 0;
        while i < self.current_types.len()
            invariant
                i <= self.current_types@.len(),
                forall|j: int| 0 <= j < i ==> self.current_types@[j] != t,
            decreases self.current_types@.len() - i,
        {
            if self.current_types[i] == t {
                return true;
            }
            i += 1;
        }
        false
    }
}

/// Counters of the conditions on one side of the field.
#[derive(Clone, Copy, Debug, PartialEq, Eq, Structural)]
pub struct SideConditions {
    pub aurora_veil: i8,
    pub healing_wish: i8,
    pub light_screen: i8,
    pub reflect: i8,
    pub safeguard: i8,
    pub spikes: i8,
    pub stealth_rock: i8,
    pub sticky_web: i8,
    pub tailwind: i8,
    pub toxic_spikes: i8,
}

/// Turns until a pending Wish lands, and its strength.
#[derive(Clone, Copy, Debug, PartialEq, Eq, Structural)]
pub struct Wish(pub i8, pub i16);

/// Turns until a pending Future Sight lands, and the slot that cast it.
#[derive(Clone, Copy, Debug, PartialEq, Eq, Structural)]
pub struct FutureSight(pub i8, pub usize);

/// One player's half of the position.
#[derive(Clone, Debug)]
pub struct Side {
    pub active_index: usize,
    pub pokemon: Vec<Pokemon>,
    pub side_conditions: SideConditions,
    pub volatile_statuses: Vec<PokemonVolatileStatus>,
    pub attack_boost: i8,
    pub defense_boost: i8,
    pub special_attack_boost: i8,
    pub special_defense_boost: i8,
    pub speed_boost: i8,
    pub accuracy_boost: i8,
    pub evasion_boost: i8,
    pub wish: Wish,
    pub future_sight: FutureSight,
    pub force_switch: bool,
    pub force_trapped: bool,
    pub slow_uturn_move: bool,
    pub baton_passing: bool,
}

/// How many of the first `n` moves are physical.
pub open spec fn physical_count(moves: Seq<Move>, n: int) -> int
    decreases n,
{
    if n <= 0 {
        0
    } else {
        physical_count(moves, n - 1) + if moves[n - 1].choice.category == MoveCategory::Physical {
            1int
        } else {
            0int
        }
    }
}

/// The number of team members among the first `n` that have no hit points left.
pub open spec fn fainted_among(team: Seq<Pokemon>, n: int) -> int
    decreases n,
{
    if n <= 0 {
        0
    } else {
        fainted_among(team, n - 1) + if team[n - 1].hp > 0 { 0int } else { 1int }
    }
}

/// How many of the first `n` team members still stand and meet a condition.
pub open spec fn standing_with(
    team: Seq<Pokemon>,
    n: int,
    condition: spec_fn(Pokemon) -> bool,
) -> int
    decreases n,
{
    if n <= 0 {
        0
    } else {
        standing_with(team, n - 1, condition) + if team[n - 1].hp > 0 && condition(team[n - 1]) {
            1int
        } else {
            0int
        }
    }
}

impl Side {
    /// The team is complete, the active slot is on it, and no volatile status is
    /// listed twice.
    pub open spec fn wf(self) -> bool {
        &&& self.pokemon@.len() == TEAM_SIZE
        &&& self.active_index < TEAM_SIZE
        &&& self.volatile_statuses@.no_duplicates()
    }

    /// The Pokemon that is out.
    pub open spec fn active(self) -> Pokemon {
        self.pokemon@[self.active_index as int]
    }

    /// How many members of the team have no hit points left.
    pub fn num_fainted_pkmn(&self) -> (n: usize)
        requires
            self.wf(),
        ensures
            n == fainted_among(self.pokemon@, TEAM_SIZE as int),
            n <= TEAM_SIZE,
    {
        let mut n: usize = 0;
        let mut i: usize = 0;
        while i < TEAM_SIZE
            invariant
                i <= TEAM_SIZE,
                n <= i,
                self.pokemon@.len() == TEAM_SIZE,
                n == fainted_among(self.pokemon@, i as int),
            decreases TEAM_SIZE - i,
        {
            if !(self.pokemon[i].hp > 0) {
                n += 1;
            }
            i += 1;
        }
        n
    }
}

/// What both sides share.
#[derive(Clone, Copy, Debug, PartialEq, Eq, Structural)]
pub struct Field {
    pub weather: Weather,
    /// The terrain that was laid out.
    pub terrain: Terrain,
    /// The terrain that the battle rules count as being in effect.
    pub active_terrain: Terrain,
    pub trick_room: bool,
}

/// A battle position.
#[derive(Clone, Debug)]
pub struct State {
    pub side_one: Side,
    pub side_two: Side,
    pub field: Field,
}

impl State {
    /// Both sides are complete.
    pub open spec fn wf(self) -> bool {
        &&& self.side_one.wf()
        &&& self.side_two.wf()
    }

    /// The same position seen from the other player's seat.
    pub open spec fn mirrored(self) -> State {
        State { side_one: self.side_two, side_two: self.side_one, field: self.field }
    }
}

/// What a player can do on a turn. Moves and team members are named by slot.
#[derive(Clone, Copy, Debug, PartialEq, Eq, Structural)]
pub enum MoveChoice {
    Move(usize),
    MoveTera(usize),
    MoveMega(usize),
    Switch(usize),
    /// Nothing can be done this turn.
    NoMove,
}

/// Every team member either still stands or has no hit points left.
pub proof fn law_members_stand_or_have_fainted(team: Seq<Pokemon>, n: int)
    requires
        0 <= n,
    ensures
        standing_with(team, n, |p: Pokemon| true) + fainted_among(team, n) == n,
        0 <= n < team.len() ==> fainted_among(team, n + 1) == fainted_among(team, n) + (if team[n].hp
            <= 0 {
            1int
        } else {
            0int
        }),
    decreases n,
{
    if n > 0 {
        law_members_stand_or_have_fainted(team, n - 1);
    }
}

/// A physical move adds one to the count of them, and no other move does.
pub proof fn law_physical_moves_are_counted(moves: Seq<Move>, n: int)
    requires
        0 <= n < moves.len(),
    ensures
        physical_count(moves, 0) == 0,
        physical_count(moves, n + 1) == physical_count(moves, n) + (if moves[n].choice.category
            == MoveCategory::Physical {
            1int
        } else {
            0int
        }),
{
}

} // verus!
