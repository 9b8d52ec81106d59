//! How hard attacks of each type hit a given Pokemon.
use crate::types::PokemonType;
use vstd::prelude::*;

verus! {

/// Number of types that attacks can have in practice; they take the first slots.
pub const ATTACK_TYPES: usize = 18;

/// Number of types.
pub const ALL_TYPES: usize = 20;

/// All types in the order of their slots.
pub const TYPE_SLOTS: [PokemonType; 20] = [
    PokemonType::NORMAL,
    PokemonType::FIRE,
    PokemonType::WATER,
    PokemonType::ELECTRIC,
    PokemonType::GRASS,
    PokemonType::ICE,
    PokemonType::FIGHTING,
    PokemonType::POISON,
    PokemonType::GROUND,
    PokemonType::FLYING,
    PokemonType::PSYCHIC,
    PokemonType::BUG,
    PokemonType::ROCK,
    PokemonType::GHOST,
    PokemonType::DRAGON,
    PokemonType::DARK,
    PokemonType::STEEL,
    PokemonType::FAIRY,
    PokemonType::STELLAR,
    PokemonType::TYPELESS,
];

/// The slot of a type.
pub open spec fn slot_of(t: PokemonType) -> int {
    match t {
        PokemonType::NORMAL => 0,
        PokemonType::FIRE => 1,
        PokemonType::WATER => 2,
        PokemonType::ELECTRIC => 3,
        PokemonType::GRASS => 4,
        PokemonType::ICE => 5,
        PokemonType::FIGHTING => 6,
        PokemonType::POISON => 7,
        PokemonType::GROUND => 8,
        PokemonType::FLYING => 9,
        PokemonType::PSYCHIC => 10,
        PokemonType::BUG => 11,
        PokemonType::ROCK => 12,
        PokemonType::GHOST => 13,
        PokemonType::DRAGON => 14,
        PokemonType::DARK => 15,
        PokemonType::STEEL => 16,
        PokemonType::FAIRY => 17,
        PokemonType::STELLAR => 18,
        PokemonType::TYPELESS => 19,
    }
}

/// The slot of a type.
pub fn type_slot(t: PokemonType) -> (r: usize)
    ensures
        r == slot_of(t),
        r < ALL_TYPES,
        TYPE_SLOTS[r as int] == t,
{
    let mut i: usize = 0;
    while i < ALL_TYPES && TYPE_SLOTS[i] != t
        invariant
            i <= ALL_TYPES,
            i <= slot_of(t),
        ensures
            i == slot_of(t),
        decreases ALL_TYPES - i,
    {
        proof {
            lemma_slots(i as int, t);
        }
        i += 1;
    }
    i
}

/// A type stands in its slot and in no other.
pub proof fn lemma_slots(i: int, t: PokemonType)
    requires
        0 <= i < ALL_TYPES,
    ensures
        TYPE_SLOTS[i] == t <==> i == slot_of(t),
        0 <= slot_of(t) < ALL_TYPES,
{
}

/// The effectiveness of every attacking type against one Pokemon, in quarters,
/// as the battle rules give it.
#[derive(Clone, Debug)]
pub struct TypeProfile {
    pub quarters: Vec<u8>,
}

impl TypeProfile {
    /// There is an entry for every type.
    pub open spec fn wf(self) -> bool {
        self.quarters@.len() == ALL_TYPES
    }

    /// The effectiveness of attacks of type `t`, in quarters.
    pub open spec fn against(self, t: PokemonType) -> int {
        self.quarters@[slot_of(t)] as int
    }

    /// The effectiveness of attacks of type `t`, in quarters.
    pub fn effectiveness(&self, t: PokemonType) -> (r: u8)
        requires
            self.wf(),
        ensures
            r == self.against(t),
    {
        self.quarters[type_slot(t)]
    }
}

/// The types stand in the order of their slots, from Normal to Typeless.
pub proof fn law_types_have_their_slots()
    ensures
        TYPE_SLOTS[0] == PokemonType::NORMAL && slot_of(PokemonType::NORMAL) == 0,
        TYPE_SLOTS[1] == PokemonType::FIRE && slot_of(PokemonType::FIRE) == 1,
        TYPE_SLOTS[2] == PokemonType::WATER && slot_of(PokemonType::WATER) == 2,
        TYPE_SLOTS[3] == PokemonType::ELECTRIC && slot_of(PokemonType::ELECTRIC) == 3,
        TYPE_SLOTS[4] == PokemonType::GRASS && slot_of(PokemonType::GRASS) == 4,
        TYPE_SLOTS[5] == PokemonType::ICE && slot_of(PokemonType::ICE) == 5,
        TYPE_SLOTS[6] == PokemonType::FIGHTING && slot_of(PokemonType::FIGHTING) == 6,
        TYPE_SLOTS[7] == PokemonType::POISON && slot_of(PokemonType::POISON) == 7,
        TYPE_SLOTS[8] == PokemonType::GROUND && slot_of(PokemonType::GROUND) == 8,
        TYPE_SLOTS[9] == PokemonType::FLYING && slot_of(PokemonType::FLYING) == 9,
        TYPE_SLOTS[10] == PokemonType::PSYCHIC && slot_of(PokemonType::PSYCHIC) == 10,
        TYPE_SLOTS[11] == PokemonType::BUG && slot_of(PokemonType::BUG) == 11,
        TYPE_SLOTS[12] == PokemonType::ROCK && slot_of(PokemonType::ROCK) == 12,
        TYPE_SLOTS[13] == PokemonType::GHOST && slot_of(PokemonType::GHOST) == 13,
        TYPE_SLOTS[14] == PokemonType::DRAGON && slot_of(PokemonType::DRAGON) == 14,
        TYPE_SLOTS[15] == PokemonType::DARK && slot_of(PokemonType::DARK) == 15,
        TYPE_SLOTS[16] == PokemonType::STEEL && slot_of(PokemonType::STEEL) == 16,
        TYPE_SLOTS[17] == PokemonType::FAIRY && slot_of(PokemonType::FAIRY) == 17,
        TYPE_SLOTS[18] == PokemonType::STELLAR && slot_of(PokemonType::STELLAR) == 18,
        TYPE_SLOTS[19] == PokemonType::TYPELESS && slot_of(PokemonType::TYPELESS) == 19,
{
}

} // verus!
