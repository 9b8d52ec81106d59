//! Types as the second generation has them.
use crate::matchup::type_slot;
#[allow(unused_imports)]
use crate::matchup::{lemma_slots, slot_of};
use crate::numbers::Ratio;
use crate::types::PokemonType;
use vstd::prelude::*;

verus! {

/// Number of types in the second generation; they take the first slots.
pub const N_TYPES: usize = 17;

/// How hard an attack of the row's type hits the column's type, in halves.
pub const TYPE_CHART: [[u8; 17]; 17] = [
    [2, 2, 2, 2, 2, 2, 2, 2, 2, 2, 2, 2, 1, 0, 2, 2, 1],
    [2, 1, 1, 2, 4, 4, 2, 2, 2, 2, 2, 4, 1, 2, 1, 2, 4],
    [2, 4, 1, 2, 1, 2, 2, 2, 4, 2, 2, 2, 4, 2, 1, 2, 2],
    [2, 2, 4, 1, 1, 2, 2, 2, 0, 4, 2, 2, 2, 2, 1, 2, 2],
    [2, 1, 4, 2, 1, 2, 2, 1, 4, 1, 2, 1, 4, 2, 1, 2, 1],
    [2, 1, 1, 2, 4, 1, 2, 2, 4, 4, 2, 2, 2, 2, 4, 2, 1],
    [4, 2, 2, 2, 2, 4, 2, 1, 2, 1, 1, 1, 4, 0, 2, 4, 4],
    [2, 2, 2, 2, 4, 2, 2, 1, 1, 2, 2, 2, 1, 1, 2, 2, 0],
    [2, 4, 2, 4, 1, 2, 2, 4, 2, 0, 2, 1, 4, 2, 2, 2, 4],
    [2, 2, 2, 1, 4, 2, 4, 2, 2, 2, 2, 4, 1, 2, 2, 2, 1],
    [2, 2, 2, 2, 2, 2, 4, 4, 2, 2, 1, 2, 2, 2, 2, 0, 1],
    [2, 1, 2, 2, 4, 2, 1, 1, 2, 1, 4, 2, 2, 1, 2, 4, 1],
    [2, 4, 2, 2, 2, 4, 1, 2, 1, 4, 2, 4, 2, 2, 2, 2, 1],
    [0, 2, 2, 2, 2, 2, 2, 2, 2, 2, 4, 2, 2, 4, 2, 1, 2],
    [2, 2, 2, 2, 2, 2, 2, 2, 2, 2, 2, 2, 2, 2, 4, 2, 1],
    [2, 2, 2, 2, 2, 2, 1, 2, 2, 2, 4, 2, 2, 4, 2, 1, 2],
    [2, 1, 1, 1, 2, 4, 2, 2, 2, 2, 2, 2, 4, 2, 2, 2, 1],
];

/// Attacks of this type are physical in the second generation.
pub open spec fn physical_type(t: PokemonType) -> bool {
    ||| t == PokemonType::NORMAL
    ||| t == PokemonType::FIGHTING
    ||| t == PokemonType::FLYING
    ||| t == PokemonType::POISON
    ||| t == PokemonType::GROUND
    ||| t == PokemonType::ROCK
    ||| t == PokemonType::BUG
    ||| t == PokemonType::GHOST
    ||| t == PokemonType::STEEL
}

/// Whether attacks of this type are physical in the second generation.
pub fn is_physical_type(t: PokemonType) -> (r: bool)
    ensures
        r == physical_type(t),
{
    matches!(t, PokemonType::NORMAL | PokemonType::FIGHTING | PokemonType::FLYING
        | PokemonType::POISON | PokemonType::GROUND | PokemonType::ROCK | PokemonType::BUG
        | PokemonType::GHOST | PokemonType::STEEL)
}

/// The position of a type among the first `n` types.
pub open spec fn index_among(t: PokemonType, n: int) -> Option<int> {
    if slot_of(t) < n {
        Some(slot_of(t))
    } else {
        None
    }
}

/// Where a type stands among the first `n` types.
fn find_type(t: PokemonType, n: usize) -> (r: Option<usize>)
    ensures
        r is Some <==> index_among(t, n as int) is Some,
        r matches Some(i) ==> index_among(t, n as int) == Some(i as int) && i < n,
{
    let i: usize = type_slot(t);
    if i < n {
        Some(i)
    } else {
        None
    }
}

/// Where a type stands among those of the second generation.
pub fn type_index(t: PokemonType) -> (r: Option<usize>)
    ensures
        r is Some <==> index_among(t, N_TYPES as int) is Some,
        r matches Some(i) ==> index_among(t, N_TYPES as int) == Some(i as int) && i < N_TYPES,
{
    find_type(t, N_TYPES)
}

/// Where a type stands among those that attacks can have.
pub fn atk_type_index(t: PokemonType) -> (r: Option<usize>)
    ensures
        r is Some <==> index_among(t, 18) is Some,
        r matches Some(i) ==> index_among(t, 18) == Some(i as int) && i < 18,
{
    find_type(t, 18)
}

/// What the chart says, in halves. Types that it does not know count as neutral.
pub open spec fn charted(attack: PokemonType, defense: PokemonType) -> int {
    if slot_of(attack) < N_TYPES && slot_of(defense) < N_TYPES {
        TYPE_CHART[slot_of(attack)][slot_of(defense)] as int
    } else {
        2
    }
}

/// How hard an attack hits a Pokemon of two types, in quarters. A type that is
/// listed twice counts once.
pub open spec fn charted_pair(attack: PokemonType, t1: PokemonType, t2: PokemonType) -> int {
    charted(attack, t1) * if t1 == t2 {
        2
    } else {
        charted(attack, t2)
    }
}

/// How hard an attack hits a Pokemon of two types, in quarters.
pub fn effectiveness_quarters(
    attack: PokemonType,
    def1: PokemonType,
    def2: PokemonType,
) -> (r: u8)
    ensures
        r == charted_pair(attack, def1, def2),
        r <= 16,
{
    proof {
        lemma_chart();
        lemma_slots(slot_of(def1), def1);
        lemma_slots(slot_of(def2), def2);
    }
    let ai: usize = match type_index(attack) {
        Some(i) => i,
        None => {
            return 4;
        },
    };
    let mut first: u8 = 2;
    let mut second: u8 = 2;
    if let Some(d1) = type_index(def1) {
        first = TYPE_CHART[ai][d1];
    }
    if let Some(d2) = type_index(def2) {
        if def1 != def2 {
            second = TYPE_CHART[ai][d2];
        }
    }
    assert(first * second <= 16) by (nonlinear_arith)
        requires
            first <= 4,
            second <= 4,
    ;
    first * second
}

/// How hard an attack hits a Pokemon of two types.
pub fn type_effectiveness(atk: PokemonType, def1: PokemonType, def2: PokemonType) -> (r: Ratio)
    ensures
        r.wf(),
        r.num == charted_pair(atk, def1, def2),
        r.den == 4,
{
    Ratio::new(effectiveness_quarters(atk, def1, def2) as i128, 4)
}

/// No entry of the chart exceeds two.
proof fn lemma_chart()
    ensures
        forall|a: int, d: int|
            0 <= a < N_TYPES && 0 <= d < N_TYPES ==> #[trigger] TYPE_CHART[a][d] <= 4,
{
}

/// What the chart says, type by type: an attack hits twice as hard, half as hard or not
/// at all as the second generation has it, and plainly otherwise; Fairy and the types
/// without a row play no part.
pub proof fn law_chart_tells_who_hits_whom(attack: PokemonType, defense: PokemonType)
    ensures
        charted(attack, defense) == (match attack {
            PokemonType::NORMAL => match defense {
                PokemonType::ROCK
                | PokemonType::STEEL => 1int,
                PokemonType::GHOST => 0int,
                _ => 2int,
            },
            PokemonType::FIRE => match defense {
                PokemonType::GRASS
                | PokemonType::ICE
                | PokemonType::BUG
                | PokemonType::STEEL => 4int,
                PokemonType::FIRE
                | PokemonType::WATER
                | PokemonType::ROCK
                | PokemonType::DRAGON => 1int,
                _ => 2int,
            },
            PokemonType::WATER => match defense {
                PokemonType::FIRE
                | PokemonType::GROUND
                | PokemonType::ROCK => 4int,
                PokemonType::WATER
                | PokemonType::GRASS
                | PokemonType::DRAGON => 1int,
                _ => 2int,
            },
            PokemonType::ELECTRIC => match defense {
                PokemonType::WATER
                | PokemonType::FLYING => 4int,
                PokemonType::ELECTRIC
                | PokemonType::GRASS
                | PokemonType::DRAGON => 1int,
                PokemonType::GROUND => 0int,
                _ => 2int,
            },
            PokemonType::GRASS => match defense {
                PokemonType::WATER
                | PokemonType::GROUND
                | PokemonType::ROCK => 4int,
                PokemonType::FIRE
                | PokemonType::GRASS
                | PokemonType::POISON
                | PokemonType::FLYING
                | PokemonType::BUG
                | PokemonType::DRAGON
                | PokemonType::STEEL => 1int,
                _ => 2int,
            },
            PokemonType::ICE => match defense {
                PokemonType::GRASS
                | PokemonType::GROUND
                | PokemonType::FLYING
                | PokemonType::DRAGON => 4int,
                PokemonType::FIRE
                | PokemonType::WATER
                | PokemonType::ICE
                | PokemonType::STEEL => 1int,
                _ => 2int,
            },
            PokemonType::FIGHTING => match defense {
                PokemonType::NORMAL
                | PokemonType::ICE
                | PokemonType::ROCK
                | PokemonType::DARK
                | PokemonType::STEEL => 4int,
                PokemonType::POISON
                | PokemonType::FLYING
                | PokemonType::PSYCHIC
                | PokemonType::BUG => 1int,
                PokemonType::GHOST => 0int,
                _ => 2int,
            },
            PokemonType::POISON => match defense {
                PokemonType::GRASS => 4int,
                PokemonType::POISON
                | PokemonType::GROUND
                | PokemonType::ROCK
                | PokemonType::GHOST => 1int,
                PokemonType::STEEL => 0int,
                _ => 2int,
            },
            PokemonType::GROUND => match defense {
                PokemonType::FIRE
                | PokemonType::ELECTRIC
                | PokemonType::POISON
                | PokemonType::ROCK
                | PokemonType::STEEL => 4int,
                PokemonType::GRASS
                | PokemonType::BUG => 1int,
                PokemonType::FLYING => 0int,
                _ => 2int,
            },
            PokemonType::FLYING => match defense {
                PokemonType::GRASS
                | PokemonType::FIGHTING
                | PokemonType::BUG => 4int,
                PokemonType::ELECTRIC
                | PokemonType::ROCK
                | PokemonType::STEEL => 1int,
                _ => 2int,
            },
            PokemonType::PSYCHIC => match defense {
                PokemonType::FIGHTING
                | PokemonType::POISON => 4int,
                PokemonType::PSYCHIC
                | PokemonType::STEEL => 1int,
                PokemonType::DARK => 0int,
                _ => 2int,
            },
            PokemonType::BUG => match defense {
                PokemonType::GRASS
                | PokemonType::PSYCHIC
                | PokemonType::DARK => 4int,
                PokemonType::FIRE
                | PokemonType::FIGHTING
                | PokemonType::POISON
                | PokemonType::FLYING
                | PokemonType::GHOST
                | PokemonType::STEEL => 1int,
                _ => 2int,
            },
            PokemonType::ROCK => match defense {
                PokemonType::FIRE
                | PokemonType::ICE
                | PokemonType::FLYING
                | PokemonType::BUG => 4int,
                PokemonType::FIGHTING
                | PokemonType::GROUND
                | PokemonType::STEEL => 1int,
                _ => 2int,
            },
            PokemonType::GHOST => match defense {
                PokemonType::PSYCHIC
                | PokemonType::GHOST => 4int,
                PokemonType::DARK => 1int,
                PokemonType::NORMAL => 0int,
                _ => 2int,
            },
            PokemonType::DRAGON => match defense {
                PokemonType::DRAGON => 4int,
                PokemonType::STEEL => 1int,
                _ => 2int,
            },
            PokemonType::DARK => match defense {
                PokemonType::PSYCHIC
                | PokemonType::GHOST => 4int,
                PokemonType::FIGHTING
                | PokemonType::DARK => 1int,
                _ => 2int,
            },
            PokemonType::STEEL => match defense {
                PokemonType::ICE
                | PokemonType::ROCK => 4int,
                PokemonType::FIRE
                | PokemonType::WATER
                | PokemonType::ELECTRIC
                | PokemonType::STEEL => 1int,
                _ => 2int,
            },
            _ => 2int,
        }),
{
}

/// Against two different types the chart counts for both, against a type listed twice
/// once, and which of them is named first does not matter.
pub proof fn law_two_types_count_together(attack: PokemonType, t1: PokemonType, t2: PokemonType)
    ensures
        t1 != t2 ==> charted_pair(attack, t1, t2) == charted(attack, t1) * charted(attack, t2),
        t1 == t2 ==> charted_pair(attack, t1, t2) == 2 * charted(attack, t1),
        charted_pair(attack, t1, t2) == charted_pair(attack, t2, t1),
{
    let (x, y) = (charted(attack, t1), charted(attack, t2));
    assert(x * y == y * x) by (nonlinear_arith);
}

/// Nine types make an attack physical, all others do not.
pub proof fn law_types_make_attacks_physical(t: PokemonType)
    ensures
        physical_type(t) <==> (match t {
            PokemonType::NORMAL
            | PokemonType::FIGHTING
            | PokemonType::FLYING
            | PokemonType::POISON
            | PokemonType::GROUND
            | PokemonType::ROCK
            | PokemonType::BUG
            | PokemonType::GHOST
            | PokemonType::STEEL => true,
            _ => false,
        }),
{
}

} // verus!
