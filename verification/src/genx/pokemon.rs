//! What a single team member is worth, whether it is out or not.
use crate::genx::switches::EvalOff;
use crate::numbers::Ratio;
#[allow(unused_imports)]
use crate::numbers::{
    lemma_add_over, lemma_cancel, lemma_order_over, lemma_over_one, lemma_zero_over,
};
#[allow(unused_imports)]
use crate::state::physical_count;
use crate::state::{Move, Pokemon};
use crate::types::{Abilities, Choices, Items, MoveCategory, MoveTarget, PokemonStatus, PokemonType};
use vstd::prelude::*;

verus! {

/// Worth of a Pokemon that is still standing.
pub const POKEMON_ALIVE: i64 = 30;

/// Worth of full hit points.
pub const POKEMON_HP: i64 = 100;

pub const POKEMON_FROZEN: i64 = -40;

pub const POKEMON_ASLEEP: i64 = -25;

pub const POKEMON_PARALYZED: i64 = -25;

pub const POKEMON_TOXIC: i64 = -30;

pub const POKEMON_POISONED: i64 = -10;

pub const POKEMON_BURNED: i64 = -25;

/// Worth of being poisoned with Poison Heal.
pub const POISON_HEAL_STATUSED: i64 = 35;

/// Worth of a Toxic Orb that has yet to poison a holder with Poison Heal.
pub const POISON_HEAL_PENDING: i64 = 15;

/// Cost of a missing use of a recovery move.
pub const RECOVERY_PP_VALUE: i64 = 2;

/// How many uses of a recovery move count.
pub const RECOVERY_PP_CAP: i8 = 8;

/// Cost of a choice item on a Pokemon that mostly uses status moves.
pub const CHOICE_ON_WALL: i64 = -20;

pub const GUTS_FAMILY_PENDING: i64 = 15;

pub const QUICK_FEET_PENDING: i64 = 8;

pub const ORB_NO_SYNERGY: i64 = -16;

pub const SLUDGE_NO_POISON: i64 = -21;

pub const REST_TALK_SLEEP_REBATE: i64 = 15;

/// Toxic on a Pokemon that recovers, while the stall mode is on.
pub const TOXIC_ON_WALL: i64 = -48;

/// Worth of holding any item while item prices are off.
pub const ANY_ITEM: i64 = 10;

/// The arithmetic of the evaluation is defined for this Pokemon: its full hit
/// points are positive, and, while missing uses are counted, no recovery move has so
/// few left that counting them would overflow.
pub open spec fn scorable(p: Pokemon, off: EvalOff) -> bool {
    &&& p.maxhp > 0
    &&& !off.pp ==> forall|i: int|
        0 <= i < p.moves@.len() && recovery_move(#[trigger] p.moves@[i]) ==> RECOVERY_PP_CAP
            - p.moves@[i].pp <= i8::MAX
}

/// An item that locks its holder into the first move it uses.
pub open spec fn choice_item(item: Items) -> bool {
    item == Items::CHOICEBAND || item == Items::CHOICESPECS || item == Items::CHOICESCARF
}

/// A filled move slot with a status move.
pub open spec fn status_move(m: Move) -> bool {
    m.id != Choices::NONE && m.choice.category == MoveCategory::Status
}

/// A move that can be chosen right now.
pub open spec fn usable(m: Move) -> bool {
    m.id != Choices::NONE && !m.disabled && m.pp > 0
}

/// The Pokemon holds a choice item, has at least two status moves, and cannot
/// hand the item off.
pub open spec fn wall_with_choice_item(p: Pokemon) -> bool {
    &&& choice_item(p.item)
    &&& forall|i: int|
        0 <= i < p.moves@.len() ==> (#[trigger] p.moves@[i]).id != Choices::TRICK && p.moves@[i].id
            != Choices::SWITCHEROO
    &&& exists|i: int, j: int|
        0 <= i < j < p.moves@.len() && status_move(#[trigger] p.moves@[i]) && status_move(
            #[trigger] p.moves@[j],
        )
}

/// The Pokemon holds a choice item, some of its moves are disabled, and what it
/// can still use is status moves only.
pub open spec fn locked_into_status(p: Pokemon) -> bool {
    &&& choice_item(p.item)
    &&& exists|i: int|
        0 <= i < p.moves@.len() && (#[trigger] p.moves@[i]).id != Choices::NONE
            && p.moves@[i].disabled
    &&& exists|i: int|
        0 <= i < p.moves@.len() && usable(#[trigger] p.moves@[i]) && status_move(p.moves@[i])
    &&& forall|i: int|
        0 <= i < p.moves@.len() && usable(#[trigger] p.moves@[i]) ==> status_move(p.moves@[i])
}

/// A move that heals its user.
pub open spec fn recovery_move(m: Move) -> bool {
    &&& m.id != Choices::NONE
    &&& m.id == Choices::REST || (m.choice.heal matches Some(h) && h.target == MoveTarget::User)
}

/// The Pokemon can heal itself.
pub open spec fn can_recover(p: Pokemon) -> bool {
    exists|i: int| 0 <= i < p.moves@.len() && recovery_move(#[trigger] p.moves@[i])
}

/// Price of a held item.
pub open spec fn item_price(item: Items) -> int {
    match item {
        Items::NONE => 0,
        Items::CHOICEBAND | Items::CHOICESPECS | Items::CHOICESCARF | Items::EVIOLITE => 13,
        Items::LOADEDDICE => 12,
        Items::LIFEORB
        | Items::HEAVYDUTYBOOTS
        | Items::LEFTOVERS
        | Items::BLACKSLUDGE
        | Items::ASSAULTVEST => 9,
        Items::FOCUSSASH => 8,
        Items::ROCKYHELMET
        | Items::AIRBALLOON
        | Items::EXPERTBELT
        | Items::MUSCLEBAND
        | Items::WISEGLASSES
        | Items::PUNCHINGGLOVE => 7,
        Items::SITRUSBERRY
        | Items::COVERTCLOAK
        | Items::CLEARAMULET
        | Items::POWERHERB
        | Items::WEAKNESSPOLICY
        | Items::SHELLBELL => 6,
        Items::BOOSTERENERGY | Items::TOXICORB | Items::FLAMEORB => 4,
        Items::STICKYBARB => -10,
        _ => 5,
    }
}

/// What being poisoned is worth, given what it costs an ordinary Pokemon.
pub open spec fn poison_points(ability: Abilities, off: EvalOff, base: int) -> int {
    match ability {
        Abilities::POISONHEAL => if off.poisonheal {
            15
        } else {
            POISON_HEAL_STATUSED as int
        },
        Abilities::GUTS
        | Abilities::MARVELSCALE
        | Abilities::QUICKFEET
        | Abilities::TOXICBOOST
        | Abilities::MAGICGUARD => 10,
        _ => base,
    }
}

/// An ability that thrives on being burned.
pub open spec fn likes_burn(ability: Abilities, off: EvalOff) -> bool {
    ||| ability == Abilities::GUTS
    ||| ability == Abilities::MARVELSCALE
    ||| ability == Abilities::QUICKFEET
    ||| (ability == Abilities::FLAREBOOST && !off.synergy)
}

/// What being burned is worth: the cost per physical move, halved for a special
/// attacker, and a gain for an ability that thrives on it.
pub open spec fn burn_points(p: Pokemon, off: EvalOff) -> real {
    if likes_burn(p.ability, off) {
        (-2 * POKEMON_BURNED) as real
    } else {
        let cost = (physical_count(p.moves@, p.moves@.len() as int) * POKEMON_BURNED) as real;
        if p.special_attack > p.attack {
            cost / 2 as real
        } else {
            cost
        }
    }
}

/// What toxic costs an ordinary Pokemon.
pub open spec fn toxic_base(p: Pokemon, off: EvalOff, stall: bool) -> int {
    if stall && !off.baseline && can_recover(p) {
        TOXIC_ON_WALL as int
    } else {
        POKEMON_TOXIC as int
    }
}

/// What the status condition is worth.
pub open spec fn status_points(p: Pokemon, off: EvalOff, stall: bool) -> real {
    match p.status {
        PokemonStatus::BURN => burn_points(p, off),
        PokemonStatus::FREEZE => POKEMON_FROZEN as real,
        PokemonStatus::SLEEP => POKEMON_ASLEEP as real,
        PokemonStatus::PARALYZE => POKEMON_PARALYZED as real,
        PokemonStatus::TOXIC => poison_points(p.ability, off, toxic_base(p, off, stall)) as real,
        PokemonStatus::POISON => poison_points(p.ability, off, POKEMON_POISONED as int) as real,
        PokemonStatus::NONE => 0 as real,
    }
}

/// What a Toxic Orb that has yet to go off is worth with Poison Heal.
pub open spec fn pending_poison_heal(p: Pokemon, off: EvalOff) -> int {
    if !off.poisonheal && p.ability == Abilities::POISONHEAL && p.status == PokemonStatus::NONE
        && p.item == Items::TOXICORB {
        POISON_HEAL_PENDING as int
    } else {
        0
    }
}

/// How many of the counted uses of a recovery move are gone.
pub open spec fn missing_uses(m: Move) -> int {
    if m.pp < RECOVERY_PP_CAP {
        RECOVERY_PP_CAP - m.pp
    } else {
        0
    }
}

/// How many uses of recovery moves are gone among the first `n` slots.
pub open spec fn missing_recovery(moves: Seq<Move>, n: int) -> int
    decreases n,
{
    if n <= 0 {
        0
    } else {
        missing_recovery(moves, n - 1) + if recovery_move(moves[n - 1]) {
            missing_uses(moves[n - 1])
        } else {
            0
        }
    }
}

/// The cost of used-up recovery moves; it doubles in the stall mode.
pub open spec fn recovery_tax(p: Pokemon, off: EvalOff, stall: bool) -> int {
    if off.pp {
        0
    } else {
        missing_recovery(p.moves@, p.moves@.len() as int) * if stall && !off.baseline {
            2 * RECOVERY_PP_VALUE
        } else {
            RECOVERY_PP_VALUE as int
        }
    }
}

/// An orb that gives its holder a status, before it has done so.
pub open spec fn orb_points(p: Pokemon) -> int {
    if p.status != PokemonStatus::NONE {
        0
    } else if (p.ability == Abilities::GUTS && p.item == Items::FLAMEORB) || (p.ability
        == Abilities::TOXICBOOST && p.item == Items::TOXICORB) || (p.ability == Abilities::FLAREBOOST
        && p.item == Items::FLAMEORB) {
        GUTS_FAMILY_PENDING as int
    } else if p.item != Items::FLAMEORB && p.item != Items::TOXICORB {
        0
    } else if p.ability == Abilities::QUICKFEET {
        QUICK_FEET_PENDING as int
    } else if p.ability == Abilities::POISONHEAL || p.ability == Abilities::MAGICGUARD {
        0
    } else {
        ORB_NO_SYNERGY as int
    }
}

/// Black Sludge hurts a holder that is not of the Poison type.
pub open spec fn sludge_points(p: Pokemon) -> int {
    if p.item == Items::BLACKSLUDGE && !p.is_type(PokemonType::POISON) {
        SLUDGE_NO_POISON as int
    } else {
        0
    }
}

/// Sleep costs less while Sleep Talk can be used.
pub open spec fn sleep_talk_points(p: Pokemon) -> int {
    if p.status == PokemonStatus::SLEEP && exists|i: int|
        0 <= i < p.moves@.len() && (#[trigger] p.moves@[i]).id == Choices::SLEEPTALK
            && p.moves@[i].pp > 0 {
        REST_TALK_SLEEP_REBATE as int
    } else {
        0
    }
}

/// Half the worth of what Regenerator would heal: the missing hit points, at
/// most a third of all.
pub open spec fn regenerator_points(p: Pokemon) -> real {
    if p.ability == Abilities::REGENERATOR && p.hp < p.maxhp {
        let missing = (p.maxhp - p.hp) as real;
        let third = p.maxhp as real / 3 as real;
        let healed = if missing < third {
            missing
        } else {
            third
        };
        (1 as real / 2 as real) * healed / p.maxhp as real * POKEMON_HP as real
    } else {
        0 as real
    }
}

/// Whole-number terms that come from how status, items and abilities interact.
pub open spec fn synergy_points(p: Pokemon, off: EvalOff) -> int {
    if off.synergy {
        0
    } else {
        orb_points(p) + sludge_points(p) + sleep_talk_points(p)
    }
}

/// What a held item is worth.
pub open spec fn item_points(p: Pokemon, off: EvalOff) -> int {
    if off.items {
        if p.item != Items::NONE {
            ANY_ITEM as int
        } else {
            0
        }
    } else {
        item_price(p.item)
    }
}

/// The cost of a choice item on a wall.
pub open spec fn wall_points(p: Pokemon, off: EvalOff) -> int {
    if !off.locks && wall_with_choice_item(p) {
        CHOICE_ON_WALL as int
    } else {
        0
    }
}

/// The worth of a Pokemon before the floor at zero.
pub open spec fn raw_value(p: Pokemon, off: EvalOff, stall: bool) -> real {
    (POKEMON_HP * p.hp) as real / p.maxhp as real + status_points(p, off, stall)
        + pending_poison_heal(p, off) as real - recovery_tax(p, off, stall) as real
        + synergy_points(p, off) as real + (if off.synergy {
        0 as real
    } else {
        regenerator_points(p)
    }) + wall_points(p, off) as real + item_points(p, off) as real
}

/// The worth of a Pokemon that still stands: never less than being alive.
pub open spec fn pokemon_value(p: Pokemon, off: EvalOff, stall: bool) -> real {
    let raw = raw_value(p, off, stall);
    (if raw < 0 as real {
        0 as real
    } else {
        raw
    }) + POKEMON_ALIVE as real
}

/// Whether an item locks its holder into the first move it uses.
pub fn is_choice_item(item: Items) -> (r: bool)
    ensures
        r == choice_item(item),
{
    matches!(item, Items::CHOICEBAND | Items::CHOICESPECS | Items::CHOICESCARF)
}

/// Whether a Pokemon that mostly uses status moves is stuck with a choice item.
pub fn choice_on_wall(pokemon: &Pokemon) -> (r: bool)
    ensures
        r == wall_with_choice_item(*pokemon),
{
    if !is_choice_item(pokemon.item) {
        return false;
    }
    let mut first: Option<usize> = None;
    let mut second = false;
    let mut i: usize = 0;
    while i < pokemon.moves.len()
        invariant
            i <= pokemon.moves@.len(),
            choice_item(pokemon.item),
            forall|k: int|
                0 <= k < i ==> (#[trigger] pokemon.moves@[k]).id != Choices::TRICK
                    && pokemon.moves@[k].id != Choices::SWITCHEROO,
            match first {
                Some(f) => f < i && status_move(pokemon.moves@[f as int]) && forall|k: int|
                    0 <= k < f ==> !status_move(#[trigger] pokemon.moves@[k]),
                None => forall|k: int| 0 <= k < i ==> !status_move(#[trigger] pokemon.moves@[k]),
            },
            second ==> first is Some && exists|k: int|
                first->0 < k < i && status_move(#[trigger] pokemon.moves@[k]),
            !second && first is Some ==> forall|k: int|
                first->0 < k < i ==> !status_move(#[trigger] pokemon.moves@[k]),
        decreases pokemon.moves@.len() - i,
    {
        let mv = &pokemon.moves[i];
        if matches!(mv.id, Choices::TRICK | Choices::SWITCHEROO) {
            assert(pokemon.moves@[i as int].id == Choices::TRICK || pokemon.moves@[i as int].id
                == Choices::SWITCHEROO);
            return false;
        }
        if mv.id != Choices::NONE && mv.choice.category == MoveCategory::Status {
            assert(status_move(pokemon.moves@[i as int]));
            match first {
                Some(_) => {
                    second = true;
                },
                None => {
                    first = Some(i);
                },
            }
        }
        i += 1;
    }
    proof {
        if second {
            let k = choose|k: int|
                first->0 < k < i && status_move(#[trigger] pokemon.moves@[k]);
            assert(status_move(pokemon.moves@[first->0 as int]) && status_move(pokemon.moves@[k]));
        }
    }
    second
}

/// Whether a choice item leaves a Pokemon with status moves only.
pub fn choice_locked_into_status(pokemon: &Pokemon) -> (r: bool)
    ensures
        r == locked_into_status(*pokemon),
{
    if !is_choice_item(pokemon.item) {
        return false;
    }
    let mut any_disabled = false;
    let mut usable_status = false;
    let mut usable_attack = false;
    let mut i: usize = 0;
    while i < pokemon.moves.len()
        invariant
            i <= pokemon.moves@.len(),
            any_disabled == exists|k: int|
                0 <= k < i && (#[trigger] pokemon.moves@[k]).id != Choices::NONE
                    && pokemon.moves@[k].disabled,
            usable_status == exists|k: int|
                0 <= k < i && usable(#[trigger] pokemon.moves@[k]) && status_move(
                    pokemon.moves@[k],
                ),
            usable_attack == !forall|k: int|
                0 <= k < i && usable(#[trigger] pokemon.moves@[k]) ==> status_move(
                    pokemon.moves@[k],
                ),
        decreases pokemon.moves@.len() - i,
    {
        let mv = &pokemon.moves[i];
        assert(*mv == pokemon.moves@[i as int]);
        if mv.id != Choices::NONE {
            if mv.disabled {
                any_disabled = true;
            } else if mv.pp > 0 {
                assert(usable(pokemon.moves@[i as int]));
                if mv.choice.category == MoveCategory::Status {
                    usable_status = true;
                } else {
                    usable_attack = true;
                }
            }
        }
        i += 1;
    }
    any_disabled && usable_status && !usable_attack
}

/// Whether a move heals its user.
pub fn is_recovery(mv: &Move) -> (r: bool)
    ensures
        r == recovery_move(*mv),
{
    if mv.id == Choices::NONE {
        false
    } else if mv.id == Choices::REST {
        true
    } else {
        match mv.choice.heal {
            Some(h) => h.target == MoveTarget::User,
            None => false,
        }
    }
}

/// Whether a Pokemon can heal itself.
pub fn has_self_recovery(pokemon: &Pokemon) -> (r: bool)
    ensures
        r == can_recover(*pokemon),
{
    let mut i: usize = 0;
    while i < pokemon.moves.len()
        invariant
            i <= pokemon.moves@.len(),
            forall|k: int| 0 <= k < i ==> !recovery_move(#[trigger] pokemon.moves@[k]),
        decreases pokemon.moves@.len() - i,
    {
        if is_recovery(&pokemon.moves[i]) {
            assert(recovery_move(pokemon.moves@[i as int]));
            return true;
        }
        i += 1;
    }
    false
}

/// What being poisoned is worth, given what it costs an ordinary Pokemon.
pub fn evaluate_poison(pokemon: &Pokemon, base_score: i64, off: &EvalOff) -> (r: i64)
    ensures
        r == poison_points(pokemon.ability, *off, base_score as int),
{
    match pokemon.ability {
        Abilities::POISONHEAL => if off.poisonheal {
            15
        } else {
            POISON_HEAL_STATUSED
        },
        Abilities::GUTS
        | Abilities::MARVELSCALE
        | Abilities::QUICKFEET
        | Abilities::TOXICBOOST
        | Abilities::MAGICGUARD => 10,
        _ => base_score,
    }
}

/// What being burned is worth, over the denominator two.
pub fn evaluate_burned(pokemon: &Pokemon, off: &EvalOff) -> (r: Ratio)
    ensures
        r.wf(),
        r.den == 2,
        -(50 * u64::MAX) <= r.num <= 100,
        r@ == burn_points(*pokemon, *off),
{
    if !off.synergy && pokemon.ability == Abilities::FLAREBOOST {
        return Ratio::new(100, 2);
    }
    if matches!(pokemon.ability, Abilities::GUTS | Abilities::MARVELSCALE | Abilities::QUICKFEET) {
        return Ratio::new(100, 2);
    }
    let mut count: i128 = 0;
    let mut i: usize = 0;
    while i < pokemon.moves.len()
        invariant
            i <= pokemon.moves@.len(),
            0 <= count <= i,
            count == physical_count(pokemon.moves@, i as int),
        decreases pokemon.moves@.len() - i,
    {
        if pokemon.moves[i].choice.category == MoveCategory::Physical {
            count += 1;
        }
        i += 1;
    }
    if pokemon.special_attack > pokemon.attack {
        Ratio::new(-(25 * count), 2)
    } else {
        proof {
            lemma_cancel(-(25 * count), 1, 2);
        }
        Ratio::new(-(50 * count), 2)
    }
}

/// Price of a held item.
pub fn evaluate_item(item: Items) -> (r: i64)
    ensures
        r == item_price(item),
        -10 <= r <= 13,
{
    match item {
        Items::NONE => 0,
        Items::CHOICEBAND | Items::CHOICESPECS | Items::CHOICESCARF => 13,
        Items::LIFEORB => 9,
        Items::HEAVYDUTYBOOTS | Items::LEFTOVERS | Items::BLACKSLUDGE | Items::ASSAULTVEST => 9,
        Items::EVIOLITE => 13,
        Items::ROCKYHELMET | Items::AIRBALLOON => 7,
        Items::FOCUSSASH => 8,
        Items::BOOSTERENERGY => 4,
        Items::SITRUSBERRY => 6,
        Items::TOXICORB | Items::FLAMEORB => 4,
        Items::STICKYBARB => -10,
        Items::EXPERTBELT | Items::MUSCLEBAND | Items::WISEGLASSES | Items::PUNCHINGGLOVE => 7,
        Items::LOADEDDICE => 12,
        Items::COVERTCLOAK
        | Items::CLEARAMULET
        | Items::POWERHERB
        | Items::WEAKNESSPOLICY
        | Items::SHELLBELL => 6,
        _ => 5,
    }
}

/// Twice what the status condition is worth.
fn status_halves(pokemon: &Pokemon, off: &EvalOff, stall: bool) -> (r: i128)
    ensures
        r as real / 2 as real == status_points(*pokemon, *off, stall),
        -(50 * u64::MAX) - 200 <= r <= 200,
{
    let points: i64 = match pokemon.status {
        PokemonStatus::BURN => {
            return evaluate_burned(pokemon, off).num;
        },
        PokemonStatus::FREEZE => POKEMON_FROZEN,
        PokemonStatus::SLEEP => POKEMON_ASLEEP,
        PokemonStatus::PARALYZE => POKEMON_PARALYZED,
        PokemonStatus::TOXIC => {
            let base: i64 = if stall && !off.baseline && has_self_recovery(pokemon) {
                TOXIC_ON_WALL
            } else {
                POKEMON_TOXIC
            };
            evaluate_poison(pokemon, base, off)
        },
        PokemonStatus::POISON => evaluate_poison(pokemon, POKEMON_POISONED, off),
        PokemonStatus::NONE => 0,
    };
    2 * points as i128
}

/// How many counted uses of recovery moves are gone.
fn recovery_uses_gone(pokemon: &Pokemon) -> (r: i128)
    ensures
        r == missing_recovery(pokemon.moves@, pokemon.moves@.len() as int),
        0 <= r <= 136 * usize::MAX,
{
    let mut gone: i128 = 0;
    let mut i: usize = 0;
    while i < pokemon.moves.len()
        invariant
            i <= pokemon.moves@.len(),
            0 <= gone <= 136 * i,
            gone == missing_recovery(pokemon.moves@, i as int),
        decreases pokemon.moves@.len() - i,
    {
        if is_recovery(&pokemon.moves[i]) && pokemon.moves[i].pp < RECOVERY_PP_CAP {
            gone += RECOVERY_PP_CAP as i128 - pokemon.moves[i].pp as i128;
        }
        i += 1;
    }
    gone
}

/// Whole-number terms that come from how status, items and abilities interact.
fn evaluate_synergy(pokemon: &Pokemon, off: &EvalOff) -> (r: i64)
    ensures
        r == synergy_points(*pokemon, *off),
        -100 <= r <= 100,
{
    if off.synergy {
        return 0;
    }
    let mut score: i64 = 0;
    if pokemon.status == PokemonStatus::NONE {
        score += match (pokemon.ability, pokemon.item) {
            (Abilities::GUTS, Items::FLAMEORB)
            | (Abilities::TOXICBOOST, Items::TOXICORB)
            | (Abilities::FLAREBOOST, Items::FLAMEORB) => GUTS_FAMILY_PENDING,
            (Abilities::QUICKFEET, Items::FLAMEORB)
            | (Abilities::QUICKFEET, Items::TOXICORB) => QUICK_FEET_PENDING,
            (Abilities::POISONHEAL, _) | (Abilities::MAGICGUARD, _) => 0,
            (_, Items::TOXICORB) | (_, Items::FLAMEORB) => ORB_NO_SYNERGY,
            _ => 0,
        };
    }
    if pokemon.item == Items::BLACKSLUDGE && !pokemon.has_type(PokemonType::POISON) {
        score += SLUDGE_NO_POISON;
    }
    if pokemon.status == PokemonStatus::SLEEP {
        let mut i: usize = 0;
        let mut found = false;
        while i < pokemon.moves.len()
            invariant
                i <= pokemon.moves@.len(),
                found == exists|k: int|
                    0 <= k < i && (#[trigger] pokemon.moves@[k]).id == Choices::SLEEPTALK
                        && pokemon.moves@[k].pp > 0,
            decreases pokemon.moves@.len() - i,
        {
            if pokemon.moves[i].id == Choices::SLEEPTALK && pokemon.moves[i].pp > 0 {
                found = true;
            }
            i += 1;
        }
        if found {
            score += REST_TALK_SLEEP_REBATE;
        }
    }
    score
}

/// The three kinds of terms, put over the common denominator `6 * m`.
proof fn lemma_common_denominator(hp: int, m: int, h: int, g: int)
    requires
        m > 0,
    ensures
        (600 * hp + 3 * m * h + 100 * g) as real / (6 * m) as real == (100 * hp) as real / m as real
            + h as real / 2 as real + (1 as real / 2 as real) * (g as real / 3 as real) / m as real
            * 100 as real,
{
    let d = 6 * m;
    lemma_add_over(600 * hp, 3 * m * h, d);
    lemma_add_over(600 * hp + 3 * m * h, 100 * g, d);
    lemma_cancel(100 * hp, m, 6);
    assert((100 * hp) * 6 == 600 * hp && m * 6 == d);
    lemma_cancel(h, 2, 3 * m);
    assert(h * (3 * m) == 3 * m * h) by (nonlinear_arith);
    assert(2 * (3 * m) == d) by (nonlinear_arith)
        requires
            d == 6 * m,
    ;
    let x = g as real;
    let y = m as real;
    assert((100 * g) as real / d as real == (100 as real * x) / (6 as real * y));
    assert((100 as real * x) / (6 as real * y) == (1 as real / 2 as real) * (x / 3 as real) / y
        * 100 as real) by (nonlinear_arith)
        requires
            y > 0 as real,
    ;
}

/// Everything but hit points and Regenerator.
pub open spec fn flat_points(p: Pokemon, off: EvalOff, stall: bool) -> int {
    pending_poison_heal(p, off) - recovery_tax(p, off, stall) + synergy_points(p, off)
        + wall_points(p, off) + item_points(p, off)
}

/// The whole-number terms.
fn evaluate_flat(pokemon: &Pokemon, off: &EvalOff, stall: bool) -> (r: i128)
    ensures
        r == flat_points(*pokemon, *off, stall),
        -(1000 * u64::MAX) <= r <= 1000,
{
    let mut points: i128 = 0;
    if !off.poisonheal && pokemon.ability == Abilities::POISONHEAL && pokemon.status
        == PokemonStatus::NONE && pokemon.item == Items::TOXICORB {
        points += POISON_HEAL_PENDING as i128;
    }
    if !off.pp {
        let gone: i128 = recovery_uses_gone(pokemon);
        // in the stall mode every used-up recovery costs twice as much
        if stall && !off.baseline {
            points -= gone * 4;
        } else {
            points -= gone * 2;
        }
    }
    points += evaluate_synergy(pokemon, off) as i128;
    if !off.locks && choice_on_wall(pokemon) {
        points += CHOICE_ON_WALL as i128;
    }
    if off.items {
        if pokemon.item != Items::NONE {
            points += ANY_ITEM as i128;
        }
    } else {
        points += evaluate_item(pokemon.item) as i128;
    }
    points
}

/// Three times the hit points that Regenerator would bring back, as far as the
/// evaluation counts them.
fn regenerator_thirds(pokemon: &Pokemon, off: &EvalOff) -> (g: i128)
    requires
        pokemon.maxhp > 0,
    ensures
        0 <= g <= pokemon.maxhp,
        (1 as real / 2 as real) * (g as real / 3 as real) / pokemon.maxhp as real * 100 as real
            == (if off.synergy {
            0 as real
        } else {
            regenerator_points(*pokemon)
        }),
{
    let m: i128 = pokemon.maxhp as i128;
    if !off.synergy && pokemon.ability == Abilities::REGENERATOR && pokemon.hp < pokemon.maxhp {
        let missing: i128 = m - pokemon.hp as i128;
        if 3 * missing < m {
            3 * missing
        } else {
            m
        }
    } else {
        proof {
            let x = m as real;
            assert((1 as real / 2 as real) * (0 as real / 3 as real) / x * 100 as real == 0 as real)
                by (nonlinear_arith)
                requires
                    x > 0 as real,
            ;
        }
        0
    }
}

/// What a team member that still stands is worth.
pub fn evaluate_pokemon(pokemon: &Pokemon, off: &EvalOff, stall: bool) -> (r: Ratio)
    requires
        scorable(*pokemon, *off),
    ensures
        r.wf(),
        r@ == pokemon_value(*pokemon, *off, stall),
{
    let m: i128 = pokemon.maxhp as i128;
    let hp: i128 = pokemon.hp as i128;
    let halves: i128 = status_halves(pokemon, off, stall) + 2 * evaluate_flat(pokemon, off, stall);
    let thirds: i128 = regenerator_thirds(pokemon, off);
    assert(-0x1_0000_0000_0000_0000_0000_0000_0000 <= 3 * m * halves
        <= 0x1_0000_0000_0000_0000_0000_0000_0000) by (nonlinear_arith)
        requires
            0 < m <= 32767,
            -0x1_0000_0000_0000_0000_0000 <= halves <= 0x1_0000_0000_0000_0000_0000,
    ;
    let num: i128 = 600 * hp + 3 * m * halves + 100 * thirds;
    let den: i128 = 6 * m;
    let alive: i128 = 30 * den;
    proof {
        lemma_common_denominator(hp as int, m as int, halves as int, thirds as int);
        assert(halves as real / 2 as real == status_points(*pokemon, *off, stall) + flat_points(
            *pokemon,
            *off,
            stall,
        ) as real);
        assert(num as real / den as real == raw_value(*pokemon, *off, stall));
        lemma_order_over(num as int, 0, den as int);
        lemma_zero_over(den as int);
        lemma_cancel(POKEMON_ALIVE as int, 1, den as int);
        lemma_over_one(POKEMON_ALIVE as int);
        assert(alive as real / den as real == POKEMON_ALIVE as real);
        lemma_add_over(num as int, alive as int, den as int);
    }
    // a low value must not tempt the other side to keep it around
    if num < 0 {
        Ratio::new(alive, den)
    } else {
        Ratio::new(num + alive, den)
    }
}

} // verus!
