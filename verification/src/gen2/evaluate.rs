//! The value of a position for the first player. There are no abilities, and
//! an attack counts by its effectiveness alone.
use crate::matchup::TypeProfile;
use crate::numbers::{Ratio, Score};
#[allow(unused_imports)]
use crate::numbers::{
    lemma_add_over, lemma_cancel, lemma_order_over, lemma_over_one, lemma_zero_over, over,
};
use crate::stages::{boost_credit, full_credit};
#[allow(unused_imports)]
use crate::stages::{multiplier, stages_ok};
#[allow(unused_imports)]
use crate::state::physical_count;
use crate::state::{Pokemon, Side, State, TEAM_SIZE};
use crate::types::{Choices, Items, MoveCategory, PokemonStatus, PokemonVolatileStatus};
use vstd::prelude::*;

verus! {

pub const POKEMON_ALIVE: i128 = 60;

pub const POKEMON_HP: i128 = 100;

pub const POKEMON_ATTACK_BOOST: i128 = 30;

pub const POKEMON_DEFENSE_BOOST: i128 = 15;

pub const POKEMON_SPECIAL_ATTACK_BOOST: i128 = 30;

pub const POKEMON_SPECIAL_DEFENSE_BOOST: i128 = 15;

pub const POKEMON_SPEED_BOOST: i128 = 30;

pub const POKEMON_FROZEN: i128 = -40;

pub const POKEMON_ASLEEP: i128 = -25;

/// Sleep costs two fifths with Sleep Talk.
pub const POKEMON_ASLEEP_TALKING: i128 = -10;

pub const POKEMON_PARALYZED: i128 = -25;

pub const POKEMON_TOXIC: i128 = -30;

pub const POKEMON_POISONED: i128 = -10;

pub const POKEMON_BURNED: i128 = -25;

pub const HELD_ITEM: i128 = 10;

pub const POKEMON_RECOVERY_MOVE: i128 = 8;

pub const LEECH_SEED: i128 = -30;

pub const SUBSTITUTE: i128 = 40;

pub const CONFUSION: i128 = -20;

pub const ENCORE_PENALTY: i128 = -30;

pub const DISABLE_PENALTY: i128 = -12;

pub const RECHARGE_PENALTY: i128 = -35;

pub const PARTIALLY_TRAPPED_PENALTY: i128 = -15;

pub const FORESIGHT_PENALTY: i128 = -10;

/// Cost of Perish Song with four, three, two and one turns left.
pub const PERISH_PENALTY: [i128; 4] = [-12, -25, -50, -80];

pub const REFLECT: i128 = 20;

pub const LIGHT_SCREEN: i128 = 20;

pub const SAFE_GUARD: i128 = 5;

/// Cost of a layer of spikes for every Pokemon that still stands.
pub const SPIKES: i128 = -12;

pub const HOPELESS_MATCHUP: i128 = -50;

pub const SPEED_TIER_BONUS: i128 = 20;

pub const FUTURE_SIGHT_INCOMING: i128 = -25;

/// The Pokemon knows Sleep Talk.
pub open spec fn knows_sleep_talk(p: Pokemon) -> bool {
    exists|i: int| 0 <= i < p.moves@.len() && (#[trigger] p.moves@[i]).id == Choices::SLEEPTALK
}

/// A move that restores hit points.
pub open spec fn restores(id: Choices) -> bool {
    ||| id == Choices::REST
    ||| id == Choices::RECOVER
    ||| id == Choices::SOFTBOILED
    ||| id == Choices::MILKDRINK
    ||| id == Choices::MOONLIGHT
    ||| id == Choices::MORNINGSUN
    ||| id == Choices::SYNTHESIS
}

/// The Pokemon knows a move that restores hit points.
pub open spec fn knows_recovery(p: Pokemon) -> bool {
    exists|i: int| 0 <= i < p.moves@.len() && restores((#[trigger] p.moves@[i]).id)
}

/// A burn costs by the physical moves, half for a special attacker.
pub open spec fn burn_cost(p: Pokemon) -> real {
    let cost = (physical_count(p.moves@, p.moves@.len() as int) * POKEMON_BURNED) as real;
    if p.special_attack > p.attack {
        cost / 2 as real
    } else {
        cost
    }
}

/// What the status condition is worth.
pub open spec fn status_value(p: Pokemon) -> real {
    match p.status {
        PokemonStatus::BURN => burn_cost(p),
        PokemonStatus::FREEZE => POKEMON_FROZEN as real,
        PokemonStatus::SLEEP => if knows_sleep_talk(p) {
            POKEMON_ASLEEP_TALKING as real
        } else {
            POKEMON_ASLEEP as real
        },
        PokemonStatus::PARALYZE => POKEMON_PARALYZED as real,
        PokemonStatus::TOXIC => POKEMON_TOXIC as real,
        PokemonStatus::POISON => POKEMON_POISONED as real,
        PokemonStatus::NONE => 0 as real,
    }
}

/// What the item and a recovery move are worth.
pub open spec fn kit_points(p: Pokemon) -> int {
    (if p.item != Items::NONE {
        HELD_ITEM as int
    } else {
        0
    }) + if knows_recovery(p) {
        POKEMON_RECOVERY_MOVE as int
    } else {
        0
    }
}

/// The worth of a Pokemon before the floor at zero.
pub open spec fn raw_value(p: Pokemon) -> real {
    (POKEMON_HP * p.hp) as real / p.maxhp as real + status_value(p) + kit_points(p) as real
}

/// The worth of a Pokemon that still stands.
pub open spec fn pokemon_value(p: Pokemon) -> real {
    (if raw_value(p) < 0 as real {
        0 as real
    } else {
        raw_value(p)
    }) + POKEMON_ALIVE as real
}

/// The highest effectiveness among the first `n` moves of a category, in
/// quarters.
pub open spec fn best_quarters(
    a: Pokemon,
    profile: TypeProfile,
    category: MoveCategory,
    n: int,
) -> int
    decreases n,
{
    if n <= 0 {
        0
    } else {
        let rest = best_quarters(a, profile, category, n - 1);
        let m = a.moves@[n - 1];
        let q = profile.against(m.choice.move_type);
        if m.id != Choices::NONE && m.choice.category == category && q > rest {
            q
        } else {
            rest
        }
    }
}

/// How well the attacks of a category hit: nothing where the target is immune to
/// all of them, and full value as soon as one of them is super effective. Full value
/// is kept for that, so anything less counts by its effectiveness up to one half: a
/// quarter or a half where the best attack is resisted, and one half where it is
/// neutral.
pub open spec fn threat(a: Pokemon, profile: TypeProfile, category: MoveCategory) -> real {
    over(threat_quarters(best_quarters(a, profile, category, a.moves@.len() as int)), 4)
}

/// What an effectiveness counts as a threat, both in quarters.
pub open spec fn threat_quarters(q: int) -> int {
    if q > 4 {
        4
    } else if q > 2 {
        2
    } else {
        q
    }
}

/// What a volatile status is worth to the Pokemon that has it.
pub open spec fn volatile_points(vs: PokemonVolatileStatus) -> int {
    match vs {
        PokemonVolatileStatus::LEECHSEED => LEECH_SEED as int,
        PokemonVolatileStatus::SUBSTITUTE => SUBSTITUTE as int,
        PokemonVolatileStatus::CONFUSION => CONFUSION as int,
        PokemonVolatileStatus::ENCORE => ENCORE_PENALTY as int,
        PokemonVolatileStatus::DISABLE => DISABLE_PENALTY as int,
        PokemonVolatileStatus::MUSTRECHARGE => RECHARGE_PENALTY as int,
        PokemonVolatileStatus::PARTIALLYTRAPPED => PARTIALLY_TRAPPED_PENALTY as int,
        PokemonVolatileStatus::FORESIGHT => FORESIGHT_PENALTY as int,
        PokemonVolatileStatus::PERISH4 => PERISH_PENALTY[0] as int,
        PokemonVolatileStatus::PERISH3 => PERISH_PENALTY[1] as int,
        PokemonVolatileStatus::PERISH2 => PERISH_PENALTY[2] as int,
        PokemonVolatileStatus::PERISH1 => PERISH_PENALTY[3] as int,
        _ => 0,
    }
}

/// What the volatile statuses in `list` are worth together.
pub open spec fn volatiles_total(list: Seq<PokemonVolatileStatus>) -> int
    decreases list.len(),
{
    if list.len() == 0 {
        0
    } else {
        volatiles_total(list.drop_last()) + volatile_points(list.last())
    }
}

/// What the stat stages of a side are worth.
pub open spec fn boost_value(side: Side, physical: real, special: real) -> real {
    multiplier(side.attack_boost) * POKEMON_ATTACK_BOOST as real * physical + multiplier(
        side.defense_boost,
    ) * POKEMON_DEFENSE_BOOST as real + multiplier(side.special_attack_boost)
        * POKEMON_SPECIAL_ATTACK_BOOST as real * special + multiplier(side.special_defense_boost)
        * POKEMON_SPECIAL_DEFENSE_BOOST as real + multiplier(side.speed_boost)
        * POKEMON_SPEED_BOOST as real
}

/// What the first `n` team members that still stand are worth.
pub open spec fn team_value(side: Side, n: int) -> real
    decreases n,
{
    if n <= 0 {
        0 as real
    } else {
        team_value(side, n - 1) + if side.pokemon@[n - 1].hp > 0 {
            pokemon_value(side.pokemon@[n - 1])
        } else {
            0 as real
        }
    }
}

/// How many of the first `n` team members still stand.
pub open spec fn standing(side: Side, n: int) -> int
    decreases n,
{
    if n <= 0 {
        0
    } else {
        standing(side, n - 1) + if side.pokemon@[n - 1].hp > 0 {
            1int
        } else {
            0int
        }
    }
}

/// What the conditions on a side are worth to it; spikes hurt everybody who
/// still stands.
pub open spec fn condition_points(side: Side) -> int {
    let c = side.side_conditions;
    c.reflect * REFLECT + c.light_screen * LIGHT_SCREEN + c.safeguard * SAFE_GUARD + c.spikes
        * SPIKES * standing(side, TEAM_SIZE as int)
}

/// The larger of two numbers.
pub open spec fn larger(a: real, b: real) -> real {
    if a < b {
        b
    } else {
        a
    }
}

/// What the position is worth to the player of `own`. `foe_profile` tells how
/// hard attacks of each type hit the active Pokemon of `foe`.
pub open spec fn seat_value(own: Side, foe: Side, foe_profile: TypeProfile) -> real {
    let a = own.active();
    let b = foe.active();
    let physical = threat(a, foe_profile, MoveCategory::Physical);
    let special = threat(a, foe_profile, MoveCategory::Special);
    team_value(own, TEAM_SIZE as int) + (if a.hp > 0 {
        volatiles_total(own.volatile_statuses@) as real + boost_value(own, physical, special)
    } else {
        0 as real
    }) + condition_points(own) as real + (if a.hp > 0 && physical == 0 as real && special
        == 0 as real {
        HOPELESS_MATCHUP as real
    } else {
        0 as real
    }) + (if a.hp > 0 && b.hp > 0 && a.speed > b.speed && larger(physical, special) > 0 as real {
        SPEED_TIER_BONUS as real * larger(physical, special)
    } else {
        0 as real
    }) + (if own.future_sight.0 > 0 {
        FUTURE_SIGHT_INCOMING as real
    } else {
        0 as real
    })
}

/// The value of a position for the first player. The profiles tell how hard
/// attacks of each type hit the two active Pokemon.
pub open spec fn position_value(state: State, one: TypeProfile, two: TypeProfile) -> real {
    seat_value(state.side_one, state.side_two, two) - seat_value(
        state.side_two,
        state.side_one,
        one,
    )
}

/// The evaluation is defined for this side: the stat stages of an active Pokemon
/// that still stands exist, and everybody who stands has a maximum of hit points.
pub open spec fn scorable_side(side: Side) -> bool {
    &&& side.wf()
    &&& side.active().hp > 0 ==> stages_ok(side)
    &&& forall|i: int|
        0 <= i < TEAM_SIZE && (#[trigger] side.pokemon@[i]).hp > 0 ==> side.pokemon@[i].maxhp > 0
}

/// What a burn costs, over the denominator two.
pub fn evaluate_burned(pokemon: &Pokemon) -> (r: Ratio)
    ensures
        r.wf(),
        r.den == 2,
        -(50 * u64::MAX) <= r.num <= 0,
        r@ == burn_cost(*pokemon),
{
    let mut count: i128 = 0;
    let mut i: usize = 0;
    while i < pokemon.moves.len()
        invariant
            i <= pokemon.moves@.len(),
            0 <= count <= i,
            count == physical_count(pokemon.moves@, i as int),
        decreases pokemon.moves@.len() - i,
    {
        if pokemon.moves[i].choice.category == MoveCategory::Physical {
            count += 1;
        }
        i += 1;
    }
    if pokemon.special_attack > pokemon.attack {
        Ratio::new(-(25 * count), 2)
    } else {
        proof {
            lemma_cancel(-(25 * count), 1, 2);
        }
        Ratio::new(-(50 * count), 2)
    }
}

/// Whether a Pokemon knows Sleep Talk.
pub fn has_sleep_talk(pokemon: &Pokemon) -> (r: bool)
    ensures
        r == knows_sleep_talk(*pokemon),
{
    let mut i: usize = 0;
    while i < pokemon.moves.len()
        invariant
            i <= pokemon.moves@.len(),
            forall|k: int| 0 <= k < i ==> (#[trigger] pokemon.moves@[k]).id != Choices::SLEEPTALK,
        decreases pokemon.moves@.len() - i,
    {
        if pokemon.moves[i].id == Choices::SLEEPTALK {
            assert(pokemon.moves@[i as int].id == Choices::SLEEPTALK);
            return true;
        }
        i += 1;
    }
    false
}

/// Whether a Pokemon knows a move that restores hit points.
pub fn has_recovery_move(pokemon: &Pokemon) -> (r: bool)
    ensures
        r == knows_recovery(*pokemon),
{
    let mut i: usize = 0;
    while i < pokemon.moves.len()
        invariant
            i <= pokemon.moves@.len(),
            forall|k: int| 0 <= k < i ==> !restores((#[trigger] pokemon.moves@[k]).id),
        decreases pokemon.moves@.len() - i,
    {
        if matches!(pokemon.moves[i].id, Choices::REST | Choices::RECOVER | Choices::SOFTBOILED
            | Choices::MILKDRINK | Choices::MOONLIGHT | Choices::MORNINGSUN | Choices::SYNTHESIS) {
            assert(restores(pokemon.moves@[i as int].id));
            return true;
        }
        i += 1;
    }
    false
}

/// How well attacks hit.
#[derive(Clone, Copy, Debug)]
pub struct Threat {
    pub physical: Ratio,
    pub special: Ratio,
}

/// How well the attacks of `attacker` hit a Pokemon with the type profile
/// `profile`.
pub fn threat_vs(attacker: &Pokemon, profile: &TypeProfile) -> (r: Threat)
    requires
        profile.wf(),
    ensures
        r.physical.wf(),
        r.special.wf(),
        r.physical.den == 4,
        r.special.den == 4,
        0 <= r.physical.num <= 4,
        0 <= r.special.num <= 4,
        r.physical@ == threat(*attacker, *profile, MoveCategory::Physical),
        r.special@ == threat(*attacker, *profile, MoveCategory::Special),
{
    let mut best_phys: u8 = 0;
    let mut best_spec: u8 = 0;
    let mut i: usize = 0;
    while i < attacker.moves.len()
        invariant
            i <= attacker.moves@.len(),
            profile.wf(),
            best_phys == best_quarters(*attacker, *profile, MoveCategory::Physical, i as int),
            best_spec == best_quarters(*attacker, *profile, MoveCategory::Special, i as int),
        decreases attacker.moves@.len() - i,
    {
        let mv = &attacker.moves[i];
        if mv.id != Choices::NONE {
            let q: u8 = profile.effectiveness(mv.choice.move_type);
            match mv.choice.category {
                MoveCategory::Physical => {
                    if q > best_phys {
                        best_phys = q;
                    }
                },
                MoveCategory::Special => {
                    if q > best_spec {
                        best_spec = q;
                    }
                },
                _ => {},
            }
        }
        i += 1;
    }
    Threat {
        physical: Ratio::new(count_quarters(best_phys), 4),
        special: Ratio::new(count_quarters(best_spec), 4),
    }
}

/// What an effectiveness counts as a threat, both in quarters.
fn count_quarters(q: u8) -> (r: i128)
    ensures
        r == threat_quarters(q as int),
        0 <= r <= 4,
{
    if q > 4 {
        4
    } else if q > 2 {
        2
    } else {
        q as i128
    }
}

/// Twice what status, item and recovery move are worth.
fn kit_halves(pokemon: &Pokemon) -> (r: i128)
    ensures
        r as real / 2 as real == status_value(*pokemon) + kit_points(*pokemon) as real,
        -(50 * u64::MAX) - 200 <= r <= 200,
{
    let mut halves: i128 = match pokemon.status {
        PokemonStatus::BURN => evaluate_burned(pokemon).num,
        PokemonStatus::FREEZE => 2 * POKEMON_FROZEN,
        PokemonStatus::SLEEP => if has_sleep_talk(pokemon) {
            2 * POKEMON_ASLEEP_TALKING
        } else {
            2 * POKEMON_ASLEEP
        },
        PokemonStatus::PARALYZE => 2 * POKEMON_PARALYZED,
        PokemonStatus::TOXIC => 2 * POKEMON_TOXIC,
        PokemonStatus::POISON => 2 * POKEMON_POISONED,
        PokemonStatus::NONE => 0,
    };
    assert(halves as real / 2 as real == status_value(*pokemon));
    let mut kit: i128 = 0;
    if pokemon.item != Items::NONE {
        kit += HELD_ITEM;
    }
    if has_recovery_move(pokemon) {
        kit += POKEMON_RECOVERY_MOVE;
    }
    halves += 2 * kit;
    halves
}

/// What a team member that still stands is worth.
pub fn evaluate_pokemon(pokemon: &Pokemon) -> (r: Ratio)
    requires
        pokemon.maxhp > 0,
    ensures
        r.wf(),
        r@ == pokemon_value(*pokemon),
{
    let m: i128 = pokemon.maxhp as i128;
    let hp: i128 = pokemon.hp as i128;
    let halves: i128 = kit_halves(pokemon);
    assert(-0x1_0000_0000_0000_0000_0000_0000_0000 <= m * halves
        <= 0x1_0000_0000_0000_0000_0000_0000_0000) by (nonlinear_arith)
        requires
            0 < m <= 32767,
            -0x1_0000_0000_0000_0000_0000 <= halves <= 0x1_0000_0000_0000_0000_0000,
    ;
    let num: i128 = 200 * hp + m * halves;
    let den: i128 = 2 * m;
    let alive: i128 = 60 * den;
    proof {
        lemma_add_over(200 * hp, m * halves, den as int);
        lemma_cancel(100 * hp, m as int, 2);
        lemma_cancel(halves as int, 2, m as int);
        assert(halves * m == m * halves) by (nonlinear_arith);
        assert(2 * m == den && m * 2 == den);
        assert(num as real / den as real == raw_value(*pokemon));
        lemma_order_over(num as int, 0, den as int);
        lemma_zero_over(den as int);
        lemma_cancel(60, 1, den as int);
        lemma_over_one(60);
        assert(alive as real / den as real == POKEMON_ALIVE as real);
        lemma_add_over(num as int, alive as int, den as int);
    }
    if num < 0 {
        Ratio::new(alive, den)
    } else {
        Ratio::new(num + alive, den)
    }
}

/// What the volatile statuses of a side are worth to its active Pokemon.
fn evaluate_volatiles(side: &Side) -> (r: i128)
    ensures
        r == volatiles_total(side.volatile_statuses@),
        -(80 * u64::MAX) <= r <= 40 * u64::MAX,
{
    let mut score: i128 = 0;
    let mut i: usize = 0;
    while i < side.volatile_statuses.len()
        invariant
            i <= side.volatile_statuses@.len(),
            score == volatiles_total(side.volatile_statuses@.take(i as int)),
            -(80 * i) <= score <= 40 * i,
        decreases side.volatile_statuses@.len() - i,
    {
        assert(side.volatile_statuses@.take(i + 1).drop_last()
            =~= side.volatile_statuses@.take(i as int));
        score += match side.volatile_statuses[i] {
            PokemonVolatileStatus::LEECHSEED => LEECH_SEED,
            PokemonVolatileStatus::SUBSTITUTE => SUBSTITUTE,
            PokemonVolatileStatus::CONFUSION => CONFUSION,
            PokemonVolatileStatus::ENCORE => ENCORE_PENALTY,
            PokemonVolatileStatus::DISABLE => DISABLE_PENALTY,
            PokemonVolatileStatus::MUSTRECHARGE => RECHARGE_PENALTY,
            PokemonVolatileStatus::PARTIALLYTRAPPED => PARTIALLY_TRAPPED_PENALTY,
            PokemonVolatileStatus::FORESIGHT => FORESIGHT_PENALTY,
            PokemonVolatileStatus::PERISH4 => PERISH_PENALTY[0],
            PokemonVolatileStatus::PERISH3 => PERISH_PENALTY[1],
            PokemonVolatileStatus::PERISH2 => PERISH_PENALTY[2],
            PokemonVolatileStatus::PERISH1 => PERISH_PENALTY[3],
            _ => 0,
        };
        i += 1;
    }
    assert(side.volatile_statuses@.take(i as int) =~= side.volatile_statuses@);
    score
}

/// What the stat stages of a side are worth.
fn evaluate_boosts(side: &Side, t: &Threat) -> (r: Score)
    requires
        stages_ok(*side),
        t.physical.wf(),
        t.special.wf(),
        0 <= t.physical.num <= t.physical.den <= 4,
        0 <= t.special.num <= t.special.den <= 4,
    ensures
        r.wf(),
        r@ == boost_value(*side, t.physical@, t.special@),
{
    let mut score = Score::zero();
    score.add_ratio(boost_credit(side.attack_boost, POKEMON_ATTACK_BOOST, t.physical));
    score.add_ratio(full_credit(side.defense_boost, POKEMON_DEFENSE_BOOST));
    score.add_ratio(
        boost_credit(side.special_attack_boost, POKEMON_SPECIAL_ATTACK_BOOST, t.special),
    );
    score.add_ratio(full_credit(side.special_defense_boost, POKEMON_SPECIAL_DEFENSE_BOOST));
    score.add_ratio(full_credit(side.speed_boost, POKEMON_SPEED_BOOST));
    score
}

/// What the team members that still stand are worth, and how many they are.
fn evaluate_team(side: &Side) -> (r: (Score, i128))
    requires
        scorable_side(*side),
    ensures
        r.0.wf(),
        r.0@ == team_value(*side, TEAM_SIZE as int),
        r.1 == standing(*side, TEAM_SIZE as int),
        0 <= r.1 <= TEAM_SIZE,
{
    let mut score = Score::zero();
    let mut alive: i128 = 0;
    let mut i: usize = 0;
    while i < TEAM_SIZE
        invariant
            i <= TEAM_SIZE,
            scorable_side(*side),
            score.wf(),
            score@ == team_value(*side, i as int),
            alive == standing(*side, i as int),
            0 <= alive <= i,
        decreases TEAM_SIZE - i,
    {
        if side.pokemon[i].hp > 0 {
            alive += 1;
            score.add_ratio(evaluate_pokemon(&side.pokemon[i]));
        }
        i += 1;
    }
    (score, alive)
}

/// What the position is worth to the player of `own`.
fn evaluate_seat(own: &Side, foe: &Side, foe_profile: &TypeProfile) -> (r: Score)
    requires
        scorable_side(*own),
        scorable_side(*foe),
        foe_profile.wf(),
    ensures
        r.wf(),
        r@ == seat_value(*own, *foe, *foe_profile),
{
    let a = &own.pokemon[own.active_index];
    let b = &foe.pokemon[foe.active_index];
    let t = threat_vs(a, foe_profile);
    let (mut score, alive) = evaluate_team(own);
    if a.hp > 0 {
        score.add_whole(evaluate_volatiles(own));
        let boosts = evaluate_boosts(own, &t);
        score.add_score(&boosts);
    }
    let c = &own.side_conditions;
    let spikes: i128 = c.spikes as i128 * SPIKES;
    assert(-10000 <= spikes * alive <= 10000) by (nonlinear_arith)
        requires
            -1536 <= spikes <= 1536,
            0 <= alive <= 6,
    ;
    score.add_whole(
        c.reflect as i128 * REFLECT + c.light_screen as i128 * LIGHT_SCREEN + c.safeguard as i128
            * SAFE_GUARD + spikes * alive,
    );
    proof {
        lemma_zero_over(4);
        lemma_order_over(0, t.physical.num as int, 4);
        lemma_order_over(0, t.special.num as int, 4);
        lemma_order_over(t.physical.num as int, t.special.num as int, 4);
    }
    if a.hp > 0 && t.physical.num == 0 && t.special.num == 0 {
        score.add_whole(HOPELESS_MATCHUP);
    }
    assert(larger(t.physical@, t.special@) == if t.physical.num < t.special.num {
        t.special@
    } else {
        t.physical@
    });
    assert((a.hp > 0 && t.physical.num == 0 && t.special.num == 0) == (a.hp > 0 && t.physical@
        == 0 as real && t.special@ == 0 as real));
    let best: i128 = if t.physical.num < t.special.num {
        t.special.num
    } else {
        t.physical.num
    };
    if a.hp > 0 && b.hp > 0 && a.speed > b.speed && best > 0 {
        assert((20 * best) as real / 4 as real == 20 as real * (best as real / 4 as real));
        score.add_ratio(Ratio::new(SPEED_TIER_BONUS * best, 4));
    }
    if own.future_sight.0 > 0 {
        score.add_whole(FUTURE_SIGHT_INCOMING);
    }
    score
}

/// The value of a position for the first player. `one` and `two` tell how hard
/// attacks of each type hit the active Pokemon of the two sides.
pub fn evaluate(state: &State, one: &TypeProfile, two: &TypeProfile) -> (r: Score)
    requires
        scorable_side(state.side_one),
        scorable_side(state.side_two),
        one.wf(),
        two.wf(),
    ensures
        r.wf(),
        r@ == position_value(*state, *one, *two),
{
    let mut score = evaluate_seat(&state.side_one, &state.side_two, two);
    let other = evaluate_seat(&state.side_two, &state.side_one, one);
    score.sub_score(&other);
    score
}

} // verus!
