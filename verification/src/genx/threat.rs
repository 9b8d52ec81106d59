//! How hard an attacker can hit a defender, as a share of what it takes to
//! knock the defender out in two hits.
#[allow(unused_imports)]
use crate::genx::formula::lemma_formula;
use crate::genx::switches::EvalOff;
use crate::matchup::TypeProfile;
use crate::numbers::Ratio;
#[allow(unused_imports)]
use crate::numbers::{
    lemma_cancel, lemma_order_over, lemma_over_one, lemma_real_mul, lemma_zero_over, over,
};
use crate::state::{Choice, Move, Pokemon};
use crate::types::{Abilities, Choices, Items, MoveCategory, PokemonStatus, PokemonType};
use vstd::prelude::*;

verus! {

/// The refined model is on: it sees statuses, abilities and items.
pub open spec fn refined(off: EvalOff) -> bool {
    !off.threatv2
}

/// The attacker has a status that the refined model sees.
pub open spec fn statused(a: Pokemon, off: EvalOff) -> bool {
    refined(off) && a.status != PokemonStatus::NONE
}

/// The attacker is burned and the refined model sees it.
pub open spec fn burned(a: Pokemon, off: EvalOff) -> bool {
    refined(off) && a.status == PokemonStatus::BURN
}

/// The attacker is poisoned and the refined model sees it.
pub open spec fn poisoned(a: Pokemon, off: EvalOff) -> bool {
    refined(off) && (a.status == PokemonStatus::POISON || a.status == PokemonStatus::TOXIC)
}

/// Guts is at work.
pub open spec fn guts(a: Pokemon, off: EvalOff) -> bool {
    a.ability == Abilities::GUTS && statused(a, off)
}

/// What a status does to the attacking stat through an ability, in halves.
pub open spec fn stat_halves(a: Pokemon, physical: bool, off: EvalOff) -> int {
    if physical {
        if guts(a, off) || (poisoned(a, off) && a.ability == Abilities::TOXICBOOST) {
            3
        } else {
            2
        }
    } else {
        if burned(a, off) && a.ability == Abilities::FLAREBOOST {
            3
        } else {
            2
        }
    }
}

/// Supreme Overlord adds a tenth for every fallen ally.
pub open spec fn overlord_tenths(a: Pokemon, fainted: int, off: EvalOff) -> int {
    if a.ability == Abilities::SUPREMEOVERLORD && !off.supremeoverlord {
        10 + fainted
    } else {
        10
    }
}

/// Facade is twice as strong with a status.
pub open spec fn power(a: Pokemon, m: Move, off: EvalOff) -> int {
    if m.id == Choices::FACADE && statused(a, off) {
        2 * m.choice.base_power
    } else {
        m.choice.base_power as int
    }
}

/// The bonus for a move of the attacker's own type, in halves.
pub open spec fn stab_halves(a: Pokemon, m: Move, off: EvalOff) -> int {
    if m.choice.move_type == a.types.0 || m.choice.move_type == a.types.1 {
        if refined(off) && a.ability == Abilities::ADAPTABILITY {
            4
        } else {
            3
        }
    } else {
        2
    }
}

/// What an ability of the attacker makes of an effectiveness, in quarters:
/// Tinted Lens doubles a resisted hit, Neuroforce adds to a strong one.
pub open spec fn eff_adjust_quarters(ability: Abilities, quarters: int) -> int {
    if ability == Abilities::TINTEDLENS && 0 < quarters < 4 {
        8
    } else if ability == Abilities::NEUROFORCE && quarters > 4 {
        5
    } else {
        4
    }
}

/// The effectiveness that the hit has in the end, in sixteenths.
pub open spec fn eff_sixteenths(a: Pokemon, quarters: int, off: EvalOff) -> int {
    quarters * if refined(off) {
        eff_adjust_quarters(a.ability, quarters)
    } else {
        4
    }
}

/// A burn halves physical damage, but not that of Guts or Facade; in halves.
pub open spec fn burn_halves(a: Pokemon, m: Move, physical: bool, off: EvalOff) -> int {
    if burned(a, off) && physical && !guts(a, off) && m.id != Choices::FACADE {
        1
    } else {
        2
    }
}

/// What an ability of the attacker does to the power of a move, in tenths.
pub open spec fn ability_tenths(ability: Abilities, c: Choice) -> int {
    match ability {
        Abilities::TECHNICIAN => if c.base_power <= 60 {
            15
        } else {
            10
        },
        Abilities::TOUGHCLAWS => if c.flags.contact {
            13
        } else {
            10
        },
        Abilities::SHARPNESS => if c.flags.slicing {
            15
        } else {
            10
        },
        Abilities::STRONGJAW => if c.flags.bite {
            15
        } else {
            10
        },
        Abilities::IRONFIST => if c.flags.punch {
            12
        } else {
            10
        },
        Abilities::SHEERFORCE => if c.secondaries is Some {
            13
        } else {
            10
        },
        Abilities::HUGEPOWER | Abilities::PUREPOWER => if c.category == MoveCategory::Physical {
            20
        } else {
            10
        },
        _ => 10,
    }
}

/// What the attacker's item does to a hit, in tenths.
pub open spec fn item_tenths(item: Items, physical: bool, sixteenths: int) -> int {
    if item == Items::CHOICEBAND && physical {
        15
    } else if item == Items::CHOICESPECS && !physical {
        15
    } else if item == Items::LIFEORB {
        13
    } else if item == Items::EXPERTBELT && sixteenths > 16 {
        12
    } else {
        10
    }
}

/// What the defender's ability does to a hit, in quarters.
pub open spec fn guard_quarters(
    d: Pokemon,
    move_type: PokemonType,
    physical: bool,
    sixteenths: int,
) -> int {
    if d.ability == Abilities::THICKFAT && (move_type == PokemonType::FIRE || move_type
        == PokemonType::ICE) {
        2
    } else if (d.ability == Abilities::MULTISCALE || d.ability == Abilities::SHADOWSHIELD) && d.hp
        == d.maxhp {
        2
    } else if (d.ability == Abilities::FILTER || d.ability == Abilities::SOLIDROCK || d.ability
        == Abilities::PRISMARMOR) && sixteenths >= 32 {
        3
    } else if d.ability == Abilities::ICESCALES && !physical {
        2
    } else {
        4
    }
}

/// A stat or hit point total that something is divided by.
pub open spec fn at_least_one(n: int) -> int {
    if n < 1 {
        1
    } else {
        n
    }
}

/// The attacker's stat that a move uses.
pub open spec fn attacking_stat(a: Pokemon, physical: bool) -> int {
    if physical {
        a.attack as int
    } else {
        a.special_attack as int
    }
}

/// The defender's stat that a move meets.
pub open spec fn defending_stat(d: Pokemon, physical: bool) -> int {
    at_least_one(
        if physical {
            d.defense as int
        } else {
            d.special_defense as int
        },
    )
}

/// The damage of a hit by the simplified formula for level 100. `quarters` is
/// the effectiveness of the move's type against the defender.
pub open spec fn damage(
    a: Pokemon,
    d: Pokemon,
    m: Move,
    quarters: int,
    fainted: int,
    off: EvalOff,
) -> real {
    let physical = m.choice.category == MoveCategory::Physical;
    let e = eff_sixteenths(a, quarters, off);
    let stat = attacking_stat(a, physical) as real * over(stat_halves(a, physical, off), 2) * over(
        overlord_tenths(a, fainted, off),
        10,
    );
    over(84, 100) * power(a, m, off) as real * (stat / defending_stat(d, physical) as real) * over(
        stab_halves(a, m, off),
        2,
    ) * over(e, 16) * over(burn_halves(a, m, physical, off), 2) * (if refined(off) {
        over(ability_tenths(a.ability, m.choice), 10) * over(
            item_tenths(a.item, physical, e),
            10,
        ) * over(guard_quarters(d, m.choice.move_type, physical, e), 4)
    } else {
        1 as real
    })
}

/// The threat of a hit: its share of half the defender's hit points, at most
/// one.
pub open spec fn hit_threat(
    a: Pokemon,
    d: Pokemon,
    m: Move,
    quarters: int,
    fainted: int,
    off: EvalOff,
) -> real {
    let share = damage(a, d, m, quarters, fainted, off) / at_least_one(d.maxhp as int) as real / over(1, 2);
    if share < 1 as real {
        share
    } else {
        1 as real
    }
}

/// The strongest threat among the first `n` moves of one category, zero if there
/// is none.
pub open spec fn best_threat(
    a: Pokemon,
    d: Pokemon,
    profile: TypeProfile,
    fainted: int,
    off: EvalOff,
    category: MoveCategory,
    n: int,
) -> real
    decreases n,
{
    if n <= 0 {
        0 as real
    } else {
        let rest = best_threat(a, d, profile, fainted, off, category, n - 1);
        let m = a.moves@[n - 1];
        if m.id != Choices::NONE && m.choice.category == category {
            let t = hit_threat(a, d, m, profile.against(m.choice.move_type), fainted, off);
            if rest < t {
                t
            } else {
                rest
            }
        } else {
            rest
        }
    }
}

/// The strongest physical threat.
pub open spec fn physical_threat(
    a: Pokemon,
    d: Pokemon,
    profile: TypeProfile,
    fainted: int,
    off: EvalOff,
) -> real {
    best_threat(a, d, profile, fainted, off, MoveCategory::Physical, a.moves@.len() as int)
}

/// The strongest special threat.
pub open spec fn special_threat(
    a: Pokemon,
    d: Pokemon,
    profile: TypeProfile,
    fainted: int,
    off: EvalOff,
) -> real {
    best_threat(a, d, profile, fainted, off, MoveCategory::Special, a.moves@.len() as int)
}

/// The Pokemon has something to do besides attacking.
pub open spec fn has_status_option(a: Pokemon) -> bool {
    exists|i: int|
        0 <= i < a.moves@.len() && (#[trigger] a.moves@[i]).id != Choices::NONE
            && a.moves@[i].choice.category == MoveCategory::Status
}

/// Denominator of a threat: the product of the denominators of all factors.
pub const THREAT_SCALE: i128 = 12_800_000;

/// The denominator that all threats against `d` of one category share.
pub open spec fn threat_den(d: Pokemon, physical: bool) -> int {
    THREAT_SCALE * (defending_stat(d, physical) * at_least_one(d.maxhp as int))
}

/// The factors of a hit that do not depend on power and stats.
pub open spec fn factor_product(
    a: Pokemon,
    d: Pokemon,
    m: Move,
    quarters: int,
    fainted: int,
    off: EvalOff,
) -> int {
    let physical = m.choice.category == MoveCategory::Physical;
    let e = eff_sixteenths(a, quarters, off);
    stat_halves(a, physical, off) * overlord_tenths(a, fainted, off) * stab_halves(a, m, off) * e
        * burn_halves(a, m, physical, off) * (if refined(off) {
        ability_tenths(a.ability, m.choice) * item_tenths(a.item, physical, e) * guard_quarters(
            d,
            m.choice.move_type,
            physical,
            e,
        )
    } else {
        400
    })
}

/// The numerator of a hit's share over the common denominator.
pub open spec fn hit_num(
    a: Pokemon,
    d: Pokemon,
    m: Move,
    quarters: int,
    fainted: int,
    off: EvalOff,
) -> int {
    42 * (power(a, m, off) * attacking_stat(a, m.choice.category == MoveCategory::Physical)
        * factor_product(a, d, m, quarters, fainted, off))
}

/// What an ability of the attacker makes of an effectiveness, in quarters.
pub fn threat_eff_adjust(ability: Abilities, quarters: u8) -> (r: i128)
    ensures
        r == eff_adjust_quarters(ability, quarters as int),
        4 <= r <= 8,
{
    match ability {
        Abilities::TINTEDLENS => if quarters > 0 && quarters < 4 {
            8
        } else {
            4
        },
        Abilities::NEUROFORCE => if quarters > 4 {
            5
        } else {
            4
        },
        _ => 4,
    }
}

/// What an ability of the attacker does to the power of a move, in tenths.
pub fn threat_ability_bp_mult(ability: Abilities, choice: &Choice) -> (r: i128)
    ensures
        r == ability_tenths(ability, *choice),
        10 <= r <= 20,
{
    match ability {
        Abilities::TECHNICIAN => if choice.base_power <= 60 {
            15
        } else {
            10
        },
        Abilities::TOUGHCLAWS => if choice.flags.contact {
            13
        } else {
            10
        },
        Abilities::SHARPNESS => if choice.flags.slicing {
            15
        } else {
            10
        },
        Abilities::STRONGJAW => if choice.flags.bite {
            15
        } else {
            10
        },
        Abilities::IRONFIST => if choice.flags.punch {
            12
        } else {
            10
        },
        Abilities::SHEERFORCE => if choice.secondaries.is_some() {
            13
        } else {
            10
        },
        Abilities::HUGEPOWER | Abilities::PUREPOWER => if choice.category
            == MoveCategory::Physical {
            20
        } else {
            10
        },
        _ => 10,
    }
}

fn item_factor(item: Items, physical: bool, sixteenths: i128) -> (r: i128)
    ensures
        r == item_tenths(item, physical, sixteenths as int),
        10 <= r <= 15,
{
    match item {
        Items::CHOICEBAND => if physical {
            15
        } else {
            10
        },
        Items::CHOICESPECS => if physical {
            10
        } else {
            15
        },
        Items::LIFEORB => 13,
        Items::EXPERTBELT => if sixteenths > 16 {
            12
        } else {
            10
        },
        _ => 10,
    }
}

fn guard_factor(
    defender: &Pokemon,
    move_type: PokemonType,
    physical: bool,
    sixteenths: i128,
) -> (r: i128)
    ensures
        r == guard_quarters(*defender, move_type, physical, sixteenths as int),
        2 <= r <= 4,
{
    match defender.ability {
        Abilities::THICKFAT => if move_type == PokemonType::FIRE || move_type == PokemonType::ICE {
            2
        } else {
            4
        },
        Abilities::MULTISCALE | Abilities::SHADOWSHIELD => if defender.hp == defender.maxhp {
            2
        } else {
            4
        },
        Abilities::FILTER | Abilities::SOLIDROCK | Abilities::PRISMARMOR => if sixteenths >= 32 {
            3
        } else {
            4
        },
        Abilities::ICESCALES => if physical {
            4
        } else {
            2
        },
        _ => 4,
    }
}

fn stat_factor(attacker: &Pokemon, physical: bool, off: &EvalOff) -> (r: i128)
    ensures
        r == stat_halves(*attacker, physical, *off),
        2 <= r <= 3,
{
    let v2 = !off.threatv2;
    if physical {
        let guts_on = attacker.ability == Abilities::GUTS && v2 && attacker.status
            != PokemonStatus::NONE;
        let toxic_boost = v2 && matches!(attacker.status, PokemonStatus::POISON
            | PokemonStatus::TOXIC) && attacker.ability == Abilities::TOXICBOOST;
        if guts_on || toxic_boost {
            3
        } else {
            2
        }
    } else if v2 && attacker.status == PokemonStatus::BURN && attacker.ability
        == Abilities::FLAREBOOST {
        3
    } else {
        2
    }
}

fn overlord_factor(attacker: &Pokemon, fainted: u8, off: &EvalOff) -> (r: i128)
    ensures
        r == overlord_tenths(*attacker, fainted as int, *off),
        10 <= r <= 265,
{
    if attacker.ability == Abilities::SUPREMEOVERLORD && !off.supremeoverlord {
        10 + fainted as i128
    } else {
        10
    }
}

fn stab_factor(attacker: &Pokemon, mv: &Move, off: &EvalOff) -> (r: i128)
    ensures
        r == stab_halves(*attacker, *mv, *off),
        2 <= r <= 4,
{
    if mv.choice.move_type == attacker.types.0 || mv.choice.move_type == attacker.types.1 {
        if !off.threatv2 && attacker.ability == Abilities::ADAPTABILITY {
            4
        } else {
            3
        }
    } else {
        2
    }
}

fn burn_factor(attacker: &Pokemon, mv: &Move, physical: bool, off: &EvalOff) -> (r: i128)
    ensures
        r == burn_halves(*attacker, *mv, physical, *off),
        1 <= r <= 2,
{
    let burned_now = !off.threatv2 && attacker.status == PokemonStatus::BURN;
    if burned_now && physical && attacker.ability != Abilities::GUTS && mv.id != Choices::FACADE {
        1
    } else {
        2
    }
}

fn power_of(attacker: &Pokemon, mv: &Move, off: &EvalOff) -> (r: i128)
    ensures
        r == power(*attacker, *mv, *off),
        -0x1_0000_0000 <= r <= 0x1_0000_0000,
{
    if mv.id == Choices::FACADE && !off.threatv2 && attacker.status != PokemonStatus::NONE {
        2 * mv.choice.base_power as i128
    } else {
        mv.choice.base_power as i128
    }
}

proof fn lemma_bound(a: int, b: int, x: int, y: int)
    requires
        0 <= a <= x,
        0 <= b <= y,
    ensures
        0 <= a * b <= x * y,
{
    assert(0 <= a * b <= x * y) by (nonlinear_arith)
        requires
            0 <= a <= x,
            0 <= b <= y,
    ;
}

/// The numerator of a hit's share over the common denominator.
fn hit_numerator(
    attacker: &Pokemon,
    defender: &Pokemon,
    mv: &Move,
    quarters: u8,
    fainted: u8,
    off: &EvalOff,
) -> (r: i128)
    ensures
        r == hit_num(*attacker, *defender, *mv, quarters as int, fainted as int, *off),
{
    let physical = mv.choice.category == MoveCategory::Physical;
    let f_stat: i128 = stat_factor(attacker, physical, off);
    let f_over: i128 = overlord_factor(attacker, fainted, off);
    let f_stab: i128 = stab_factor(attacker, mv, off);
    let adjust: i128 = if off.threatv2 {
        4
    } else {
        threat_eff_adjust(attacker.ability, quarters)
    };
    proof {
        lemma_bound(quarters as int, adjust as int, 255, 8);
    }
    let e: i128 = quarters as i128 * adjust;
    let f_burn: i128 = burn_factor(attacker, mv, physical, off);
    let f_item: i128;
    if off.threatv2 {
        f_item = 400;
    } else {
        let x: i128 = threat_ability_bp_mult(attacker.ability, &mv.choice);
        let y: i128 = item_factor(attacker.item, physical, e);
        let z: i128 = guard_factor(defender, mv.choice.move_type, physical, e);
        proof {
            lemma_bound(x as int, y as int, 20, 15);
            lemma_bound(x * y, z as int, 300, 4);
        }
        f_item = x * y * z;
    }
    proof {
        lemma_bound(f_stat as int, f_over as int, 3, 265);
        lemma_bound(f_stat * f_over, f_stab as int, 795, 4);
        lemma_bound(f_stat * f_over * f_stab, e as int, 3180, 2040);
        lemma_bound(f_stat * f_over * f_stab * e, f_burn as int, 6487200, 2);
        lemma_bound(f_stat * f_over * f_stab * e * f_burn, f_item as int, 12974400, 1200);
    }
    let factors: i128 = f_stat * f_over * f_stab * e * f_burn * f_item;
    assert(factors == factor_product(
        *attacker,
        *defender,
        *mv,
        quarters as int,
        fainted as int,
        *off,
    ));
    let stat: i128 = if physical {
        attacker.attack as i128
    } else {
        attacker.special_attack as i128
    };
    let bp: i128 = power_of(attacker, mv, off);
    assert(-0x8000_0000_0000 <= bp * stat <= 0x8000_0000_0000) by (nonlinear_arith)
        requires
            -0x1_0000_0000 <= bp <= 0x1_0000_0000,
            -0x8000 <= stat <= 0x7fff,
    ;
    let base: i128 = bp * stat;
    assert(-0x8000_0000_0000 * 15569280000 <= base * factors <= 0x8000_0000_0000 * 15569280000)
        by (nonlinear_arith)
        requires
            -0x8000_0000_0000 <= base <= 0x8000_0000_0000,
            0 <= factors <= 15569280000,
    ;
    42 * (base * factors)
}

/// The share of a hit is its numerator over the common denominator.
proof fn lemma_share(
    a: Pokemon,
    d: Pokemon,
    m: Move,
    quarters: int,
    fainted: int,
    off: EvalOff,
)
    ensures
        threat_den(d, m.choice.category == MoveCategory::Physical) > 0,
        damage(a, d, m, quarters, fainted, off) / at_least_one(d.maxhp as int) as real / over(1, 2)
            == over(
            hit_num(a, d, m, quarters, fainted, off),
            threat_den(d, m.choice.category == MoveCategory::Physical),
        ),
{
    let physical = m.choice.category == MoveCategory::Physical;
    let p = power(a, m, off);
    let s = attacking_stat(a, physical);
    let h = stat_halves(a, physical, off);
    let o = overlord_tenths(a, fainted, off);
    let st = stab_halves(a, m, off);
    let e = eff_sixteenths(a, quarters, off);
    let b = burn_halves(a, m, physical, off);
    let x = ability_tenths(a.ability, m.choice);
    let y = item_tenths(a.item, physical, e);
    let z = guard_quarters(d, m.choice.move_type, physical, e);
    let f = if refined(off) {
        x * y * z
    } else {
        400
    };
    let dd = defending_stat(d, physical);
    let hp = at_least_one(d.maxhp as int);
    assert(dd * hp > 0) by (nonlinear_arith)
        requires
            dd > 0,
            hp > 0,
    ;
    lemma_real_mul(dd, hp);
    lemma_real_mul(THREAT_SCALE as int, dd * hp);
    lemma_real_mul(h, o);
    lemma_real_mul(h * o, st);
    lemma_real_mul(h * o * st, e);
    lemma_real_mul(h * o * st * e, b);
    lemma_real_mul(h * o * st * e * b, f);
    lemma_real_mul(p, s);
    lemma_real_mul(p * s, h * o * st * e * b * f);
    lemma_real_mul(42, p * s * (h * o * st * e * b * f));
    let tail = if refined(off) {
        over(x, 10) * over(y, 10) * over(z, 4)
    } else {
        1 as real
    };
    assert(tail == f as real / 400 as real) by {
        if refined(off) {
            lemma_real_mul(x, y);
            lemma_real_mul(x * y, z);
            let (xr, yr, zr) = (x as real, y as real, z as real);
            assert((xr / 10 as real) * (yr / 10 as real) * (zr / 4 as real) == (xr * yr * zr)
                / 400 as real) by (nonlinear_arith);
        }
    }
    lemma_formula(
        p as real,
        s as real,
        h as real,
        o as real,
        st as real,
        e as real,
        b as real,
        f as real,
        dd as real,
        hp as real,
    );
}

/// How hard an attacker hits a defender.
#[derive(Clone, Copy, Debug)]
pub struct Threat {
    pub physical: Ratio,
    pub special: Ratio,
    /// There is a move that is not an attack.
    pub has_status: bool,
}

/// How hard `attacker` hits `defender`. `profile` tells how hard attacks of each
/// type hit the defender, and `attacker_fainted` how many allies have fallen.
pub fn threat_vs(
    attacker: &Pokemon,
    defender: &Pokemon,
    profile: &TypeProfile,
    attacker_fainted: u8,
    off: &EvalOff,
) -> (r: Threat)
    requires
        profile.wf(),
    ensures
        r.physical.wf(),
        r.special.wf(),
        0 <= r.physical.num <= r.physical.den,
        0 <= r.special.num <= r.special.den,
        r.physical.den == threat_den(*defender, true),
        r.special.den == threat_den(*defender, false),
        r.physical@ == physical_threat(
            *attacker,
            *defender,
            *profile,
            attacker_fainted as int,
            *off,
        ),
        r.special@ == special_threat(*attacker, *defender, *profile, attacker_fainted as int, *off),
        r.has_status == has_status_option(*attacker),
{
    let hp: i128 = if defender.maxhp < 1 {
        1
    } else {
        defender.maxhp as i128
    };
    let def_stat: i128 = if defender.defense < 1 {
        1
    } else {
        defender.defense as i128
    };
    let spd_stat: i128 = if defender.special_defense < 1 {
        1
    } else {
        defender.special_defense as i128
    };
    proof {
        lemma_den_bounds(def_stat as int, hp as int);
        lemma_den_bounds(spd_stat as int, hp as int);
    }
    let phys_den: i128 = THREAT_SCALE * (def_stat * hp);
    let spec_den: i128 = THREAT_SCALE * (spd_stat * hp);
    let mut best_phys: i128 = 0;
    let mut best_spec: i128 = 0;
    let mut has_status = false;
    let mut i: usize = 0;
    proof {
        lemma_zero_over(phys_den as int);
        lemma_zero_over(spec_den as int);
    }
    while i < attacker.moves.len()
        invariant
            i <= attacker.moves@.len(),
            profile.wf(),
            phys_den == threat_den(*defender, true),
            spec_den == threat_den(*defender, false),
            phys_den > 0,
            spec_den > 0,
            0 <= best_phys <= phys_den,
            0 <= best_spec <= spec_den,
            over(best_phys as int, phys_den as int) == best_threat(
                *attacker,
                *defender,
                *profile,
                attacker_fainted as int,
                *off,
                MoveCategory::Physical,
                i as int,
            ),
            over(best_spec as int, spec_den as int) == best_threat(
                *attacker,
                *defender,
                *profile,
                attacker_fainted as int,
                *off,
                MoveCategory::Special,
                i as int,
            ),
            has_status == exists|k: int|
                0 <= k < i && (#[trigger] attacker.moves@[k]).id != Choices::NONE
                    && attacker.moves@[k].choice.category == MoveCategory::Status,
        decreases attacker.moves@.len() - i,
    {
        let mv = &attacker.moves[i];
        assert(*mv == attacker.moves@[i as int]);
        if mv.id != Choices::NONE {
            match mv.choice.category {
                MoveCategory::Physical => {
                    let q: u8 = profile.effectiveness(mv.choice.move_type);
                    let num: i128 = hit_numerator(attacker, defender, mv, q, attacker_fainted, off);
                    proof {
                        lemma_share(
                            *attacker,
                            *defender,
                            *mv,
                            q as int,
                            attacker_fainted as int,
                            *off,
                        );
                        lemma_capped(num as int, best_phys as int, phys_den as int);
                    }
                    best_phys = raised(best_phys, num, phys_den);
                },
                MoveCategory::Special => {
                    let q: u8 = profile.effectiveness(mv.choice.move_type);
                    let num: i128 = hit_numerator(attacker, defender, mv, q, attacker_fainted, off);
                    proof {
                        lemma_share(
                            *attacker,
                            *defender,
                            *mv,
                            q as int,
                            attacker_fainted as int,
                            *off,
                        );
                        lemma_capped(num as int, best_spec as int, spec_den as int);
                    }
                    best_spec = raised(best_spec, num, spec_den);
                },
                MoveCategory::Status => {
                    has_status = true;
                },
                MoveCategory::Switch => {},
            }
        }
        i += 1;
    }
    Threat {
        physical: Ratio::new(best_phys, phys_den),
        special: Ratio::new(best_spec, spec_den),
        has_status,
    }
}

proof fn lemma_den_bounds(stat: int, hp: int)
    requires
        1 <= stat <= 0x7fff,
        1 <= hp <= 0x7fff,
    ensures
        0 < stat * hp <= 0x4000_0000,
        0 < THREAT_SCALE * (stat * hp) <= 0x40_0000_0000_0000,
{
    assert(0 < stat * hp <= 0x4000_0000) by (nonlinear_arith)
        requires
            1 <= stat <= 0x7fff,
            1 <= hp <= 0x7fff,
    ;
}

/// `num` capped at `den`, or `best` if that is more.
pub open spec fn raised_num(best: int, num: int, den: int) -> int {
    let capped = if num < den {
        num
    } else {
        den
    };
    if best < capped {
        capped
    } else {
        best
    }
}

fn raised(best: i128, num: i128, den: i128) -> (r: i128)
    ensures
        r == raised_num(best as int, num as int, den as int),
{
    let capped: i128 = if num < den {
        num
    } else {
        den
    };
    if best < capped {
        capped
    } else {
        best
    }
}

/// Capping and taking the larger commute with division by a positive number.
proof fn lemma_capped(num: int, best: int, den: int)
    requires
        den > 0,
        0 <= best <= den,
    ensures
        ({
            let share = over(num, den);
            let t = if share < 1 as real {
                share
            } else {
                1 as real
            };
            over(raised_num(best, num, den), den) == (if over(best, den) < t {
                t
            } else {
                over(best, den)
            })
        }),
        0 <= raised_num(best, num, den) <= den,
{
    lemma_cancel(1, 1, den);
    lemma_over_one(1);
    assert(over(den, den) == 1 as real);
    lemma_order_over(num, den, den);
    lemma_order_over(best, num, den);
    lemma_order_over(best, den, den);
}

} // verus!
