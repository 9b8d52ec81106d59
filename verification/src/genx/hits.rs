//! What makes a hit stronger or weaker, and by how much.
#[allow(unused_imports)]
use crate::genx::evaluate::pressure;
#[allow(unused_imports)]
use crate::genx::pokemon::{locked_into_status, status_move, usable};
#[allow(unused_imports)]
use crate::genx::switches::EvalOff;
#[allow(unused_imports)]
use crate::genx::threat::{
    ability_tenths, attacking_stat, best_threat, burn_halves, damage, defending_stat,
    eff_adjust_quarters, eff_sixteenths, guard_quarters, hit_threat, item_tenths, overlord_tenths,
    physical_threat, power, refined, special_threat, stab_halves, stat_halves,
};
#[allow(unused_imports)]
use crate::matchup::TypeProfile;
#[allow(unused_imports)]
use crate::numbers::over;
#[allow(unused_imports)]
use crate::state::{law_members_stand_or_have_fainted, standing_with, Move, Pokemon, Side};
#[allow(unused_imports)]
use crate::types::{Abilities, Choices, Items, MoveCategory, PokemonStatus, PokemonType};
use vstd::prelude::*;

verus! {

/// A product of six factors.
spec fn product(c: real, y: real, r1: real, r2: real, r3: real, r4: real) -> real {
    c * y * r1 * r2 * r3 * r4
}

proof fn lemma_scale_y(c: real, y: real, r1: real, r2: real, r3: real, r4: real, k: real)
    ensures
        product(c, y * k, r1, r2, r3, r4) == product(c, y, r1, r2, r3, r4) * k,
{
    assert(c * (y * k) == (c * y) * k) by (nonlinear_arith);
    lemma_scale_1(c, y, r1, r2, r3, r4, k);
    let a = c * y;
    assert((a * k) * r1 == a * (r1 * k)) by (nonlinear_arith);
}

proof fn lemma_scale_1(c: real, y: real, r1: real, r2: real, r3: real, r4: real, k: real)
    ensures
        product(c, y, r1 * k, r2, r3, r4) == product(c, y, r1, r2, r3, r4) * k,
{
    let a = c * y;
    assert(a * (r1 * k) == (a * r1) * k) by (nonlinear_arith);
    let b = a * r1;
    assert((b * k) * r2 == b * (r2 * k)) by (nonlinear_arith);
    lemma_scale_2(c, y, r1, r2, r3, r4, k);
}

proof fn lemma_scale_2(c: real, y: real, r1: real, r2: real, r3: real, r4: real, k: real)
    ensures
        product(c, y, r1, r2 * k, r3, r4) == product(c, y, r1, r2, r3, r4) * k,
{
    let a = c * y * r1;
    assert(a * (r2 * k) == (a * r2) * k) by (nonlinear_arith);
    let b = a * r2;
    assert((b * k) * r3 == b * (r3 * k)) by (nonlinear_arith);
    lemma_scale_3(c, y, r1, r2, r3, r4, k);
}

proof fn lemma_scale_3(c: real, y: real, r1: real, r2: real, r3: real, r4: real, k: real)
    ensures
        product(c, y, r1, r2, r3 * k, r4) == product(c, y, r1, r2, r3, r4) * k,
{
    let a = c * y * r1 * r2;
    assert(a * (r3 * k) == (a * r3) * k) by (nonlinear_arith);
    let b = a * r3;
    assert((b * k) * r4 == (b * r4) * k) by (nonlinear_arith);
}

proof fn lemma_scale_4(c: real, y: real, r1: real, r2: real, r3: real, r4: real, k: real)
    ensures
        product(c, y, r1, r2, r3, r4 * k) == product(c, y, r1, r2, r3, r4) * k,
{
    let b = c * y * r1 * r2 * r3;
    assert(b * (r4 * k) == (b * r4) * k) by (nonlinear_arith);
}

/// What items and abilities make of a hit.
spec fn extras(a: Pokemon, d: Pokemon, m: Move, e: int, off: EvalOff) -> real {
    let physical = m.choice.category == MoveCategory::Physical;
    if refined(off) {
        over(ability_tenths(a.ability, m.choice), 10) * over(item_tenths(a.item, physical, e), 10)
            * over(guard_quarters(d, m.choice.move_type, physical, e), 4)
    } else {
        1 as real
    }
}

/// The attacking stat over the defending one.
spec fn quotient(a: Pokemon, d: Pokemon, m: Move, fainted: int, off: EvalOff) -> real {
    let physical = m.choice.category == MoveCategory::Physical;
    (attacking_stat(a, physical) as real * over(stat_halves(a, physical, off), 2) * over(
        overlord_tenths(a, fainted, off),
        10,
    )) / defending_stat(d, physical) as real
}

proof fn lemma_product(a: Pokemon, d: Pokemon, m: Move, quarters: int, fainted: int, off: EvalOff)
    ensures
        ({
            let physical = m.choice.category == MoveCategory::Physical;
            let e = eff_sixteenths(a, quarters, off);
            damage(a, d, m, quarters, fainted, off) == product(
                over(84, 100) * power(a, m, off) as real,
                quotient(a, d, m, fainted, off),
                over(stab_halves(a, m, off), 2),
                over(e, 16),
                over(burn_halves(a, m, physical, off), 2),
                extras(a, d, m, e, off),
            )
        }),
{
}

proof fn lemma_tenths()
    ensures
        over(10, 10) == 1 as real,
        over(12, 10) == 6 as real / 5 as real,
        over(13, 10) == 13 as real / 10 as real,
        over(15, 10) == 3 as real / 2 as real,
        over(20, 10) == 2 as real,
        over(2, 2) == 1 as real,
        over(1, 2) == 1 as real / 2 as real,
        over(3, 2) == 3 as real / 2 as real,
        over(4, 2) == 2 as real,
        over(4, 4) == 1 as real,
        over(3, 4) == 3 as real / 4 as real,
        over(2, 4) == 1 as real / 2 as real,
        over(84, 100) == 21 as real / 25 as real,
{
    assert(10 as real / 10 as real == 1 as real) by (nonlinear_arith);
    assert(12 as real / 10 as real == 6 as real / 5 as real) by (nonlinear_arith);
    assert(15 as real / 10 as real == 3 as real / 2 as real) by (nonlinear_arith);
    assert(20 as real / 10 as real == 2 as real) by (nonlinear_arith);
    assert(2 as real / 2 as real == 1 as real) by (nonlinear_arith);
    assert(4 as real / 2 as real == 2 as real) by (nonlinear_arith);
    assert(4 as real / 4 as real == 1 as real) by (nonlinear_arith);
    assert(2 as real / 4 as real == 1 as real / 2 as real) by (nonlinear_arith);
    assert(84 as real / 100 as real == 21 as real / 25 as real) by (nonlinear_arith);
}

/// By the plain model a hit does 21 twenty-fifths of its power times the attacking stat
/// over the defending one, half again as much for a move of the user's own type, times its
/// effectiveness. Physical moves go from attack against defense, all others from special
/// attack against special defense.
pub proof fn law_plain_hits_follow_the_formula(
    a: Pokemon,
    d: Pokemon,
    m: Move,
    quarters: int,
    fainted: int,
    off: EvalOff,
)
    requires
        off.threatv2,
        a.ability != Abilities::SUPREMEOVERLORD || off.supremeoverlord,
        d.defense >= 1,
        d.special_defense >= 1,
    ensures
        ({
            let stats = if m.choice.category == MoveCategory::Physical {
                a.attack as real / d.defense as real
            } else {
                a.special_attack as real / d.special_defense as real
            };
            let own = if m.choice.move_type == a.types.0 || m.choice.move_type == a.types.1 {
                3 as real / 2 as real
            } else {
                1 as real
            };
            damage(a, d, m, quarters, fainted, off) == (21 as real / 25 as real)
                * m.choice.base_power as real * stats * own * (quarters as real / 4 as real)
        }),
{
    lemma_tenths();
    lemma_product(a, d, m, quarters, fainted, off);
    let physical = m.choice.category == MoveCategory::Physical;
    let x = attacking_stat(a, physical) as real;
    assert(x * 1 as real * 1 as real == x) by (nonlinear_arith);
    let e = eff_sixteenths(a, quarters, off);
    assert(e == quarters * 4);
    let q = quarters as real;
    assert((q * 4 as real) / 16 as real == q / 4 as real) by (nonlinear_arith);
    assert(over(e, 16) == q / 4 as real);
    let w = (21 as real / 25 as real) * m.choice.base_power as real * quotient(
        a,
        d,
        m,
        fainted,
        off,
    ) * over(stab_halves(a, m, off), 2) * (q / 4 as real);
    assert(w * 1 as real * 1 as real == w) by (nonlinear_arith);
}

/// A hit threatens by its share of half the hit points of the one who is hit, and by no
/// more than all of it.
pub proof fn law_threats_measure_half_the_hit_points(
    a: Pokemon,
    d: Pokemon,
    m: Move,
    quarters: int,
    fainted: int,
    off: EvalOff,
)
    requires
        d.maxhp >= 1,
    ensures
        ({
            let harm = damage(a, d, m, quarters, fainted, off);
            let share = 2 as real * (harm / d.maxhp as real);
            hit_threat(a, d, m, quarters, fainted, off) == (if share < 1 as real {
                share
            } else {
                1 as real
            })
        }),
{
    lemma_tenths();
    let w = damage(a, d, m, quarters, fainted, off) / d.maxhp as real;
    let half = over(1, 2);
    assert(w / half == 2 as real * w) by (nonlinear_arith)
        requires
            half == 1 as real / 2 as real,
    ;
}

proof fn lemma_middle(x: real, i: real, g: real)
    ensures
        x * i * g == (x * 1 as real * g) * i,
{
    assert(x * i * g == (x * 1 as real * g) * i) by (nonlinear_arith);
}

/// In the refined model an item strengthens a hit: a Choice Band a physical one and Choice
/// Specs any other by a half, a Life Orb by three tenths, and an Expert Belt one that is
/// more than plainly effective by a fifth; no other item does.
pub proof fn law_items_strengthen_hits(
    a: Pokemon,
    b: Pokemon,
    d: Pokemon,
    m: Move,
    quarters: int,
    fainted: int,
    off: EvalOff,
)
    requires
        !off.threatv2,
        b == (Pokemon { item: b.item, ..a }),
        a.item == Items::NONE,
    ensures
        ({
            let physical = m.choice.category == MoveCategory::Physical;
            let factor = match b.item {
                Items::CHOICEBAND => if physical {
                    3 as real / 2 as real
                } else {
                    1 as real
                },
                Items::CHOICESPECS => if physical {
                    1 as real
                } else {
                    3 as real / 2 as real
                },
                Items::LIFEORB => 13 as real / 10 as real,
                Items::EXPERTBELT => if eff_sixteenths(a, quarters, off) > 16 {
                    6 as real / 5 as real
                } else {
                    1 as real
                },
                _ => 1 as real,
            };
            damage(b, d, m, quarters, fainted, off) == damage(a, d, m, quarters, fainted, off)
                * factor
        }),
{
    lemma_tenths();
    lemma_product(a, d, m, quarters, fainted, off);
    lemma_product(b, d, m, quarters, fainted, off);
    let physical = m.choice.category == MoveCategory::Physical;
    let e = eff_sixteenths(a, quarters, off);
    assert(eff_sixteenths(b, quarters, off) == e);
    let x = over(ability_tenths(a.ability, m.choice), 10);
    let g = over(guard_quarters(d, m.choice.move_type, physical, e), 4);
    let i = over(item_tenths(b.item, physical, e), 10);
    lemma_middle(x, i, g);
    assert(quotient(a, d, m, fainted, off) == quotient(b, d, m, fainted, off));
    lemma_scale_4(
        over(84, 100) * power(a, m, off) as real,
        quotient(a, d, m, fainted, off),
        over(stab_halves(a, m, off), 2),
        over(e, 16),
        over(burn_halves(a, m, physical, off), 2),
        extras(a, d, m, e, off),
        i,
    );
}

/// In the refined model an ability of the attacker strengthens the moves that it is made
/// for: Technician those of a power up to 60, Sharpness those that slice and Strong Jaw
/// those that bite by a half, Tough Claws those of contact and Sheer Force those with a
/// side effect by three tenths, Iron Fist those that punch by a fifth; Huge Power and Pure
/// Power double the physical ones.
pub proof fn law_abilities_strengthen_hits(
    a: Pokemon,
    b: Pokemon,
    d: Pokemon,
    m: Move,
    quarters: int,
    fainted: int,
    off: EvalOff,
)
    requires
        !off.threatv2,
        b == (Pokemon { ability: b.ability, ..a }),
        a.ability == Abilities::NONE,
        b.ability == Abilities::TECHNICIAN || b.ability == Abilities::TOUGHCLAWS || b.ability
            == Abilities::SHARPNESS || b.ability == Abilities::STRONGJAW || b.ability
            == Abilities::IRONFIST || b.ability == Abilities::SHEERFORCE || b.ability
            == Abilities::HUGEPOWER || b.ability == Abilities::PUREPOWER,
    ensures
        ({
            let c = m.choice;
            let factor = match b.ability {
                Abilities::TECHNICIAN => if c.base_power <= 60 {
                    3 as real / 2 as real
                } else {
                    1 as real
                },
                Abilities::TOUGHCLAWS => if c.flags.contact {
                    13 as real / 10 as real
                } else {
                    1 as real
                },
                Abilities::SHARPNESS => if c.flags.slicing {
                    3 as real / 2 as real
                } else {
                    1 as real
                },
                Abilities::STRONGJAW => if c.flags.bite {
                    3 as real / 2 as real
                } else {
                    1 as real
                },
                Abilities::IRONFIST => if c.flags.punch {
                    6 as real / 5 as real
                } else {
                    1 as real
                },
                Abilities::SHEERFORCE => if c.secondaries is Some {
                    13 as real / 10 as real
                } else {
                    1 as real
                },
                _ => if c.category == MoveCategory::Physical {
                    2 as real
                } else {
                    1 as real
                },
            };
            damage(b, d, m, quarters, fainted, off) == damage(a, d, m, quarters, fainted, off)
                * factor
        }),
{
    lemma_tenths();
    lemma_product(a, d, m, quarters, fainted, off);
    lemma_product(b, d, m, quarters, fainted, off);
    let physical = m.choice.category == MoveCategory::Physical;
    let e = eff_sixteenths(a, quarters, off);
    assert(eff_sixteenths(b, quarters, off) == e);
    let k = over(ability_tenths(b.ability, m.choice), 10);
    let i = over(item_tenths(a.item, physical, e), 10);
    let g = over(guard_quarters(d, m.choice.move_type, physical, e), 4);
    assert(k * i * g == (1 as real * i * g) * k) by (nonlinear_arith);
    assert(quotient(a, d, m, fainted, off) == quotient(b, d, m, fainted, off));
    lemma_scale_4(
        over(84, 100) * power(a, m, off) as real,
        quotient(a, d, m, fainted, off),
        over(stab_halves(a, m, off), 2),
        over(e, 16),
        over(burn_halves(a, m, physical, off), 2),
        extras(a, d, m, e, off),
        k,
    );
}

/// In the refined model an ability of the one who is hit weakens hits: Thick Fat halves
/// those of Fire and Ice, Multiscale and Shadow Shield halve all at full health, Ice Scales
/// halves what is not physical, and Filter, Solid Rock and Prism Armor take a quarter off
/// what is at least doubly effective.
pub proof fn law_abilities_weaken_hits(
    a: Pokemon,
    d: Pokemon,
    g: Pokemon,
    m: Move,
    quarters: int,
    fainted: int,
    off: EvalOff,
)
    requires
        !off.threatv2,
        g == (Pokemon { ability: g.ability, ..d }),
        d.ability == Abilities::NONE,
    ensures
        ({
            let t = m.choice.move_type;
            let factor = match g.ability {
                Abilities::THICKFAT => if t == PokemonType::FIRE || t == PokemonType::ICE {
                    1 as real / 2 as real
                } else {
                    1 as real
                },
                Abilities::MULTISCALE => if g.hp == g.maxhp {
                    1 as real / 2 as real
                } else {
                    1 as real
                },
                Abilities::SHADOWSHIELD => if g.hp == g.maxhp {
                    1 as real / 2 as real
                } else {
                    1 as real
                },
                Abilities::FILTER => if eff_sixteenths(a, quarters, off) >= 32 {
                    3 as real / 4 as real
                } else {
                    1 as real
                },
                Abilities::SOLIDROCK => if eff_sixteenths(a, quarters, off) >= 32 {
                    3 as real / 4 as real
                } else {
                    1 as real
                },
                Abilities::PRISMARMOR => if eff_sixteenths(a, quarters, off) >= 32 {
                    3 as real / 4 as real
                } else {
                    1 as real
                },
                Abilities::ICESCALES => if m.choice.category == MoveCategory::Physical {
                    1 as real
                } else {
                    1 as real / 2 as real
                },
                _ => 1 as real,
            };
            damage(a, g, m, quarters, fainted, off) == damage(a, d, m, quarters, fainted, off)
                * factor
        }),
{
    lemma_tenths();
    lemma_product(a, d, m, quarters, fainted, off);
    lemma_product(a, g, m, quarters, fainted, off);
    let physical = m.choice.category == MoveCategory::Physical;
    let e = eff_sixteenths(a, quarters, off);
    let x = over(ability_tenths(a.ability, m.choice), 10);
    let i = over(item_tenths(a.item, physical, e), 10);
    let k = over(guard_quarters(g, m.choice.move_type, physical, e), 4);
    assert(x * i * k == (x * i * 1 as real) * k) by (nonlinear_arith);
    assert(quotient(a, d, m, fainted, off) == quotient(a, g, m, fainted, off));
    lemma_scale_4(
        over(84, 100) * power(a, m, off) as real,
        quotient(a, d, m, fainted, off),
        over(stab_halves(a, m, off), 2),
        over(e, 16),
        over(burn_halves(a, m, physical, off), 2),
        extras(a, d, m, e, off),
        k,
    );
}

/// In the refined model a burn halves the physical hits of an attacker that has no Guts,
/// but for Facade, which any status doubles; a status strengthens physical hits by a half
/// with Guts, poison does so with Toxic Boost, and a burn all other hits with Flare Boost.
pub proof fn law_statuses_change_hits(
    a: Pokemon,
    b: Pokemon,
    d: Pokemon,
    m: Move,
    quarters: int,
    fainted: int,
    off: EvalOff,
)
    requires
        !off.threatv2,
        b == (Pokemon { status: b.status, ..a }),
        a.status == PokemonStatus::NONE,
    ensures
        ({
            let physical = m.choice.category == MoveCategory::Physical;
            let burn = b.status == PokemonStatus::BURN;
            let poison = b.status == PokemonStatus::POISON || b.status == PokemonStatus::TOXIC;
            let ill = b.status != PokemonStatus::NONE;
            let facade = if m.id == Choices::FACADE && ill {
                2 as real
            } else {
                1 as real
            };
            let half = if burn && physical && a.ability != Abilities::GUTS && m.id
                != Choices::FACADE {
                1 as real / 2 as real
            } else {
                1 as real
            };
            let stat = if (physical && ((ill && a.ability == Abilities::GUTS) || (poison
                && a.ability
                == Abilities::TOXICBOOST))) || (!physical && burn && a.ability
                == Abilities::FLAREBOOST) {
                3 as real / 2 as real
            } else {
                1 as real
            };
            damage(b, d, m, quarters, fainted, off) == damage(a, d, m, quarters, fainted,
                off) * stat
                * half * facade
        }),
{
    lemma_tenths();
    lemma_product(a, d, m, quarters, fainted, off);
    lemma_product(b, d, m, quarters, fainted, off);
    let physical = m.choice.category == MoveCategory::Physical;
    let e = eff_sixteenths(a, quarters, off);
    assert(eff_sixteenths(b, quarters, off) == e);
    let c = over(84, 100);
    let p = power(a, m, off) as real;
    let x = attacking_stat(a, physical) as real;
    let h = over(stat_halves(b, physical, off), 2);
    let o = over(overlord_tenths(a, fainted, off), 10);
    let s = defending_stat(d, physical) as real;
    assert(s > 0 as real);
    lemma_quotient(x, h, o, s);
    let y = quotient(a, d, m, fainted, off);
    assert(quotient(b, d, m, fainted, off) == y * h);
    let r1 = over(stab_halves(a, m, off), 2);
    let r2 = over(e, 16);
    let r4 = extras(a, d, m, e, off);
    let half = over(burn_halves(b, m, physical, off), 2);
    let f = if m.id == Choices::FACADE && b.status != PokemonStatus::NONE {
        2 as real
    } else {
        1 as real
    };
    assert(power(b, m, off) as real == p * f);
    assert(extras(b, d, m, e, off) == r4);
    assert(1 as real * half == half) by (nonlinear_arith);
    lemma_scale_y(c * p, y, r1, r2, 1 as real, r4, h);
    lemma_scale_3(c * p, y * h, r1, r2, 1 as real, r4, half);
    lemma_scale_c(c, p, y * h, r1, r2, half, r4, f);
    assert(over(burn_halves(a, m, physical, off), 2) == 1 as real);
}

proof fn lemma_scale_c(
    c: real,
    p: real,
    y: real,
    r1: real,
    r2: real,
    r3: real,
    r4: real,
    f: real,
)
    ensures
        product(c * (p * f), y, r1, r2, r3, r4) == product(c * p, y, r1, r2, r3, r4) * f,
{
    assert(c * (p * f) == (c * p) * f) by (nonlinear_arith);
    let a = c * p;
    assert((a * f) * y == a * (y * f)) by (nonlinear_arith);
    lemma_scale_y(a, y, r1, r2, r3, r4, f);
}

proof fn lemma_quotient(x: real, h: real, o: real, s: real)
    requires
        s > 0 as real,
    ensures
        (x * h * o) / s == ((x * 1 as real * o) / s) * h,
{
    let u = x * o;
    let w = u / s;
    assert(w * s == u) by (nonlinear_arith)
        requires
            s > 0 as real,
            w == u / s,
    ;
    assert(x * h * o == u * h) by (nonlinear_arith)
        requires
            u == x * o,
    ;
    let t = u * h;
    assert((w * h) * s == t) by (nonlinear_arith)
        requires
            w * s == u,
            t == u * h,
    ;
    let v = w * h;
    assert(v == t / s) by (nonlinear_arith)
        requires
            v * s == t,
            s > 0 as real,
    ;
    assert(x * 1 as real * o == u) by (nonlinear_arith)
        requires
            u == x * o,
    ;
}

/// A move of the user's own type hits half again as hard as it would for a user of other
/// types, and with Adaptability in the refined model twice as hard.
pub proof fn law_own_types_strengthen_hits(
    a: Pokemon,
    b: Pokemon,
    d: Pokemon,
    m: Move,
    quarters: int,
    fainted: int,
    off: EvalOff,
)
    requires
        b == (Pokemon { types: b.types, ..a }),
        m.choice.move_type != a.types.0,
        m.choice.move_type != a.types.1,
        m.choice.move_type == b.types.0 || m.choice.move_type == b.types.1,
    ensures
        damage(b, d, m, quarters, fainted, off) == damage(a, d, m, quarters, fainted, off) * (
        if !off.threatv2 && a.ability == Abilities::ADAPTABILITY {
            2 as real
        } else {
            3 as real / 2 as real
        }),
{
    lemma_tenths();
    lemma_product(a, d, m, quarters, fainted, off);
    lemma_product(b, d, m, quarters, fainted, off);
    let physical = m.choice.category == MoveCategory::Physical;
    let e = eff_sixteenths(a, quarters, off);
    assert(eff_sixteenths(b, quarters, off) == e);
    let k = over(stab_halves(b, m, off), 2);
    assert(1 as real * k == k) by (nonlinear_arith);
    assert(quotient(a, d, m, fainted, off) == quotient(b, d, m, fainted, off));
    assert(extras(a, d, m, e, off) == extras(b, d, m, e, off));
    lemma_scale_1(
        over(84, 100) * power(a, m, off) as real,
        quotient(a, d, m, fainted, off),
        1 as real,
        over(e, 16),
        over(burn_halves(a, m, physical, off), 2),
        extras(a, d, m, e, off),
        k,
    );
}

/// In the refined model Tinted Lens doubles what is resisted and Neuroforce adds a quarter
/// to what is more than plainly effective; nothing else changes the effectiveness.
pub proof fn law_abilities_change_effectiveness(a: Pokemon, quarters: int, off: EvalOff)
    ensures
        off.threatv2 ==> eff_sixteenths(a, quarters, off) == 4 * quarters,
        !off.threatv2 && a.ability == Abilities::TINTEDLENS && 0 < quarters < 4 ==> eff_sixteenths(
            a,
            quarters,
            off,
        ) == 8 * quarters,
        !off.threatv2 && a.ability == Abilities::NEUROFORCE && quarters > 4 ==> eff_sixteenths(
            a,
            quarters,
            off,
        ) == 5 * quarters,
        !off.threatv2 && !(a.ability == Abilities::TINTEDLENS && 0 < quarters < 4) && !(a.ability
            == Abilities::NEUROFORCE && quarters > 4) ==> eff_sixteenths(a, quarters, off) == 4
            * quarters,
{
    let k = if refined(off) {
        eff_adjust_quarters(a.ability, quarters)
    } else {
        4
    };
    assert(quarters * k == k * quarters) by (nonlinear_arith);
    assert(k == 4 || k == 5 || k == 8);
}

/// Without a status, an item and abilities on either side, the refined model sees nothing
/// that the plain one does not.
pub proof fn law_refined_hits_start_from_plain_ones(
    a: Pokemon,
    d: Pokemon,
    m: Move,
    quarters: int,
    fainted: int,
    off: EvalOff,
    plain: EvalOff,
)
    requires
        !off.threatv2,
        plain == (EvalOff { threatv2: true, ..off }),
        a.status == PokemonStatus::NONE,
        a.item == Items::NONE,
        a.ability == Abilities::NONE,
        d.ability == Abilities::NONE,
    ensures
        damage(a, d, m, quarters, fainted, off) == damage(a, d, m, quarters, fainted, plain),
{
    lemma_tenths();
    lemma_product(a, d, m, quarters, fainted, off);
    lemma_product(a, d, m, quarters, fainted, plain);
    assert(1 as real * 1 as real * 1 as real == 1 as real) by (nonlinear_arith);
    assert(extras(a, d, m, eff_sixteenths(a, quarters, off), off) == 1 as real);
    assert(quotient(a, d, m, fainted, off) == quotient(a, d, m, fainted, plain));
}

/// No attack of a category threatens more than the strongest threat of that category,
/// which is that of some attack, or nothing where no attack does anything.
pub proof fn law_the_strongest_attack_threatens(
    a: Pokemon,
    d: Pokemon,
    profile: TypeProfile,
    fainted: int,
    off: EvalOff,
    physical: bool,
    i: int,
)
    requires
        0 <= i < a.moves@.len(),
    ensures
        ({
            let category = if physical {
                MoveCategory::Physical
            } else {
                MoveCategory::Special
            };
            let best = if physical {
                physical_threat(a, d, profile, fainted, off)
            } else {
                special_threat(a, d, profile, fainted, off)
            };
            let m = a.moves@[i];
            &&& m.id != Choices::NONE && m.choice.category == category ==> hit_threat(
                a,
                d,
                m,
                profile.against(m.choice.move_type),
                fainted,
                off,
            ) <= best
            &&& best == 0 as real || exists|k: int|
                {
                    &&& 0 <= k < a.moves@.len()
                    &&& (#[trigger] a.moves@[k]).id != Choices::NONE
                    &&& a.moves@[k].choice.category == category
                    &&& best == hit_threat(
                        a,
                        d,
                        a.moves@[k],
                        profile.against(a.moves@[k].choice.move_type),
                        fainted,
                        off,
                    )
                }
        }),
{
    let category = if physical {
        MoveCategory::Physical
    } else {
        MoveCategory::Special
    };
    lemma_strongest(a, d, profile, fainted, off, category, a.moves@.len() as int, i);
}

proof fn lemma_strongest(
    a: Pokemon,
    d: Pokemon,
    profile: TypeProfile,
    fainted: int,
    off: EvalOff,
    category: MoveCategory,
    n: int,
    i: int,
)
    requires
        0 <= n <= a.moves@.len(),
    ensures
        ({
            let best = best_threat(a, d, profile, fainted, off, category, n);
            let m = a.moves@[i];
            &&& 0 <= i < n && m.id != Choices::NONE && m.choice.category == category ==> hit_threat(
                a,
                d,
                m,
                profile.against(m.choice.move_type),
                fainted,
                off,
            ) <= best
            &&& best == 0 as real || exists|k: int|
                {
                    &&& 0 <= k < n
                    &&& (#[trigger] a.moves@[k]).id != Choices::NONE
                    &&& a.moves@[k].choice.category == category
                    &&& best == hit_threat(
                        a,
                        d,
                        a.moves@[k],
                        profile.against(a.moves@[k].choice.move_type),
                        fainted,
                        off,
                    )
                }
        }),
    decreases n,
{
    if n > 0 {
        lemma_strongest(a, d, profile, fainted, off, category, n - 1, i);
    }
}

/// Unless threats are off, each side presses with its own active Pokemon against the other
/// one's, helped by its own fallen; whatever else it can do counts as an option.
pub proof fn law_pressure_comes_from_the_active(
    own: Side,
    foe: Side,
    foe_profile: TypeProfile,
    off: EvalOff,
)
    requires
        !off.threat,
    ensures
        ({
            let p = pressure(own, foe, foe_profile, off);
            let (a, d) = (
                own.pokemon@[own.active_index as int],
                foe.pokemon@[foe.active_index as int],
            );
            let fallen = 6 - standing_with(own.pokemon@, 6, |m: Pokemon| true);
            &&& p.physical == physical_threat(a, d, foe_profile, fallen, off)
            &&& p.special == special_threat(a, d, foe_profile, fallen, off)
            &&& p.has_status <==> exists|i: int|
                0 <= i < a.moves@.len() && (#[trigger] a.moves@[i]).id != Choices::NONE
                    && a.moves@[i].choice.category == MoveCategory::Status
        }),
{
    law_members_stand_or_have_fainted(own.pokemon@, 6);
}

/// A choice item locks its holder into status moves when some of its moves are disabled
/// and whatever it can still use, which is something, is a status move.
pub proof fn law_locks_leave_status_moves_only(p: Pokemon)
    ensures
        locked_into_status(p) <==> {
            let free = |m: Move| m.id != Choices::NONE && !m.disabled && m.pp > 0;
            &&& p.item == Items::CHOICEBAND || p.item == Items::CHOICESPECS || p.item
                == Items::CHOICESCARF
            &&& exists|i: int|
                0 <= i < p.moves@.len() && (#[trigger] p.moves@[i]).id != Choices::NONE
                    && p.moves@[i].disabled
            &&& exists|i: int| 0 <= i < p.moves@.len() && free(#[trigger] p.moves@[i])
            &&& forall|i: int|
                0 <= i < p.moves@.len() && free(#[trigger] p.moves@[i])
                    ==> p.moves@[i].choice.category == MoveCategory::Status
        },
{
    let free = |m: Move| m.id != Choices::NONE && !m.disabled && m.pp > 0;
    if exists|i: int| 0 <= i < p.moves@.len() && free(#[trigger] p.moves@[i]) {
        let i = choose|i: int| 0 <= i < p.moves@.len() && free(#[trigger] p.moves@[i]);
        assert(usable(p.moves@[i]));
    }
    if locked_into_status(p) {
        let i = choose|i: int|
            0 <= i < p.moves@.len() && usable(#[trigger] p.moves@[i]) && status_move(p.moves@[i]);
        assert(free(p.moves@[i]));
        assert forall|k: int| 0 <= k < p.moves@.len() && free(#[trigger] p.moves@[k]) implies
            p.moves@[k].choice.category == MoveCategory::Status by {
            assert(usable(p.moves@[k]));
        }
    } else if (p.item == Items::CHOICEBAND || p.item == Items::CHOICESPECS || p.item
        == Items::CHOICESCARF) && (exists|i: int|
        0 <= i < p.moves@.len() && (#[trigger] p.moves@[i]).id != Choices::NONE
            && p.moves@[i].disabled) && (exists|i: int|
        0 <= i < p.moves@.len() && free(#[trigger] p.moves@[i])) && (forall|i: int|
        0 <= i < p.moves@.len() && free(#[trigger] p.moves@[i]) ==> p.moves@[i].choice.category
            == MoveCategory::Status) {
        assert forall|k: int| 0 <= k < p.moves@.len() && usable(#[trigger] p.moves@[k]) implies
            status_move(p.moves@[k]) by {
            assert(free(p.moves@[k]));
        }
        assert(false);
    }
}

} // verus!
