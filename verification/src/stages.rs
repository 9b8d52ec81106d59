//! Stat stages and what they count for.
use crate::numbers::Ratio;
#[allow(unused_imports)]
use crate::numbers::{lemma_neg_over, lemma_real_mul, over};
#[allow(unused_imports)]
use crate::state::Side;
use vstd::prelude::*;

verus! {

/// A stat stage is one that exists.
pub open spec fn stage_ok(stage: i8) -> bool {
    -6 <= stage <= 6
}

/// All stat stages of the side exist.
pub open spec fn stages_ok(side: Side) -> bool {
    &&& stage_ok(side.attack_boost)
    &&& stage_ok(side.defense_boost)
    &&& stage_ok(side.special_attack_boost)
    &&& stage_ok(side.special_defense_boost)
    &&& stage_ok(side.speed_boost)
}

/// How much a stat stage counts.
pub open spec fn multiplier(stage: i8) -> real {
    over(boost_hundredths(stage as int), 100)
}

/// How much a stat stage counts, in hundredths; stages beyond the fourth add
/// little.
pub open spec fn boost_hundredths(stage: int) -> int {
    if stage < 0 {
        -stage_weight(-stage)
    } else {
        stage_weight(stage)
    }
}

/// How much so many stages above neutral count, in hundredths.
pub open spec fn stage_weight(n: int) -> int {
    if n <= 2 {
        100 * n
    } else if n == 3 {
        250
    } else {
        300 + 15 * (n - 4)
    }
}

/// How much a stat stage counts, in hundredths.
pub fn get_boost_multiplier(boost: i8) -> (r: i64)
    requires
        -6 <= boost <= 6,
    ensures
        r == boost_hundredths(boost as int),
        -330 <= r <= 330,
{
    match boost {
        6 => 330,
        5 => 315,
        4 => 300,
        3 => 250,
        2 => 200,
        1 => 100,
        0 => 0,
        -1 => -100,
        -2 => -200,
        -3 => -250,
        -4 => -300,
        -5 => -315,
        _ => -330,
    }
}

/// A stage multiplier times a base worth times a fraction.
proof fn lemma_scaled(h: int, base: int, num: int, den: int)
    requires
        den > 0,
    ensures
        over(h * base * num, 100 * den) == over(h, 100) * base as real * over(num, den),
{
    lemma_real_mul(h, base);
    lemma_real_mul(h * base, num);
    let (x, y, z, d) = (h as real, base as real, num as real, den as real);
    let q = z / d;
    assert(q * d == z) by (nonlinear_arith)
        requires
            d > 0 as real,
            q == z / d,
    ;
    let w = (x / 100 as real) * y * q;
    assert(w * (100 as real * d) == (x * y) * (q * d)) by (nonlinear_arith)
        requires
            w == (x / 100 as real) * y * q,
    ;
    let t = x * y * z;
    let den100 = 100 as real * d;
    assert(w == t / den100) by (nonlinear_arith)
        requires
            w * den100 == t,
            den100 > 0 as real,
    ;
}

/// Credit for one boosted stat, scaled by a fraction between zero and one.
pub fn boost_credit(stage: i8, base: i128, share: Ratio) -> (r: Ratio)
    requires
        stage_ok(stage),
        0 <= base <= 30,
        share.wf(),
        0 <= share.num <= share.den <= 0x40_0000_0000_0000,
    ensures
        r.wf(),
        r@ == multiplier(stage) * base as real * share@,
{
    let h: i128 = get_boost_multiplier(stage) as i128;
    assert(-9900 <= h * base <= 9900) by (nonlinear_arith)
        requires
            -330 <= h <= 330,
            0 <= base <= 30,
    ;
    let hb: i128 = h * base;
    let n: i128 = share.num;
    assert(-0x1000_0000_0000_0000_0000 <= hb * n <= 0x1000_0000_0000_0000_0000)
        by (nonlinear_arith)
        requires
            -9900 <= hb <= 9900,
            0 <= n <= 0x40_0000_0000_0000,
    ;
    proof {
        lemma_scaled(h as int, base as int, n as int, share.den as int);
    }
    Ratio::new(hb * n, 100 * share.den)
}

/// Full credit for one boosted stat.
pub fn full_credit(stage: i8, base: i128) -> (r: Ratio)
    requires
        stage_ok(stage),
        0 <= base <= 30,
    ensures
        r.wf(),
        r@ == multiplier(stage) * base as real,
{
    let one = Ratio::whole(1);
    let r = boost_credit(stage, base, one);
    proof {
        let x = multiplier(stage) * base as real;
        let y = one@;
        assert(x * y == x) by (nonlinear_arith)
            requires
                y == 1 as real,
        ;
    }
    r
}

/// One and two stages count in full, the third for a half, the fourth for a half, and the
/// fifth and sixth for three twentieths each; lowered stages count the opposite.
pub proof fn law_stages_have_their_weight(stage: i8)
    requires
        -6 <= stage <= 6,
    ensures
        stage == 0 ==> multiplier(stage) == 0 as real,
        stage == 1 ==> multiplier(stage) == 1 as real,
        stage == 2 ==> multiplier(stage) == 2 as real,
        stage == 3 ==> multiplier(stage) == 5 as real / 2 as real,
        stage == 4 ==> multiplier(stage) == 3 as real,
        stage == 5 ==> multiplier(stage) == 63 as real / 20 as real,
        stage == 6 ==> multiplier(stage) == 33 as real / 10 as real,
        multiplier((-stage) as i8) == -multiplier(stage),
{
    assert(0 as real / 100 as real == 0 as real) by (nonlinear_arith);
    assert(100 as real / 100 as real == 1 as real) by (nonlinear_arith);
    assert(200 as real / 100 as real == 2 as real) by (nonlinear_arith);
    assert(250 as real / 100 as real == 5 as real / 2 as real) by (nonlinear_arith);
    assert(300 as real / 100 as real == 3 as real) by (nonlinear_arith);
    assert(315 as real / 100 as real == 63 as real / 20 as real) by (nonlinear_arith);
    assert(330 as real / 100 as real == 33 as real / 10 as real) by (nonlinear_arith);
    lemma_neg_over(boost_hundredths(stage as int), 100);
}

} // verus!
