//! Exact fractions and sums of fractions.
use vstd::prelude::*;

verus! {

/// `n / d` as a real number.
pub open spec fn over(n: int, d: int) -> real {
    n as real / d as real
}

/// A fraction `num / den`.
#[derive(Clone, Copy, Debug, PartialEq, Eq, Structural)]
pub struct Ratio {
    pub num: i128,
    pub den: i128,
}

impl View for Ratio {
    type V = real;

    /// The number that the fraction stands for.
    open spec fn view(&self) -> real {
        self.num as real / self.den as real
    }
}

impl Ratio {
    /// The denominator is positive and the numerator can be negated.
    pub open spec fn wf(self) -> bool {
        &&& self.den > 0
        &&& self.num > i128::MIN
    }

    /// The fraction `num / den`.
    pub fn new(num: i128, den: i128) -> (r: Ratio)
        requires
            den > 0,
            num > i128::MIN,
        ensures
            r.wf(),
            r.num == num,
            r.den == den,
            r@ == num as real / den as real,
    {
        Ratio { num, den }
    }

    /// A whole number.
    pub fn whole(n: i128) -> (r: Ratio)
        requires
            n > i128::MIN,
        ensures
            r.wf(),
            r.num == n,
            r.den == 1,
            r@ == n as real,
    {
        proof {
            lemma_over_one(n as int);
        }
        Ratio { num: n, den: 1 }
    }

    /// One when `b` holds, zero when it does not.
    pub fn flag(b: bool) -> (r: Ratio)
        ensures
            r.wf(),
            r == ratio_flag(b),
            r@ == (if b { 1 as real } else { 0 as real }),
    {
        if b {
            Ratio::whole(1)
        } else {
            Ratio::whole(0)
        }
    }

    /// The fraction with the opposite sign.
    pub fn negated(self) -> (r: Ratio)
        requires
            self.wf(),
        ensures
            r.wf(),
            r@ == -self@,
    {
        let r = Ratio { num: -self.num, den: self.den };
        proof {
            lemma_neg_over(self.num as int, self.den as int);
        }
        r
    }
}

/// The fraction that encodes a yes-or-no feature.
pub open spec fn ratio_flag(b: bool) -> Ratio {
    if b {
        Ratio { num: 1, den: 1 }
    } else {
        Ratio { num: 0, den: 1 }
    }
}

/// The sum of a sequence of fractions.
pub open spec fn total(parts: Seq<Ratio>) -> real
    decreases parts.len(),
{
    if parts.len() == 0 {
        0 as real
    } else {
        total(parts.drop_last()) + parts.last()@
    }
}

/// A sum of fractions, kept exact by remembering every part.
#[derive(Debug)]
pub struct Score {
    pub parts: Vec<Ratio>,
}

impl View for Score {
    type V = real;

    open spec fn view(&self) -> real {
        total(self.parts@)
    }
}

impl Score {
    /// Every part is a proper fraction.
    pub open spec fn wf(self) -> bool {
        forall|i: int| 0 <= i < self.parts@.len() ==> (#[trigger] self.parts@[i]).wf()
    }

    /// The empty sum.
    pub fn zero() -> (s: Score)
        ensures
            s.wf(),
            s@ == 0 as real,
    {
        Score { parts: Vec::new() }
    }

    /// Adds a fraction.
    pub fn add_ratio(&mut self, r: Ratio)
        requires
            old(self).wf(),
            r.wf(),
        ensures
            final(self).wf(),
            final(self)@ == old(self)@ + r@,
    {
        self.parts.push(r);
        assert(self.parts@.drop_last() =~= old(self).parts@);
    }

    /// Subtracts a fraction.
    pub fn sub_ratio(&mut self, r: Ratio)
        requires
            old(self).wf(),
            r.wf(),
        ensures
            final(self).wf(),
            final(self)@ == old(self)@ - r@,
    {
        self.add_ratio(r.negated());
    }

    /// Adds a whole number.
    pub fn add_whole(&mut self, n: i128)
        requires
            old(self).wf(),
            n > i128::MIN,
        ensures
            final(self).wf(),
            final(self)@ == old(self)@ + n as real,
    {
        self.add_ratio(Ratio::whole(n));
    }

    /// Adds every part of another sum.
    pub fn add_score(&mut self, other: &Score)
        requires
            old(self).wf(),
            other.wf(),
        ensures
            final(self).wf(),
            final(self)@ == old(self)@ + other@,
    {
        let mut i: usize = 0;
        while i < other.parts.len()
            invariant
                i <= other.parts@.len(),
                other.wf(),
                self.wf(),
                self@ == old(self)@ + total(other.parts@.take(i as int)),
            decreases other.parts@.len() - i,
        {
            self.add_ratio(other.parts[i]);
            assert(other.parts@.take(i + 1).drop_last() =~= other.parts@.take(i as int));
            i += 1;
        }
        assert(other.parts@.take(i as int) =~= other.parts@);
    }

    /// Subtracts every part of another sum.
    pub fn sub_score(&mut self, other: &Score)
        requires
            old(self).wf(),
            other.wf(),
        ensures
            final(self).wf(),
            final(self)@ == old(self)@ - other@,
    {
        let mut i: usize = 0;
        while i < other.parts.len()
            invariant
                i <= other.parts@.len(),
                other.wf(),
                self.wf(),
                self@ == old(self)@ - total(other.parts@.take(i as int)),
            decreases other.parts@.len() - i,
        {
            self.sub_ratio(other.parts[i]);
            assert(other.parts@.take(i + 1).drop_last() =~= other.parts@.take(i as int));
            i += 1;
        }
        assert(other.parts@.take(i as int) =~= other.parts@);
    }
}

/// A whole number over one is that number.
pub proof fn lemma_over_one(n: int)
    ensures
        n as real / 1 as real == n as real,
{
}

/// Zero over anything positive is zero.
pub proof fn lemma_zero_over(d: int)
    requires
        d > 0,
    ensures
        0 as real / d as real == 0 as real,
{
    let z = d as real;
    assert(0 as real / z == 0 as real) by (nonlinear_arith)
        requires
            z > 0 as real,
    ;
}

/// Negation passes through a fraction.
pub proof fn lemma_neg_over(a: int, d: int)
    requires
        d > 0,
    ensures
        (-a) as real / d as real == -(a as real / d as real),
{
    assert((-a) as real / d as real == -(a as real / d as real)) by (nonlinear_arith)
        requires
            d > 0,
    ;
}

/// Fractions over one denominator add up in the numerator.
pub proof fn lemma_add_over(a: int, b: int, d: int)
    requires
        d > 0,
    ensures
        a as real / d as real + b as real / d as real == (a + b) as real / d as real,
{
    assert(a as real / d as real + b as real / d as real == (a + b) as real / d as real)
        by (nonlinear_arith)
        requires
            d > 0,
    ;
}

/// Products of whole numbers carry over to the reals.
pub proof fn lemma_real_mul(a: int, b: int)
    ensures
        (a * b) as real == a as real * b as real,
{
    assert((a * b) as real == a as real * b as real) by (nonlinear_arith);
}

/// A common positive factor cancels.
pub proof fn lemma_cancel(a: int, d: int, k: int)
    requires
        d > 0,
        k > 0,
    ensures
        (a * k) as real / (d * k) as real == a as real / d as real,
{
    assert((a * k) as real == a as real * k as real) by (nonlinear_arith);
    assert((d * k) as real == d as real * k as real) by (nonlinear_arith);
    let x = a as real;
    let y = d as real;
    let z = k as real;
    assert((x * z) / (y * z) == x / y) by (nonlinear_arith)
        requires
            y > 0 as real,
            z > 0 as real,
    ;
}

/// The order of fractions over one denominator is that of their numerators.
pub proof fn lemma_order_over(a: int, b: int, d: int)
    requires
        d > 0,
    ensures
        a <= b <==> a as real / d as real <= b as real / d as real,
        a < b <==> (a as real / d as real) < b as real / d as real,
{
    let x = a as real;
    let y = b as real;
    let z = d as real;
    assert(x <= y <==> x / z <= y / z) by (nonlinear_arith)
        requires
            z > 0 as real,
    ;
    assert(x < y <==> (x / z) < y / z) by (nonlinear_arith)
        requires
            z > 0 as real,
    ;
}

/// Two fractions compare as their cross products do.
pub proof fn lemma_cross(a: int, b: int, c: int, d: int)
    requires
        b > 0,
        d > 0,
    ensures
        over(a, b) < over(c, d) <==> a * d < c * b,
{
    lemma_real_mul(a, d);
    lemma_real_mul(c, b);
    let (x, y, z, w) = (a as real, b as real, c as real, d as real);
    let p = x / y;
    let q = z / w;
    assert(p * y == x) by (nonlinear_arith)
        requires
            y > 0 as real,
            p == x / y,
    ;
    assert(q * w == z) by (nonlinear_arith)
        requires
            w > 0 as real,
            q == z / w,
    ;
    assert(x * w == p * (y * w)) by (nonlinear_arith)
        requires
            p * y == x,
    ;
    assert(z * y == q * (y * w)) by (nonlinear_arith)
        requires
            q * w == z,
    ;
    let k = y * w;
    assert(k > 0 as real) by (nonlinear_arith)
        requires
            y > 0 as real,
            w > 0 as real,
            k == y * w,
    ;
    assert(p < q <==> p * k < q * k) by (nonlinear_arith)
        requires
            k > 0 as real,
    ;
}

} // verus!
