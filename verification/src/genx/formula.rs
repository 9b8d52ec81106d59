//! The damage formula over the reals.
use vstd::prelude::*;

verus! {

proof fn lemma_quotient(u: real, d: real)
    requires
        d > 0 as real,
    ensures
        (u / d) * d == u,
{
    assert((u / d) * d == u) by (nonlinear_arith)
        requires
            d > 0 as real,
    ;
}

proof fn lemma_step(c: real, x: real, y: real, n: real)
    requires
        n > 0 as real,
    ensures
        (c * x) * (y / n) == (c / n) * (x * y),
{
    let z = y / n;
    assert(z * n == y) by (nonlinear_arith)
        requires
            n > 0 as real,
            z == y / n,
    ;
    let w = c / n;
    assert(w * n == c) by (nonlinear_arith)
        requires
            n > 0 as real,
            w == c / n,
    ;
    assert(((w * n) * x) * z == w * (x * (z * n))) by (nonlinear_arith);
}

proof fn lemma_swap(x: real, y: real, z: real)
    ensures
        (x * y) * z == (x * z) * y,
{
    assert((x * y) * z == (x * z) * y) by (nonlinear_arith);
}

proof fn lemma_assoc(x: real, y: real, z: real)
    ensures
        (x * y) * z == x * (y * z),
{
    assert((x * y) * z == x * (y * z)) by (nonlinear_arith);
}

proof fn lemma_factors(p: real, k: real, st: real, e: real, b: real, f: real)
    ensures
        (84 as real / 100 as real) * p * k * (st / 2 as real) * (e / 16 as real) * (b / 2 as real)
            * (f / 400 as real) == (84 as real / 2560000 as real) * ((p * (st * e * b * f)) * k),
{
    let c0 = 84 as real / 100 as real;
    lemma_assoc(c0, p, k);
    lemma_step(c0, p * k, st, 2 as real);
    lemma_swap(p, k, st);
    lemma_step(c0 / 2 as real, (p * st) * k, e, 16 as real);
    lemma_swap(p * st, k, e);
    lemma_step(c0 / 2 as real / 16 as real, ((p * st) * e) * k, b, 2 as real);
    lemma_swap((p * st) * e, k, b);
    lemma_step(c0 / 2 as real / 16 as real / 2 as real, (((p * st) * e) * b) * k, f, 400 as real);
    lemma_swap(((p * st) * e) * b, k, f);
    lemma_assoc(p, st, e);
    lemma_assoc(p, st * e, b);
    lemma_assoc(p, st * e * b, f);
    assert(c0 / 2 as real / 16 as real / 2 as real / 400 as real == 84 as real / 2560000 as real);
}

proof fn lemma_stat(s: real, h: real, o: real)
    ensures
        s * (h / 2 as real) * (o / 10 as real) == (1 as real / 20 as real) * (s * h * o),
{
    assert(s * (h / 2 as real) * (o / 10 as real) == (1 as real / 20 as real) * (s * h * o))
        by (nonlinear_arith);
}

proof fn lemma_regroup(p: real, r: real, s: real, n: real)
    ensures
        (p * r) * ((1 as real / 20 as real) * (s * n)) == (1 as real / 20 as real) * ((p * s) * (n
            * r)),
{
    let c = 1 as real / 20 as real;
    let x = p * r;
    let y = s * n;
    assert(x * (c * y) == c * (x * y)) by (nonlinear_arith);
    assert((p * r) * (s * n) == (p * s) * (n * r)) by (nonlinear_arith);
}

proof fn lemma_gather(p: real, s: real, h: real, o: real, st: real, e: real, b: real, f: real)
    ensures
        (p * (st * e * b * f)) * ((1 as real / 20 as real) * (s * h * o)) == (1 as real
            / 20 as real) * (p * s * (h * o * st * e * b * f)),
{
    let n = h * o;
    lemma_assoc(s, h, o);
    lemma_assoc(n, st, e);
    lemma_assoc(n, st * e, b);
    lemma_assoc(n, st * e * b, f);
    lemma_regroup(p, st * e * b * f, s, n);
}

/// The damage formula, with every factor over its own denominator, brought over
/// one denominator.
pub proof fn lemma_formula(
    p: real,
    s: real,
    h: real,
    o: real,
    st: real,
    e: real,
    b: real,
    f: real,
    d: real,
    hp: real,
)
    requires
        d > 0 as real,
        hp > 0 as real,
    ensures
        (84 as real / 100 as real) * p * ((s * (h / 2 as real) * (o / 10 as real)) / d) * (st
            / 2 as real) * (e / 16 as real) * (b / 2 as real) * (f / 400 as real) / hp / (1 as real
            / 2 as real) == (42 as real * (p * s * (h * o * st * e * b * f))) / (12800000 as real * (
        d * hp)),
{
    let u = s * (h / 2 as real) * (o / 10 as real);
    let k = u / d;
    let g = (84 as real / 100 as real) * p * k * (st / 2 as real) * (e / 16 as real) * (b
        / 2 as real) * (f / 400 as real);
    let w = g / hp;
    let q = p * s * (h * o * st * e * b * f);
    let pr = p * (st * e * b * f);
    lemma_quotient(u, d);
    lemma_quotient(g, hp);
    lemma_factors(p, k, st, e, b, f);
    lemma_stat(s, h, o);
    lemma_gather(p, s, h, o, st, e, b, f);
    lemma_assoc(pr, k, d);
    assert((pr * k) * d == (1 as real / 20 as real) * q);
    lemma_assoc(84 as real / 2560000 as real, pr * k, d);
    assert(g * d == (84 as real / 51200000 as real) * q);
    lemma_close(w, g, q, d, hp);
}

proof fn lemma_close(w: real, g: real, q: real, d: real, hp: real)
    requires
        d > 0 as real,
        hp > 0 as real,
        w * hp == g,
        g * d == (84 as real / 51200000 as real) * q,
    ensures
        w / (1 as real / 2 as real) == (42 as real * q) / (12800000 as real * (d * hp)),
{
    let den = 12800000 as real * (d * hp);
    assert(d * hp > 0 as real) by (nonlinear_arith)
        requires
            d > 0 as real,
            hp > 0 as real,
    ;
    assert(w * (d * hp) == (w * hp) * d) by (nonlinear_arith);
    let x = d * hp;
    assert(w * x == (84 as real / 51200000 as real) * q);
    assert((2 as real * w) * (12800000 as real * x) == 25600000 as real * (w * x))
        by (nonlinear_arith);
    let v = 2 as real * w;
    let t = 42 as real * q;
    assert(v * den == t);
    assert(v == t / den) by (nonlinear_arith)
        requires
            v * den == t,
            den > 0 as real,
    ;
}

} // verus!
