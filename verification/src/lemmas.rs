//! Arithmetic that the rules and the laws rest on.

use vstd::prelude::*;
use vstd::arithmetic::div_mod::{
    lemma_div_is_ordered, lemma_div_multiples_vanish, lemma_fundamental_div_mod,
    lemma_mod_bound,
};
use crate::fixed::{is_root, lemma_root, lemma_root_unique, quot, root};
use crate::model::{rescaled_axis, Vector};

verus! {

/// A truncated quotient by a positive number grows with its numerator, and
/// gives back the factor of a multiple.
pub proof fn lemma_quot_monotone(a: int, c: int, b: int)
    requires
        a <= c,
        b > 0,
    ensures
        quot(a, b) <= quot(c, b),
        quot(a * b, b) == a,
        a >= 0 ==> quot(a, b) >= 0,
        c <= 0 ==> quot(c, b) <= 0,
{
    if a >= 0 {
        lemma_div_is_ordered(0, a, b);
        lemma_div_is_ordered(a, c, b);
    } else {
        lemma_div_is_ordered(0, -a, b);
        if c >= 0 {
            lemma_div_is_ordered(0, c, b);
        } else {
            lemma_div_is_ordered(-c, -a, b);
        }
    }
    assert(0int / b == 0) by (nonlinear_arith)
        requires
            b > 0,
    ;
    lemma_div_multiples_vanish(a, b);
    lemma_div_multiples_vanish(-a, b);
    assert(b * a == a * b && b * (-a) == -(a * b)) by (nonlinear_arith);
    assert(a >= 0 ==> a * b >= 0) by (nonlinear_arith)
        requires
            b > 0,
    ;
    assert(a < 0 ==> a * b < 0) by (nonlinear_arith)
        requires
            b > 0,
    ;
}

/// A truncated quotient by a positive number, told by products: it is the
/// numerator less a remainder on the side of the numerator.
pub proof fn lemma_quot_bracket(a: int, b: int)
    requires
        b > 0,
    ensures
        a >= 0 ==> quot(a, b) * b <= a < quot(a, b) * b + b,
        a <= 0 ==> quot(a, b) * b - b < a <= quot(a, b) * b,
{
    if a >= 0 {
        lemma_fundamental_div_mod(a, b);
        lemma_mod_bound(a, b);
        assert(b * (a / b) == (a / b) * b) by (nonlinear_arith);
    } else {
        lemma_fundamental_div_mod(-a, b);
        lemma_mod_bound(-a, b);
        assert(b * ((-a) / b) == ((-a) / b) * b && (-((-a) / b)) * b == -(((-a) / b) * b))
            by (nonlinear_arith);
    }
}

/// Truncated quotients add up to within one: the quotient of a sum differs
/// from the sum of the quotients by one at most.
pub proof fn lemma_quot_of_sum(a: int, c: int, b: int)
    requires
        b > 0,
    ensures
        -1 <= quot(a + c, b) - (quot(a, b) + quot(c, b)) <= 1,
{
    lemma_quot_bracket(a, b);
    lemma_quot_bracket(c, b);
    lemma_quot_bracket(a + c, b);
    let (qa, qc, qs) = (quot(a, b), quot(c, b), quot(a + c, b));
    assert((qa + qc) * b == qa * b + qc * b && (qs - (qa + qc)) * b == qs * b - (qa * b + qc * b))
        by (nonlinear_arith);
    let diff = qs - (qa + qc);
    assert(-2 * b < diff * b < 2 * b);
    assert(-2 < diff < 2) by (nonlinear_arith)
        requires
            -2 * b < diff * b < 2 * b,
            b > 0,
    ;
}

/// A number is at most a quotient exactly if its multiple is at most the
/// numerator.
pub proof fn lemma_quotient_bound(a: int, m: int, h: int)
    requires
        h > 0,
    ensures
        (a * h <= m) == (a <= m / h),
{
    lemma_fundamental_div_mod(m, h);
    lemma_mod_bound(m, h);
    let q = m / h;
    if a <= q {
        assert(a * h <= q * h) by (nonlinear_arith)
            requires
                a <= q,
                h > 0,
        ;
        assert(h * q == q * h) by (nonlinear_arith);
    } else {
        assert(a * h >= (q + 1) * h) by (nonlinear_arith)
            requires
                a >= q + 1,
                h > 0,
        ;
        assert((q + 1) * h == h * q + h) by (nonlinear_arith);
    }
}

/// The integer square root of a quotient, told by products alone.
pub proof fn lemma_root_of_quotient(t: int, m: int, h: int)
    requires
        h > 0,
        t >= 0,
        m >= 0,
        t * t * h <= m,
        m < (t + 1) * (t + 1) * h,
    ensures
        root((m / h) as nat) == t,
{
    lemma_quotient_bound(t * t, m, h);
    lemma_quotient_bound((t + 1) * (t + 1), m, h);
    lemma_quotient_bound(0, m, h);
    assert(0 * h == 0) by (nonlinear_arith);
    assert(is_root((m / h) as nat, t as nat));
    lemma_root_unique((m / h) as nat, t as nat);
}

/// What the integer square root of a quotient says in products.
pub proof fn lemma_quotient_of_root(m: int, h: int)
    requires
        h > 0,
        m >= 0,
    ensures
        ({
            let t = root((m / h) as nat) as int;
            t * t * h <= m < (t + 1) * (t + 1) * h
        }),
{
    lemma_quotient_bound(0, m, h);
    assert(0 * h == 0) by (nonlinear_arith);
    lemma_root((m / h) as nat);
    let t = root((m / h) as nat) as int;
    lemma_quotient_bound(t * t, m, h);
    lemma_quotient_bound((t + 1) * (t + 1), m, h);
}

/// The square of a dot product is at most the product of the squared
/// lengths, with equality exactly for vectors along one line.
pub proof fn lemma_cauchy_schwarz(h: Vector, d: Vector)
    ensures
        h.norm_squared() * d.norm_squared() == h.dot(d) * h.dot(d) + (h.x * d.y - h.y * d.x) * (
        h.x * d.y - h.y * d.x),
        h.dot(d) * h.dot(d) <= h.norm_squared() * d.norm_squared(),
{
    let (a, b, c, e) = (h.x, h.y, d.x, d.y);
    let (ac, be, ae, bc) = (a * c, b * e, a * e, b * c);
    assert((a * a) * (c * c) == ac * ac) by (nonlinear_arith)
        requires
            ac == a * c,
    ;
    assert((b * b) * (e * e) == be * be) by (nonlinear_arith)
        requires
            be == b * e,
    ;
    assert((a * a) * (e * e) == ae * ae) by (nonlinear_arith)
        requires
            ae == a * e,
    ;
    assert((b * b) * (c * c) == bc * bc) by (nonlinear_arith)
        requires
            bc == b * c,
    ;
    assert(ac * be == ae * bc) by (nonlinear_arith)
        requires
            ac == a * c,
            be == b * e,
            ae == a * e,
            bc == b * c,
    ;
    let (aa, bb, cc, ee) = (a * a, b * b, c * c, e * e);
    assert((aa + bb) * (cc + ee) == aa * cc + aa * ee + bb * cc + bb * ee) by (nonlinear_arith);
    assert((ac + be) * (ac + be) == ac * ac + 2 * (ac * be) + be * be) by (nonlinear_arith);
    assert((ae - bc) * (ae - bc) == ae * ae - 2 * (ae * bc) + bc * bc) by (nonlinear_arith);
    assert((ae - bc) * (ae - bc) >= 0) by (nonlinear_arith);
}

} // verus!
