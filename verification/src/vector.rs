//! Vectors of the plane with fixed-point components.

use vstd::prelude::*;
use crate::fixed::{magnitude, narrow, saturate, square, Fixed};
use crate::lemmas::lemma_root_of_quotient;
use crate::model::{rescaled_axis, Vector};
use crate::wide::Wide;

verus! {

/// A vector of the plane.
#[derive(Clone, Copy, Debug, PartialEq, Eq, Structural)]
pub struct Vec2 {
    pub x: Fixed,
    pub y: Fixed,
}

impl View for Vec2 {
    type V = Vector;

    open spec fn view(&self) -> Vector {
        Vector { x: self.x@, y: self.y@ }
    }
}

/// The component `x` of a vector of squared length `hh`, after the vector
/// is brought to the length `len`. The magnitude is found by bisection on
/// exact products.
fn axis_rescaled(x: i64, len: i64, hh: u128) -> (r: Fixed)
    requires
        hh > 0,
        x * x <= hh,
    ensures
        r@ == saturate(rescaled_axis(x as int, len as int, hh as int)),
{
    let ax: u128 = magnitude(x);
    let al: u128 = magnitude(len);
    assert(ax * al <= 0x4000_0000_0000_0000_0000_0000_0000_0000) by (nonlinear_arith)
        requires
            ax <= 0x8000_0000_0000_0000,
            al <= 0x8000_0000_0000_0000,
    ;
    let xl: u128 = ax * al;
    let m: Wide = Wide::product(xl, xl);
    assert(m@ == (x * len) * (x * len) && m@ < (al + 1) * (al + 1) * hh) by (nonlinear_arith)
        requires
            m@ == xl * xl,
            xl == ax * al,
            ax == x || ax == -x,
            al == len || al == -len,
            x * x <= hh,
            hh > 0,
            al >= 0,
    ;
    let mut lo: u128 = 0;
    let mut hi: u128 = al + 1;
    assert(0 * 0 * hh == 0) by (nonlinear_arith);
    while hi - lo > 1
        invariant
            lo < hi <= al + 1,
            al <= 0x8000_0000_0000_0000,
            hh > 0,
            lo * lo * hh <= m@ < hi * hi * hh,
        decreases hi - lo,
    {
        let mid: u128 = lo + (hi - lo) / 2;
        assert(mid * mid <= 0x8000_0000_0000_0000 * 0x8000_0000_0000_0000) by (nonlinear_arith)
            requires
                mid <= 0x8000_0000_0000_0000,
        ;
        let w: Wide = Wide::product(mid * mid, hh);
        if w.at_most(&m) {
            lo = mid;
        } else {
            hi = mid;
        }
    }
    proof {
        lemma_root_of_quotient(lo as int, m@ as int, hh as int);
        assert((x * len >= 0) == !((x < 0 && len > 0) || (x > 0 && len < 0))) by (nonlinear_arith);
    }
    if (x < 0 && len > 0) || (x > 0 && len < 0) {
        narrow(-(lo as i128))
    } else {
        narrow(lo as i128)
    }
}

impl Vec2 {
    /// The zero vector.
    pub fn zero() -> (r: Vec2)
        ensures
            r@ == Vector::zero(),
    {
        Vec2 { x: Fixed::zero(), y: Fixed::zero() }
    }

    /// Whether this is the zero vector.
    pub fn is_zero(self) -> (r: bool)
        ensures
            r == (self@ == Vector::zero()),
    {
        self.x.raw == 0 && self.y.raw == 0
    }

    /// Whether both components agree with those of `rhs`.
    pub fn same(self, rhs: Vec2) -> (r: bool)
        ensures
            r == (self@ == rhs@),
    {
        self.x.raw == rhs.x.raw && self.y.raw == rhs.y.raw
    }

    /// Componentwise saturating sum.
    pub fn plus(self, rhs: Vec2) -> (r: Vec2)
        ensures
            r@ == self@.plus(rhs@),
    {
        Vec2 { x: self.x.plus(rhs.x), y: self.y.plus(rhs.y) }
    }

    /// Componentwise saturating difference.
    pub fn minus(self, rhs: Vec2) -> (r: Vec2)
        ensures
            r@ == self@.minus(rhs@),
    {
        Vec2 { x: self.x.minus(rhs.x), y: self.y.minus(rhs.y) }
    }

    /// Both components multiplied by `k`.
    pub fn scaled(self, k: Fixed) -> (r: Vec2)
        ensures
            r@ == self@.scaled(k@),
    {
        Vec2 { x: self.x.times(k), y: self.y.times(k) }
    }

    /// The exact dot product, in squared raw units: whether it is
    /// negative, and its magnitude.
    pub fn dot(self, rhs: Vec2) -> (r: (bool, u128))
        ensures
            r.0 == (self@.dot(rhs@) < 0),
            r.1 == if self@.dot(rhs@) < 0 { -self@.dot(rhs@) } else { self@.dot(rhs@) },
    {
        let a: i128 = self.x.raw as i128;
        let b: i128 = rhs.x.raw as i128;
        let c: i128 = self.y.raw as i128;
        let e: i128 = rhs.y.raw as i128;
        assert(-0x4000_0000_0000_0000_0000_0000_0000_0000 <= a * b
            <= 0x4000_0000_0000_0000_0000_0000_0000_0000 && -0x4000_0000_0000_0000_0000_0000_0000_0000
            <= c * e <= 0x4000_0000_0000_0000_0000_0000_0000_0000) by (nonlinear_arith)
            requires
                -0x8000_0000_0000_0000 <= a <= 0x8000_0000_0000_0000,
                -0x8000_0000_0000_0000 <= b <= 0x8000_0000_0000_0000,
                -0x8000_0000_0000_0000 <= c <= 0x8000_0000_0000_0000,
                -0x8000_0000_0000_0000 <= e <= 0x8000_0000_0000_0000,
        ;
        let p: i128 = a * b;
        let q: i128 = c * e;
        if p >= 0 && q >= 0 {
            (false, p as u128 + q as u128)
        } else if p < 0 && q < 0 {
            (true, (-p) as u128 + (-q) as u128)
        } else {
            let sum: i128 = p + q;
            if sum < 0 {
                (true, (-sum) as u128)
            } else {
                (false, sum as u128)
            }
        }
    }

    /// The vector of the same direction and of length `len`, each component
    /// rounded towards zero; the zero vector stays.
    pub fn rescaled(self, len: Fixed) -> (r: Vec2)
        ensures
            r@ == self@.rescaled(len@),
    {
        if self.is_zero() {
            self
        } else {
            let hh: u128 = self.norm_squared();
            assert(self.x.raw * self.x.raw <= hh && self.y.raw * self.y.raw <= hh && hh > 0)
                by (nonlinear_arith)
                requires
                    hh == self.x.raw * self.x.raw + self.y.raw * self.y.raw,
                    self.x.raw != 0 || self.y.raw != 0,
            ;
            Vec2 {
                x: axis_rescaled(self.x.raw, len.raw, hh),
                y: axis_rescaled(self.y.raw, len.raw, hh),
            }
        }
    }

    /// The exact squared length, in squared raw units.
    pub fn norm_squared(self) -> (r: u128)
        ensures
            r == self@.norm_squared(),
    {
        square(self.x.raw) + square(self.y.raw)
    }
}

} // verus!
