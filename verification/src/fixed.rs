//! Saturating decimal fixed-point scalars.
//!
//! A scalar is a signed 64-bit count of billionths. Sums and differences are
//! exact until they leave the 64-bit range, where they stick to the nearest
//! end of it; products are rounded towards zero.

use vstd::prelude::*;

verus! {

/// Raw units in one whole.
pub const SCALE: i64 = 1_000_000_000;

/// Whether `x` is a value that a raw scalar can hold.
pub open spec fn in_range(x: int) -> bool {
    i64::MIN <= x <= i64::MAX
}

/// The nearest integer to `x` that a raw value can hold.
pub open spec fn saturate(x: int) -> int {
    if x < i64::MIN {
        i64::MIN as int
    } else if x > i64::MAX {
        i64::MAX as int
    } else {
        x
    }
}

/// The quotient of `a` by `b`, rounded towards zero. Meaningful for `b != 0`.
///
/// The `/` of specifications is Euclidean, which rounds a quotient of
/// non-negative `a` towards zero whatever the sign of `b`.
pub open spec fn quot(a: int, b: int) -> int {
    if a >= 0 {
        a / b
    } else {
        -((-a) / b)
    }
}

/// Saturating sum of two raw values.
pub open spec fn fx_add(a: int, b: int) -> int {
    saturate(a + b)
}

/// Saturating difference of two raw values.
pub open spec fn fx_sub(a: int, b: int) -> int {
    saturate(a - b)
}

/// Product of two scalars, as a raw value: rounded towards zero, saturating.
pub open spec fn fx_mul(a: int, b: int) -> int {
    saturate(quot(a * b, SCALE as int))
}

/// Whether `r` is the integer square root of `n`: the largest integer whose
/// square does not exceed `n`.
pub open spec fn is_root(n: nat, r: nat) -> bool {
    r * r <= n < (r + 1) * (r + 1)
}

/// The integer square root of `n`.
pub open spec fn root(n: nat) -> nat {
    choose|r: nat| is_root(n, r)
}

/// Square root of a scalar, as a raw value, rounded down; zero for a
/// scalar that is not positive.
pub open spec fn fx_sqrt(a: int) -> int {
    if a <= 0 {
        0
    } else {
        root((a * SCALE) as nat) as int
    }
}

proof fn lemma_root_exists(n: nat)
    ensures
        exists|r: nat| is_root(n, r),
    decreases n,
{
    if n == 0 {
        assert(is_root(0, 0)) by (nonlinear_arith);
    } else {
        let m = (n - 1) as nat;
        lemma_root_exists(m);
        let r = choose|r: nat| is_root(m, r);
        if (r + 1) * (r + 1) <= n {
            assert(n < (r + 2) * (r + 2)) by (nonlinear_arith)
                requires
                    n - 1 < (r + 1) * (r + 1),
            ;
            assert(is_root(n, r + 1));
        } else {
            assert(is_root(n, r));
        }
    }
}

/// `root(n)` is the integer square root of `n`.
pub proof fn lemma_root(n: nat)
    ensures
        is_root(n, root(n)),
{
    lemma_root_exists(n);
}

/// No number has two integer square roots.
pub proof fn lemma_root_unique(n: nat, r: nat)
    requires
        is_root(n, r),
    ensures
        root(n) == r,
{
    lemma_root(n);
    let s = root(n);
    assert(r == s) by (nonlinear_arith)
        requires
            r * r <= n < (r + 1) * (r + 1),
            s * s <= n < (s + 1) * (s + 1),
    ;
}

/// A fixed-point scalar: `raw` billionths.
#[derive(Clone, Copy, Debug, PartialEq, Eq, Structural)]
pub struct Fixed {
    pub raw: i64,
}

impl View for Fixed {
    type V = int;

    open spec fn view(&self) -> int {
        self.raw as int
    }
}

/// Brings a wide intermediate result back into the raw range.
pub fn narrow(wide: i128) -> (r: Fixed)
    ensures
        r@ == saturate(wide as int),
{
    if wide < i64::MIN as i128 {
        Fixed { raw: i64::MIN }
    } else if wide > i64::MAX as i128 {
        Fixed { raw: i64::MAX }
    } else {
        Fixed { raw: wide as i64 }
    }
}

/// The integer square root of `n`, by bisection.
pub fn isqrt(n: u128) -> (r: u64)
    ensures
        r == root(n as nat),
{
    let mut lo: u128 = 0;
    let mut hi: u128 = 0x1_0000_0000_0000_0000;
    while hi - lo > 1
        invariant
            lo < hi <= 0x1_0000_0000_0000_0000,
            lo * lo <= n < hi * hi,
        decreases hi - lo,
    {
        let mid: u128 = lo + (hi - lo) / 2;
        assert(mid * mid < 0x1_0000_0000_0000_0000_0000_0000_0000_0000) by (nonlinear_arith)
            requires
                mid < 0x1_0000_0000_0000_0000,
        ;
        if mid * mid <= n {
            lo = mid;
        } else {
            hi = mid;
        }
    }
    proof {
        lemma_root_unique(n as nat, lo as nat);
    }
    lo as u64
}

/// The exact square of a raw value.
pub fn square(a: i64) -> (r: u128)
    ensures
        r == a * a,
        r <= 0x4000_0000_0000_0000_0000_0000_0000_0000,
{
    let wide: i128 = a as i128;
    assert(0 <= wide * wide <= 0x4000_0000_0000_0000_0000_0000_0000_0000) by (nonlinear_arith)
        requires
            -0x8000_0000_0000_0000 <= wide <= 0x8000_0000_0000_0000,
    ;
    (wide * wide) as u128
}

/// The magnitude of a raw value.
pub fn magnitude(a: i64) -> (r: u128)
    ensures
        r == if a < 0 { -a } else { a as int },
        r <= 0x8000_0000_0000_0000,
{
    if a < 0 {
        (-(a as i128)) as u128
    } else {
        a as u128
    }
}

impl Fixed {
    /// The scalar zero.
    pub fn zero() -> (r: Fixed)
        ensures
            r@ == 0,
    {
        Fixed { raw: 0 }
    }

    /// `self + rhs`, saturating.
    pub fn plus(self, rhs: Fixed) -> (r: Fixed)
        ensures
            r@ == fx_add(self@, rhs@),
    {
        narrow(self.raw as i128 + rhs.raw as i128)
    }

    /// `self - rhs`, saturating.
    pub fn minus(self, rhs: Fixed) -> (r: Fixed)
        ensures
            r@ == fx_sub(self@, rhs@),
    {
        narrow(self.raw as i128 - rhs.raw as i128)
    }

    /// `self * rhs`, rounded towards zero, saturating.
    pub fn times(self, rhs: Fixed) -> (r: Fixed)
        ensures
            r@ == fx_mul(self@, rhs@),
    {
        let a: i128 = self.raw as i128;
        let b: i128 = rhs.raw as i128;
        assert(-0x4000_0000_0000_0000_0000_0000_0000_0000 <= a * b
            <= 0x4000_0000_0000_0000_0000_0000_0000_0000) by (nonlinear_arith)
            requires
                -0x8000_0000_0000_0000 <= a <= 0x8000_0000_0000_0000,
                -0x8000_0000_0000_0000 <= b <= 0x8000_0000_0000_0000,
        ;
        narrow((a * b) / (SCALE as i128))
    }

    /// The square root of `self`, rounded down; zero if `self` is not positive.
    pub fn sqrt(self) -> (r: Fixed)
        ensures
            r@ == fx_sqrt(self@),
    {
        if self.raw <= 0 {
            Fixed { raw: 0 }
        } else {
            let wide: u128 = (self.raw as u128) * (SCALE as u128);
            let len: u64 = isqrt(wide);
            proof {
                lemma_root(wide as nat);
                assert(len < 0x8000_0000_0000_0000) by (nonlinear_arith)
                    requires
                        len * len <= wide,
                        wide < 0x4000_0000_0000_0000_0000_0000_0000_0000,
                ;
            }
            Fixed { raw: len as i64 }
        }
    }
}

} // verus!
