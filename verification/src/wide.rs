//! Natural numbers of up to 320 bits, for exact comparisons of products.

use vstd::prelude::*;

verus! {

/// A natural number in five digits of 64 bits, the lowest first.
#[derive(Clone, Copy, Debug)]
pub struct Wide {
    pub d0: u64,
    pub d1: u64,
    pub d2: u64,
    pub d3: u64,
    pub d4: u64,
}

impl View for Wide {
    type V = nat;

    open spec fn view(&self) -> nat {
        (self.d0 + self.d1 * 0x1_0000_0000_0000_0000 + self.d2
            * 0x1_0000_0000_0000_0000_0000_0000_0000_0000 + self.d3
            * 0x1_0000_0000_0000_0000_0000_0000_0000_0000_0000_0000_0000_0000 + self.d4
            * 0x1_0000_0000_0000_0000_0000_0000_0000_0000_0000_0000_0000_0000_0000_0000_0000_0000) as nat
    }
}

/// The product of two numbers of two digits, by the digits.
proof fn lemma_product_of_halves(a0: int, a1: int, b0: int, b1: int, base: int)
    ensures
        (a1 * base + a0) * (b1 * base + b0) == a0 * b0 + (a0 * b1 + a1 * b0) * base + (a1 * b1) * (
        base * base),
{
    let x = a1 * base;
    let y = b1 * base;
    assert((x + a0) * (y + b0) == x * y + x * b0 + a0 * y + a0 * b0) by (nonlinear_arith);
    assert(x * y == (a1 * b1) * (base * base)) by (nonlinear_arith)
        requires
            x == a1 * base,
            y == b1 * base,
    ;
    assert(x * b0 == (a1 * b0) * base) by (nonlinear_arith)
        requires
            x == a1 * base,
    ;
    assert(a0 * y == (a0 * b1) * base) by (nonlinear_arith)
        requires
            y == b1 * base,
    ;
    assert((a0 * b1 + a1 * b0) * base == (a0 * b1) * base + (a1 * b0) * base)
        by (nonlinear_arith);
}

/// The product of a number of four digits and `k`, by the digits.
proof fn lemma_product_of_digits(
    d0: int,
    d1: int,
    d2: int,
    d3: int,
    w1: int,
    w2: int,
    w3: int,
    k: int,
)
    ensures
        (d0 + d1 * w1 + d2 * w2 + d3 * w3) * k == d0 * k + (d1 * k) * w1 + (d2 * k) * w2 + (d3 * k)
            * w3,
{
    let e1 = d1 * w1;
    let e2 = d2 * w2;
    let e3 = d3 * w3;
    assert((d0 + e1 + e2 + e3) * k == d0 * k + e1 * k + e2 * k + e3 * k) by (nonlinear_arith);
    assert(e1 * k == (d1 * k) * w1) by (nonlinear_arith)
        requires
            e1 == d1 * w1,
    ;
    assert(e2 * k == (d2 * k) * w2) by (nonlinear_arith)
        requires
            e2 == d2 * w2,
    ;
    assert(e3 * k == (d3 * k) * w3) by (nonlinear_arith)
        requires
            e3 == d3 * w3,
    ;
}

impl Wide {
    /// The exact product of `a` and `b`.
    pub fn product(a: u128, b: u128) -> (r: Wide)
        ensures
            r@ == a * b,
            r.d4 == 0,
    {
        let a0: u128 = a % 0x1_0000_0000_0000_0000;
        let a1: u128 = a / 0x1_0000_0000_0000_0000;
        let b0: u128 = b % 0x1_0000_0000_0000_0000;
        let b1: u128 = b / 0x1_0000_0000_0000_0000;
        assert(a0 * b0 <= 0xffff_ffff_ffff_ffff * 0xffff_ffff_ffff_ffff && a0 * b1
            <= 0xffff_ffff_ffff_ffff * 0xffff_ffff_ffff_ffff && a1 * b0 <= 0xffff_ffff_ffff_ffff
            * 0xffff_ffff_ffff_ffff && a1 * b1 <= 0xffff_ffff_ffff_ffff * 0xffff_ffff_ffff_ffff)
            by (nonlinear_arith)
            requires
                a0 <= 0xffff_ffff_ffff_ffff,
                a1 <= 0xffff_ffff_ffff_ffff,
                b0 <= 0xffff_ffff_ffff_ffff,
                b1 <= 0xffff_ffff_ffff_ffff,
        ;
        let p00: u128 = a0 * b0;
        let p01: u128 = a0 * b1;
        let p10: u128 = a1 * b0;
        let p11: u128 = a1 * b1;
        proof {
            lemma_product_of_halves(
                a0 as int,
                a1 as int,
                b0 as int,
                b1 as int,
                0x1_0000_0000_0000_0000int,
            );
            assert(0x1_0000_0000_0000_0000int * 0x1_0000_0000_0000_0000int
                == 0x1_0000_0000_0000_0000_0000_0000_0000_0000int);
        }
        let low: u128 = p00 / 0x1_0000_0000_0000_0000 + p01 % 0x1_0000_0000_0000_0000 + p10
            % 0x1_0000_0000_0000_0000;
        let mid: u128 = low / 0x1_0000_0000_0000_0000 + p01 / 0x1_0000_0000_0000_0000 + p10
            / 0x1_0000_0000_0000_0000 + p11 % 0x1_0000_0000_0000_0000;
        let high: u128 = mid / 0x1_0000_0000_0000_0000 + p11 / 0x1_0000_0000_0000_0000;
        Wide {
            d0: (p00 % 0x1_0000_0000_0000_0000) as u64,
            d1: (low % 0x1_0000_0000_0000_0000) as u64,
            d2: (mid % 0x1_0000_0000_0000_0000) as u64,
            d3: high as u64,
            d4: 0,
        }
    }

    /// The exact product of a number below 2^256 and `m`.
    pub fn times(self, m: u64) -> (r: Wide)
        requires
            self.d4 == 0,
        ensures
            r@ == self@ * m,
    {
        let k: u128 = m as u128;
        assert(self.d0 * k <= 0xffff_ffff_ffff_ffff * 0xffff_ffff_ffff_ffff && self.d1 * k
            <= 0xffff_ffff_ffff_ffff * 0xffff_ffff_ffff_ffff && self.d2 * k
            <= 0xffff_ffff_ffff_ffff * 0xffff_ffff_ffff_ffff && self.d3 * k
            <= 0xffff_ffff_ffff_ffff * 0xffff_ffff_ffff_ffff) by (nonlinear_arith)
            requires
                self.d0 <= 0xffff_ffff_ffff_ffff,
                self.d1 <= 0xffff_ffff_ffff_ffff,
                self.d2 <= 0xffff_ffff_ffff_ffff,
                self.d3 <= 0xffff_ffff_ffff_ffff,
                k <= 0xffff_ffff_ffff_ffff,
        ;
        let t0: u128 = self.d0 as u128 * k;
        let t1: u128 = self.d1 as u128 * k + t0 / 0x1_0000_0000_0000_0000;
        let t2: u128 = self.d2 as u128 * k + t1 / 0x1_0000_0000_0000_0000;
        let t3: u128 = self.d3 as u128 * k + t2 / 0x1_0000_0000_0000_0000;
        proof {
            lemma_product_of_digits(
                self.d0 as int,
                self.d1 as int,
                self.d2 as int,
                self.d3 as int,
                0x1_0000_0000_0000_0000int,
                0x1_0000_0000_0000_0000_0000_0000_0000_0000int,
                0x1_0000_0000_0000_0000_0000_0000_0000_0000_0000_0000_0000_0000int,
                k as int,
            );
        }
        Wide {
            d0: (t0 % 0x1_0000_0000_0000_0000) as u64,
            d1: (t1 % 0x1_0000_0000_0000_0000) as u64,
            d2: (t2 % 0x1_0000_0000_0000_0000) as u64,
            d3: (t3 % 0x1_0000_0000_0000_0000) as u64,
            d4: (t3 / 0x1_0000_0000_0000_0000) as u64,
        }
    }

    /// Whether `self` is at most `rhs`.
    pub fn at_most(&self, rhs: &Wide) -> (r: bool)
        ensures
            r == (self@ <= rhs@),
    {
        if self.d4 != rhs.d4 {
            self.d4 < rhs.d4
        } else if self.d3 != rhs.d3 {
            self.d3 < rhs.d3
        } else if self.d2 != rhs.d2 {
            self.d2 < rhs.d2
        } else if self.d1 != rhs.d1 {
            self.d1 < rhs.d1
        } else {
            self.d0 <= rhs.d0
        }
    }
}

} // verus!
