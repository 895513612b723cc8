//! Fixed-point scalar arithmetic, the numeric base of the geometry kernel.
//!
//! A scalar is stored as a signed 64-bit raw value and denotes the rational
//! number `raw / SCALE`, a Q31.32 fixed-point quantity.  Every operation is
//! exact integer arithmetic: products, quotients and square roots round
//! toward negative infinity (floor), and each contract states the result as
//! a closed formula over the raw values, so callers reason about the exact
//! integer the operation produces, not an approximation.

use vstd::prelude::*;
use vstd::arithmetic::div_mod::{
    lemma_fundamental_div_mod,
    lemma_fundamental_div_mod_converse,
    lemma_mod_division_less_than_divisor,
    lemma_div_pos_is_pos,
    lemma_div_nonincreasing,
};

verus! {

/// Denominator of the fixed-point representation: a raw value `r` denotes
/// the rational number `r / SCALE`.  Equal to 2^32.
pub const SCALE: i64 = 4294967296;

/// A fixed-point scalar denoting `raw / SCALE`.
#[derive(Clone, Copy, Debug, PartialEq, Eq, Structural)]
pub struct Fx {
    pub raw: i64,
}

impl View for Fx {
    type V = int;

    open spec fn view(&self) -> int {
        self.raw as int
    }
}

/// Whether a mathematical integer is representable as a raw `i64` value.
pub open spec fn fits_i64(x: int) -> bool {
    i64::MIN <= x <= i64::MAX
}

/// Raw value of the fixed-point product: `(a * b) / SCALE`, rounded toward
/// negative infinity.
pub open spec fn fx_mul(a: int, b: int) -> int {
    (a * b) / (SCALE as int)
}

/// Raw value of the fixed-point quotient `a / b` for `b > 0`:
/// `(a * SCALE) / b`, rounded toward negative infinity.
pub open spec fn fx_div(a: int, b: int) -> int {
    (a * (SCALE as int)) / b
}

/// `r` is the integer square root of `n`: the greatest integer whose square
/// does not exceed `n`.
pub open spec fn is_isqrt(n: int, r: int) -> bool {
    &&& 0 <= r
    &&& r * r <= n
    &&& n < (r + 1) * (r + 1)
}

/// The integer square root of `n` (meaningful for `n >= 0`; see
/// `lemma_isqrt_exists`).
pub open spec fn isqrt_of(n: int) -> int {
    choose|r: int| is_isqrt(n, r)
}

/// Raw value of the fixed-point square root of a nonnegative scalar `x`:
/// since `sqrt(x / SCALE) == sqrt(x * SCALE) / SCALE`, the raw result is the
/// integer square root of `x * SCALE`.
pub open spec fn fx_sqrt(x: int) -> int {
    isqrt_of(x * (SCALE as int))
}

/// Every nonnegative integer has an integer square root, and `isqrt_of`
/// denotes it.
pub proof fn lemma_isqrt_exists(n: int)
    requires
        0 <= n,
    ensures
        is_isqrt(n, isqrt_of(n)),
    decreases n,
{
    if n == 0 {
        assert(is_isqrt(0, 0));
    } else {
        lemma_isqrt_exists(n - 1);
        let r = isqrt_of(n - 1);
        if (r + 1) * (r + 1) <= n {
            assert(is_isqrt(n, r + 1)) by (nonlinear_arith)
                requires
                    0 <= r,
                    r * r <= n - 1,
                    n - 1 < (r + 1) * (r + 1),
                    (r + 1) * (r + 1) <= n;
        } else {
            assert(is_isqrt(n, r));
        }
    }
}

/// The integer square root is unique, so any witness pins `isqrt_of`.
pub proof fn lemma_isqrt_unique(n: int, r: int)
    requires
        is_isqrt(n, r),
    ensures
        isqrt_of(n) == r,
{
    assert(0 <= n) by (nonlinear_arith)
        requires
            0 <= r,
            r * r <= n;
    lemma_isqrt_exists(n);
    let c = isqrt_of(n);
    if c < r {
        assert(false) by (nonlinear_arith)
            requires
                0 <= c,
                c + 1 <= r,
                r * r <= n,
                n < (c + 1) * (c + 1);
    }
    if r < c {
        assert(false) by (nonlinear_arith)
            requires
                0 <= r,
                r + 1 <= c,
                c * c <= n,
                n < (r + 1) * (r + 1);
    }
}

/// Quotient of `p` by a positive divisor `d`, rounded toward negative
/// infinity; with `d > 0` this agrees with the Euclidean quotient `p / d`.
/// Both branches work on unsigned magnitudes, so the proof relates the
/// unsigned quotients back to the signed Euclidean one.
fn div_floor(p: i128, d: i128) -> (q: i128)
    requires
        0 < d,
        d <= 0x10000000000000000,
        -0x40000000000000000000000000000000 <= p,
        p <= 0x40000000000000000000000000000000,
    ensures
        q == p as int / d as int,
{
    if p >= 0 {
        let qu: u128 = (p as u128) / (d as u128);
        proof {
            lemma_div_nonincreasing(p as int, d as int);
            lemma_div_pos_is_pos(p as int, d as int);
        }
        qu as i128
    } else {
        let m: u128 = (-p) as u128;
        let du: u128 = d as u128;
        let qm: u128 = (m + du - 1) / du;
        proof {
            let mi = m as int;
            let di = d as int;
            let a = mi / di;
            let r = mi % di;
            lemma_fundamental_div_mod(mi, di);
            lemma_mod_division_less_than_divisor(mi, di);
            lemma_div_pos_is_pos(mi, di);
            lemma_div_nonincreasing(mi, di);
            assert(mi == di * a + r);
            if r == 0 {
                assert(mi + di - 1 == a * di + (di - 1)) by (nonlinear_arith)
                    requires
                        mi == di * a + 0;
                lemma_fundamental_div_mod_converse(mi + di - 1, di, a, di - 1);
                assert((mi + di - 1) / di == a);
                assert(p as int == (-a) * di + 0) by (nonlinear_arith)
                    requires
                        p as int == -mi,
                        mi == di * a + 0;
                lemma_fundamental_div_mod_converse(p as int, di, -a, 0);
            } else {
                assert(mi + di - 1 == (a + 1) * di + (r - 1)) by (nonlinear_arith)
                    requires
                        mi == di * a + r;
                lemma_fundamental_div_mod_converse(mi + di - 1, di, a + 1, r - 1);
                assert((mi + di - 1) / di == a + 1);
                assert(p as int == (-(a + 1)) * di + (di - r)) by (nonlinear_arith)
                    requires
                        p as int == -mi,
                        mi == di * a + r;
                lemma_fundamental_div_mod_converse(p as int, di, -(a + 1), di - r);
            }
        }
        -(qm as i128)
    }
}

/// Integer square root of an arbitrary `u128`, by binary search on the root.
fn isqrt_u128(n: u128) -> (r: u128)
    ensures
        is_isqrt(n as int, r as int),
{
    let mut lo: u128 = 0;
    let mut hi: u128 = 0x10000000000000000;
    proof {
        assert((0x10000000000000000 as int) * (0x10000000000000000 as int)
            == 0x100000000000000000000000000000000) by (nonlinear_arith);
    }
    while lo + 1 < hi
        invariant
            lo < hi,
            hi <= 0x10000000000000000,
            lo * lo <= n,
            (n as int) < (hi as int) * (hi as int),
        decreases hi - lo,
    {
        let mid: u128 = lo + (hi - lo) / 2;
        assert(lo < mid < hi);
        proof {
            assert((mid as int) * (mid as int) <= u128::MAX as int) by (nonlinear_arith)
                requires
                    (mid as int) < 0x10000000000000000;
        }
        let sq: u128 = mid * mid;
        if sq <= n {
            lo = mid;
        } else {
            hi = mid;
        }
    }
    lo
}

impl Fx {
    /// The scalar with the given raw fixed-point value, denoting
    /// `raw / SCALE`.
    pub fn from_raw(raw: i64) -> (r: Fx)
        ensures
            r@ == raw as int,
    {
        Fx { raw }
    }

    /// The scalar denoting the integer `n`.
    pub fn from_int(n: i64) -> (r: Fx)
        requires
            fits_i64(n * (SCALE as int)),
        ensures
            r@ == n * (SCALE as int),
    {
        Fx { raw: n * SCALE }
    }

    /// Exact addition.
    pub fn add(self, o: Fx) -> (r: Fx)
        requires
            fits_i64(self@ + o@),
        ensures
            r@ == self@ + o@,
    {
        Fx { raw: self.raw + o.raw }
    }

    /// Exact subtraction.
    pub fn sub(self, o: Fx) -> (r: Fx)
        requires
            fits_i64(self@ - o@),
        ensures
            r@ == self@ - o@,
    {
        Fx { raw: self.raw - o.raw }
    }

    /// Fixed-point multiplication: the raw result is `(a * b) / SCALE`,
    /// rounded toward negative infinity.
    pub fn mul(self, o: Fx) -> (r: Fx)
        requires
            fits_i64(fx_mul(self@, o@)),
        ensures
            r@ == fx_mul(self@, o@),
    {
        proof {
            assert(-0x40000000000000000000000000000000
                <= (self.raw as int) * (o.raw as int)
                <= 0x40000000000000000000000000000000) by (nonlinear_arith)
                requires
                    -0x8000000000000000 <= self.raw as int <= 0x7fffffffffffffff,
                    -0x8000000000000000 <= o.raw as int <= 0x7fffffffffffffff;
        }
        let p: i128 = (self.raw as i128) * (o.raw as i128);
        let q: i128 = div_floor(p, SCALE as i128);
        Fx { raw: q as i64 }
    }

    /// Fixed-point division by a positive scalar: the raw result is
    /// `(a * SCALE) / b`, rounded toward negative infinity.
    pub fn div(self, o: Fx) -> (r: Fx)
        requires
            0 < o@,
            fits_i64(fx_div(self@, o@)),
        ensures
            r@ == fx_div(self@, o@),
    {
        let p: i128 = (self.raw as i128) * (SCALE as i128);
        let q: i128 = div_floor(p, o.raw as i128);
        Fx { raw: q as i64 }
    }

    /// Fixed-point square root of a nonnegative scalar: the raw result is
    /// the integer square root of `raw * SCALE`.
    pub fn sqrt(self) -> (r: Fx)
        requires
            0 <= self@,
        ensures
            r@ == fx_sqrt(self@),
            is_isqrt(self@ * (SCALE as int), r@),
            0 <= r@,
    {
        let n: u128 = (self.raw as u128) * (SCALE as u128);
        let r: u128 = isqrt_u128(n);
        proof {
            assert((r as int) < 0x1000000000000) by (nonlinear_arith)
                requires
                    0 <= r as int,
                    (r as int) * (r as int) <= n as int,
                    (n as int) < 0x1000000000000000000000000;
            lemma_isqrt_unique(n as int, r as int);
        }
        Fx { raw: r as i64 }
    }

    /// Exact multiplication by a small integer (not a fixed-point scalar).
    pub fn scale_int(self, n: i64) -> (r: Fx)
        requires
            fits_i64(n * self@),
        ensures
            r@ == n * self@,
    {
        Fx { raw: n * self.raw }
    }
}

} // verus!
