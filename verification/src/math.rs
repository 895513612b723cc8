//! The 3D vector kernel: immutable three-component fixed-point vectors with
//! componentwise arithmetic, dot and cross products, and length helpers.

use vstd::prelude::*;
use crate::fx::{Fx, SCALE, fits_i64, fx_mul, fx_div, isqrt_of, is_isqrt, lemma_isqrt_exists};
use vstd::arithmetic::div_mod::lemma_div_multiples_vanish;

verus! {

/// A three-component vector of fixed-point scalars.  Used both as a point in
/// space and as a free direction; callers track which reading applies.
#[derive(Clone, Copy, Debug, PartialEq, Eq, Structural)]
pub struct Vector {
    pub x: Fx,
    pub y: Fx,
    pub z: Fx,
}

/// The mathematical model of a vector: its three raw fixed-point values as
/// unbounded integers.
pub ghost struct V3 {
    pub x: int,
    pub y: int,
    pub z: int,
}

impl View for Vector {
    type V = V3;

    open spec fn view(&self) -> V3 {
        V3 { x: self.x@, y: self.y@, z: self.z@ }
    }
}

/// All three components are representable raw `i64` values.
pub open spec fn v3_fits(a: V3) -> bool {
    fits_i64(a.x) && fits_i64(a.y) && fits_i64(a.z)
}

/// Componentwise sum (exact).
pub open spec fn add_s(a: V3, b: V3) -> V3 {
    V3 { x: a.x + b.x, y: a.y + b.y, z: a.z + b.z }
}

/// Componentwise difference (exact).
pub open spec fn sub_s(a: V3, b: V3) -> V3 {
    V3 { x: a.x - b.x, y: a.y - b.y, z: a.z - b.z }
}

/// Componentwise (Hadamard) fixed-point product.
pub open spec fn emul_s(a: V3, b: V3) -> V3 {
    V3 { x: fx_mul(a.x, b.x), y: fx_mul(a.y, b.y), z: fx_mul(a.z, b.z) }
}

/// Sum of the components.
pub open spec fn sum_s(a: V3) -> int {
    a.x + a.y + a.z
}

/// Dot product: the component sum of the Hadamard product.
pub open spec fn smul_s(a: V3, b: V3) -> int {
    sum_s(emul_s(a, b))
}

/// Squared length: the dot product of a vector with itself.
pub open spec fn len2_s(a: V3) -> int {
    smul_s(a, a)
}

/// Length: the fixed-point square root of the squared length.  Since a raw
/// value `r` denotes `r / SCALE`, the raw length is the integer square root
/// of `len2 * SCALE`.
pub open spec fn len_s(a: V3) -> int {
    isqrt_of(len2_s(a) * (SCALE as int))
}

/// Cosine of the angle between two vectors: their dot product divided by
/// the product of their lengths (meaningful only when that product is
/// positive; a zero-length input leaves the quotient undefined).
pub open spec fn cos_s(a: V3, b: V3) -> int {
    fx_div(smul_s(a, b), fx_mul(len_s(a), len_s(b)))
}

/// Scaling by a fixed-point scalar `k` (raw value), componentwise.
pub open spec fn scale_s(a: V3, k: int) -> V3 {
    V3 { x: fx_mul(a.x, k), y: fx_mul(a.y, k), z: fx_mul(a.z, k) }
}

/// Cross product under the right-hand rule.
pub open spec fn cross_s(a: V3, b: V3) -> V3 {
    V3 {
        x: fx_mul(a.y, b.z) - fx_mul(a.z, b.y),
        y: fx_mul(a.z, b.x) - fx_mul(a.x, b.z),
        z: fx_mul(a.x, b.y) - fx_mul(a.y, b.x),
    }
}

/// The Hadamard product of `a` and `b` stays within raw range and so do the
/// two partial sums taken while summing its components.
pub open spec fn smul_req(a: V3, b: V3) -> bool {
    &&& fits_i64(fx_mul(a.x, b.x))
    &&& fits_i64(fx_mul(a.y, b.y))
    &&& fits_i64(fx_mul(a.z, b.z))
    &&& fits_i64(fx_mul(a.x, b.x) + fx_mul(a.y, b.y))
    &&& fits_i64(smul_s(a, b))
}

/// Each of the six pairwise products entering the cross product stays
/// within raw range, and so does each component difference.
pub open spec fn cross_req(a: V3, b: V3) -> bool {
    &&& fits_i64(fx_mul(a.y, b.z))
    &&& fits_i64(fx_mul(a.z, b.y))
    &&& fits_i64(fx_mul(a.z, b.x))
    &&& fits_i64(fx_mul(a.x, b.z))
    &&& fits_i64(fx_mul(a.x, b.y))
    &&& fits_i64(fx_mul(a.y, b.x))
    &&& v3_fits(cross_s(a, b))
}

impl Vector {
    /// The vector with the given components.
    pub fn new(x: Fx, y: Fx, z: Fx) -> (r: Vector)
        ensures
            r@ == (V3 { x: x@, y: y@, z: z@ }),
    {
        Vector { x, y, z }
    }

    /// Sum of the components (exact).
    pub fn sum(self) -> (r: Fx)
        requires
            fits_i64(self@.x + self@.y),
            fits_i64(sum_s(self@)),
        ensures
            r@ == sum_s(self@),
    {
        self.x.add(self.y).add(self.z)
    }

    /// Componentwise (Hadamard) product.
    pub fn emul(self, v: Vector) -> (r: Vector)
        requires
            v3_fits(emul_s(self@, v@)),
        ensures
            r@ == emul_s(self@, v@),
    {
        Vector { x: self.x.mul(v.x), y: self.y.mul(v.y), z: self.z.mul(v.z) }
    }

    /// Dot product: the component sum of the Hadamard product.
    pub fn smul(self, v: Vector) -> (r: Fx)
        requires
            smul_req(self@, v@),
        ensures
            r@ == smul_s(self@, v@),
    {
        self.emul(v).sum()
    }

    /// Squared length: the dot product of the vector with itself.  Never
    /// negative.
    pub fn len2(self) -> (r: Fx)
        requires
            smul_req(self@, self@),
        ensures
            r@ == len2_s(self@),
            0 <= r@,
    {
        proof {
            lemma_len2_nonneg(self@);
        }
        self.smul(self)
    }

    /// Length: the fixed-point square root of the squared length.
    pub fn len(self) -> (r: Fx)
        requires
            smul_req(self@, self@),
        ensures
            r@ == len_s(self@),
            is_isqrt(len2_s(self@) * (SCALE as int), r@),
            0 <= r@,
    {
        self.len2().sqrt()
    }

    /// Cosine of the angle between `self` and `v`: the dot product divided
    /// by the product of the lengths.  The caller must rule out a zero
    /// denominator (a zero-length input has no defined angle).
    pub fn cos(self, v: Vector) -> (r: Fx)
        requires
            smul_req(self@, v@),
            smul_req(self@, self@),
            smul_req(v@, v@),
            fits_i64(fx_mul(len_s(self@), len_s(v@))),
            0 < fx_mul(len_s(self@), len_s(v@)),
            fits_i64(cos_s(self@, v@)),
        ensures
            r@ == cos_s(self@, v@),
    {
        let num = self.smul(v);
        let den = self.len().mul(v.len());
        num.div(den)
    }

    /// Componentwise sum (exact).
    pub fn add(self, v: Vector) -> (r: Vector)
        requires
            v3_fits(add_s(self@, v@)),
        ensures
            r@ == add_s(self@, v@),
    {
        Vector { x: self.x.add(v.x), y: self.y.add(v.y), z: self.z.add(v.z) }
    }

    /// Componentwise difference (exact).
    pub fn sub(self, v: Vector) -> (r: Vector)
        requires
            v3_fits(sub_s(self@, v@)),
        ensures
            r@ == sub_s(self@, v@),
    {
        Vector { x: self.x.sub(v.x), y: self.y.sub(v.y), z: self.z.sub(v.z) }
    }

    /// Scaling by a fixed-point scalar, componentwise.
    pub fn scale(self, k: Fx) -> (r: Vector)
        requires
            v3_fits(scale_s(self@, k@)),
        ensures
            r@ == scale_s(self@, k@),
    {
        Vector { x: self.x.mul(k), y: self.y.mul(k), z: self.z.mul(k) }
    }

    /// Cross product under the right-hand rule.
    pub fn cross(self, v: Vector) -> (r: Vector)
        requires
            cross_req(self@, v@),
        ensures
            r@ == cross_s(self@, v@),
    {
        Vector {
            x: self.y.mul(v.z).sub(self.z.mul(v.y)),
            y: self.z.mul(v.x).sub(self.x.mul(v.z)),
            z: self.x.mul(v.y).sub(self.y.mul(v.x)),
        }
    }
}

/// A fixed-point square is never negative, so neither is a squared length.
pub proof fn lemma_len2_nonneg(a: V3)
    ensures
        0 <= fx_mul(a.x, a.x),
        0 <= fx_mul(a.y, a.y),
        0 <= fx_mul(a.z, a.z),
        0 <= len2_s(a),
{
    lemma_square_div_nonneg(a.x);
    lemma_square_div_nonneg(a.y);
    lemma_square_div_nonneg(a.z);
}

proof fn lemma_square_div_nonneg(x: int)
    ensures
        0 <= fx_mul(x, x),
{
    assert(0 <= x * x) by (nonlinear_arith);
    assert(0 <= (x * x) / (SCALE as int)) by (nonlinear_arith)
        requires
            0 <= x * x;
}

/// The dot product is commutative.
pub proof fn lemma_smul_comm(a: V3, b: V3)
    ensures
        smul_s(a, b) == smul_s(b, a),
{
    assert(a.x * b.x == b.x * a.x) by (nonlinear_arith);
    assert(a.y * b.y == b.y * a.y) by (nonlinear_arith);
    assert(a.z * b.z == b.z * a.z) by (nonlinear_arith);
}

/// The fixed-point product is commutative.
pub proof fn lemma_fx_mul_comm(x: int, y: int)
    ensures
        fx_mul(x, y) == fx_mul(y, x),
{
    assert(x * y == y * x) by (nonlinear_arith);
}

/// Scaling by the fixed-point scalar minus one (raw value `-SCALE`) is
/// exact negation.
pub proof fn lemma_fx_mul_neg_one(x: int)
    ensures
        fx_mul(x, -(SCALE as int)) == -x,
{
    assert(x * (-(SCALE as int)) == (SCALE as int) * (-x)) by (nonlinear_arith);
    lemma_div_multiples_vanish(-x, SCALE as int);
}

/// The cross product is anti-commutative: swapping the operands and scaling
/// by minus one gives the same vector, exactly.
pub proof fn lemma_cross_anticomm(a: V3, b: V3)
    ensures
        cross_s(a, b) == scale_s(cross_s(b, a), -(SCALE as int)),
{
    lemma_fx_mul_comm(a.y, b.z);
    lemma_fx_mul_comm(a.z, b.y);
    lemma_fx_mul_comm(a.z, b.x);
    lemma_fx_mul_comm(a.x, b.z);
    lemma_fx_mul_comm(a.x, b.y);
    lemma_fx_mul_comm(a.y, b.x);
    lemma_fx_mul_neg_one(cross_s(b, a).x);
    lemma_fx_mul_neg_one(cross_s(b, a).y);
    lemma_fx_mul_neg_one(cross_s(b, a).z);
}

/// Addition and subtraction are exact mutual inverses: subtracting `b`
/// after adding it gives back `a`, with no tolerance needed.
pub proof fn lemma_sub_add_inverse(a: V3, b: V3)
    ensures
        sub_s(add_s(a, b), b) == a,
        add_s(sub_s(a, b), b) == a,
{
}

/// The squared length is the dot product of a vector with itself and is
/// never negative, and the length is its (fixed-point) square root.
pub proof fn lemma_len_is_sqrt(a: V3)
    ensures
        len2_s(a) == smul_s(a, a),
        0 <= len2_s(a),
        is_isqrt(len2_s(a) * (SCALE as int), len_s(a)),
        0 <= len_s(a),
{
    lemma_len2_nonneg(a);
    lemma_isqrt_exists(len2_s(a) * (SCALE as int));
}

} // verus!
