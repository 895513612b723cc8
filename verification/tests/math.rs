//! Tests for the fixed-point scalar and the vector kernel.

use rustycg::fx::{Fx, SCALE};
use rustycg::math::Vector;

fn fxi(n: i64) -> Fx {
    Fx::from_int(n)
}

fn vi(x: i64, y: i64, z: i64) -> Vector {
    Vector::new(fxi(x), fxi(y), fxi(z))
}

#[test]
fn new_components() {
    let v = Vector::new(fxi(1), fxi(2), fxi(3));
    assert_eq!(v.x.raw, SCALE);
    assert_eq!(v.y.raw, 2 * SCALE);
    assert_eq!(v.z.raw, 3 * SCALE);
}

#[test]
fn sum_exact() {
    assert_eq!(vi(1, 2, 3).sum().raw, 6 * SCALE);
}

#[test]
fn emul_exact() {
    let r = vi(1, 2, 3).emul(vi(4, 5, 6));
    assert_eq!(r.x.raw, 4 * SCALE);
    assert_eq!(r.y.raw, 10 * SCALE);
    assert_eq!(r.z.raw, 18 * SCALE);
}

#[test]
fn smul_exact() {
    assert_eq!(vi(1, 2, 3).smul(vi(4, 5, 6)).raw, 32 * SCALE);
}

#[test]
fn smul_commutes() {
    let a = vi(1, -2, 3);
    let b = vi(-4, 5, 7);
    assert_eq!(a.smul(b).raw, b.smul(a).raw);
}

#[test]
fn cross_basis() {
    let r = vi(1, 0, 0).cross(vi(0, 1, 0));
    assert_eq!(r.x.raw, 0);
    assert_eq!(r.y.raw, 0);
    assert_eq!(r.z.raw, SCALE);
}

#[test]
fn cross_exact() {
    let r = vi(1, 2, 3).cross(vi(4, 5, 6));
    assert_eq!(r.x.raw, -3 * SCALE);
    assert_eq!(r.y.raw, 6 * SCALE);
    assert_eq!(r.z.raw, -3 * SCALE);
}

#[test]
fn cross_anticommutes() {
    let a = vi(1, 2, 3);
    let b = vi(4, 5, 6);
    let lhs = a.cross(b);
    let rhs = b.cross(a).scale(fxi(-1));
    assert_eq!(lhs.x.raw, rhs.x.raw);
    assert_eq!(lhs.y.raw, rhs.y.raw);
    assert_eq!(lhs.z.raw, rhs.z.raw);
}

#[test]
fn add_sub_inverse() {
    // Fractional raw values: addition and subtraction are exact, so the
    // round trip gives back the operand with no tolerance at all.
    let a = Vector::new(Fx::from_raw(123456789), Fx::from_raw(-987654321), Fx::from_raw(1));
    let b = Vector::new(Fx::from_raw(555555555), Fx::from_raw(777777777), Fx::from_raw(-999));
    let r = a.add(b).sub(b);
    assert_eq!(r.x.raw, a.x.raw);
    assert_eq!(r.y.raw, a.y.raw);
    assert_eq!(r.z.raw, a.z.raw);
}

#[test]
fn len2_is_dot_and_nonneg() {
    let a = vi(-1, -2, -3);
    assert_eq!(a.len2().raw, a.smul(a).raw);
    assert_eq!(a.len2().raw, 14 * SCALE);
    assert!(a.len2().raw >= 0);
}

#[test]
fn len_exact_3_4_5() {
    assert_eq!(vi(3, 4, 0).len().raw, 5 * SCALE);
}

#[test]
fn len_is_sqrt_of_len2() {
    // |(1,1,0)| = sqrt(2): the raw length is the integer square root of
    // len2 * SCALE, here floor(sqrt(2) * 2^32).
    let a = vi(1, 1, 0);
    assert_eq!(a.len2().raw, 2 * SCALE);
    assert_eq!(a.len().raw, 6074000999);
    let l = a.len().raw as i128;
    let n = (a.len2().raw as i128) * (SCALE as i128);
    assert!(l * l <= n);
    assert!(n < (l + 1) * (l + 1));
}

#[test]
fn cos_parallel_and_orthogonal() {
    assert_eq!(vi(1, 0, 0).cos(vi(1, 0, 0)).raw, SCALE);
    assert_eq!(vi(1, 0, 0).cos(vi(0, 1, 0)).raw, 0);
}

#[test]
fn cos_45_degrees() {
    // cos((1,0,0), (1,1,0)) = 1/sqrt(2), about 0.7071 in fixed point.
    assert_eq!(vi(1, 0, 0).cos(vi(1, 1, 0)).raw, 3037000500);
    let v = 3037000500f64 / SCALE as f64;
    assert!((v - 1.0 / 2.0f64.sqrt()).abs() < 1e-9);
}

#[test]
fn scale_exact() {
    let r = vi(1, -2, 3).scale(fxi(2));
    assert_eq!(r.x.raw, 2 * SCALE);
    assert_eq!(r.y.raw, -4 * SCALE);
    assert_eq!(r.z.raw, 6 * SCALE);
}

#[test]
fn fx_mul_rounds_toward_negative_infinity() {
    // 1/SCALE * 1/SCALE underflows to zero, but its negation floors to -1.
    assert_eq!(Fx::from_raw(1).mul(Fx::from_raw(1)).raw, 0);
    assert_eq!(Fx::from_raw(-1).mul(Fx::from_raw(1)).raw, -1);
}

#[test]
fn fx_mul_halves() {
    let half = Fx::from_raw(SCALE / 2);
    assert_eq!(half.mul(half).raw, SCALE / 4);
}

#[test]
fn fx_div_exact_values() {
    assert_eq!(fxi(1).div(fxi(3)).raw, 1431655765);
    assert_eq!(fxi(-1).div(fxi(2)).raw, -(SCALE / 2));
}

#[test]
fn fx_sqrt_two() {
    assert_eq!(fxi(2).sqrt().raw, 6074000999);
    assert_eq!(fxi(4).sqrt().raw, 2 * SCALE);
    assert_eq!(fxi(0).sqrt().raw, 0);
}

#[test]
fn fx_scale_int_exact() {
    assert_eq!(Fx::from_raw(3).scale_int(-5).raw, -15);
    assert_eq!(fxi(7).scale_int(3).raw, 21 * SCALE);
}
