//! Tests for the sphere intersection and nearest-hit selection.

use rustycg::fx::{Fx, SCALE};
use rustycg::math::Vector;
use rustycg::trace::{nearest_hit, Sphere, Tracer};

fn fxi(n: i64) -> Fx {
    Fx::from_int(n)
}

fn vi(x: i64, y: i64, z: i64) -> Vector {
    Vector::new(fxi(x), fxi(y), fxi(z))
}

#[test]
fn sphere_trace1() {
    let src = vi(0, 0, 0);
    let sphere = Sphere::new(vi(1, 1, 0), fxi(1));

    // Direction (0.1, 0.1, 0): raw value round(0.1 * 2^32).
    let ray = Vector::new(Fx::from_raw(429496730), Fx::from_raw(429496730), Fx::from_raw(0));
    let v = sphere.trace(src, ray).unwrap();

    // Analytically the hit is at x == y == 1 - 1/sqrt(2); the Q31.32
    // arithmetic reproduces it to within a few quantum steps (the quantum
    // is 2^-32, and the final division amplifies it).
    let xy = 1.0 - 1.0 / 2.0f64.sqrt();

    assert!((v.x.raw as f64 / SCALE as f64 - xy).abs() < 1e-8);
    assert!((v.y.raw as f64 / SCALE as f64 - xy).abs() < 1e-8);
    // The floor semantics are deterministic, so the raw result is exact.
    assert_eq!(v.x.raw, 1257966799);
    assert_eq!(v.y.raw, 1257966799);
    assert_eq!(v.z.raw, 0);
}

#[test]
fn trace_miss() {
    // The sphere's center is behind the origin and off the ray's line, and
    // the direction points entirely away from it: the discriminant is
    // negative and there is no hit.
    let sphere = Sphere::new(vi(5, 0, -5), fxi(1));
    let r = sphere.trace(vi(0, 0, 0), vi(0, 0, 1));
    assert!(r.is_none());
}

#[test]
fn trace_tangent() {
    // Unit sphere centered at (0,1,0), ray along +x from the origin: the
    // discriminant is exactly zero and the single repeated root is t == 0,
    // so the hit is the origin itself, exactly on the surface.
    let sphere = Sphere::new(vi(0, 1, 0), fxi(1));
    let v = sphere.trace(vi(0, 0, 0), vi(1, 0, 0)).unwrap();
    assert_eq!(v.x.raw, 0);
    assert_eq!(v.y.raw, 0);
    assert_eq!(v.z.raw, 0);
    // Squared distance from the hit to the center equals radius^2 exactly.
    let d2 = v.sub(sphere.center).len2();
    assert_eq!(d2.raw, SCALE);
}

#[test]
fn trace_selects_near_root() {
    // Ray along +z through a unit sphere at (0,0,3): the two roots are at
    // z == 2 and z == 4, and trace returns the near one.
    let sphere = Sphere::new(vi(0, 0, 3), fxi(1));
    let v = sphere.trace(vi(0, 0, 0), vi(0, 0, 1)).unwrap();
    assert_eq!(v.x.raw, 0);
    assert_eq!(v.y.raw, 0);
    assert_eq!(v.z.raw, 2 * SCALE);
}

#[test]
fn trace_negative_root_not_filtered() {
    // A sphere wholly behind the origin on the ray's line: the near root is
    // negative and is reported as-is; filtering hits behind the origin is a
    // documented scope limitation, left to the caller.
    let sphere = Sphere::new(vi(0, 0, -3), fxi(1));
    let v = sphere.trace(vi(0, 0, 0), vi(0, 0, 1)).unwrap();
    assert_eq!(v.z.raw, -4 * SCALE);
}

#[test]
fn nearest_hit_picks_strictly_closer() {
    // Two spheres overlap along the same ray, with hits at z == 2 and
    // z == 4: the hit with the strictly smaller squared distance wins,
    // whatever the scene order.
    let near = Sphere::new(vi(0, 0, 3), fxi(1));
    let far = Sphere::new(vi(0, 0, 5), fxi(1));
    let src = vi(0, 0, 0);
    let ray = vi(0, 0, 1);

    let scene_a: Vec<Sphere> = vec![near, far];
    let va = nearest_hit(&scene_a, src, ray).unwrap();
    assert_eq!(va.z.raw, 2 * SCALE);

    let scene_b: Vec<Sphere> = vec![far, near];
    let vb = nearest_hit(&scene_b, src, ray).unwrap();
    assert_eq!(vb.z.raw, 2 * SCALE);
}

#[test]
fn nearest_hit_none_when_all_miss() {
    let a = Sphere::new(vi(5, 0, -5), fxi(1));
    let b = Sphere::new(vi(-5, 0, -5), fxi(1));
    let scene: Vec<Sphere> = vec![a, b];
    assert!(nearest_hit(&scene, vi(0, 0, 0), vi(0, 0, 1)).is_none());
}

#[test]
fn nearest_hit_empty_scene() {
    let scene: Vec<Sphere> = vec![];
    assert!(nearest_hit(&scene, vi(0, 0, 0), vi(0, 0, 1)).is_none());
}

#[test]
fn sphere_new_fields() {
    let s = Sphere::new(vi(1, 2, 3), fxi(4));
    assert_eq!(s.center.x.raw, SCALE);
    assert_eq!(s.center.y.raw, 2 * SCALE);
    assert_eq!(s.center.z.raw, 3 * SCALE);
    assert_eq!(s.radius.raw, 4 * SCALE);
}
