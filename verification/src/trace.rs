//! Ray tracing: the `Tracer` capability, the sphere primitive with its
//! analytic quadratic intersection, and nearest-hit selection over a scene.

use vstd::prelude::*;
use crate::fx::{Fx, SCALE, fits_i64, fx_mul, fx_div, isqrt_of};
use crate::math::{Vector, V3, v3_fits, add_s, sub_s, scale_s, smul_s, len2_s, smul_req};

verus! {

/// The exec vector whose raw components are the given model values
/// (meaningful when they fit in `i64`).
pub open spec fn vector_of(a: V3) -> Vector {
    Vector {
        x: Fx { raw: a.x as i64 },
        y: Fx { raw: a.y as i64 },
        z: Fx { raw: a.z as i64 },
    }
}

/// A surface a ray can be traced against: given a ray origin and direction,
/// it reports the nearest intersection point, or `None` when the ray misses.
/// `trace_spec` pins the returned point exactly; `trace_req` collects what
/// the intersection arithmetic needs (a non-degenerate direction, and
/// intermediate values within raw `i64` range).
pub trait Tracer: Sized {
    /// What this primitive's `trace` needs of its inputs.
    spec fn trace_req(&self, src: Vector, ray: Vector) -> bool;

    /// The exact result `trace` returns.
    spec fn trace_spec(&self, src: Vector, ray: Vector) -> Option<Vector>;

    /// The nearest intersection of the ray `src + ray * t` with this
    /// primitive, or `None` when the ray misses it.
    fn trace(&self, src: Vector, ray: Vector) -> (r: Option<Vector>)
        requires
            self.trace_req(src, ray),
        ensures
            r == self.trace_spec(src, ray),
    ;
}

/// A sphere: a center point and a nonnegative radius.
#[derive(Clone, Copy, Debug, PartialEq, Eq, Structural)]
pub struct Sphere {
    pub center: Vector,
    pub radius: Fx,
}

impl Sphere {
    /// A sphere is well formed when its radius is nonnegative; a zero radius
    /// is a degenerate point target.
    pub open spec fn well_formed(self) -> bool {
        0 <= self.radius@
    }

    /// The sphere with the given center and (nonnegative) radius.
    pub fn new(center: Vector, radius: Fx) -> (r: Sphere)
        requires
            0 <= radius@,
        ensures
            r.center == center,
            r.radius == radius,
            r.well_formed(),
    {
        Sphere { center, radius }
    }
}

/// `k1`: the squared length of the ray direction.
pub open spec fn trace_k1(ray: V3) -> int {
    len2_s(ray)
}

/// `k2`: the dot product of the center-minus-origin vector with the ray
/// direction.
pub open spec fn trace_k2(c: V3, o: V3, ray: V3) -> int {
    smul_s(sub_s(c, o), ray)
}

/// `k3`: the squared length of the center-minus-origin vector.
pub open spec fn trace_k3(c: V3, o: V3) -> int {
    len2_s(sub_s(c, o))
}

/// The discriminant of the intersection quadratic,
/// `4*k2^2 + 4*k1*(radius^2 - k3)`; negative means the ray misses.
pub open spec fn trace_disc(c: V3, rad: int, o: V3, ray: V3) -> int {
    4 * fx_mul(trace_k2(c, o, ray), trace_k2(c, o, ray))
        + 4 * fx_mul(trace_k1(ray), fx_mul(rad, rad) - trace_k3(c, o))
}

/// The near-root parameter `t == (2*k2 - sqrt(disc)) / (2*k1)`: the smaller
/// root of the quadratic, which may be negative (a root behind the ray
/// origin is not filtered out).
pub open spec fn trace_t(c: V3, rad: int, o: V3, ray: V3) -> int {
    fx_div(
        2 * trace_k2(c, o, ray) - isqrt_of(trace_disc(c, rad, o, ray) * (SCALE as int)),
        2 * trace_k1(ray),
    )
}

/// The hit point `o + ray * t` for the near root `t`.
pub open spec fn trace_hit(c: V3, rad: int, o: V3, ray: V3) -> V3 {
    add_s(o, scale_s(ray, trace_t(c, rad, o, ray)))
}

/// What the sphere intersection needs: a direction of nonzero squared
/// length (`k1 > 0`; a zero direction would divide by zero), and every
/// intermediate of the quadratic within raw `i64` range.
pub open spec fn sphere_trace_req(c: V3, rad: int, o: V3, ray: V3) -> bool {
    let a = sub_s(c, o);
    let k1 = trace_k1(ray);
    let k2 = trace_k2(c, o, ray);
    let k3 = trace_k3(c, o);
    let rr = fx_mul(rad, rad);
    let mm = fx_mul(k1, rr - k3);
    let k22 = fx_mul(k2, k2);
    let disc = trace_disc(c, rad, o, ray);
    &&& v3_fits(a)
    &&& smul_req(ray, ray)
    &&& smul_req(a, ray)
    &&& smul_req(a, a)
    &&& fits_i64(rr)
    &&& fits_i64(rr - k3)
    &&& fits_i64(mm)
    &&& fits_i64(k22)
    &&& fits_i64(4 * k22)
    &&& fits_i64(4 * mm)
    &&& fits_i64(disc)
    &&& 0 < k1
    &&& (0 <= disc ==> {
        let s = isqrt_of(disc * (SCALE as int));
        let t = trace_t(c, rad, o, ray);
        &&& fits_i64(2 * k2)
        &&& fits_i64(2 * k2 - s)
        &&& fits_i64(2 * k1)
        &&& fits_i64(t)
        &&& v3_fits(scale_s(ray, t))
        &&& v3_fits(add_s(o, scale_s(ray, t)))
    })
}

/// The exact trace result: `None` when the discriminant is negative, else
/// the near-root hit point.
pub open spec fn sphere_trace_spec(c: V3, rad: int, o: V3, ray: V3) -> Option<V3> {
    if trace_disc(c, rad, o, ray) < 0 {
        None
    } else {
        Some(trace_hit(c, rad, o, ray))
    }
}

impl Tracer for Sphere {
    open spec fn trace_req(&self, src: Vector, ray: Vector) -> bool {
        sphere_trace_req(self.center@, self.radius@, src@, ray@)
    }

    open spec fn trace_spec(&self, src: Vector, ray: Vector) -> Option<Vector> {
        match sphere_trace_spec(self.center@, self.radius@, src@, ray@) {
            Some(h) => Some(vector_of(h)),
            None => None,
        }
    }

    /// Analytic quadratic solve: with `a` the vector from the ray origin to
    /// the center, `k1 = |ray|^2`, `k2 = a . ray` and `k3 = |a|^2`, the
    /// discriminant is `4*k2^2 + 4*k1*(radius^2 - k3)`; if nonnegative, the
    /// near root `t = (2*k2 - sqrt(disc)) / (2*k1)` gives the hit point
    /// `src + ray * t`.
    fn trace(&self, src: Vector, ray: Vector) -> (r: Option<Vector>) {
        let a = self.center.sub(src);
        let k1 = ray.len2();
        let k2 = a.smul(ray);
        let k3 = a.len2();
        let rr = self.radius.mul(self.radius);
        let mm = k1.mul(rr.sub(k3));
        let d = k2.mul(k2).scale_int(4).add(mm.scale_int(4));
        if d.raw < 0 {
            None
        } else {
            let s = d.sqrt();
            let t = k2.scale_int(2).sub(s).div(k1.scale_int(2));
            Some(src.add(ray.scale(t)))
        }
    }
}

/// The nearest hit over a scene prefix, processed left to right: a later hit
/// replaces an earlier one only when its squared distance from the origin is
/// strictly smaller, so among equally near hits the first in scene order
/// wins.
pub open spec fn best_hit<T: Tracer>(s: Seq<T>, src: Vector, ray: Vector) -> Option<Vector>
    decreases s.len(),
{
    if s.len() == 0 {
        None
    } else {
        let prev = best_hit(s.drop_last(), src, ray);
        let last = s.last().trace_spec(src, ray);
        match (prev, last) {
            (None, l) => l,
            (Some(h), None) => Some(h),
            (Some(h), Some(g)) => if len2_s(g@) < len2_s(h@) {
                Some(g)
            } else {
                Some(h)
            },
        }
    }
}

/// Nearest-hit selection is sound and minimal, whatever the scene order:
/// when it reports no hit, every primitive missed; when it reports a hit,
/// some primitive produced exactly that point, and no primitive produced a
/// hit with a strictly smaller squared distance from the origin.
pub proof fn lemma_best_hit_min<T: Tracer>(s: Seq<T>, src: Vector, ray: Vector)
    ensures
        best_hit(s, src, ray) is None ==> forall|i: int|
            0 <= i < s.len() ==> (#[trigger] s[i].trace_spec(src, ray)) is None,
        best_hit(s, src, ray) matches Some(h) ==> exists|i: int|
            0 <= i < s.len() && #[trigger] s[i].trace_spec(src, ray) == Some(h),
        best_hit(s, src, ray) matches Some(h) ==> forall|i: int|
            0 <= i < s.len() ==> match #[trigger] s[i].trace_spec(src, ray) {
                Some(g) => len2_s(h@) <= len2_s(g@),
                None => true,
            },
    decreases s.len(),
{
    if s.len() == 0 {
    } else {
        let s0 = s.drop_last();
        lemma_best_hit_min(s0, src, ray);
        assert forall|i: int| 0 <= i < s0.len() implies #[trigger] s[i].trace_spec(src, ray)
            == s0[i].trace_spec(src, ray) by {
            assert(s0[i] == s[i]);
        }
        assert(s.last() == s[s.len() - 1]);
        let prev = best_hit(s0, src, ray);
        let last = s.last().trace_spec(src, ray);
        match prev {
            None => {},
            Some(h) => {
                let wi = choose|i: int|
                    0 <= i < s0.len() && #[trigger] s0[i].trace_spec(src, ray) == Some(h);
                assert(s[wi].trace_spec(src, ray) == Some(h));
                match last {
                    None => {},
                    Some(g) => {
                        if len2_s(g@) < len2_s(h@) {
                            assert(best_hit(s, src, ray) == Some(g));
                        } else {
                            assert(best_hit(s, src, ray) == Some(h));
                        }
                    },
                }
            },
        }
    }
}

/// The first minimal hit in scene order is the one selected: if primitive
/// `i` hits `h`, every earlier primitive either misses or hits strictly
/// farther (in squared distance from the origin), and no later primitive
/// hits strictly nearer, then the selection returns exactly `h`.  In
/// particular, a hit strictly nearer than every other is returned whatever
/// the scene order, and on an exact tie the first in scene order wins.
pub proof fn lemma_best_hit_first_min<T: Tracer>(
    s: Seq<T>,
    src: Vector,
    ray: Vector,
    h: Vector,
    i: int,
)
    requires
        0 <= i < s.len(),
        s[i].trace_spec(src, ray) == Some(h),
        forall|j: int| 0 <= j < i ==> match #[trigger] s[j].trace_spec(src, ray) {
            Some(g) => len2_s(h@) < len2_s(g@),
            None => true,
        },
        forall|j: int| i < j < s.len() ==> match #[trigger] s[j].trace_spec(src, ray) {
            Some(g) => len2_s(h@) <= len2_s(g@),
            None => true,
        },
    ensures
        best_hit(s, src, ray) == Some(h),
    decreases s.len(),
{
    let s0 = s.drop_last();
    assert forall|j: int| 0 <= j < s0.len() implies #[trigger] s0[j].trace_spec(src, ray)
        == s[j].trace_spec(src, ray) by {
        assert(s0[j] == s[j]);
    }
    assert(s.last() == s[s.len() - 1]);
    if i == s.len() - 1 {
        lemma_best_hit_min(s0, src, ray);
        match best_hit(s0, src, ray) {
            None => {},
            Some(g0) => {
                let j0 = choose|j: int|
                    0 <= j < s0.len() && #[trigger] s0[j].trace_spec(src, ray) == Some(g0);
                assert(s[j0].trace_spec(src, ray) == Some(g0));
                assert(len2_s(h@) < len2_s(g0@));
            },
        }
    } else {
        lemma_best_hit_first_min(s0, src, ray, h, i);
    }
}

/// Scene resolution: trace every primitive, discard misses, and return the
/// hit with the smallest squared distance from the origin; on an exact tie
/// the first primitive in scene order wins.  `None` when nothing is hit.
/// Fixed-point comparison is total, so no candidate is ever dropped as
/// unordered.
pub fn nearest_hit<T: Tracer>(tracers: &Vec<T>, src: Vector, ray: Vector) -> (r: Option<Vector>)
    requires
        forall|i: int| 0 <= i < tracers@.len() ==> #[trigger] tracers@[i].trace_req(src, ray),
        forall|i: int| 0 <= i < tracers@.len() ==> match #[trigger] tracers@[i].trace_spec(
            src,
            ray,
        ) {
            Some(h) => smul_req(h@, h@),
            None => true,
        },
    ensures
        r == best_hit(tracers@, src, ray),
{
    let n = tracers.len();
    let mut best: Option<(Vector, Fx)> = None;
    let mut i: usize = 0;
    while i < n
        invariant
            i <= n,
            n == tracers@.len(),
            forall|j: int| 0 <= j < tracers@.len() ==> #[trigger] tracers@[j].trace_req(src, ray),
            forall|j: int| 0 <= j < tracers@.len() ==> match #[trigger] tracers@[j].trace_spec(
                src,
                ray,
            ) {
                Some(h) => smul_req(h@, h@),
                None => true,
            },
            match best {
                None => best_hit(tracers@.take(i as int), src, ray) is None,
                Some((h, d2)) => {
                    &&& best_hit(tracers@.take(i as int), src, ray) == Some(h)
                    &&& d2@ == len2_s(h@)
                },
            },
        decreases n - i,
    {
        let cur = tracers[i].trace(src, ray);
        proof {
            assert(tracers@.take(i as int + 1).drop_last() =~= tracers@.take(i as int));
            assert(tracers@.take(i as int + 1).last() == tracers@[i as int]);
        }
        match cur {
            None => {},
            Some(h) => {
                let d2 = h.len2();
                match best {
                    None => { best = Some((h, d2)); },
                    Some((_bh, bd2)) => {
                        if d2.raw < bd2.raw {
                            best = Some((h, d2));
                        }
                    },
                }
            },
        }
        i = i + 1;
    }
    proof {
        assert(tracers@.take(n as int) =~= tracers@);
    }
    match best {
        None => None,
        Some((h, _d2)) => Some(h),
    }
}

} // verus!
