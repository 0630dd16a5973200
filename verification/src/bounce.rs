//! The reflection update: advance a ray to its hit point, mirror its
//! direction about the surface normal, and nudge the origin forward to
//! avoid immediate self-re-intersection.

use vstd::prelude::*;
use crate::fixed::{
    lemma_abs_mul, lemma_mul_mono, lemma_tdiv_bound, DIST_LIM, EPS_NUDGE, SCALE,
};
use crate::scene::{ray_in_lims, wf_sphere, IntersectT, RayT, SphereT};
use crate::vec3::{s_add, s_div, s_dot, s_scale, s_sub, v3};

verus! {

/// The exact fixed-point reflection: the hit point, the outward normal
/// scaled from the centre offset, the mirrored direction, and the nudged
/// origin, in the order the executable code computes them.
pub open spec fn reflect_spec(d: int, s: SphereT, ray: RayT) -> (
    (int, int, int),
    (int, int, int),
) {
    let u1 = s_add(v3(ray.u), s_scale(v3(ray.v), d));
    let nhat = s_div(s_sub(u1, v3(s.centre)), s.radius as int);
    let vn = s_dot(nhat, v3(ray.v));
    let w = s_scale(nhat, vn);
    let v2 = s_sub(v3(ray.v), s_add(w, w));
    let u2 = s_add(u1, s_scale(v2, EPS_NUDGE as int));
    (u2, v2)
}

/// Advance the ray to the hit recorded in `ii` and reflect it off the
/// sphere's surface. The new ray is exactly `reflect_spec` of the old one.
pub fn reflect(ii: &IntersectT, spheres: &Vec<SphereT>, ray: &mut RayT)
    requires
        (ii.sphere as int) < spheres@.len(),
        wf_sphere(spheres@[ii.sphere as int]),
        ray_in_lims(*old(ray)),
        0 <= ii.dist <= DIST_LIM,
    ensures
        v3(final(ray).u) == reflect_spec(
            ii.dist as int,
            spheres@[ii.sphere as int],
            *old(ray),
        ).0,
        v3(final(ray).v) == reflect_spec(
            ii.dist as int,
            spheres@[ii.sphere as int],
            *old(ray),
        ).1,
{
    let s = &spheres[ii.sphere];
    proof {
        lemma_abs_mul(ray.v.0 as int, ii.dist as int, 4_000_000, 2_000_000_000);
        lemma_abs_mul(ray.v.1 as int, ii.dist as int, 4_000_000, 2_000_000_000);
        lemma_abs_mul(ray.v.2 as int, ii.dist as int, 4_000_000, 2_000_000_000);
        lemma_tdiv_bound(ray.v.0 * ii.dist, SCALE as int, 8_000_000_000);
        lemma_tdiv_bound(ray.v.1 * ii.dist, SCALE as int, 8_000_000_000);
        lemma_tdiv_bound(ray.v.2 * ii.dist, SCALE as int, 8_000_000_000);
    }
    let vdp = ray.v.scale(ii.dist);
    ray.u = ray.u.add(vdp);
    let diff = ray.u.sub(s.centre);
    proof {
        lemma_mul_mono(80_800_000_000, 100_000, s.radius as int);
        lemma_tdiv_bound(diff.0 * (SCALE as int), s.radius as int, 80_800_000_000);
        lemma_tdiv_bound(diff.1 * (SCALE as int), s.radius as int, 80_800_000_000);
        lemma_tdiv_bound(diff.2 * (SCALE as int), s.radius as int, 80_800_000_000);
    }
    let nhat = diff.div_by(s.radius);
    proof {
        lemma_abs_mul(nhat.0 as int, ray.v.0 as int, 80_800_000_000, 4_000_000);
        lemma_abs_mul(nhat.1 as int, ray.v.1 as int, 80_800_000_000, 4_000_000);
        lemma_abs_mul(nhat.2 as int, ray.v.2 as int, 80_800_000_000, 4_000_000);
        let sumv = nhat.0 * ray.v.0 + nhat.1 * ray.v.1 + nhat.2 * ray.v.2;
        lemma_tdiv_bound(sumv, SCALE as int, 969_600_000_000);
    }
    let vn = nhat.dot(ray.v);
    proof {
        lemma_abs_mul(nhat.0 as int, vn as int, 80_800_000_000, 969_600_000_000);
        lemma_abs_mul(nhat.1 as int, vn as int, 80_800_000_000, 969_600_000_000);
        lemma_abs_mul(nhat.2 as int, vn as int, 80_800_000_000, 969_600_000_000);
        lemma_tdiv_bound(nhat.0 * vn, SCALE as int, 78_343_680_000_000_000);
        lemma_tdiv_bound(nhat.1 * vn, SCALE as int, 78_343_680_000_000_000);
        lemma_tdiv_bound(nhat.2 * vn, SCALE as int, 78_343_680_000_000_000);
    }
    let w = nhat.scale(vn);
    let w2 = w.add(w);
    ray.v = ray.v.sub(w2);
    proof {
        lemma_abs_mul(ray.v.0 as int, EPS_NUDGE as int, 156_691_360_000_000_000, 1);
        lemma_abs_mul(ray.v.1 as int, EPS_NUDGE as int, 156_691_360_000_000_000, 1);
        lemma_abs_mul(ray.v.2 as int, EPS_NUDGE as int, 156_691_360_000_000_000, 1);
        lemma_tdiv_bound(ray.v.0 * (EPS_NUDGE as int), SCALE as int, 156_691_360_000);
        lemma_tdiv_bound(ray.v.1 * (EPS_NUDGE as int), SCALE as int, 156_691_360_000);
        lemma_tdiv_bound(ray.v.2 * (EPS_NUDGE as int), SCALE as int, 156_691_360_000);
    }
    let nudge = ray.v.scale(EPS_NUDGE);
    ray.u = ray.u.add(nudge);
}

/// Dot product without rescaling: the plain integer bilinear form.
pub open spec fn r_dot(a: (int, int, int), b: (int, int, int)) -> int {
    a.0 * b.0 + a.1 * b.1 + a.2 * b.2
}

/// Scalar multiple without rescaling.
pub open spec fn r_scale(a: (int, int, int), k: int) -> (int, int, int) {
    (a.0 * k, a.1 * k, a.2 * k)
}

/// The square of a difference, expanded.
proof fn lemma_sq_of_diff(x: int, y: int)
    by (nonlinear_arith)
    ensures
        (x - y) * (x - y) == x * x - 2 * (x * y) + y * y,
{
}

/// The mirror formula preserves angles: scaling the incoming direction `v`
/// by `n.n` and subtracting `2 (v.n) n` gives a direction whose angle to
/// the normal `n` equals the angle of incidence. Exactly: the reflected
/// dot product is the negation of the incoming one (scaled by `n.n`), the
/// squared length scales by `(n.n)^2`, and the squared-cosine identity
/// `(r.n)^2 (v.v) == (v.n)^2 (r.r)` holds for every `v` and `n`.
pub proof fn lemma_reflection_symmetry(v: (int, int, int), n: (int, int, int))
    ensures
        ({
            let m = r_dot(n, n);
            let r = s_sub(r_scale(v, m), r_scale(n, 2 * r_dot(v, n)));
            r_dot(r, n) == -(m * r_dot(v, n)) && r_dot(r, r) == m * m * r_dot(v, v) && r_dot(r, n)
                * r_dot(r, n) * r_dot(v, v) == r_dot(v, n) * r_dot(v, n) * r_dot(r, r)
        }),
{
    let a = v.0;
    let b = v.1;
    let c = v.2;
    let p = n.0;
    let q = n.1;
    let t = n.2;
    let m = r_dot(n, n);
    let dvn = r_dot(v, n);
    let vv = r_dot(v, v);
    let r = s_sub(r_scale(v, m), r_scale(n, 2 * dvn));
    assert((a * m - p * (2 * dvn)) * p == m * (a * p) - 2 * dvn * (p * p)) by (nonlinear_arith);
    assert((b * m - q * (2 * dvn)) * q == m * (b * q) - 2 * dvn * (q * q)) by (nonlinear_arith);
    assert((c * m - t * (2 * dvn)) * t == m * (c * t) - 2 * dvn * (t * t)) by (nonlinear_arith);
    assert(m * (a * p) + m * (b * q) + m * (c * t) == m * (a * p + b * q + c * t))
        by (nonlinear_arith);
    assert(2 * dvn * (p * p) + 2 * dvn * (q * q) + 2 * dvn * (t * t) == 2 * dvn * (p * p + q * q + t
        * t)) by (nonlinear_arith);
    assert(m * dvn - 2 * dvn * m == -(m * dvn)) by (nonlinear_arith);
    assert(r_dot(r, n) == -(m * dvn));
    lemma_sq_of_diff(a * m, p * (2 * dvn));
    lemma_sq_of_diff(b * m, q * (2 * dvn));
    lemma_sq_of_diff(c * m, t * (2 * dvn));
    assert((a * m) * (a * m) == m * m * (a * a)) by (nonlinear_arith);
    assert((b * m) * (b * m) == m * m * (b * b)) by (nonlinear_arith);
    assert((c * m) * (c * m) == m * m * (c * c)) by (nonlinear_arith);
    assert(2 * ((a * m) * (p * (2 * dvn))) == 4 * m * dvn * (a * p)) by (nonlinear_arith);
    assert(2 * ((b * m) * (q * (2 * dvn))) == 4 * m * dvn * (b * q)) by (nonlinear_arith);
    assert(2 * ((c * m) * (t * (2 * dvn))) == 4 * m * dvn * (c * t)) by (nonlinear_arith);
    assert((p * (2 * dvn)) * (p * (2 * dvn)) == 4 * (dvn * dvn) * (p * p)) by (nonlinear_arith);
    assert((q * (2 * dvn)) * (q * (2 * dvn)) == 4 * (dvn * dvn) * (q * q)) by (nonlinear_arith);
    assert((t * (2 * dvn)) * (t * (2 * dvn)) == 4 * (dvn * dvn) * (t * t)) by (nonlinear_arith);
    assert(m * m * (a * a) + m * m * (b * b) + m * m * (c * c) == m * m * (a * a + b * b + c * c))
        by (nonlinear_arith);
    assert(4 * m * dvn * (a * p) + 4 * m * dvn * (b * q) + 4 * m * dvn * (c * t) == 4 * m * dvn * (
    a * p + b * q + c * t)) by (nonlinear_arith);
    assert(4 * (dvn * dvn) * (p * p) + 4 * (dvn * dvn) * (q * q) + 4 * (dvn * dvn) * (t * t) == 4
        * (dvn * dvn) * (p * p + q * q + t * t)) by (nonlinear_arith);
    assert(m * m * vv - 4 * m * dvn * dvn + 4 * (dvn * dvn) * m == m * m * vv)
        by (nonlinear_arith);
    assert(r_dot(r, r) == m * m * vv);
    assert((-(m * dvn)) * (-(m * dvn)) * vv == dvn * dvn * (m * m * vv)) by (nonlinear_arith);
}

} // verus!
