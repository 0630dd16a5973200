//! The ray-sphere intersection test: the discriminant policy of the tracer,
//! reproduced branch for branch over fixed-point arithmetic.

use vstd::prelude::*;
use crate::fixed::{
    tdiv, sqrt_floor, div_trunc, isqrt, lemma_abs_mul, lemma_mul_mono, lemma_sq_le, lemma_sq_lt,
    lemma_sq_nonneg, lemma_sqrt_floor_is, lemma_sqrt_floor_props, lemma_tdiv_bound,
    lemma_tdiv_nonneg, lemma_tdiv_times_divisor_le, DIST_LIM, SCALE,
};
use crate::scene::{ray_in_lims, wf_sphere, RayT, SphereT};
use crate::vec3::{s_dot, s_sub, v3};

verus! {

/// The intersection policy. Writing `D` for the vector from the sphere's
/// centre to the ray's origin, `vD` for its dot product with the direction,
/// and `disc` for the discriminant `vD^2 - D.D + r^2`: a negative
/// discriminant misses; an origin before or inside the sphere takes the
/// nearer root that lies forward along the ray; an origin past the sphere
/// misses. Every arithmetic step is the exact fixed-point one the
/// executable code performs.
pub open spec fn trace_spec(s: SphereT, ray: RayT) -> Option<int> {
    let dvec = s_sub(v3(ray.u), v3(s.centre));
    let d2 = s_dot(dvec, dvec);
    let vd = s_dot(dvec, v3(ray.v));
    let disc = tdiv(vd * vd, SCALE as int) - d2 + s.radius2;
    if disc < 0 {
        None
    } else {
        let sq = sqrt_floor(disc * SCALE);
        if vd < 0 {
            if -vd < sq {
                Some(sq - vd)
            } else {
                Some(-(vd + sq))
            }
        } else {
            if vd < sq {
                Some(sq - vd)
            } else {
                None
            }
        }
    }
}

/// Whether the ray meets the sphere.
pub open spec fn hits(s: SphereT, ray: RayT) -> bool {
    match trace_spec(s, ray) {
        Some(_) => true,
        None => false,
    }
}

/// The hit distance, meaningful only when `hits` holds.
pub open spec fn hit_dist(s: SphereT, ray: RayT) -> int
    recommends
        hits(s, ray),
{
    match trace_spec(s, ray) {
        Some(d) => d,
        None => 0,
    }
}

/// Fixed-point squared separation of the ray origin from the sphere centre.
pub open spec fn origin_sep2(s: SphereT, ray: RayT) -> int {
    let dvec = s_sub(v3(ray.u), v3(s.centre));
    s_dot(dvec, dvec)
}

/// Fixed-point rate at which the ray direction carries the origin towards
/// the centre; nonnegative means the ray points away from the sphere.
pub open spec fn approach(s: SphereT, ray: RayT) -> int {
    let dvec = s_sub(v3(ray.u), v3(s.centre));
    s_dot(dvec, v3(ray.v))
}

/// Nearest forward intersection of one ray with one sphere, or `None`.
pub fn trace(sphere: &SphereT, ray: &RayT) -> (r: Option<i64>)
    requires
        wf_sphere(*sphere),
        ray_in_lims(*ray),
    ensures
        match r {
            None => trace_spec(*sphere, *ray) == None::<int>,
            Some(d) => trace_spec(*sphere, *ray) == Some(d as int) && 0 <= d <= DIST_LIM,
        },
{
    let dv = ray.u.sub(sphere.centre);
    proof {
        lemma_abs_mul(dv.0 as int, dv.0 as int, 80_000_000, 80_000_000);
        lemma_abs_mul(dv.1 as int, dv.1 as int, 80_000_000, 80_000_000);
        lemma_abs_mul(dv.2 as int, dv.2 as int, 80_000_000, 80_000_000);
        lemma_sq_nonneg(dv.0 as int);
        lemma_sq_nonneg(dv.1 as int);
        lemma_sq_nonneg(dv.2 as int);
        let sum2 = dv.0 * dv.0 + dv.1 * dv.1 + dv.2 * dv.2;
        lemma_tdiv_bound(sum2, SCALE as int, 19_200_000_000);
        lemma_tdiv_nonneg(sum2, SCALE as int);
    }
    let d2 = dv.dot(dv);
    proof {
        lemma_abs_mul(dv.0 as int, ray.v.0 as int, 80_000_000, 4_000_000);
        lemma_abs_mul(dv.1 as int, ray.v.1 as int, 80_000_000, 4_000_000);
        lemma_abs_mul(dv.2 as int, ray.v.2 as int, 80_000_000, 4_000_000);
        let sumv = dv.0 * ray.v.0 + dv.1 * ray.v.1 + dv.2 * ray.v.2;
        lemma_tdiv_bound(sumv, SCALE as int, 960_000_000);
    }
    let vd = dv.dot(ray.v);
    proof {
        lemma_abs_mul(vd as int, vd as int, 960_000_000, 960_000_000);
        lemma_sq_nonneg(vd as int);
        lemma_tdiv_bound((vd * vd) as int, SCALE as int, 921_600_000_000);
        lemma_tdiv_nonneg((vd * vd) as int, SCALE as int);
        lemma_abs_mul(sphere.radius as int, sphere.radius as int, 16_000_000, 16_000_000);
        lemma_tdiv_bound((sphere.radius * sphere.radius) as int, SCALE as int, 256_000_000);
        lemma_tdiv_nonneg((sphere.radius * sphere.radius) as int, SCALE as int);
    }
    let vdsq = div_trunc((vd as i128) * (vd as i128), SCALE);
    let disc = vdsq - d2 + sphere.radius2;
    if disc < 0 {
        return None;
    }
    let disc_scaled: u128 = (disc as u128) * (SCALE as u128);
    let sq_wide = isqrt(disc_scaled);
    proof {
        if sq_wide >= 1_000_000_000 {
            lemma_sq_le(1_000_000_000, sq_wide as int);
        }
        lemma_sqrt_floor_is(disc_scaled as int, sq_wide as int);
    }
    let sq = sq_wide as i64;
    if vd < 0 {
        if -vd < sq {
            Some(sq - vd)
        } else {
            Some(-(vd + sq))
        }
    } else {
        if vd < sq {
            Some(sq - vd)
        } else {
            None
        }
    }
}

/// A ray that starts strictly outside a sphere and does not approach it
/// never intersects it: the policy reports a miss.
pub proof fn lemma_receding_ray_misses(s: SphereT, ray: RayT)
    requires
        origin_sep2(s, ray) > s.radius2,
        approach(s, ray) >= 0,
    ensures
        trace_spec(s, ray) == None::<int>,
{
    let dvec = s_sub(v3(ray.u), v3(s.centre));
    let d2 = s_dot(dvec, dvec);
    let vd = s_dot(dvec, v3(ray.v));
    let vdsq = tdiv(vd * vd, SCALE as int);
    let disc = vdsq - d2 + s.radius2;
    if disc >= 0 {
        let sq = sqrt_floor(disc * SCALE);
        lemma_sqrt_floor_props(disc * SCALE);
        lemma_sq_nonneg(vd);
        lemma_tdiv_times_divisor_le(vd * vd, SCALE as int);
        lemma_mul_mono(SCALE as int, disc, vdsq);
        assert(disc * SCALE == (SCALE as int) * disc) by (nonlinear_arith);
        assert(vdsq * SCALE == (SCALE as int) * vdsq) by (nonlinear_arith);
        assert(disc * SCALE <= vd * vd);
        if vd < sq {
            lemma_sq_lt(vd, sq);
        }
    }
}

/// The discriminant policy never reports an intersection at a negative
/// distance.
pub proof fn lemma_no_negative_distance(s: SphereT, ray: RayT)
    ensures
        match trace_spec(s, ray) {
            Some(d) => d >= 0,
            None => true,
        },
{
    let dvec = s_sub(v3(ray.u), v3(s.centre));
    let d2 = s_dot(dvec, dvec);
    let vd = s_dot(dvec, v3(ray.v));
    let disc = tdiv(vd * vd, SCALE as int) - d2 + s.radius2;
    if disc >= 0 {
        lemma_sqrt_floor_props(disc * SCALE);
    }
}

} // verus!
