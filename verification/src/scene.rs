//! Rays, spheres and intersection records, with the well-formedness bounds
//! the tracer relies on.

use vstd::prelude::*;
use crate::fixed::{
    tdiv, div_trunc, lemma_abs_mul, lemma_tdiv_bound, lemma_tdiv_nonneg, CENTRE_LIM, DIR_LIM,
    ORIGIN_LIM, RADIUS_MAX, RADIUS_MIN, SCALE,
};
use crate::vec3::{wf_colour, ColVec, ThreeVec};

verus! {

/// A ray: an origin point and a direction vector. The direction is expected
/// to be close to unit length; the intersection formula assumes it.
#[derive(Clone, Copy, PartialEq, Eq, Structural, Debug)]
pub struct RayT {
    pub u: ThreeVec,
    pub v: ThreeVec,
}

/// A sphere: centre, radius, cached squared radius and surface colour.
#[derive(Clone, Copy, PartialEq, Eq, Structural, Debug)]
pub struct SphereT {
    pub centre: ThreeVec,
    pub radius: i64,
    pub radius2: i64,
    pub colour: ColVec,
}

/// The nearest hit found by a scene query: the distance along the ray and
/// the index of the sphere hit in the scene's list.
#[derive(Clone, Copy, PartialEq, Eq, Structural, Debug)]
pub struct IntersectT {
    pub dist: i64,
    pub sphere: usize,
}

/// A sphere is well formed when its centre and radius are within the
/// representable scene region, the cached squared radius is exactly the
/// fixed-point square of the radius, and its colour is a tint in [0, 1].
pub open spec fn wf_sphere(s: SphereT) -> bool {
    &&& -CENTRE_LIM <= s.centre.0 <= CENTRE_LIM
    &&& -CENTRE_LIM <= s.centre.1 <= CENTRE_LIM
    &&& -CENTRE_LIM <= s.centre.2 <= CENTRE_LIM
    &&& RADIUS_MIN <= s.radius <= RADIUS_MAX
    &&& s.radius2 as int == tdiv(s.radius * s.radius, SCALE as int)
    &&& wf_colour(s.colour)
}

/// Every sphere of a scene is well formed.
pub open spec fn wf_scene(ss: Seq<SphereT>) -> bool {
    forall|i: int| 0 <= i < ss.len() ==> wf_sphere(ss[i])
}

/// A ray whose components stay inside the region the tracer computes in.
pub open spec fn ray_in_lims(r: RayT) -> bool {
    &&& -ORIGIN_LIM <= r.u.0 <= ORIGIN_LIM
    &&& -ORIGIN_LIM <= r.u.1 <= ORIGIN_LIM
    &&& -ORIGIN_LIM <= r.u.2 <= ORIGIN_LIM
    &&& -DIR_LIM <= r.v.0 <= DIR_LIM
    &&& -DIR_LIM <= r.v.1 <= DIR_LIM
    &&& -DIR_LIM <= r.v.2 <= DIR_LIM
}

/// Runtime check for `ray_in_lims`, used to keep bounced rays inside the
/// representable region.
pub fn ray_lims_ok(r: &RayT) -> (b: bool)
    ensures
        b == ray_in_lims(*r),
{
    -ORIGIN_LIM <= r.u.0 && r.u.0 <= ORIGIN_LIM && -ORIGIN_LIM <= r.u.1 && r.u.1 <= ORIGIN_LIM
        && -ORIGIN_LIM <= r.u.2 && r.u.2 <= ORIGIN_LIM && -DIR_LIM <= r.v.0 && r.v.0 <= DIR_LIM
        && -DIR_LIM <= r.v.1 && r.v.1 <= DIR_LIM && -DIR_LIM <= r.v.2 && r.v.2 <= DIR_LIM
}

impl SphereT {
    /// Validating constructor: accepts exactly the well-formed inputs and
    /// caches the fixed-point squared radius.
    pub fn new(centre: ThreeVec, radius: i64, colour: ColVec) -> (s: Option<SphereT>)
        ensures
            match s {
                Some(sp) => wf_sphere(sp) && sp.centre == centre && sp.radius == radius
                    && sp.colour == colour,
                None => !({
                    &&& -CENTRE_LIM <= centre.0 <= CENTRE_LIM
                    &&& -CENTRE_LIM <= centre.1 <= CENTRE_LIM
                    &&& -CENTRE_LIM <= centre.2 <= CENTRE_LIM
                    &&& RADIUS_MIN <= radius <= RADIUS_MAX
                    &&& wf_colour(colour)
                }),
            },
            s is Some <==> ({
                &&& -CENTRE_LIM <= centre.0 <= CENTRE_LIM
                &&& -CENTRE_LIM <= centre.1 <= CENTRE_LIM
                &&& -CENTRE_LIM <= centre.2 <= CENTRE_LIM
                &&& RADIUS_MIN <= radius <= RADIUS_MAX
                &&& wf_colour(colour)
            }),
    {
        let centre_ok = -CENTRE_LIM <= centre.0 && centre.0 <= CENTRE_LIM && -CENTRE_LIM
            <= centre.1 && centre.1 <= CENTRE_LIM && -CENTRE_LIM <= centre.2 && centre.2
            <= CENTRE_LIM;
        let radius_ok = RADIUS_MIN <= radius && radius <= RADIUS_MAX;
        let colour_ok = 0 <= colour.0 && colour.0 <= SCALE && 0 <= colour.1 && colour.1 <= SCALE
            && 0 <= colour.2 && colour.2 <= SCALE;
        if centre_ok && radius_ok && colour_ok {
            proof {
                lemma_abs_mul(radius as int, radius as int, RADIUS_MAX as int, RADIUS_MAX as int);
                lemma_tdiv_bound((radius * radius) as int, SCALE as int, 256_000_000);
                lemma_tdiv_nonneg((radius * radius) as int, SCALE as int);
            }
            let radius2 = div_trunc((radius as i128) * (radius as i128), SCALE);
            Some(SphereT { centre, radius, radius2, colour })
        } else {
            None
        }
    }
}

} // verus!
