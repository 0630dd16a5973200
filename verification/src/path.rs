//! The depth-limited recursive path tracer. The top-level call paints rays
//! that miss everything black (background); a bounced ray that escapes the
//! scene contributes white (the ambient sky term), tinted by every surface
//! already bounced off.

use vstd::prelude::*;
use crate::bounce::{reflect, reflect_spec};
use crate::fixed::SCALE;
use crate::query::{best_hit, check_spheres};
use crate::scene::{ray_in_lims, ray_lims_ok, wf_scene, wf_sphere, RayT, SphereT};
use crate::vec3::{c3, s_cmul, v3, wf_colour, ColVec, ThreeVec};

verus! {

/// Rebuild a ray value from the integer triples a reflection produced;
/// faithful exactly when the triples fit in the component type.
pub open spec fn ray_from(t: ((int, int, int), (int, int, int))) -> RayT {
    RayT {
        u: ThreeVec(t.0.0 as i64, t.0.1 as i64, t.0.2 as i64),
        v: ThreeVec(t.1.0 as i64, t.1.1 as i64, t.1.2 as i64),
    }
}

/// Whether a reflected ray is representable and within the tracer's region,
/// so the recursion may continue with it.
pub open spec fn bounce_ok(t: ((int, int, int), (int, int, int))) -> bool {
    let r2 = ray_from(t);
    v3(r2.u) == t.0 && v3(r2.v) == t.1 && ray_in_lims(r2)
}

/// Colour of a bounced ray with `depth` bounces left. A miss is white; a
/// hit at the last allowed depth is the surface's own colour; otherwise the
/// surface colour tints the colour of the reflected ray. A reflected ray
/// that leaves the representable region is treated as immediately escaping,
/// which contributes white and so also yields the surface's own colour.
pub open spec fn path_rec_spec(ray: RayT, ss: Seq<SphereT>, depth: int) -> (int, int, int)
    decreases depth,
{
    if depth < 1 {
        (0, 0, 0)
    } else {
        match best_hit(ray, ss) {
            None => (SCALE as int, SCALE as int, SCALE as int),
            Some(h) => {
                let col = c3(ss[h.1].colour);
                if depth == 1 {
                    col
                } else {
                    let t = reflect_spec(h.0, ss[h.1], ray);
                    if bounce_ok(t) {
                        s_cmul(col, path_rec_spec(ray_from(t), ss, depth - 1))
                    } else {
                        col
                    }
                }
            },
        }
    }
}

/// Colour of a top-level camera ray: as `path_rec_spec`, except that a ray
/// which hits nothing at all is the black background, and a nonpositive
/// depth budget is guarded to black as well.
pub open spec fn trace_path_spec(ray: RayT, ss: Seq<SphereT>, depth: int) -> (int, int, int) {
    if depth < 1 {
        (0, 0, 0)
    } else {
        match best_hit(ray, ss) {
            None => (0, 0, 0),
            Some(h) => {
                let col = c3(ss[h.1].colour);
                if depth == 1 {
                    col
                } else {
                    let t = reflect_spec(h.0, ss[h.1], ray);
                    if bounce_ok(t) {
                        s_cmul(col, path_rec_spec(ray_from(t), ss, depth - 1))
                    } else {
                        col
                    }
                }
            },
        }
    }
}

/// The bounce-level tracer: white ambient base case.
pub fn trace_path_int(ray: RayT, spheres: &Vec<SphereT>, max_reflect: u32) -> (c: ColVec)
    requires
        ray_in_lims(ray),
        wf_scene(spheres@),
        1 <= max_reflect,
    ensures
        c3(c) == path_rec_spec(ray, spheres@, max_reflect as int),
        wf_colour(c),
    decreases max_reflect,
{
    match check_spheres(&ray, spheres) {
        None => ColVec(SCALE, SCALE, SCALE),
        Some(ii) => {
            proof {
                assert(wf_sphere(spheres@[ii.sphere as int]));
            }
            let colour = spheres[ii.sphere].colour;
            if max_reflect == 1 {
                colour
            } else {
                let mut ray2 = ray;
                reflect(&ii, spheres, &mut ray2);
                proof {
                    let t = reflect_spec(
                        ii.dist as int,
                        spheres@[ii.sphere as int],
                        ray,
                    );
                    assert(ray_from(t) == ray2);
                }
                if ray_lims_ok(&ray2) {
                    colour.mul(trace_path_int(ray2, spheres, max_reflect - 1))
                } else {
                    colour
                }
            }
        },
    }
}

/// The top-level tracer: black background base case, guarded for a zero
/// bounce budget.
pub fn trace_path(ray: RayT, spheres: &Vec<SphereT>, max_reflect: u32) -> (c: ColVec)
    requires
        ray_in_lims(ray),
        wf_scene(spheres@),
    ensures
        c3(c) == trace_path_spec(ray, spheres@, max_reflect as int),
        wf_colour(c),
{
    if max_reflect == 0 {
        return ColVec(0, 0, 0);
    }
    match check_spheres(&ray, spheres) {
        None => ColVec(0, 0, 0),
        Some(ii) => {
            proof {
                assert(wf_sphere(spheres@[ii.sphere as int]));
            }
            let colour = spheres[ii.sphere].colour;
            if max_reflect == 1 {
                colour
            } else {
                let mut ray2 = ray;
                reflect(&ii, spheres, &mut ray2);
                proof {
                    let t = reflect_spec(
                        ii.dist as int,
                        spheres@[ii.sphere as int],
                        ray,
                    );
                    assert(ray_from(t) == ray2);
                }
                if ray_lims_ok(&ray2) {
                    colour.mul(trace_path_int(ray2, spheres, max_reflect - 1))
                } else {
                    colour
                }
            }
        },
    }
}

/// With one bounce left, a hit returns exactly the hit sphere's own colour,
/// un-multiplied, regardless of what lies beyond it - at the top level and
/// at bounce level alike.
pub proof fn lemma_depth_one_returns_surface_colour(ray: RayT, ss: Seq<SphereT>)
    ensures
        match best_hit(ray, ss) {
            Some(h) => path_rec_spec(ray, ss, 1) == c3(ss[h.1].colour) && trace_path_spec(
                ray,
                ss,
                1,
            ) == c3(ss[h.1].colour),
            None => true,
        },
{
}

/// A top-level ray that hits nothing is exactly black.
pub proof fn lemma_top_level_miss_is_black(ray: RayT, ss: Seq<SphereT>, depth: int)
    requires
        best_hit(ray, ss) == None::<(int, int)>,
    ensures
        trace_path_spec(ray, ss, depth) == (0int, 0int, 0int),
{
}

/// A bounced ray that hits nothing is exactly white, before the surface
/// colours accumulated so far multiply it.
pub proof fn lemma_bounce_miss_is_white(ray: RayT, ss: Seq<SphereT>, depth: int)
    requires
        best_hit(ray, ss) == None::<(int, int)>,
        depth >= 1,
    ensures
        path_rec_spec(ray, ss, depth) == (SCALE as int, SCALE as int, SCALE as int),
{
}

} // verus!
