//! The scene query: folding the intersection test over the sphere list,
//! keeping the strictly nearest hit and the earliest sphere on ties.

use vstd::prelude::*;
use crate::fixed::DIST_LIM;
use crate::intersect::{hit_dist, hits, trace, trace_spec};
use crate::scene::{ray_in_lims, wf_scene, IntersectT, RayT, SphereT};

verus! {

/// The fold over the first `n` spheres: the running best hit is replaced
/// only by a strictly smaller distance, so the earliest sphere wins ties.
pub open spec fn scan_hits(ray: RayT, ss: Seq<SphereT>, n: int) -> Option<(int, int)>
    decreases n,
{
    if n <= 0 {
        None
    } else {
        let prev = scan_hits(ray, ss, n - 1);
        match trace_spec(ss[n - 1], ray) {
            None => prev,
            Some(d) => match prev {
                None => Some((d, n - 1)),
                Some(p) => if d < p.0 {
                    Some((d, n - 1))
                } else {
                    Some(p)
                },
            },
        }
    }
}

/// The globally nearest hit over the whole scene, or `None`.
pub open spec fn best_hit(ray: RayT, ss: Seq<SphereT>) -> Option<(int, int)> {
    scan_hits(ray, ss, ss.len() as int)
}

/// Nearest intersection of the ray with any sphere of the scene.
pub fn check_spheres(ray: &RayT, spheres: &Vec<SphereT>) -> (r: Option<IntersectT>)
    requires
        ray_in_lims(*ray),
        wf_scene(spheres@),
    ensures
        match r {
            None => best_hit(*ray, spheres@) == None::<(int, int)>,
            Some(ii) => best_hit(*ray, spheres@) == Some((ii.dist as int, ii.sphere as int))
                && 0 <= ii.dist <= DIST_LIM && ii.sphere < spheres@.len(),
        },
        spheres@.len() == 0 ==> r == None::<IntersectT>,
{
    let mut best: Option<IntersectT> = None;
    let mut i: usize = 0;
    while i < spheres.len()
        invariant
            0 <= i <= spheres@.len(),
            ray_in_lims(*ray),
            wf_scene(spheres@),
            match best {
                None => scan_hits(*ray, spheres@, i as int) == None::<(int, int)>,
                Some(ii) => scan_hits(*ray, spheres@, i as int) == Some(
                    (ii.dist as int, ii.sphere as int),
                ) && 0 <= ii.dist <= DIST_LIM && ii.sphere < i,
            },
        decreases spheres@.len() - i,
    {
        let d = trace(&spheres[i], ray);
        match d {
            None => {},
            Some(dd) => match best {
                None => {
                    best = Some(IntersectT { dist: dd, sphere: i });
                },
                Some(ii) => {
                    if dd < ii.dist {
                        best = Some(IntersectT { dist: dd, sphere: i });
                    }
                },
            },
        }
        i = i + 1;
    }
    best
}

/// The fold finds the true minimum: a reported hit is a real hit at the
/// reported index, no sphere of the scanned prefix is strictly nearer, and
/// every earlier sphere is strictly farther (the tie-break); a reported
/// miss means no sphere of the prefix is hit at all.
pub proof fn lemma_scan_minimal(ray: RayT, ss: Seq<SphereT>, n: int)
    requires
        0 <= n <= ss.len(),
    ensures
        match scan_hits(ray, ss, n) {
            None => forall|m: int| 0 <= m < n ==> !hits(ss[m], ray),
            Some(h) => 0 <= h.1 < n && hits(ss[h.1], ray) && h.0 == hit_dist(ss[h.1], ray) && (
            forall|m: int| 0 <= m < n && hits(ss[m], ray) ==> h.0 <= hit_dist(ss[m], ray)) && (
            forall|m: int| 0 <= m < h.1 && hits(ss[m], ray) ==> h.0 < hit_dist(ss[m], ray)),
        },
    decreases n,
{
    if n > 0 {
        lemma_scan_minimal(ray, ss, n - 1);
    }
}

/// An empty scene yields no intersection.
pub proof fn lemma_empty_scene_misses(ray: RayT, ss: Seq<SphereT>)
    requires
        ss.len() == 0,
    ensures
        best_hit(ray, ss) == None::<(int, int)>,
{
}

/// Ties break towards the earlier sphere: when two spheres are hit at the
/// same distance, the query never reports the later index.
pub proof fn lemma_tie_prefers_earlier(ray: RayT, ss: Seq<SphereT>, i: int, j: int, d: int)
    requires
        0 <= i < j < ss.len(),
        trace_spec(ss[i], ray) == Some(d),
        trace_spec(ss[j], ray) == Some(d),
    ensures
        best_hit(ray, ss) != Some((d, j)),
{
    lemma_scan_minimal(ray, ss, ss.len() as int);
}

} // verus!
