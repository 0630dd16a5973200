use raytrace::camera::{camera_ray, channel_byte};
use raytrace::fixed::isqrt;
use raytrace::intersect::trace;
use raytrace::path::{trace_path, trace_path_int};
use raytrace::query::check_spheres;
use raytrace::scene::{RayT, SphereT};
use raytrace::vec3::{ColVec, ThreeVec};

const S: i64 = 1_000_000;

fn sphere(cx: i64, cy: i64, cz: i64, r: i64, col: (i64, i64, i64)) -> SphereT {
    SphereT::new(ThreeVec(cx, cy, cz), r, ColVec(col.0, col.1, col.2))
        .expect("test sphere must be well formed")
}

fn reference_scene() -> Vec<SphereT> {
    vec![
        sphere(0, 501_000, S, 500_000, (950_000, 950_000, 950_000)),
        sphere(0, -501_000, S, 500_000, (950_000, 950_000, 900_000)),
        sphere(0, 0, -3 * S, S, (900_000, 950_000, 900_000)),
    ]
}

fn ray(ux: i64, uy: i64, uz: i64, vx: i64, vy: i64, vz: i64) -> RayT {
    RayT { u: ThreeVec(ux, uy, uz), v: ThreeVec(vx, vy, vz) }
}

#[test]
fn vector_ops_exact() {
    let a = ThreeVec(1_500_000, -2_000_000, 250_000);
    let b = ThreeVec(500_000, 1_000_000, -250_000);
    assert_eq!(a.add(b), ThreeVec(2_000_000, -1_000_000, 0));
    assert_eq!(a.sub(b), ThreeVec(1_000_000, -3_000_000, 500_000));
    // 0.75 - 2.0 - 0.0625 = -1.3125
    assert_eq!(a.dot(b), -1_312_500);
    // scaling by 2.0
    assert_eq!(a.scale(2 * S), ThreeVec(3_000_000, -4_000_000, 500_000));
    // dividing by 0.5
    assert_eq!(a.div_by(500_000), ThreeVec(3_000_000, -4_000_000, 500_000));
}

#[test]
fn colour_mul_exact() {
    let a = ColVec(950_000, 950_000, 900_000);
    let b = ColVec(950_000, 500_000, 1_000_000);
    assert_eq!(a.mul(b), ColVec(902_500, 475_000, 900_000));
}

#[test]
fn truncating_division_rounds_toward_zero() {
    // scaling by one fixed-point unit truncates toward zero on both signs:
    // flooring would give -1 in the first component.
    let a = ThreeVec(-999_999, 999_999, -1);
    assert_eq!(a.scale(1), ThreeVec(0, 0, 0));
    let b = ThreeVec(-1_999_999, 1_999_999, 0);
    assert_eq!(b.scale(1), ThreeVec(-1, 1, 0));
}

#[test]
fn isqrt_exact() {
    assert_eq!(isqrt(0), 0);
    assert_eq!(isqrt(1), 1);
    assert_eq!(isqrt(999_999), 999);
    assert_eq!(isqrt(1_000_000_000_000), 1_000_000);
    assert_eq!(isqrt(2_500_000_000_000 - 1), 1_581_138);
}

#[test]
fn sphere_new_validates() {
    assert!(SphereT::new(ThreeVec(0, 0, 0), 500_000, ColVec(0, 0, 0)).is_some());
    // radius below the fixed-point minimum
    assert!(SphereT::new(ThreeVec(0, 0, 0), 50_000, ColVec(0, 0, 0)).is_none());
    // nonpositive radius
    assert!(SphereT::new(ThreeVec(0, 0, 0), 0, ColVec(0, 0, 0)).is_none());
    // centre out of range
    assert!(SphereT::new(ThreeVec(17_000_000, 0, 0), 500_000, ColVec(0, 0, 0)).is_none());
    // colour channel above 1.0
    assert!(SphereT::new(ThreeVec(0, 0, 0), 500_000, ColVec(1_000_001, 0, 0)).is_none());
    let s = sphere(0, 0, 3 * S, S, (900_000, 950_000, 900_000));
    assert_eq!(s.radius2, S);
}

#[test]
fn head_on_hit_is_centre_distance_minus_radius() {
    let s = sphere(0, 0, 3 * S, S, (900_000, 950_000, 900_000));
    let r = ray(0, 0, 0, 0, 0, S);
    assert_eq!(trace(&s, &r), Some(2_000_000));
}

#[test]
fn receding_ray_misses() {
    let s = sphere(0, 0, -3 * S, S, (900_000, 950_000, 900_000));
    let r = ray(0, 0, 0, 0, 0, S);
    assert_eq!(trace(&s, &r), None);
}

#[test]
fn hit_from_inside_takes_exit_root() {
    let s = sphere(0, 0, 3 * S, S, (900_000, 950_000, 900_000));
    let r = ray(0, 0, 2_700_000, 0, 0, S);
    assert_eq!(trace(&s, &r), Some(1_300_000));
}

#[test]
fn empty_scene_returns_none() {
    let spheres: Vec<SphereT> = vec![];
    let r = ray(0, 0, 0, 0, 0, S);
    assert!(check_spheres(&r, &spheres).is_none());
}

#[test]
fn tie_break_prefers_earlier_sphere() {
    let spheres = vec![
        sphere(0, 0, 3 * S, S, (900_000, 0, 0)),
        sphere(0, 0, 3 * S, S, (0, 900_000, 0)),
    ];
    let r = ray(0, 0, 0, 0, 0, S);
    let hit = check_spheres(&r, &spheres).expect("both spheres are dead ahead");
    assert_eq!(hit.sphere, 0);
    assert_eq!(hit.dist, 2_000_000);
}

#[test]
fn nearest_sphere_wins() {
    let spheres = vec![
        sphere(0, 0, 3 * S, S, (900_000, 0, 0)),
        sphere(0, 0, 2 * S, 500_000, (0, 900_000, 0)),
    ];
    let r = ray(0, 0, 0, 0, 0, S);
    let hit = check_spheres(&r, &spheres).expect("both spheres are dead ahead");
    assert_eq!(hit.sphere, 1);
    assert_eq!(hit.dist, 1_500_000);
}

#[test]
fn reflect_head_on_reverses_direction() {
    let spheres = reference_scene();
    let mut r = ray(0, 501_000, 0, 0, 0, S);
    let hit = check_spheres(&r, &spheres).expect("aimed at the first sphere");
    assert_eq!(hit.sphere, 0);
    assert_eq!(hit.dist, 500_000);
    raytrace::bounce::reflect(&hit, &spheres, &mut r);
    // advanced to the hit point, mirrored straight back, nudged one unit
    assert_eq!(r.v, ThreeVec(0, 0, -S));
    assert_eq!(r.u, ThreeVec(0, 501_000, 499_999));
}

#[test]
fn depth_one_returns_surface_colour() {
    let spheres = reference_scene();
    let r = ray(0, 501_000, 0, 0, 0, S);
    assert_eq!(trace_path(r, &spheres, 1), ColVec(950_000, 950_000, 950_000));
}

#[test]
fn top_level_miss_is_black() {
    let spheres = reference_scene();
    // The axis ray threads the 0.001 gap between the two front spheres and
    // the third sphere lies behind the origin.
    let r = ray(0, 0, 0, 0, 0, S);
    assert!(check_spheres(&r, &spheres).is_none());
    assert_eq!(trace_path(r, &spheres, 20), ColVec(0, 0, 0));
}

#[test]
fn bounce_miss_is_white() {
    let spheres = reference_scene();
    let r = ray(0, 0, 0, 0, 0, S);
    assert_eq!(trace_path_int(r, &spheres, 20), ColVec(S, S, S));
}

#[test]
fn zero_depth_is_guarded_to_black() {
    let spheres = reference_scene();
    let r = ray(0, 501_000, 0, 0, 0, S);
    assert_eq!(trace_path(r, &spheres, 0), ColVec(0, 0, 0));
}

#[test]
fn deep_trace_factors_through_first_bounce() {
    let spheres = reference_scene();
    let r = ray(0, 501_000, 0, 0, 0, S);
    let hit = check_spheres(&r, &spheres).expect("aimed at the first sphere");
    let mut bounced = r;
    raytrace::bounce::reflect(&hit, &spheres, &mut bounced);
    let expected = ColVec(950_000, 950_000, 950_000).mul(trace_path_int(bounced, &spheres, 19));
    assert_eq!(trace_path(r, &spheres, 20), expected);
}

#[test]
fn deep_trace_exact_value() {
    let spheres = reference_scene();
    let r = ray(0, 501_000, 0, 0, 0, S);
    // the ray bounces off the first sphere into the rear sphere and then
    // escapes: 0.95 * 0.9, 0.95 * 0.95 and 0.95 * 0.9, exactly
    assert_eq!(trace_path(r, &spheres, 20), ColVec(855_000, 902_500, 855_000));
}

#[test]
fn camera_ray_mapping_exact() {
    let r = camera_ray(0, 0, 600, 600);
    assert_eq!(r.u, ThreeVec(0, 0, 0));
    // (0.5 - 600) / 600 and (0.0 - 600) / 600, truncated toward zero
    assert_eq!(r.v, ThreeVec(-999_166, -1_000_000, S));
    let c = camera_ray(600, 600, 600, 600);
    assert_eq!(c.v, ThreeVec(833, -500_000, S));
}

#[test]
fn channel_byte_saturates_and_truncates() {
    assert_eq!(channel_byte(0), 0);
    assert_eq!(channel_byte(S), 255);
    assert_eq!(channel_byte(950_000), 242);
    assert_eq!(channel_byte(902_500), 230);
    assert_eq!(channel_byte(-5), 0);
    assert_eq!(channel_byte(2_000_000), 255);
}
