//! The image sampling driver: the per-pixel camera ray mapping and the
//! conversion from a traced colour channel to an output byte.

use vstd::prelude::*;
use crate::fixed::{div_trunc, lemma_abs_mul, lemma_tdiv_bound, tdiv, SCALE};
use crate::scene::{ray_in_lims, RayT};
use crate::vec3::{v3, ThreeVec};

verus! {

/// The camera ray of pixel `(x, y)` on a `2*height` by `2*width` grid: a
/// fixed origin at zero and the direction `((0.5 + x - height) / height,
/// (0.5 * y - width) / width, 1)` in fixed point. The direction is not
/// renormalised, exactly as the sampling scheme prescribes.
pub fn camera_ray(x: usize, y: usize, height: usize, width: usize) -> (r: RayT)
    requires
        1 <= height <= 100_000,
        1 <= width <= 100_000,
        x < 2 * height,
        y < 2 * width,
    ensures
        v3(r.u) == (0int, 0int, 0int),
        r.v.0 as int == tdiv(
            (2 * (x as int) + 1 - 2 * (height as int)) * (SCALE as int),
            2 * (height as int),
        ),
        r.v.1 as int == tdiv(
            ((y as int) - 2 * (width as int)) * (SCALE as int),
            2 * (width as int),
        ),
        r.v.2 == SCALE,
        ray_in_lims(r),
{
    let hx: i64 = height as i64;
    let wx: i64 = width as i64;
    let numx: i64 = 2 * (x as i64) + 1 - 2 * hx;
    let numy: i64 = (y as i64) - 2 * wx;
    proof {
        lemma_tdiv_bound((numx * SCALE) as int, 2 * (hx as int), SCALE as int);
        lemma_tdiv_bound((numy * SCALE) as int, 2 * (wx as int), SCALE as int);
    }
    let dx = div_trunc((numx as i128) * (SCALE as i128), 2 * hx);
    let dy = div_trunc((numy as i128) * (SCALE as i128), 2 * wx);
    RayT { u: ThreeVec(0, 0, 0), v: ThreeVec(dx, dy, SCALE) }
}

/// A colour channel as the byte written to the image: scaled by 255,
/// truncated, and saturated to the byte range, matching the narrowing
/// float-to-byte conversion of the image driver.
pub open spec fn byte_of(c: int) -> int {
    let t = tdiv(c * 255, SCALE as int);
    if t < 0 {
        0
    } else if t > 255 {
        255
    } else {
        t
    }
}

/// Convert one traced channel to its output byte.
pub fn channel_byte(c: i64) -> (b: u8)
    ensures
        b as int == byte_of(c as int),
{
    proof {
        lemma_abs_mul(c as int, 255, 0x8000_0000_0000_0000, 255);
        lemma_tdiv_bound((c as int) * 255, SCALE as int, 2_352_000_000_000_000);
    }
    let t = div_trunc((c as i128) * 255, SCALE);
    if t < 0 {
        0
    } else if t > 255 {
        255
    } else {
        t as u8
    }
}

} // verus!
