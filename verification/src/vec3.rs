//! Three-component fixed-point vectors and colours, with exact contracts for
//! every arithmetic operation.

use vstd::prelude::*;
use crate::fixed::{tdiv, fits_i64, div_trunc, PROD_CAP, SCALE};

verus! {

/// A point or direction: three fixed-point coordinates.
#[derive(Clone, Copy, PartialEq, Eq, Structural, Debug)]
pub struct ThreeVec(pub i64, pub i64, pub i64);

/// A multiplicative colour tint: three fixed-point channels.
#[derive(Clone, Copy, PartialEq, Eq, Structural, Debug)]
pub struct ColVec(pub i64, pub i64, pub i64);

/// The mathematical value of a vector: its components as unbounded integers.
pub open spec fn v3(a: ThreeVec) -> (int, int, int) {
    (a.0 as int, a.1 as int, a.2 as int)
}

/// The mathematical value of a colour.
pub open spec fn c3(c: ColVec) -> (int, int, int) {
    (c.0 as int, c.1 as int, c.2 as int)
}

pub open spec fn s_add(a: (int, int, int), b: (int, int, int)) -> (int, int, int) {
    (a.0 + b.0, a.1 + b.1, a.2 + b.2)
}

pub open spec fn s_sub(a: (int, int, int), b: (int, int, int)) -> (int, int, int) {
    (a.0 - b.0, a.1 - b.1, a.2 - b.2)
}

/// Fixed-point dot product: the wide product sum scaled back down.
pub open spec fn s_dot(a: (int, int, int), b: (int, int, int)) -> int {
    tdiv(a.0 * b.0 + a.1 * b.1 + a.2 * b.2, SCALE as int)
}

/// Fixed-point scaling of a vector by a fixed-point scalar.
pub open spec fn s_scale(a: (int, int, int), k: int) -> (int, int, int) {
    (tdiv(a.0 * k, SCALE as int), tdiv(a.1 * k, SCALE as int), tdiv(a.2 * k, SCALE as int))
}

/// Fixed-point division of a vector by a fixed-point scalar.
pub open spec fn s_div(a: (int, int, int), k: int) -> (int, int, int) {
    (
        tdiv(a.0 * (SCALE as int), k),
        tdiv(a.1 * (SCALE as int), k),
        tdiv(a.2 * (SCALE as int), k),
    )
}

/// Component-wise fixed-point colour product.
pub open spec fn s_cmul(a: (int, int, int), b: (int, int, int)) -> (int, int, int) {
    (
        tdiv(a.0 * b.0, SCALE as int),
        tdiv(a.1 * b.1, SCALE as int),
        tdiv(a.2 * b.2, SCALE as int),
    )
}

/// A colour is well formed when every channel is a tint in [0, 1].
pub open spec fn wf_colour(c: ColVec) -> bool {
    0 <= c.0 <= SCALE && 0 <= c.1 <= SCALE && 0 <= c.2 <= SCALE
}

impl ThreeVec {
    /// Component-wise vector sum.
    pub fn add(self, rhs: ThreeVec) -> (r: ThreeVec)
        requires
            fits_i64(self.0 + rhs.0),
            fits_i64(self.1 + rhs.1),
            fits_i64(self.2 + rhs.2),
        ensures
            v3(r) == s_add(v3(self), v3(rhs)),
    {
        ThreeVec(self.0 + rhs.0, self.1 + rhs.1, self.2 + rhs.2)
    }

    /// Component-wise vector difference.
    pub fn sub(self, rhs: ThreeVec) -> (r: ThreeVec)
        requires
            fits_i64(self.0 - rhs.0),
            fits_i64(self.1 - rhs.1),
            fits_i64(self.2 - rhs.2),
        ensures
            v3(r) == s_sub(v3(self), v3(rhs)),
    {
        ThreeVec(self.0 - rhs.0, self.1 - rhs.1, self.2 - rhs.2)
    }

    /// Fixed-point dot product.
    pub fn dot(self, rhs: ThreeVec) -> (r: i64)
        requires
            -(PROD_CAP as int) <= self.0 * rhs.0
                <= PROD_CAP as int,
            -(PROD_CAP as int) <= self.1 * rhs.1
                <= PROD_CAP as int,
            -(PROD_CAP as int) <= self.2 * rhs.2
                <= PROD_CAP as int,
            fits_i64(s_dot(v3(self), v3(rhs))),
        ensures
            r as int == s_dot(v3(self), v3(rhs)),
    {
        let p: i128 = (self.0 as i128) * (rhs.0 as i128) + (self.1 as i128) * (rhs.1 as i128)
            + (self.2 as i128) * (rhs.2 as i128);
        div_trunc(p, SCALE)
    }

    /// Fixed-point scalar multiple.
    pub fn scale(self, k: i64) -> (r: ThreeVec)
        requires
            -(PROD_CAP as int) <= self.0 * k
                <= PROD_CAP as int,
            -(PROD_CAP as int) <= self.1 * k
                <= PROD_CAP as int,
            -(PROD_CAP as int) <= self.2 * k
                <= PROD_CAP as int,
            fits_i64(tdiv(self.0 * k, SCALE as int)),
            fits_i64(tdiv(self.1 * k, SCALE as int)),
            fits_i64(tdiv(self.2 * k, SCALE as int)),
        ensures
            v3(r) == s_scale(v3(self), k as int),
    {
        ThreeVec(
            div_trunc((self.0 as i128) * (k as i128), SCALE),
            div_trunc((self.1 as i128) * (k as i128), SCALE),
            div_trunc((self.2 as i128) * (k as i128), SCALE),
        )
    }

    /// Fixed-point division by a positive scalar.
    pub fn div_by(self, k: i64) -> (r: ThreeVec)
        requires
            1 <= k,
            -(PROD_CAP as int) <= self.0 * (SCALE as int)
                <= PROD_CAP as int,
            -(PROD_CAP as int) <= self.1 * (SCALE as int)
                <= PROD_CAP as int,
            -(PROD_CAP as int) <= self.2 * (SCALE as int)
                <= PROD_CAP as int,
            fits_i64(tdiv(self.0 * (SCALE as int), k as int)),
            fits_i64(tdiv(self.1 * (SCALE as int), k as int)),
            fits_i64(tdiv(self.2 * (SCALE as int), k as int)),
        ensures
            v3(r) == s_div(v3(self), k as int),
    {
        ThreeVec(
            div_trunc((self.0 as i128) * (SCALE as i128), k),
            div_trunc((self.1 as i128) * (SCALE as i128), k),
            div_trunc((self.2 as i128) * (SCALE as i128), k),
        )
    }
}

impl ColVec {
    /// Component-wise tint: each channel attenuates the matching channel of
    /// the light arriving from deeper in the path. Well-formed tints stay
    /// well formed, so repeated bounces can never brighten a channel past 1.
    pub fn mul(self, rhs: ColVec) -> (r: ColVec)
        requires
            wf_colour(self),
            wf_colour(rhs),
        ensures
            c3(r) == s_cmul(c3(self), c3(rhs)),
            wf_colour(r),
    {
        proof {
            crate::fixed::lemma_abs_mul(self.0 as int, rhs.0 as int, SCALE as int, SCALE as int);
            crate::fixed::lemma_abs_mul(self.1 as int, rhs.1 as int, SCALE as int, SCALE as int);
            crate::fixed::lemma_abs_mul(self.2 as int, rhs.2 as int, SCALE as int, SCALE as int);
            crate::fixed::lemma_tdiv_bound(self.0 * rhs.0, SCALE as int, SCALE as int);
            crate::fixed::lemma_tdiv_bound(self.1 * rhs.1, SCALE as int, SCALE as int);
            crate::fixed::lemma_tdiv_bound(self.2 * rhs.2, SCALE as int, SCALE as int);
            crate::fixed::lemma_tdiv_nonneg(self.0 * rhs.0, SCALE as int);
            crate::fixed::lemma_tdiv_nonneg(self.1 * rhs.1, SCALE as int);
            crate::fixed::lemma_tdiv_nonneg(self.2 * rhs.2, SCALE as int);
        }
        ColVec(
            div_trunc((self.0 as i128) * (rhs.0 as i128), SCALE),
            div_trunc((self.1 as i128) * (rhs.1 as i128), SCALE),
            div_trunc((self.2 as i128) * (rhs.2 as i128), SCALE),
        )
    }
}

} // verus!
