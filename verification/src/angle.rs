//! Angles tagged with their unit, and the tangent used for the camera's
//! field of view.

use vstd::prelude::*;

use crate::fixed::{
    add_fp, div_fp, fp_add, fp_div, fp_mul, fp_mul_ratio, fp_sub, lemma_mul_fp_nonneg,
    mul_fp, mul_ratio_fp, sub_fp, tdiv, SAT_MAX, SCALE,
};

verus! {

/// Pi in fixed point: round(pi * SCALE).
pub const PI_FP: i64 = 205887;

/// Half a turn in fixed-point degrees: 180 * SCALE.
pub const HALF_TURN_DEG: i64 = 11796480;

/// An angle: a fixed-point scalar tagged with its unit. The tag preserves
/// the value exactly in its own unit; reading it in the other unit rounds
/// through the fixed-point value of pi.
#[derive(Clone, Copy, Debug, PartialEq, Eq, Structural)]
pub enum Angle {
    Degrees(i64),
    Radians(i64),
}

/// The angle's value in radians.
pub open spec fn rad_spec(a: Angle) -> int {
    match a {
        Angle::Radians(r) => r as int,
        Angle::Degrees(d) => mul_ratio_fp(d as int, PI_FP as int, HALF_TURN_DEG as int),
    }
}

/// The angle's value in degrees.
pub open spec fn deg_spec(a: Angle) -> int {
    match a {
        Angle::Degrees(d) => d as int,
        Angle::Radians(r) => mul_ratio_fp(r as int, HALF_TURN_DEG as int, PI_FP as int),
    }
}

impl Angle {
    /// An angle given in fixed-point degrees.
    pub fn from_degrees(v: i64) -> (r: Angle)
        ensures
            r == Angle::Degrees(v),
    {
        Angle::Degrees(v)
    }

    /// An angle given in fixed-point radians.
    pub fn from_radians(v: i64) -> (r: Angle)
        ensures
            r == Angle::Radians(v),
    {
        Angle::Radians(v)
    }

    /// The angle in radians.
    pub fn rad(&self) -> (r: i64)
        ensures
            r as int == rad_spec(*self),
    {
        match *self {
            Angle::Radians(r) => r,
            Angle::Degrees(d) => fp_mul_ratio(d, PI_FP, HALF_TURN_DEG),
        }
    }

    /// The angle in degrees.
    pub fn deg(&self) -> (r: i64)
        ensures
            r as int == deg_spec(*self),
    {
        match *self {
            Angle::Degrees(d) => d,
            Angle::Radians(r) => fp_mul_ratio(r, HALF_TURN_DEG, PI_FP),
        }
    }
}

/// Tangent of a non-negative angle in radians, as the quotient of degree-7
/// and degree-6 Taylor polynomials of sine and cosine; where the cosine
/// polynomial is not positive (at and beyond a quarter turn) the result
/// saturates.
pub open spec fn tan_fp_spec(x: int) -> int {
    let x2 = mul_fp(x, x);
    let x3 = mul_fp(x2, x);
    let x4 = mul_fp(x2, x2);
    let x5 = mul_fp(x3, x2);
    let x6 = mul_fp(x4, x2);
    let x7 = mul_fp(x5, x2);
    let s = sub_fp(add_fp(sub_fp(x, tdiv(x3, 6)), tdiv(x5, 120)), tdiv(x7, 5040));
    let c = sub_fp(add_fp(sub_fp(SCALE as int, tdiv(x2, 2)), tdiv(x4, 24)), tdiv(x6, 720));
    if c <= 0 {
        SAT_MAX as int
    } else {
        div_fp(s, c)
    }
}

/// Tangent of a non-negative angle given in fixed-point radians.
pub fn tan_fp(x: i64) -> (r: i64)
    requires
        x >= 0,
    ensures
        r as int == tan_fp_spec(x as int),
{
    let x2: i64 = fp_mul(x, x);
    proof {
        lemma_mul_fp_nonneg(x as int, x as int);
    }
    let x3: i64 = fp_mul(x2, x);
    let x4: i64 = fp_mul(x2, x2);
    proof {
        lemma_mul_fp_nonneg(x2 as int, x as int);
        lemma_mul_fp_nonneg(x2 as int, x2 as int);
    }
    let x5: i64 = fp_mul(x3, x2);
    let x6: i64 = fp_mul(x4, x2);
    proof {
        lemma_mul_fp_nonneg(x3 as int, x2 as int);
        lemma_mul_fp_nonneg(x4 as int, x2 as int);
    }
    let x7: i64 = fp_mul(x5, x2);
    proof {
        lemma_mul_fp_nonneg(x5 as int, x2 as int);
    }
    let s: i64 = fp_sub(fp_add(fp_sub(x, x3 / 6), x5 / 120), x7 / 5040);
    let c: i64 = fp_sub(fp_add(fp_sub(SCALE, x2 / 2), x4 / 24), x6 / 720);
    if c <= 0 {
        SAT_MAX
    } else {
        fp_div(s, c)
    }
}

} // verus!
