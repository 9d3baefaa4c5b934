//! 3-D vector algebra over fixed-point scalars.

use vstd::prelude::*;

use crate::fixed::{
    add_fp, div_fp, fp_add, fp_div, fp_mul, fp_sqrt, fp_sub, isqrt, lemma_isqrt, mul_fp, sqrt_fp,
    sub_fp, SCALE,
};

verus! {

/// A vector of three fixed-point components.
#[derive(Clone, Copy, Debug, PartialEq, Eq, Structural)]
pub struct Vec3 {
    pub x: i64,
    pub y: i64,
    pub z: i64,
}

/// The mathematical view of a `Vec3`: its raw components as integers.
pub ghost struct V3 {
    pub x: int,
    pub y: int,
    pub z: int,
}

impl View for Vec3 {
    type V = V3;

    open spec fn view(&self) -> V3 {
        V3 { x: self.x as int, y: self.y as int, z: self.z as int }
    }
}

/// Componentwise sum.
pub open spec fn v3_add(u: V3, v: V3) -> V3 {
    V3 { x: add_fp(u.x, v.x), y: add_fp(u.y, v.y), z: add_fp(u.z, v.z) }
}

/// Componentwise difference.
pub open spec fn v3_sub(u: V3, v: V3) -> V3 {
    V3 { x: sub_fp(u.x, v.x), y: sub_fp(u.y, v.y), z: sub_fp(u.z, v.z) }
}

/// Uniform scaling.
pub open spec fn v3_scale(u: V3, t: int) -> V3 {
    V3 { x: mul_fp(u.x, t), y: mul_fp(u.y, t), z: mul_fp(u.z, t) }
}

/// Dot product, summed left to right.
pub open spec fn v3_dot(u: V3, v: V3) -> int {
    add_fp(add_fp(mul_fp(u.x, v.x), mul_fp(u.y, v.y)), mul_fp(u.z, v.z))
}

/// Cross product.
pub open spec fn v3_cross(u: V3, v: V3) -> V3 {
    V3 {
        x: sub_fp(mul_fp(u.y, v.z), mul_fp(u.z, v.y)),
        y: sub_fp(mul_fp(u.z, v.x), mul_fp(u.x, v.z)),
        z: sub_fp(mul_fp(u.x, v.y), mul_fp(u.y, v.x)),
    }
}

/// Euclidean norm.
pub open spec fn v3_norm(u: V3) -> int {
    sqrt_fp(v3_dot(u, u))
}

/// Normalization to unit length; the identity on a vector whose norm
/// rounds to zero (callers rule that case out).
pub open spec fn v3_unit(u: V3) -> V3 {
    let n = v3_norm(u);
    if n == 0 {
        u
    } else {
        V3 { x: div_fp(u.x, n), y: div_fp(u.y, n), z: div_fp(u.z, n) }
    }
}

/// A positive squared norm forces a positive rounded norm.
pub proof fn lemma_norm_pos(u: V3)
    requires
        v3_dot(u, u) > 0,
    ensures
        v3_norm(u) > 0,
{
    let m = (v3_dot(u, u) * (SCALE as int)) as nat;
    lemma_isqrt(m);
    assert(isqrt(m) >= 1) by (nonlinear_arith)
        requires
            m >= 1,
            m < (isqrt(m) + 1) * (isqrt(m) + 1),
    ;
}

impl Vec3 {
    /// Componentwise sum.
    pub fn add(&self, v: &Vec3) -> (r: Vec3)
        ensures
            r@ == v3_add(self@, v@),
    {
        Vec3 { x: fp_add(self.x, v.x), y: fp_add(self.y, v.y), z: fp_add(self.z, v.z) }
    }

    /// Componentwise difference.
    pub fn sub(&self, v: &Vec3) -> (r: Vec3)
        ensures
            r@ == v3_sub(self@, v@),
    {
        Vec3 { x: fp_sub(self.x, v.x), y: fp_sub(self.y, v.y), z: fp_sub(self.z, v.z) }
    }

    /// Uniform scaling.
    pub fn scale(&self, t: i64) -> (r: Vec3)
        ensures
            r@ == v3_scale(self@, t as int),
    {
        Vec3 { x: fp_mul(self.x, t), y: fp_mul(self.y, t), z: fp_mul(self.z, t) }
    }

    /// Dot product.
    pub fn dot(&self, v: &Vec3) -> (r: i64)
        ensures
            r as int == v3_dot(self@, v@),
    {
        fp_add(fp_add(fp_mul(self.x, v.x), fp_mul(self.y, v.y)), fp_mul(self.z, v.z))
    }

    /// Cross product.
    pub fn cross(&self, v: &Vec3) -> (r: Vec3)
        ensures
            r@ == v3_cross(self@, v@),
    {
        Vec3 {
            x: fp_sub(fp_mul(self.y, v.z), fp_mul(self.z, v.y)),
            y: fp_sub(fp_mul(self.z, v.x), fp_mul(self.x, v.z)),
            z: fp_sub(fp_mul(self.x, v.y), fp_mul(self.y, v.x)),
        }
    }

    /// Euclidean norm.
    pub fn norm(&self) -> (r: i64)
        ensures
            r as int == v3_norm(self@),
    {
        fp_sqrt(self.dot(self))
    }

    /// Unit-length vector in this vector's direction. Normalizing a vector
    /// of (rounded) zero length is a caller contract violation.
    pub fn unit(&self) -> (r: Vec3)
        requires
            v3_dot(self@, self@) > 0,
        ensures
            r@ == v3_unit(self@),
    {
        let n: i64 = self.norm();
        proof {
            lemma_norm_pos(self@);
        }
        Vec3 { x: fp_div(self.x, n), y: fp_div(self.y, n), z: fp_div(self.z, n) }
    }
}

} // verus!
