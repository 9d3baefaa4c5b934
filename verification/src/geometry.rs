//! Geometric primitives and ray intersection.

use vstd::prelude::*;

use crate::color::{Color, C3};
use crate::fixed::{
    div_fp, fp_mul, iabs, mul_fp, quad_roots, solve_quadratic, sub_fp, disc_fp, SCALE,
};
use crate::vec3::{v3_add, v3_dot, v3_norm, v3_scale, v3_sub, v3_unit, Vec3, V3};

verus! {

/// Largest raw deviation of a direction's norm from one that still counts
/// as unit length (a relative tolerance of about 1e-4).
pub const UNIT_TOL: i64 = 6;

/// The direction's length rounds to one, within `UNIT_TOL`.
pub open spec fn near_unit(d: V3) -> bool {
    iabs(v3_norm(d) - (SCALE as int)) <= UNIT_TOL as int
}

/// A ray: an origin, a direction of unit length, and a positive bounce
/// budget. Built fresh for every primary and shadow ray, never mutated.
#[derive(Clone, Debug)]
pub struct Ray {
    pub start: Vec3,
    pub dir: Vec3,
    pub ttl: u32,
}

/// The mathematical view of a `Ray`.
pub ghost struct RayV {
    pub start: V3,
    pub dir: V3,
    pub ttl: int,
}

impl View for Ray {
    type V = RayV;

    open spec fn view(&self) -> RayV {
        RayV { start: self.start@, dir: self.dir@, ttl: self.ttl as int }
    }
}

impl Ray {
    /// The checked ray constructor: a non-unit direction or an exhausted
    /// bounce budget is a caller contract violation.
    pub fn new(start: Vec3, dir: Vec3, ttl: u32) -> (r: Ray)
        requires
            near_unit(dir@),
            ttl >= 1,
        ensures
            r@ == (RayV { start: start@, dir: dir@, ttl: ttl as int }),
    {
        Ray { start, dir, ttl }
    }
}

/// A successful intersection: distance along the ray, the surface color
/// there, the hit position, and the outward-facing surface normal.
#[derive(Clone, Debug)]
pub struct Collision {
    pub distance: i64,
    pub color: Color,
    pub position: Vec3,
    pub norm: Vec3,
}

/// The mathematical view of a `Collision`.
pub ghost struct Hit {
    pub distance: int,
    pub color: C3,
    pub position: V3,
    pub norm: V3,
}

impl View for Collision {
    type V = Hit;

    open spec fn view(&self) -> Hit {
        Hit {
            distance: self.distance as int,
            color: self.color@,
            position: self.position@,
            norm: self.norm@,
        }
    }
}

/// A sphere, described by center, radius and surface color.
#[derive(Clone, Debug)]
pub struct Sphere {
    pub center: Vec3,
    pub radius: i64,
    pub color: Color,
}

/// The mathematical view of a `Sphere`.
pub ghost struct SphereV {
    pub center: V3,
    pub radius: int,
    pub color: C3,
}

impl View for Sphere {
    type V = SphereV;

    open spec fn view(&self) -> SphereV {
        SphereV { center: self.center@, radius: self.radius as int, color: self.color@ }
    }
}

/// The collision a sphere reports for a hit at the given distance: the
/// normal points from the center through the hit position.
pub open spec fn sphere_collision(s: SphereV, r: RayV, distance: int) -> Hit {
    let position = v3_add(r.start, v3_scale(r.dir, distance));
    Hit {
        distance,
        color: s.color,
        position,
        norm: v3_unit(v3_sub(position, s.center)),
    }
}

/// Where, if at all, a ray first hits a sphere: solve the line-sphere
/// quadratic and take the nearest strictly positive root.
pub open spec fn sphere_hit(s: SphereV, r: RayV) -> Option<Hit> {
    let offset = v3_sub(s.center, r.start);
    let b = mul_fp(-2 * (SCALE as int), v3_dot(r.dir, offset));
    let c = sub_fp(v3_dot(offset, offset), mul_fp(s.radius, s.radius));
    if disc_fp(SCALE as int, b, c) < 0 {
        None
    } else {
        let roots = quad_roots(SCALE as int, b, c);
        if 0 < roots.0 && roots.0 < roots.1 {
            Some(sphere_collision(s, r, roots.0))
        } else if 0 < roots.1 {
            Some(sphere_collision(s, r, roots.1))
        } else {
            None
        }
    }
}

impl Sphere {
    /// The collision for a hit of this sphere at the given distance.
    fn make_collision(&self, ray: &Ray, distance: i64) -> (r: Collision)
        ensures
            r@ == sphere_collision(self@, ray@, distance as int),
    {
        let position: Vec3 = ray.start.add(&ray.dir.scale(distance));
        let off: Vec3 = position.sub(&self.center);
        let q: i64 = off.dot(&off);
        let norm: Vec3 = if q > 0 {
            off.unit()
        } else {
            off
        };
        Collision { distance, color: self.color.clone(), position, norm }
    }

    /// Where, if at all, a ray first hits this sphere.
    pub fn distance(&self, ray: &Ray) -> (r: Option<Collision>)
        ensures
            r is Some <==> sphere_hit(self@, ray@) is Some,
            r matches Some(c) ==> sphere_hit(self@, ray@) == Some(c@),
    {
        let offset: Vec3 = self.center.sub(&ray.start);
        let b: i64 = fp_mul(-2 * SCALE, ray.dir.dot(&offset));
        let c: i64 = crate::fixed::fp_sub(
            offset.dot(&offset),
            fp_mul(self.radius, self.radius),
        );
        match solve_quadratic(SCALE, b, c) {
            Some((x, y)) if 0 < x && x < y => Some(self.make_collision(ray, x)),
            Some((x, y)) if 0 < y => Some(self.make_collision(ray, y)),
            _ => None,
        }
    }
}

/// A plane, described by a point on it, its normal, and a surface color.
#[derive(Clone, Debug)]
pub struct Plane {
    pub point: Vec3,
    pub norm: Vec3,
    pub color: Color,
}

/// The mathematical view of a `Plane`.
pub ghost struct PlaneV {
    pub point: V3,
    pub norm: V3,
    pub color: C3,
}

impl View for Plane {
    type V = PlaneV;

    open spec fn view(&self) -> PlaneV {
        PlaneV { point: self.point@, norm: self.norm@, color: self.color@ }
    }
}

/// Where, if at all, a ray hits a plane: a hit needs a non-zero
/// denominator (a ray parallel to the plane never hits) and a strictly
/// positive distance. The reported normal faces against the incoming ray.
pub open spec fn plane_hit(p: PlaneV, r: RayV) -> Option<Hit> {
    let height = v3_dot(v3_sub(p.point, r.start), p.norm);
    let denom = v3_dot(r.dir, p.norm);
    if denom == 0 {
        None
    } else {
        let distance = div_fp(height, denom);
        if distance > 0 {
            Some(
                Hit {
                    distance,
                    color: p.color,
                    position: v3_add(r.start, v3_scale(r.dir, distance)),
                    norm: if height > 0 {
                        v3_scale(p.norm, -(SCALE as int))
                    } else {
                        v3_scale(p.norm, SCALE as int)
                    },
                },
            )
        } else {
            None
        }
    }
}

impl Plane {
    /// Where, if at all, a ray hits this plane. A ray parallel to the
    /// plane yields no intersection, whatever its origin.
    pub fn distance(&self, ray: &Ray) -> (r: Option<Collision>)
        ensures
            r is Some <==> plane_hit(self@, ray@) is Some,
            r matches Some(c) ==> plane_hit(self@, ray@) == Some(c@),
            v3_dot(ray.dir@, self.norm@) == 0 ==> r is None,
    {
        let height: i64 = self.point.sub(&ray.start).dot(&self.norm);
        let denom: i64 = ray.dir.dot(&self.norm);
        if denom == 0 {
            None
        } else {
            let distance: i64 = crate::fixed::fp_div(height, denom);
            if distance > 0 {
                let flipped: Vec3 = if height > 0 {
                    self.norm.scale(-SCALE)
                } else {
                    self.norm.scale(SCALE)
                };
                Some(
                    Collision {
                        distance,
                        norm: flipped,
                        position: ray.start.add(&ray.dir.scale(distance)),
                        color: self.color.clone(),
                    },
                )
            } else {
                None
            }
        }
    }
}

/// A geometric primitive: the closed set of shapes a scene can hold,
/// dispatched where intersection is asked for.
#[derive(Clone, Debug)]
pub enum Object {
    Sphere(Sphere),
    Plane(Plane),
}

/// Where, if at all, a ray first hits an object.
pub open spec fn object_hit(o: Object, r: RayV) -> Option<Hit> {
    match o {
        Object::Sphere(s) => sphere_hit(s@, r),
        Object::Plane(p) => plane_hit(p@, r),
    }
}

/// The object's surface color.
pub open spec fn object_color(o: Object) -> C3 {
    match o {
        Object::Sphere(s) => s.color@,
        Object::Plane(p) => p.color@,
    }
}

impl Object {
    /// Where, if at all, a ray first hits this object.
    pub fn distance(&self, ray: &Ray) -> (r: Option<Collision>)
        ensures
            r is Some <==> object_hit(*self, ray@) is Some,
            r matches Some(c) ==> object_hit(*self, ray@) == Some(c@),
    {
        match self {
            Object::Sphere(s) => s.distance(ray),
            Object::Plane(p) => p.distance(ray),
        }
    }
}

/// A hit reports the color of the object that was hit.
pub proof fn lemma_object_hit_color(o: Object, r: RayV)
    ensures
        object_hit(o, r) matches Some(h) ==> h.color == object_color(o),
{
}

/// Every reported hit lies strictly in front of the ray's origin: an
/// object entirely behind the ray yields no hit at all.
pub proof fn lemma_object_hit_distance_positive(o: Object, r: RayV)
    ensures
        object_hit(o, r) matches Some(h) ==> h.distance > 0,
{
}

} // verus!
