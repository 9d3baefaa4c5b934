//! Cameras: mapping pixel coordinates to world-space rays.

use vstd::prelude::*;

use crate::angle::{rad_spec, tan_fp, tan_fp_spec, Angle};
use crate::fixed::{div_fp, fp_div, fp_mul, fp_sub, mul_fp, sub_fp, tdiv, SCALE};
use crate::geometry::{Ray, RayV};
use crate::vec3::{
    v3_add, v3_cross, v3_dot, v3_scale, v3_sub, v3_unit, Vec3, V3,
};

verus! {

/// A camera looks at a scene by casting rays through a fixed-size grid of
/// pixels.
pub trait Camera {
    /// The pixel-grid bounds (width, height).
    spec fn bounds_spec(&self) -> (u32, u32);

    /// The ray cast through pixel `(x, y)`.
    spec fn spawn_spec(&self, x: u32, y: u32) -> RayV;

    /// Cast the ray for a pixel. A coordinate outside the bounds is a
    /// caller contract violation.
    fn spawn(&self, x: u32, y: u32) -> (r: Ray)
        requires
            x < self.bounds_spec().0,
            y < self.bounds_spec().1,
        ensures
            r@ == self.spawn_spec(x, y),
    ;

    /// The pixel-grid bounds.
    fn bounds(&self) -> (r: (u32, u32))
        ensures
            r == self.bounds_spec(),
    ;
}

/// A camera with a flat pixel grid which the scene is projected onto.
pub struct FlatCamera {
    pub origin: Vec3,
    pub top_left: Vec3,
    pub x_inc: Vec3,
    pub y_inc: Vec3,
    pub bounds: (u32, u32),
    pub ttl: u32,
}

/// The mathematical view of a `FlatCamera`.
pub ghost struct FlatCameraV {
    pub origin: V3,
    pub top_left: V3,
    pub x_inc: V3,
    pub y_inc: V3,
    pub bounds: (int, int),
    pub ttl: int,
}

impl View for FlatCamera {
    type V = FlatCameraV;

    open spec fn view(&self) -> FlatCameraV {
        FlatCameraV {
            origin: self.origin@,
            top_left: self.top_left@,
            x_inc: self.x_inc@,
            y_inc: self.y_inc@,
            bounds: (self.bounds.0 as int, self.bounds.1 as int),
            ttl: self.ttl as int,
        }
    }
}

/// The screen-up hint with its component along the view direction
/// removed (Gram-Schmidt).
pub open spec fn gram_up(direction: V3, up: V3) -> V3 {
    v3_sub(up, v3_scale(v3_unit(direction), v3_dot(up, v3_unit(direction))))
}

/// The derived camera state: orthonormal-ish basis from direction and up
/// hint, screen width from the field of view, per-pixel increments, and
/// the top-left screen anchor.
pub open spec fn camera_setup(
    origin: V3,
    direction: V3,
    up: V3,
    fov_width: Angle,
    bounds_w: int,
    bounds_h: int,
    ttl: int,
) -> FlatCameraV {
    let forward = v3_unit(direction);
    let screen_up = v3_unit(gram_up(direction, up));
    let screen_right = v3_cross(forward, screen_up);
    let centre = v3_add(origin, forward);
    let screen_w = mul_fp(2 * (SCALE as int), tan_fp_spec(tdiv(rad_spec(fov_width), 2)));
    let pixel_size = div_fp(screen_w, bounds_w * (SCALE as int));
    let x_inc = v3_scale(screen_right, pixel_size);
    let y_inc = v3_scale(screen_up, pixel_size);
    let half_w = sub_fp(tdiv(bounds_w * (SCALE as int), 2), (SCALE as int) / 2);
    let half_h = sub_fp(tdiv(bounds_h * (SCALE as int), 2), (SCALE as int) / 2);
    let top_left = v3_sub(v3_sub(centre, v3_scale(x_inc, half_w)), v3_scale(y_inc, half_h));
    FlatCameraV { origin, top_left, x_inc, y_inc, bounds: (bounds_w, bounds_h), ttl }
}

/// The ray through pixel `(x, y)`: rows are flipped so that row zero is
/// the top of the rendered view.
pub open spec fn flat_spawn(c: FlatCameraV, x: int, y: int) -> RayV {
    let xs = x * (SCALE as int);
    let ys = (c.bounds.1 - y - 1) * (SCALE as int);
    let screen = v3_add(v3_add(c.top_left, v3_scale(c.x_inc, xs)), v3_scale(c.y_inc, ys));
    RayV { start: c.origin, dir: v3_unit(v3_sub(screen, c.origin)), ttl: c.ttl }
}

impl FlatCamera {
    /// Build a camera from its user parameters. The view direction and
    /// the Gram-Schmidt residue of the up hint must have positive squared
    /// norm (a zero direction, or an up hint parallel to the view
    /// direction, is a caller contract violation), the field of view must
    /// not be negative, and the grid must be at least one pixel wide.
    pub fn new(
        origin: &Vec3,
        direction: &Vec3,
        up: &Vec3,
        fov_width: Angle,
        bounds: (u32, u32),
        ttl: u32,
    ) -> (r: FlatCamera)
        requires
            v3_dot(direction@, direction@) > 0,
            v3_dot(gram_up(direction@, up@), gram_up(direction@, up@)) > 0,
            rad_spec(fov_width) >= 0,
            bounds.0 >= 1,
            ttl >= 1,
        ensures
            r@ == camera_setup(
                origin@,
                direction@,
                up@,
                fov_width,
                bounds.0 as int,
                bounds.1 as int,
                ttl as int,
            ),
    {
        // basis vectors
        let forward: Vec3 = direction.unit();
        let screen_up: Vec3 = up.sub(&forward.scale(up.dot(&forward))).unit();
        let screen_right: Vec3 = forward.cross(&screen_up);
        let centre: Vec3 = origin.add(&forward);
        // dimensions
        let half_fov: i64 = fov_width.rad() / 2;
        let screen_w: i64 = fp_mul(2 * SCALE, tan_fp(half_fov));
        let w_fp: i64 = (bounds.0 as i64) * SCALE;
        let h_fp: i64 = (bounds.1 as i64) * SCALE;
        let pixel_size: i64 = fp_div(screen_w, w_fp);
        // results
        let x_inc: Vec3 = screen_right.scale(pixel_size);
        let y_inc: Vec3 = screen_up.scale(pixel_size);
        let half_w: i64 = fp_sub(w_fp / 2, SCALE / 2);
        let half_h: i64 = fp_sub(h_fp / 2, SCALE / 2);
        let top_left: Vec3 = centre.sub(&x_inc.scale(half_w)).sub(&y_inc.scale(half_h));
        FlatCamera { origin: origin.clone(), top_left, x_inc, y_inc, bounds, ttl }
    }
}

impl Camera for FlatCamera {
    open spec fn bounds_spec(&self) -> (u32, u32) {
        self.bounds
    }

    open spec fn spawn_spec(&self, x: u32, y: u32) -> RayV {
        flat_spawn(self@, x as int, y as int)
    }

    fn spawn(&self, x: u32, y: u32) -> (r: Ray) {
        let xs: i64 = (x as i64) * SCALE;
        let ys: i64 = ((self.bounds.1 - y - 1) as i64) * SCALE;
        let screen: Vec3 = self.top_left.add(&self.x_inc.scale(xs)).add(&self.y_inc.scale(ys));
        let d: Vec3 = screen.sub(&self.origin);
        let q: i64 = d.dot(&d);
        let dir: Vec3 = if q > 0 {
            d.unit()
        } else {
            d
        };
        Ray { ttl: self.ttl, start: self.origin.clone(), dir }
    }

    fn bounds(&self) -> (r: (u32, u32)) {
        self.bounds
    }
}

} // verus!
