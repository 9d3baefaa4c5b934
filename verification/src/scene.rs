//! Scenes: nearest-hit search and direct-light shading.

use vstd::prelude::*;

use crate::color::{
    c3_add, c3_scale, c3_tint, c3_valid, lemma_c3_add_valid, lemma_c3_scale_valid,
    lemma_c3_tint_valid, Color, C3,
};
use crate::geometry::{lemma_object_hit_color, object_color, object_hit, Collision, Hit, Object,
    Ray, RayV};
use crate::vec3::{v3_add, v3_dot, v3_norm, v3_scale, v3_sub, v3_unit, Vec3, V3};

verus! {

/// A point light: a position and a color. No falloff with distance is
/// modeled beyond direction normalization.
#[derive(Clone, Debug)]
pub struct Light {
    pub position: Vec3,
    pub color: Color,
}

/// The mathematical view of a `Light`.
pub ghost struct LightV {
    pub position: V3,
    pub color: C3,
}

impl View for Light {
    type V = LightV;

    open spec fn view(&self) -> LightV {
        LightV { position: self.position@, color: self.color@ }
    }
}

/// Something a ray can be traced through, yielding a color.
pub trait Environment {
    /// The color this environment yields for a ray.
    spec fn trace_spec(&self, ray: RayV) -> C3;

    /// Well-formedness: every color this environment can produce is built
    /// from valid (non-negative) colors.
    spec fn env_wf(&self) -> bool;

    /// Trace a ray through the environment.
    fn trace(&self, ray: Ray) -> (c: Color)
        ensures
            c@ == self.trace_spec(ray@),
            self.env_wf() ==> c3_valid(c@),
    ;
}

/// A solid color background.
pub struct Background {
    pub background: Color,
}

impl Environment for Background {
    open spec fn trace_spec(&self, ray: RayV) -> C3 {
        self.background@
    }

    open spec fn env_wf(&self) -> bool {
        c3_valid(self.background@)
    }

    fn trace(&self, ray: Ray) -> (c: Color) {
        self.background.clone()
    }
}

/// A scene: objects, lights, a background and ambient color, and the
/// epsilon offset that keeps shadow rays from re-hitting their own
/// surface. Built once, read-only while rendering.
pub struct ObjectList {
    pub scene: Vec<Object>,
    pub lights: Vec<Light>,
    pub background: Color,
    pub ambient: Color,
    pub collision_guard: i64,
}

/// Well-formed scene: all colors valid, non-negative epsilon.
pub open spec fn scene_wf(l: ObjectList) -> bool {
    &&& c3_valid(l.background@)
    &&& c3_valid(l.ambient@)
    &&& l.collision_guard >= 0
    &&& forall|i: int| 0 <= i < l.scene@.len() ==> c3_valid(object_color(#[trigger] l.scene@[i]))
    &&& forall|i: int| 0 <= i < l.lights@.len() ==> c3_valid(#[trigger] l.lights@[i].color@)
}

/// Nearest hit among the first `n` objects; a later object replaces the
/// best hit so far only with a strictly smaller distance, so scan order
/// breaks exact ties in favor of the earlier object.
pub open spec fn closest_upto(objs: Seq<Object>, r: RayV, n: int) -> Option<Hit>
    decreases n,
{
    if n <= 0 {
        None
    } else {
        let prev = closest_upto(objs, r, n - 1);
        match object_hit(objs[n - 1], r) {
            Some(h) => match prev {
                Some(p) => if h.distance < p.distance {
                    Some(h)
                } else {
                    Some(p)
                },
                None => Some(h),
            },
            None => prev,
        }
    }
}

/// Nearest hit in the whole scene.
pub open spec fn list_closest(l: ObjectList, r: RayV) -> Option<Hit> {
    closest_upto(l.scene@, r, l.scene@.len() as int)
}

/// The point shading starts from: the hit position pushed off the
/// surface along the normal by the scene's epsilon.
pub open spec fn shade_start(hit: Hit, guard: int) -> V3 {
    v3_add(hit.position, v3_scale(hit.norm, guard))
}

/// The diffuse score a light earns at a hit: the cosine of the angle
/// between the surface normal and the direction toward the light.
pub open spec fn light_score(l: ObjectList, hit: Hit, light: LightV) -> int {
    let to_light = v3_sub(light.position, shade_start(hit, l.collision_guard as int));
    v3_dot(hit.norm, v3_unit(to_light))
}

/// Whether a light adds a diffuse term at a hit: it must lie off the
/// surface point, on the front side, and no object may stand strictly
/// nearer along the shadow ray than the light itself.
pub open spec fn light_contributes(l: ObjectList, hit: Hit, light: LightV) -> bool {
    let start = shade_start(hit, l.collision_guard as int);
    let to_light = v3_sub(light.position, start);
    if v3_dot(to_light, to_light) <= 0 {
        false
    } else if light_score(l, hit, light) <= 0 {
        false
    } else {
        let shadow = RayV { start, dir: v3_unit(to_light), ttl: 1 };
        match closest_upto(l.scene@, shadow, l.scene@.len() as int) {
            Some(sh) => !(sh.distance < v3_norm(to_light)),
            None => true,
        }
    }
}

/// The diffuse term an unoccluded light adds: the surface color tinted by
/// the light's color, scaled by the diffuse score.
pub open spec fn light_term(l: ObjectList, hit: Hit, light: LightV) -> C3 {
    c3_scale(c3_tint(hit.color, light.color), light_score(l, hit, light))
}

/// The shaded color after the first `n` lights: the ambient term plus
/// every contributing light's diffuse term.
pub open spec fn shade_upto(l: ObjectList, hit: Hit, n: int) -> C3
    decreases n,
{
    if n <= 0 {
        c3_tint(hit.color, l.ambient@)
    } else {
        let prev = shade_upto(l, hit, n - 1);
        if light_contributes(l, hit, l.lights@[n - 1]@) {
            c3_add(light_term(l, hit, l.lights@[n - 1]@), prev)
        } else {
            prev
        }
    }
}

/// The shaded color of a hit under all of the scene's lights.
pub open spec fn shade_spec(l: ObjectList, hit: Hit) -> C3 {
    shade_upto(l, hit, l.lights@.len() as int)
}

/// The color a traced ray yields: the shaded nearest hit, or the
/// background where nothing is hit.
pub open spec fn list_trace(l: ObjectList, r: RayV) -> C3 {
    match list_closest(l, r) {
        Some(h) => shade_spec(l, h),
        None => l.background@,
    }
}

/// In a well-formed scene, any nearest hit carries a valid color.
pub proof fn lemma_closest_color_valid(objs: Seq<Object>, r: RayV, n: int)
    requires
        n <= objs.len(),
        forall|i: int| 0 <= i < objs.len() ==> c3_valid(object_color(#[trigger] objs[i])),
    ensures
        closest_upto(objs, r, n) matches Some(h) ==> c3_valid(h.color),
    decreases n,
{
    if n > 0 {
        lemma_closest_color_valid(objs, r, n - 1);
        lemma_object_hit_color(objs[n - 1], r);
    }
}

/// The nearest hit, like every hit, lies strictly in front of the ray's
/// origin.
pub proof fn lemma_closest_distance_positive(objs: Seq<Object>, r: RayV, n: int)
    ensures
        closest_upto(objs, r, n) matches Some(h) ==> h.distance > 0,
    decreases n,
{
    if n > 0 {
        lemma_closest_distance_positive(objs, r, n - 1);
        crate::geometry::lemma_object_hit_distance_positive(objs[n - 1], r);
    }
}

/// In a well-formed scene, shading a hit with a valid color yields a
/// valid color.
pub proof fn lemma_shade_valid(l: ObjectList, hit: Hit, n: int)
    requires
        scene_wf(l),
        c3_valid(hit.color),
        n <= l.lights@.len(),
    ensures
        c3_valid(shade_upto(l, hit, n)),
    decreases n,
{
    lemma_c3_tint_valid(hit.color, l.ambient@);
    if n > 0 {
        lemma_shade_valid(l, hit, n - 1);
        if light_contributes(l, hit, l.lights@[n - 1]@) {
            lemma_c3_tint_valid(hit.color, l.lights@[n - 1].color@);
            lemma_c3_scale_valid(
                c3_tint(hit.color, l.lights@[n - 1].color@),
                light_score(l, hit, l.lights@[n - 1]@),
            );
            lemma_c3_add_valid(light_term(l, hit, l.lights@[n - 1]@), shade_upto(l, hit, n - 1));
        }
    }
}

/// A point whose every light is backfacing or occluded is shaded by the
/// ambient term alone.
pub proof fn lemma_fully_occluded(l: ObjectList, hit: Hit, n: int)
    requires
        n <= l.lights@.len(),
        forall|i: int| 0 <= i < l.lights@.len() ==> !light_contributes(
            l,
            hit,
            (#[trigger] l.lights@[i])@,
        ),
    ensures
        shade_upto(l, hit, n) == c3_tint(hit.color, l.ambient@),
    decreases n,
{
    if n > 0 {
        lemma_fully_occluded(l, hit, n - 1);
    }
}

impl ObjectList {
    /// The nearest hit of a ray against every object in the scene.
    pub fn closest(&self, ray: &Ray) -> (r: Option<Collision>)
        ensures
            r is Some <==> list_closest(*self, ray@) is Some,
            r matches Some(c) ==> list_closest(*self, ray@) == Some(c@),
    {
        let mut best: Option<Collision> = None;
        let mut i: usize = 0;
        while i < self.scene.len()
            invariant
                i <= self.scene.len(),
                best is Some <==> closest_upto(self.scene@, ray@, i as int) is Some,
                best matches Some(c) ==> closest_upto(self.scene@, ray@, i as int) == Some(c@),
            decreases self.scene.len() - i,
        {
            if let Some(c) = self.scene[i].distance(ray) {
                best = match best {
                    Some(b) => if c.distance < b.distance {
                        Some(c)
                    } else {
                        Some(b)
                    },
                    None => Some(c),
                };
            }
            i = i + 1;
        }
        best
    }

    /// The shaded color of a collision: the ambient term plus, for every
    /// light that faces the surface and is not occluded by a nearer
    /// object along its shadow ray, a diffuse term.
    pub fn color(&self, collision: &Collision) -> (r: Color)
        ensures
            r@ == shade_spec(*self, collision@),
            scene_wf(*self) && c3_valid(collision.color@) ==> c3_valid(r@),
    {
        let start: Vec3 = collision.position.add(&collision.norm.scale(self.collision_guard));
        let mut result: Color = collision.color.tint(&self.ambient);
        let mut i: usize = 0;
        while i < self.lights.len()
            invariant
                i <= self.lights.len(),
                result@ == shade_upto(*self, collision@, i as int),
                start@ == shade_start(collision@, self.collision_guard as int),
            decreases self.lights.len() - i,
        {
            let light = &self.lights[i];
            let to_light: Vec3 = light.position.sub(&start);
            let q: i64 = to_light.dot(&to_light);
            // a light at the offset point itself has no direction toward
            // it and adds nothing
            if q > 0 {
                let light_distance: i64 = to_light.norm();
                let light_direction: Vec3 = to_light.unit();
                let diffuse_score: i64 = collision.norm.dot(&light_direction);
                if 0 < diffuse_score {
                    let shadow = Ray { start: start.clone(), dir: light_direction, ttl: 1 };
                    let occluded: bool = match self.closest(&shadow) {
                        Some(sh) => sh.distance < light_distance,
                        None => false,
                    };
                    if !occluded {
                        result = collision.color.tint(&light.color).scale(diffuse_score).add(
                            &result,
                        );
                    }
                }
            }
            i = i + 1;
        }
        proof {
            if scene_wf(*self) && c3_valid(collision.color@) {
                lemma_shade_valid(*self, collision@, self.lights@.len() as int);
            }
        }
        result
    }
}

impl Environment for ObjectList {
    open spec fn trace_spec(&self, ray: RayV) -> C3 {
        list_trace(*self, ray)
    }

    open spec fn env_wf(&self) -> bool {
        scene_wf(*self)
    }

    fn trace(&self, ray: Ray) -> (c: Color) {
        proof {
            if scene_wf(*self) {
                lemma_closest_color_valid(self.scene@, ray@, self.scene@.len() as int);
            }
        }
        match self.closest(&ray) {
            Some(collision) => self.color(&collision),
            None => self.background.clone(),
        }
    }
}

} // verus!
