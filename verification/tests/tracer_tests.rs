//! Tests for intersection and shading.

use rustedrays::color::Color;
use rustedrays::fixed::SCALE;
use rustedrays::geometry::{Object, Plane, Ray, Sphere};
use rustedrays::scene::{Background, Environment, Light, ObjectList};
use rustedrays::vec3::Vec3;

fn zero() -> Vec3 {
    Vec3 { x: 0, y: 0, z: 0 }
}

#[test]
fn ray_new_stores_fields() {
    let dir = Vec3 { x: 0, y: 0, z: SCALE };
    let r = Ray::new(zero(), dir.clone(), 3);
    assert_eq!(r.start, zero());
    assert_eq!(r.dir, dir);
    assert_eq!(r.ttl, 3);
}

#[test]
fn sphere_axial_hit_exact() {
    // sphere at (0,0,5) radius 1, ray from the origin along +z
    let s = Sphere {
        center: Vec3 { x: 0, y: 0, z: 5 * SCALE },
        radius: SCALE,
        color: Color::red(),
    };
    let ray = Ray::new(zero(), Vec3 { x: 0, y: 0, z: SCALE }, 1);
    let c = s.distance(&ray).expect("axial ray must hit the sphere");
    assert_eq!(c.distance, 4 * SCALE);
    assert_eq!(c.position, Vec3 { x: 0, y: 0, z: 4 * SCALE });
    assert_eq!(c.norm, Vec3 { x: 0, y: 0, z: -SCALE });
    assert_eq!(c.color, Color::red());
}

#[test]
fn sphere_behind_ray_misses() {
    let s = Sphere {
        center: Vec3 { x: 0, y: 0, z: -5 * SCALE },
        radius: SCALE,
        color: Color::red(),
    };
    let ray = Ray::new(zero(), Vec3 { x: 0, y: 0, z: SCALE }, 1);
    assert!(s.distance(&ray).is_none());
}

#[test]
fn ray_inside_sphere_hits_far_side() {
    let s = Sphere {
        center: zero(),
        radius: 2 * SCALE,
        color: Color::white(),
    };
    let ray = Ray::new(zero(), Vec3 { x: 0, y: 0, z: SCALE }, 1);
    let c = s.distance(&ray).expect("ray from the center must exit the sphere");
    assert_eq!(c.distance, 2 * SCALE);
}

#[test]
fn plane_parallel_ray_misses() {
    let p = Plane {
        point: zero(),
        norm: Vec3 { x: 0, y: 0, z: SCALE },
        color: Color::white(),
    };
    // direction in the plane: parallel, no hit whatever the origin
    let dir = Vec3 { x: SCALE, y: 0, z: 0 };
    for start in [
        zero(),
        Vec3 { x: 0, y: 0, z: 7 * SCALE },
        Vec3 { x: -3 * SCALE, y: 2 * SCALE, z: -5 * SCALE },
    ] {
        let ray = Ray::new(start, dir.clone(), 1);
        assert!(p.distance(&ray).is_none());
    }
}

#[test]
fn plane_hit_flips_normal_toward_ray() {
    let p = Plane {
        point: zero(),
        norm: Vec3 { x: 0, y: 0, z: SCALE },
        color: Color::white(),
    };
    // from above, looking down: reported normal points up
    let from_above = Ray::new(
        Vec3 { x: 0, y: 0, z: 3 * SCALE },
        Vec3 { x: 0, y: 0, z: -SCALE },
        1,
    );
    let c = p.distance(&from_above).expect("downward ray must hit the ground");
    assert_eq!(c.distance, 3 * SCALE);
    assert_eq!(c.norm, Vec3 { x: 0, y: 0, z: SCALE });
    // from below, looking up: reported normal points down
    let from_below = Ray::new(
        Vec3 { x: 0, y: 0, z: -3 * SCALE },
        Vec3 { x: 0, y: 0, z: SCALE },
        1,
    );
    let c2 = p.distance(&from_below).expect("upward ray must hit the ground");
    assert_eq!(c2.norm, Vec3 { x: 0, y: 0, z: -SCALE });
}

#[test]
fn background_returns_its_color() {
    let bg = Background { background: Color::rgb(1, 2, 3) };
    let ray = Ray::new(zero(), Vec3 { x: 0, y: 0, z: SCALE }, 1);
    assert_eq!(bg.trace(ray), Color::rgb(1, 2, 3));
}

#[test]
fn empty_scene_traces_to_background() {
    let env = ObjectList {
        scene: vec![],
        lights: vec![],
        background: Color::rgb(10, 20, 30),
        ambient: Color::gray(6554),
        collision_guard: 1,
    };
    let ray = Ray::new(zero(), Vec3 { x: 0, y: 0, z: SCALE }, 1);
    assert_eq!(env.trace(ray), Color::rgb(10, 20, 30));
}

#[test]
fn closest_picks_nearer_object() {
    let near = Sphere {
        center: Vec3 { x: 0, y: 0, z: 3 * SCALE },
        radius: SCALE,
        color: Color::red(),
    };
    let far = Sphere {
        center: Vec3 { x: 0, y: 0, z: 9 * SCALE },
        radius: SCALE,
        color: Color::blue(),
    };
    let env = ObjectList {
        scene: vec![Object::Sphere(far), Object::Sphere(near)],
        lights: vec![],
        background: Color::black(),
        ambient: Color::gray(6554),
        collision_guard: 1,
    };
    let ray = Ray::new(zero(), Vec3 { x: 0, y: 0, z: SCALE }, 1);
    let c = env.closest(&ray).expect("both spheres lie on the ray");
    assert_eq!(c.distance, 2 * SCALE);
    assert_eq!(c.color, Color::red());
}

/// A light fully occluded by an opaque sphere directly between the
/// shaded point and the light adds nothing: the color is the ambient
/// term alone.
#[test]
fn occluded_light_leaves_ambient_only() {
    let ground_color = Color::gray(52428);
    let ambient = Color::gray(6554);
    let blocker = Sphere {
        center: Vec3 { x: 0, y: 0, z: 5 * SCALE },
        radius: SCALE,
        color: Color::blue(),
    };
    let ground = Plane {
        point: zero(),
        norm: Vec3 { x: 0, y: 0, z: SCALE },
        color: ground_color.clone(),
    };
    let light = Light {
        position: Vec3 { x: 0, y: 0, z: 10 * SCALE },
        color: Color::white(),
    };
    let make_env = |with_blocker: bool| ObjectList {
        scene: if with_blocker {
            vec![Object::Plane(ground.clone()), Object::Sphere(blocker.clone())]
        } else {
            vec![Object::Plane(ground.clone())]
        },
        lights: vec![Light { position: light.position.clone(), color: light.color.clone() }],
        background: Color::black(),
        ambient: ambient.clone(),
        collision_guard: 1,
    };
    // a diagonal ray that hits the ground at the origin, under the blocker
    let start = Vec3 { x: 4 * SCALE, y: 0, z: 4 * SCALE };
    let dir = Vec3 { x: -4 * SCALE, y: 0, z: -4 * SCALE }.unit();
    let shaded = make_env(true).trace(Ray::new(start.clone(), dir.clone(), 1));
    assert_eq!(shaded, ground_color.tint(&ambient));
    // without the blocker the same light adds a diffuse term
    let lit = make_env(false).trace(Ray::new(start, dir, 1));
    assert_ne!(lit, ground_color.tint(&ambient));
    assert!(lit.red > shaded.red);
}

#[test]
fn backfacing_light_adds_nothing() {
    let ground_color = Color::gray(52428);
    let ambient = Color::gray(6554);
    let env = ObjectList {
        scene: vec![Object::Plane(Plane {
            point: zero(),
            norm: Vec3 { x: 0, y: 0, z: SCALE },
            color: ground_color.clone(),
        })],
        // the light sits below the ground: on the far side of the surface
        lights: vec![Light {
            position: Vec3 { x: 0, y: 0, z: -10 * SCALE },
            color: Color::white(),
        }],
        background: Color::black(),
        ambient: ambient.clone(),
        collision_guard: 1,
    };
    let ray = Ray::new(
        Vec3 { x: 0, y: 0, z: 5 * SCALE },
        Vec3 { x: 0, y: 0, z: -SCALE },
        1,
    );
    assert_eq!(env.trace(ray), ground_color.tint(&ambient));
}
