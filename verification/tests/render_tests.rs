//! Tests for tone mapping, the camera, and whole-frame rendering.

use rustedrays::angle::Angle;
use rustedrays::camera::{Camera, FlatCamera};
use rustedrays::color::Color;
use rustedrays::fixed::SCALE;
use rustedrays::geometry::{Object, Plane, Sphere};
use rustedrays::render::{place_row, render, render_row, render_rows, to_argb, tone_map, TONE_CAP};
use rustedrays::scene::{Light, ObjectList};
use rustedrays::vec3::Vec3;

#[test]
fn tone_map_zero_is_zero() {
    assert_eq!(tone_map(0), 0);
}

#[test]
fn tone_map_is_monotone() {
    let samples = [
        0,
        17,
        SCALE / 16,
        SCALE / 4,
        SCALE / 2,
        SCALE,
        2 * SCALE,
        4 * SCALE,
        16 * SCALE,
        64 * SCALE,
        TONE_CAP - 1,
        TONE_CAP,
        TONE_CAP + 123456,
    ];
    let mut prev: u8 = 0;
    for c in samples {
        let v = tone_map(c);
        assert!(v >= prev, "tone map decreased at input {c}");
        prev = v;
    }
}

#[test]
fn tone_map_saturates_to_full_brightness() {
    assert_eq!(tone_map(TONE_CAP), 255);
    assert_eq!(tone_map(TONE_CAP + 1), 255);
    assert_eq!(tone_map(i64::MAX), 255);
    // a channel of one maps near 255 * (1 - 1/e), about 161
    let v = tone_map(SCALE);
    assert!(155 <= v && v <= 165, "tone_map(1.0) was {v}");
}

#[test]
fn to_argb_is_opaque() {
    let px = to_argb(&Color::black());
    assert_eq!(px, (0, 0, 0, 255));
    let bright = to_argb(&Color::gray(100 * TONE_CAP));
    assert_eq!(bright, (255, 255, 255, 255));
}

fn example_scene() -> ObjectList {
    let s0 = Sphere {
        center: Vec3 { x: 0, y: 50 * SCALE, z: 10 * SCALE },
        radius: 10 * SCALE,
        color: Color::rgb(SCALE, 0, 0),
    };
    let p0 = Plane {
        point: Vec3 { x: 0, y: 0, z: 0 },
        norm: Vec3 { x: 0, y: 0, z: SCALE },
        color: Color::gray(52428),
    };
    let l0 = Light {
        position: Vec3 { x: -100 * SCALE, y: 20 * SCALE, z: 100 * SCALE },
        color: Color::gray(58982),
    };
    let l1 = Light {
        position: Vec3 { x: 100 * SCALE, y: 20 * SCALE, z: 100 * SCALE },
        color: Color::gray(45875),
    };
    ObjectList {
        scene: vec![Object::Sphere(s0), Object::Plane(p0)],
        lights: vec![l0, l1],
        background: Color::black(),
        ambient: Color::gray(6554),
        collision_guard: 1,
    }
}

fn example_camera(width: u32, height: u32) -> FlatCamera {
    FlatCamera::new(
        &Vec3 { x: 0, y: 0, z: 10 * SCALE },
        &Vec3 { x: 0, y: SCALE, z: 0 },
        &Vec3 { x: 0, y: 0, z: SCALE },
        Angle::from_degrees(45 * SCALE),
        (width, height),
        10,
    )
}

#[test]
fn camera_spawn_rays_leave_origin_near_unit() {
    let cam = example_camera(4, 4);
    assert_eq!(cam.bounds(), (4, 4));
    for y in 0..4 {
        for x in 0..4 {
            let ray = cam.spawn(x, y);
            assert_eq!(ray.start, Vec3 { x: 0, y: 0, z: 10 * SCALE });
            assert_eq!(ray.ttl, 10);
            let n = ray.dir.norm();
            assert!((n - SCALE).abs() <= 6, "direction norm {n} for ({x}, {y})");
        }
    }
}

#[test]
fn camera_top_row_looks_upward() {
    // row 0 is the top of the view: its rays point higher than row 3's
    let cam = example_camera(4, 4);
    let top = cam.spawn(1, 0);
    let bottom = cam.spawn(1, 3);
    assert!(top.dir.z > bottom.dir.z);
}

/// Rendering the same scene and camera twice yields byte-identical
/// framebuffers.
#[test]
fn render_is_deterministic() {
    let env = example_scene();
    let cam = example_camera(4, 4);
    let first = render(&env, &cam);
    let second = render(&env, &cam);
    assert_eq!(first, second);
}

/// Assembling rows out of order, as a worker pool of any size may, gives
/// the same bytes as the sequential render.
#[test]
fn row_assembly_order_is_irrelevant() {
    let env = example_scene();
    let cam = example_camera(5, 4);
    let sequential = render(&env, &cam);
    let mut assembled: Vec<u8> = vec![0; sequential.len()];
    // place the rows back to front
    for y in (0..4u32).rev() {
        let row = render_row(&env, &cam, y);
        assert_eq!(row.len(), 4 * 5);
        place_row(&mut assembled, 5, y, &row);
    }
    assert_eq!(assembled, sequential);
}

/// Rendering rows under a shuffled schedule, with one row even repeated,
/// yields the same bytes as the sequential render.
#[test]
fn shuffled_schedule_matches_sequential_render() {
    let env = example_scene();
    let cam = example_camera(6, 5);
    let sequential = render(&env, &cam);
    let schedule: Vec<u32> = vec![3, 0, 4, 1, 2, 1];
    let shuffled = render_rows(&env, &cam, &schedule);
    assert_eq!(shuffled, sequential);
}

/// Every pixel of the example scene resolves to the background, the
/// ground's shaded gray, or the sphere's shaded red. Channels are
/// integers throughout, so no value can be NaN or infinite.
#[test]
fn end_to_end_pixels_are_background_gray_or_red() {
    let env = example_scene();
    let cam = example_camera(4, 4);
    let frame = render(&env, &cam);
    assert_eq!(frame.len(), 4 * 4 * 4);
    let mut saw_red = false;
    let mut saw_gray = false;
    for p in 0..16 {
        let r = frame[4 * p];
        let g = frame[4 * p + 1];
        let b = frame[4 * p + 2];
        let a = frame[4 * p + 3];
        assert_eq!(a, 255);
        // red sphere: green and blue stay zero; gray ground and black
        // background: all channels equal
        assert!(
            (g == 0 && b == 0) || (r == g && g == b),
            "pixel {p} is neither a red nor a gray shade: ({r}, {g}, {b})"
        );
        if r > 0 && g == 0 && b == 0 {
            saw_red = true;
        }
        if r > 0 && r == g && g == b {
            saw_gray = true;
        }
    }
    // the sphere fills the middle of the view and the ground the bottom
    assert!(saw_red, "no pixel hit the sphere");
    assert!(saw_gray, "no pixel hit the lit ground");
}
