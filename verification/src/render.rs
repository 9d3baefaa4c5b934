//! Tone mapping, and rendering a camera's view of a scene into a flat
//! RGBA framebuffer.

use vstd::prelude::*;

use crate::color::{c3_valid, Color, C3};
use crate::camera::Camera;
use crate::fixed::{lemma_mul_fp_nonneg, lemma_tdiv_mono, mul_fp, tdiv, SCALE};
use crate::scene::Environment;

verus! {

/// Raw value from which tone mapping saturates at full brightness:
/// 256 in fixed point.
pub const TONE_CAP: i64 = 16777216;

/// `n`-fold iterated fixed-point squaring.
pub open spec fn sq_iter(x: int, n: nat) -> int
    decreases n,
{
    if n == 0 {
        x
    } else {
        sq_iter(mul_fp(x, x), (n - 1) as nat)
    }
}

/// Fixed-point approximation of `e^(-c)` for `c >= 0`: the base
/// `1 - c/256` (clamped to zero) squared eight times, computing
/// `(1 - c/256)^256`.
pub open spec fn expn_fp(c: int) -> int {
    let t = tdiv(c, 256);
    let base = if t >= SCALE as int {
        0
    } else {
        (SCALE as int) - t
    };
    sq_iter(base, 8)
}

/// Tone mapping: `255 * (1 - e^(-c))`, truncated to a byte. Monotone in
/// the input, zero at zero, and full brightness from `TONE_CAP` up.
pub open spec fn tone_spec(c: int) -> int {
    tdiv(255 * ((SCALE as int) - expn_fp(c)), SCALE as int)
}

/// Literal products and quotients the tone-mapping proofs lean on.
proof fn lemma_tone_consts()
    ensures
        65536int * 65536 == 4294967296int,
        255int * 65536 == 16711680int,
        4294967296int / 65536int == 65536int,
        16711680int / 65536int == 255int,
        16777216int / 256int == 65536int,
{
    assert(65536int * 65536 == 4294967296int) by (nonlinear_arith);
    assert(255int * 65536 == 16711680int) by (nonlinear_arith);
    assert(65536int * 256 == 16777216int) by (nonlinear_arith);
    vstd::arithmetic::div_mod::lemma_fundamental_div_mod_converse(4294967296int, 65536, 65536, 0);
    vstd::arithmetic::div_mod::lemma_fundamental_div_mod_converse(16711680int, 65536, 255, 0);
    vstd::arithmetic::div_mod::lemma_fundamental_div_mod_converse(16777216int, 256, 65536, 0);
}

/// One squaring step keeps the unit interval and is monotone on it.
proof fn lemma_sq_step(x1: int, x2: int)
    requires
        0 <= x1 <= x2 <= SCALE as int,
    ensures
        0 <= mul_fp(x1, x1) <= mul_fp(x2, x2) <= SCALE as int,
{
    lemma_mul_fp_nonneg(x1, x1);
    assert(x1 * x1 <= x2 * x2) by (nonlinear_arith)
        requires
            0 <= x1 <= x2,
    ;
    assert(x2 * x2 <= 65536 * 65536) by (nonlinear_arith)
        requires
            0 <= x2 <= 65536,
    ;
    lemma_tdiv_mono(x1 * x1, x2 * x2, SCALE as int);
    lemma_tdiv_mono(x2 * x2, 65536int * 65536, SCALE as int);
    lemma_tone_consts();
    assert(tdiv(4294967296int, 65536int) == 65536int);
}

/// Iterated squaring keeps the unit interval and is monotone on it.
proof fn lemma_sq_iter_mono(x1: int, x2: int, n: nat)
    requires
        0 <= x1 <= x2 <= SCALE as int,
    ensures
        0 <= sq_iter(x1, n) <= sq_iter(x2, n) <= SCALE as int,
    decreases n,
{
    if n > 0 {
        lemma_sq_step(x1, x2);
        lemma_sq_iter_mono(mul_fp(x1, x1), mul_fp(x2, x2), (n - 1) as nat);
    }
}

/// The exponential approximation stays in the unit interval and does not
/// increase in its argument.
pub proof fn lemma_expn_fp_range(c1: int, c2: int)
    requires
        0 <= c1 <= c2,
    ensures
        0 <= expn_fp(c2) <= expn_fp(c1) <= SCALE as int,
{
    lemma_tdiv_mono(c1, c2, 256);
    let t1 = tdiv(c1, 256);
    let t2 = tdiv(c2, 256);
    vstd::arithmetic::div_mod::lemma_div_is_ordered(0, c1, 256);
    let b1 = if t1 >= SCALE as int {
        0
    } else {
        (SCALE as int) - t1
    };
    let b2 = if t2 >= SCALE as int {
        0
    } else {
        (SCALE as int) - t2
    };
    lemma_sq_iter_mono(b2, b1, 8);
}

/// Tone mapping never decreases when its input grows.
pub proof fn lemma_tone_map_monotone(c1: int, c2: int)
    requires
        0 <= c1 <= c2,
    ensures
        0 <= tone_spec(c1) <= tone_spec(c2) <= 255,
{
    lemma_expn_fp_range(c1, c2);
    lemma_tdiv_mono(0, 255 * ((SCALE as int) - expn_fp(c1)), SCALE as int);
    lemma_tdiv_mono(
        255 * ((SCALE as int) - expn_fp(c1)),
        255 * ((SCALE as int) - expn_fp(c2)),
        SCALE as int,
    );
    lemma_tdiv_mono(255 * ((SCALE as int) - expn_fp(c2)), 255 * (SCALE as int), SCALE as int);
    lemma_tone_consts();
    assert(tdiv(16711680int, 65536int) == 255int);
}

/// Iterated squaring fixes one.
proof fn lemma_sq_iter_one(n: nat)
    ensures
        sq_iter(SCALE as int, n) == SCALE as int,
    decreases n,
{
    if n > 0 {
        lemma_tone_consts();
        assert(mul_fp(SCALE as int, SCALE as int) == SCALE as int);
        lemma_sq_iter_one((n - 1) as nat);
    }
}

/// Iterated squaring fixes zero.
proof fn lemma_sq_iter_zero(n: nat)
    ensures
        sq_iter(0, n) == 0,
    decreases n,
{
    if n > 0 {
        lemma_sq_iter_zero((n - 1) as nat);
    }
}

/// Tone mapping sends zero to zero.
pub proof fn lemma_tone_map_zero()
    ensures
        tone_spec(0) == 0,
{
    lemma_sq_iter_one(8);
}

/// Tone mapping reaches full brightness at `TONE_CAP` and stays there:
/// the bounded-display image of an unboundedly bright channel.
pub proof fn lemma_tone_map_saturates(c: int)
    requires
        c >= TONE_CAP as int,
    ensures
        tone_spec(c) == 255,
{
    vstd::arithmetic::div_mod::lemma_div_is_ordered(TONE_CAP as int, c, 256);
    lemma_sq_iter_zero(8);
    lemma_tone_consts();
    assert(tdiv(16711680int, 65536int) == 255int);
}

/// Map one unbounded non-negative channel to a display byte.
pub fn tone_map(c: i64) -> (r: u8)
    requires
        c >= 0,
    ensures
        r as int == tone_spec(c as int),
{
    let t: i64 = c / 256;
    let mut x: i64 = if t >= SCALE {
        0
    } else {
        SCALE - t
    };
    let mut k: u32 = 0;
    while k < 8
        invariant
            k <= 8,
            0 <= x <= SCALE,
            sq_iter(x as int, (8 - k) as nat) == expn_fp(c as int),
        decreases 8 - k,
    {
        proof {
            lemma_sq_step(x as int, x as int);
        }
        x = crate::fixed::fp_mul(x, x);
        k = k + 1;
    }
    let v: i64 = (255 * (SCALE - x)) / SCALE;
    proof {
        lemma_tdiv_mono(0, 255 * ((SCALE as int) - x as int), SCALE as int);
        lemma_tdiv_mono(255 * ((SCALE as int) - x as int), 255 * (SCALE as int), SCALE as int);
        lemma_tone_consts();
        assert(tdiv(16711680int, 65536int) == 255int);
    }
    v as u8
}

/// The four display bytes of a color: tone-mapped red, green and blue,
/// and a fully opaque alpha channel.
pub fn to_argb(c: &Color) -> (r: (u8, u8, u8, u8))
    requires
        c3_valid(c@),
    ensures
        r.0 as int == tone_spec(c@.red),
        r.1 as int == tone_spec(c@.green),
        r.2 as int == tone_spec(c@.blue),
        r.3 == 255,
{
    (tone_map(c.red), tone_map(c.green), tone_map(c.blue), 255)
}

/// The color of one pixel: trace the camera's ray for it.
pub open spec fn pixel_color<E: Environment, C: Camera>(env: E, cam: C, x: u32, y: u32) -> C3 {
    env.trace_spec(cam.spawn_spec(x, y))
}

/// Channel `k` of a pixel's four display bytes.
pub open spec fn channel_byte(c: C3, k: int) -> u8 {
    if k == 0 {
        tone_spec(c.red) as u8
    } else if k == 1 {
        tone_spec(c.green) as u8
    } else if k == 2 {
        tone_spec(c.blue) as u8
    } else {
        255u8
    }
}

/// The bytes of one rendered image row: four channels per pixel.
pub open spec fn row_spec<E: Environment, C: Camera>(env: E, cam: C, y: u32) -> Seq<u8> {
    Seq::new(
        (4 * cam.bounds_spec().0) as nat,
        |j: int| channel_byte(pixel_color(env, cam, (j / 4) as u32, y), j % 4),
    )
}

/// The bytes of the whole rendered image: row-major, top row first,
/// four channels per pixel.
pub open spec fn frame_spec<E: Environment, C: Camera>(env: E, cam: C) -> Seq<u8> {
    Seq::new(
        (4 * (cam.bounds_spec().0 as int) * (cam.bounds_spec().1 as int)) as nat,
        |i: int| channel_byte(
            pixel_color(
                env,
                cam,
                ((i / 4) % (cam.bounds_spec().0 as int)) as u32,
                ((i / 4) / (cam.bounds_spec().0 as int)) as u32,
            ),
            i % 4,
        ),
    )
}

/// How a byte offset inside a row relates to its offset in the frame.
proof fn lemma_frame_index(w: int, h: int, y: int, j: int)
    requires
        w >= 1,
        0 <= y < h,
        0 <= j < 4 * w,
    ensures
        0 <= 4 * w * y + j < 4 * w * h,
        (4 * w * y + j) / 4 == w * y + j / 4,
        (4 * w * y + j) % 4 == j % 4,
        0 <= j / 4 < w,
        (w * y + j / 4) % w == j / 4,
        (w * y + j / 4) / w == y,
{
    vstd::arithmetic::div_mod::lemma_fundamental_div_mod(j, 4);
    vstd::arithmetic::div_mod::lemma_mod_bound(j, 4);
    vstd::arithmetic::div_mod::lemma_div_is_ordered(0, j, 4);
    assert(j / 4 < w) by {
        if j / 4 >= w {
            assert(j >= 4 * w) by (nonlinear_arith)
                requires
                    j == 4 * (j / 4) + j % 4,
                    j % 4 >= 0,
                    j / 4 >= w,
            ;
        }
    }
    assert(0 <= 4 * w * y + j < 4 * w * h) by (nonlinear_arith)
        requires
            w >= 1,
            0 <= y < h,
            0 <= j < 4 * w,
    ;
    assert(4 * w * y + j == (w * y + j / 4) * 4 + j % 4) by (nonlinear_arith)
        requires
            j == 4 * (j / 4) + j % 4,
    ;
    vstd::arithmetic::div_mod::lemma_fundamental_div_mod_converse(
        4 * w * y + j,
        4,
        w * y + j / 4,
        j % 4,
    );
    assert(w * y + j / 4 == y * w + j / 4) by (nonlinear_arith);
    vstd::arithmetic::div_mod::lemma_fundamental_div_mod_converse(w * y + j / 4, w, y, j / 4);
}

/// Render one image row into a fresh row-local buffer.
pub fn render_row<E: Environment, C: Camera>(env: &E, cam: &C, y: u32) -> (row: Vec<u8>)
    requires
        env.env_wf(),
        y < cam.bounds_spec().1,
        4 * (cam.bounds_spec().0 as int) <= usize::MAX as int,
    ensures
        row@ == row_spec(*env, *cam, y),
{
    let w: u32 = cam.bounds().0;
    let mut row: Vec<u8> = Vec::new();
    let mut x: u32 = 0;
    while x < w
        invariant
            x <= w,
            w == cam.bounds_spec().0,
            y < cam.bounds_spec().1,
            env.env_wf(),
            4 * (w as int) <= usize::MAX as int,
            row@.len() == 4 * x,
            forall|j: int| 0 <= j < row@.len() ==> row@[j] == row_spec(*env, *cam, y)[j],
        decreases w - x,
    {
        let ray = cam.spawn(x, y);
        let color = env.trace(ray);
        let px = to_argb(&color);
        row.push(px.0);
        row.push(px.1);
        row.push(px.2);
        row.push(px.3);
        proof {
            assert forall|j: int| 4 * x <= j < 4 * x + 4 implies row@[j] == row_spec(
                *env,
                *cam,
                y,
            )[j] by {
                vstd::arithmetic::div_mod::lemma_fundamental_div_mod_converse(
                    j,
                    4,
                    x as int,
                    j - 4 * (x as int),
                );
            }
        }
        x = x + 1;
    }
    proof {
        assert(row@ =~= row_spec(*env, *cam, y));
    }
    row
}

/// Render the whole image row by row into one flat framebuffer.
pub fn render<E: Environment, C: Camera>(env: &E, cam: &C) -> (buf: Vec<u8>)
    requires
        env.env_wf(),
        4 * (cam.bounds_spec().0 as int) * (cam.bounds_spec().1 as int) <= usize::MAX as int,
    ensures
        buf@ == frame_spec(*env, *cam),
{
    let b: (u32, u32) = cam.bounds();
    let w: u32 = b.0;
    let h: u32 = b.1;
    let mut buf: Vec<u8> = Vec::new();
    let mut y: u32 = 0;
    while y < h
        invariant
            y <= h,
            w == cam.bounds_spec().0,
            h == cam.bounds_spec().1,
            env.env_wf(),
            4 * (w as int) * (h as int) <= usize::MAX as int,
            buf@.len() == 4 * (w as int) * (y as int),
            forall|i: int| 0 <= i < buf@.len() ==> buf@[i] == frame_spec(*env, *cam)[i],
        decreases h - y,
    {
        proof {
            assert(4 * (w as int) <= 4 * (w as int) * (h as int)) by (nonlinear_arith)
                requires
                    (h as int) >= 1,
                    (w as int) >= 0,
            ;
        }
        let row = render_row(env, cam, y);
        let mut j: usize = 0;
        while j < row.len()
            invariant
                w == cam.bounds_spec().0,
                h == cam.bounds_spec().1,
                y < h,
                j <= row@.len(),
                row@ == row_spec(*env, *cam, y),
                4 * (w as int) * (h as int) <= usize::MAX as int,
                buf@.len() == 4 * (w as int) * (y as int) + j,
                forall|i: int| 0 <= i < buf@.len() ==> buf@[i] == frame_spec(*env, *cam)[i],
            decreases row.len() - j,
        {
            let v: u8 = row[j];
            buf.push(v);
            proof {
                if w >= 1 {
                    lemma_frame_index(w as int, h as int, y as int, j as int);
                }
            }
            j = j + 1;
        }
        proof {
            assert(4 * (w as int) * ((y as int) + 1) == 4 * (w as int) * (y as int) + 4 * (
            w as int)) by (nonlinear_arith);
        }
        y = y + 1;
    }
    proof {
        assert(buf@ =~= frame_spec(*env, *cam));
    }
    buf
}

/// Copy one finished row into the shared framebuffer at its own byte
/// range, leaving every other byte untouched. Workers for different rows
/// write disjoint ranges.
pub fn place_row(buf: &mut Vec<u8>, width: u32, y: u32, row: &Vec<u8>)
    requires
        row@.len() == 4 * (width as int),
        4 * (width as int) * ((y as int) + 1) <= old(buf)@.len(),
    ensures
        final(buf)@.len() == old(buf)@.len(),
        forall|i: int|
            0 <= i < final(buf)@.len() ==> final(buf)@[i] == (if 4 * (width as int) * (y as int)
                <= i < 4 * (width as int) * ((y as int) + 1) {
                row@[i - 4 * (width as int) * (y as int)]
            } else {
                old(buf)@[i]
            }),
{
    let n: usize = buf.len();
    proof {
        assert(0 <= 4 * (width as int) * (y as int)
            && 4 * (width as int) <= 4 * (width as int) * ((y as int) + 1)
            && 4 * (width as int) * (y as int) + 4 * (width as int) == 4 * (width as int) * ((
        y as int) + 1)) by (nonlinear_arith)
            requires
                (width as int) >= 0,
                (y as int) >= 0,
        ;
    }
    let base: usize = 4 * (width as usize) * (y as usize);
    let mut j: usize = 0;
    while j < row.len()
        invariant
            j <= row@.len(),
            row@.len() == 4 * (width as int),
            base == 4 * (width as int) * (y as int),
            base + row@.len() <= buf@.len(),
            buf@.len() <= usize::MAX as int,
            buf@.len() == old(buf)@.len(),
            forall|i: int|
                0 <= i < buf@.len() ==> buf@[i] == (if base <= i < base + j {
                    row@[i - base]
                } else {
                    old(buf)@[i]
                }),
        decreases row.len() - j,
    {
        let v: u8 = row[j];
        buf[base + j] = v;
        j = j + 1;
    }
}

/// Row `y`'s byte range in the buffer holds exactly row `y`'s rendered
/// bytes.
pub open spec fn row_placed<E: Environment, C: Camera>(
    buf: Seq<u8>,
    env: E,
    cam: C,
    y: u32,
) -> bool {
    buf.subrange(
        4 * (cam.bounds_spec().0 as int) * (y as int),
        4 * (cam.bounds_spec().0 as int) * ((y as int) + 1),
    ) == row_spec(env, cam, y)
}

/// The framebuffer is correct however its rows were assembled: any
/// buffer in which every row's byte range holds that row's rendered
/// bytes equals the whole rendered frame. Workers may therefore finish
/// in any order, and a partition into rows cannot change the image.
pub proof fn lemma_rows_form_frame<E: Environment, C: Camera>(env: E, cam: C, buf: Seq<u8>)
    requires
        cam.bounds_spec().0 >= 1,
        buf.len() == 4 * (cam.bounds_spec().0 as int) * (cam.bounds_spec().1 as int),
        forall|y: u32| y < cam.bounds_spec().1 ==> #[trigger] row_placed(buf, env, cam, y),
    ensures
        buf == frame_spec(env, cam),
{
    let w = cam.bounds_spec().0 as int;
    let h = cam.bounds_spec().1 as int;
    assert forall|i: int| 0 <= i < buf.len() implies buf[i] == frame_spec(env, cam)[i] by {
        vstd::arithmetic::div_mod::lemma_fundamental_div_mod(i, 4 * w);
        vstd::arithmetic::div_mod::lemma_mod_bound(i, 4 * w);
        vstd::arithmetic::div_mod::lemma_div_is_ordered(0, i, 4 * w);
        let yy = i / (4 * w);
        let j = i % (4 * w);
        assert(yy < h) by (nonlinear_arith)
            requires
                i == 4 * w * yy + j,
                0 <= j < 4 * w,
                i < 4 * w * h,
                w >= 1,
        ;
        assert(0 <= 4 * w * yy && 4 * w * (yy + 1) <= 4 * w * h && 4 * w * (yy + 1) == 4 * w
            * yy + 4 * w) by (nonlinear_arith)
            requires
                w >= 1,
                0 <= yy < h,
        ;
        assert(row_placed(buf, env, cam, yy as u32));
        assert(buf.subrange(4 * w * yy, 4 * w * (yy + 1)) == row_spec(env, cam, yy as u32));
        lemma_frame_index(w, h, yy, j);
        assert(buf[i] == buf.subrange(4 * w * yy, 4 * w * (yy + 1))[j]);
    }
    assert(buf =~= frame_spec(env, cam));
}

/// Render the image with the rows taken in a caller-given order, as a
/// worker pool of any size may finish them. The schedule may name a row
/// more than once but must name every row; the resulting framebuffer is
/// the same frame the sequential render produces.
pub fn render_rows<E: Environment, C: Camera>(env: &E, cam: &C, order: &Vec<u32>) -> (buf: Vec<
    u8,
>)
    requires
        env.env_wf(),
        cam.bounds_spec().0 >= 1,
        4 * (cam.bounds_spec().0 as int) * (cam.bounds_spec().1 as int) <= usize::MAX as int,
        forall|t: int| 0 <= t < order@.len() ==> (#[trigger] order@[t]) < cam.bounds_spec().1,
        forall|y: u32| y < cam.bounds_spec().1 ==> #[trigger] order@.contains(y),
    ensures
        buf@ == frame_spec(*env, *cam),
{
    let b: (u32, u32) = cam.bounds();
    let w: u32 = b.0;
    let h: u32 = b.1;
    proof {
        assert((w as int) * (h as int) * 4 == 4 * (w as int) * (h as int)
            && 0 <= (w as int) * (h as int)) by (nonlinear_arith)
            requires
                (w as int) >= 0,
                (h as int) >= 0,
        ;
    }
    let total: usize = (w as usize) * (h as usize) * 4;
    let mut buf: Vec<u8> = Vec::new();
    let mut i: usize = 0;
    while i < total
        invariant
            i <= total,
            buf@.len() == i,
        decreases total - i,
    {
        buf.push(0u8);
        i = i + 1;
    }
    let mut t: usize = 0;
    while t < order.len()
        invariant
            t <= order@.len(),
            w == cam.bounds_spec().0,
            h == cam.bounds_spec().1,
            w >= 1,
            env.env_wf(),
            4 * (w as int) * (h as int) <= usize::MAX as int,
            forall|t2: int| 0 <= t2 < order@.len() ==> (#[trigger] order@[t2]) < h,
            buf@.len() == 4 * (w as int) * (h as int),
            forall|t2: int|
                0 <= t2 < t ==> #[trigger] row_placed(buf@, *env, *cam, order@[t2]),
        decreases order.len() - t,
    {
        let y: u32 = order[t];
        let ghost prior = buf@;
        proof {
            assert(4 * (w as int) <= 4 * (w as int) * (h as int) && 0 <= 4 * (w as int) * (
            y as int) && 4 * (w as int) * ((y as int) + 1) <= 4 * (w as int) * (h as int)
                && 4 * (w as int) * ((y as int) + 1) == 4 * (w as int) * (y as int) + 4 * (
            w as int)) by (nonlinear_arith)
                requires
                    (w as int) >= 1,
                    0 <= (y as int) < (h as int),
            ;
        }
        let row = render_row(env, cam, y);
        place_row(&mut buf, w, y, &row);
        proof {
            let base = 4 * (w as int) * (y as int);
            assert forall|t2: int| 0 <= t2 < t + 1 implies #[trigger] row_placed(
                buf@,
                *env,
                *cam,
                order@[t2],
            ) by {
                let y2 = order@[t2];
                let base2 = 4 * (w as int) * (y2 as int);
                assert(0 <= base2 && base2 + 4 * (w as int) == 4 * (w as int) * ((
                y2 as int) + 1) && base2 + 4 * (w as int) <= 4 * (w as int) * (h as int)) by (
                nonlinear_arith)
                    requires
                        (w as int) >= 1,
                        0 <= (y2 as int) < (h as int),
                        base2 == 4 * (w as int) * (y2 as int),
                ;
                if y2 == y {
                    assert forall|k: int| 0 <= k < 4 * (w as int) implies #[trigger] buf@.subrange(
                        base2,
                        base2 + 4 * (w as int),
                    )[k] == row_spec(*env, *cam, y2)[k] by {
                        assert(buf@[base + k] == row@[k]);
                    }
                    assert(buf@.subrange(base2, base2 + 4 * (w as int)) =~= row_spec(
                        *env,
                        *cam,
                        y2,
                    ));
                } else {
                    assert(row_placed(prior, *env, *cam, y2));
                    assert(base2 + 4 * (w as int) <= base || base + 4 * (w as int) <= base2)
                        by (nonlinear_arith)
                        requires
                            (w as int) >= 1,
                            0 <= (y2 as int) < (h as int),
                            0 <= (y as int) < (h as int),
                            y2 != y,
                            base == 4 * (w as int) * (y as int),
                            base2 == 4 * (w as int) * (y2 as int),
                    ;
                    assert forall|k: int| 0 <= k < 4 * (w as int) implies #[trigger] buf@.subrange(
                        base2,
                        base2 + 4 * (w as int),
                    )[k] == prior.subrange(base2, base2 + 4 * (w as int))[k] by {
                        assert(buf@[base2 + k] == prior[base2 + k]);
                    }
                    assert(buf@.subrange(base2, base2 + 4 * (w as int)) =~= prior.subrange(
                        base2,
                        base2 + 4 * (w as int),
                    ));
                }
            }
        }
        t = t + 1;
    }
    proof {
        assert forall|y: u32| y < cam.bounds_spec().1 implies #[trigger] row_placed(
            buf@,
            *env,
            *cam,
            y,
        ) by {
            assert(order@.contains(y));
            let t0 = choose|t0: int| 0 <= t0 < order@.len() && order@[t0] == y;
            assert(row_placed(buf@, *env, *cam, order@[t0]));
        }
        lemma_rows_form_frame(*env, *cam, buf@);
    }
    buf
}

/// Rendering is deterministic: the frame is a function of the scene and
/// camera alone, so two renders of the same scene and camera yield
/// byte-identical framebuffers.
pub proof fn lemma_render_deterministic<E: Environment, C: Camera>(
    env: E,
    cam: C,
    b1: Seq<u8>,
    b2: Seq<u8>,
)
    requires
        b1 == frame_spec(env, cam),
        b2 == frame_spec(env, cam),
    ensures
        b1 == b2,
{
}

} // verus!
