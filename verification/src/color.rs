//! Colors with unbounded non-negative fixed-point channels.

use vstd::prelude::*;

use crate::fixed::{add_fp, fp_add, fp_mul, lemma_mul_fp_nonneg, mul_fp, SCALE};

verus! {

/// A color with red, green and blue channels. Channels are fixed-point
/// values, non-negative in every well-formed color, and are not clamped:
/// sums over several lights may exceed one until tone mapping.
#[derive(Clone, Copy, Debug, PartialEq, Eq, Structural)]
pub struct Color {
    pub red: i64,
    pub green: i64,
    pub blue: i64,
}

/// The mathematical view of a `Color`.
pub ghost struct C3 {
    pub red: int,
    pub green: int,
    pub blue: int,
}

impl View for Color {
    type V = C3;

    open spec fn view(&self) -> C3 {
        C3 { red: self.red as int, green: self.green as int, blue: self.blue as int }
    }
}

/// All channels non-negative.
pub open spec fn c3_valid(c: C3) -> bool {
    c.red >= 0 && c.green >= 0 && c.blue >= 0
}

/// Channelwise sum.
pub open spec fn c3_add(a: C3, b: C3) -> C3 {
    C3 { red: add_fp(a.red, b.red), green: add_fp(a.green, b.green), blue: add_fp(a.blue, b.blue) }
}

/// Uniform scaling of all channels.
pub open spec fn c3_scale(a: C3, t: int) -> C3 {
    C3 { red: mul_fp(a.red, t), green: mul_fp(a.green, t), blue: mul_fp(a.blue, t) }
}

/// Channelwise product (tinting).
pub open spec fn c3_tint(a: C3, b: C3) -> C3 {
    C3 { red: mul_fp(a.red, b.red), green: mul_fp(a.green, b.green), blue: mul_fp(a.blue, b.blue) }
}

/// Sums of valid colors are valid.
pub proof fn lemma_c3_add_valid(a: C3, b: C3)
    requires
        c3_valid(a),
        c3_valid(b),
    ensures
        c3_valid(c3_add(a, b)),
{
}

/// Scaling a valid color by a non-negative factor keeps it valid.
pub proof fn lemma_c3_scale_valid(a: C3, t: int)
    requires
        c3_valid(a),
        t >= 0,
    ensures
        c3_valid(c3_scale(a, t)),
{
    lemma_mul_fp_nonneg(a.red, t);
    lemma_mul_fp_nonneg(a.green, t);
    lemma_mul_fp_nonneg(a.blue, t);
}

/// Tints of valid colors are valid.
pub proof fn lemma_c3_tint_valid(a: C3, b: C3)
    requires
        c3_valid(a),
        c3_valid(b),
    ensures
        c3_valid(c3_tint(a, b)),
{
    lemma_mul_fp_nonneg(a.red, b.red);
    lemma_mul_fp_nonneg(a.green, b.green);
    lemma_mul_fp_nonneg(a.blue, b.blue);
}

impl Color {
    /// Pure red.
    pub fn red() -> (r: Color)
        ensures
            r@ == (C3 { red: SCALE as int, green: 0, blue: 0 }),
    {
        Color::rgb(SCALE, 0, 0)
    }

    /// Pure green.
    pub fn green() -> (r: Color)
        ensures
            r@ == (C3 { red: 0, green: SCALE as int, blue: 0 }),
    {
        Color::rgb(0, SCALE, 0)
    }

    /// Pure blue.
    pub fn blue() -> (r: Color)
        ensures
            r@ == (C3 { red: 0, green: 0, blue: SCALE as int }),
    {
        Color::rgb(0, 0, SCALE)
    }

    /// Black.
    pub fn black() -> (r: Color)
        ensures
            r@ == (C3 { red: 0, green: 0, blue: 0 }),
    {
        Color::rgb(0, 0, 0)
    }

    /// White.
    pub fn white() -> (r: Color)
        ensures
            r@ == (C3 { red: SCALE as int, green: SCALE as int, blue: SCALE as int }),
    {
        Color::rgb(SCALE, SCALE, SCALE)
    }

    /// A gray of the given intensity.
    pub fn gray(i: i64) -> (r: Color)
        ensures
            r@ == (C3 { red: i as int, green: i as int, blue: i as int }),
    {
        Color::rgb(i, i, i)
    }

    /// A color from its three channels.
    pub fn rgb(r: i64, g: i64, b: i64) -> (c: Color)
        ensures
            c@ == (C3 { red: r as int, green: g as int, blue: b as int }),
    {
        Color { red: r, green: g, blue: b }
    }

    /// Channelwise sum.
    pub fn add(&self, x: &Color) -> (r: Color)
        ensures
            r@ == c3_add(self@, x@),
    {
        Color {
            red: fp_add(self.red, x.red),
            green: fp_add(self.green, x.green),
            blue: fp_add(self.blue, x.blue),
        }
    }

    /// Uniform scaling of all channels.
    pub fn scale(&self, t: i64) -> (r: Color)
        ensures
            r@ == c3_scale(self@, t as int),
    {
        Color {
            red: fp_mul(self.red, t),
            green: fp_mul(self.green, t),
            blue: fp_mul(self.blue, t),
        }
    }

    /// Channelwise product.
    pub fn tint(&self, t: &Color) -> (r: Color)
        ensures
            r@ == c3_tint(self@, t@),
    {
        Color {
            red: fp_mul(self.red, t.red),
            green: fp_mul(self.green, t.green),
            blue: fp_mul(self.blue, t.blue),
        }
    }
}

} // verus!
