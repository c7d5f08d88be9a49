//! LED colours and the integer HSV-to-RGB conversion used for rainbow
//! patterns.

use vstd::prelude::*;

verus! {

/// An 8-bit-per-channel RGB colour.
#[derive(Debug, Clone, Copy, PartialEq, Eq, Structural)]
pub struct Rgb8 {
    pub r: u8,
    pub g: u8,
    pub b: u8,
}

impl Rgb8 {
    /// The colour with the given channels.
    pub fn new(r: u8, g: u8, b: u8) -> (c: Self)
        ensures
            c == (Rgb8 { r, g, b }),
    {
        Rgb8 { r, g, b }
    }
}

/// The integer HSV-to-RGB conversion: six hue regions of 43 steps each.
pub open spec fn hsv_spec(h: u8, s: u8, v: u8) -> Rgb8 {
    if s == 0 {
        Rgb8 { r: v, g: v, b: v }
    } else {
        let region = h / 43;
        let remainder = (h - region * 43) * 6;
        let p = (v * (255 - s)) / 255;
        let q = (v * (255 - (s * remainder) / 255)) / 255;
        let t = (v * (255 - (s * (255 - remainder)) / 255)) / 255;
        if region == 0 {
            Rgb8 { r: v, g: t as u8, b: p as u8 }
        } else if region == 1 {
            Rgb8 { r: q as u8, g: v, b: p as u8 }
        } else if region == 2 {
            Rgb8 { r: p as u8, g: v, b: t as u8 }
        } else if region == 3 {
            Rgb8 { r: p as u8, g: q as u8, b: v }
        } else if region == 4 {
            Rgb8 { r: t as u8, g: p as u8, b: v }
        } else {
            Rgb8 { r: v, g: p as u8, b: q as u8 }
        }
    }
}

proof fn lemma_scaled_fits(a: int, b: int)
    requires
        0 <= a <= 255,
        0 <= b <= 255,
    ensures
        0 <= (a * b) / 255 <= 255,
        0 <= a * b <= 65025,
{
    assert(0 <= a * b <= 65025) by (nonlinear_arith)
        requires
            0 <= a <= 255,
            0 <= b <= 255,
    ;
}

/// Converts hue, saturation and value to an RGB colour.
pub fn hsv_to_rgb(h: u8, s: u8, v: u8) -> (c: Rgb8)
    ensures
        c == hsv_spec(h, s, v),
{
    if s == 0 {
        return Rgb8::new(v, v, v);
    }
    let region: u8 = h / 43;
    assert(region * 43 <= h) by (nonlinear_arith)
        requires
            region == h / 43,
    ;
    assert(h - region * 43 <= 42) by (nonlinear_arith)
        requires
            region == h / 43,
    ;
    let remainder: u8 = (h - region * 43) * 6;
    proof {
        lemma_scaled_fits(v as int, 255 - s as int);
        lemma_scaled_fits(s as int, remainder as int);
        lemma_scaled_fits(s as int, 255 - remainder as int);
        lemma_scaled_fits(v as int, 255 - (s * remainder) / 255);
        lemma_scaled_fits(v as int, 255 - (s * (255 - remainder)) / 255);
    }
    let p: u16 = (v as u16 * (255 - s as u16)) / 255;
    let q: u16 = (v as u16 * (255 - ((s as u16 * remainder as u16) / 255))) / 255;
    let t: u16 = (v as u16 * (255 - ((s as u16 * (255 - remainder as u16)) / 255))) / 255;
    match region {
        0 => Rgb8::new(v, t as u8, p as u8),
        1 => Rgb8::new(q as u8, v, p as u8),
        2 => Rgb8::new(p as u8, v, t as u8),
        3 => Rgb8::new(p as u8, q as u8, v),
        4 => Rgb8::new(t as u8, p as u8, v),
        _ => Rgb8::new(v, p as u8, q as u8),
    }
}

} // verus!
