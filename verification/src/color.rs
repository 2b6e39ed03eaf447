//! Fixed-point colors.

use vstd::prelude::*;
use crate::fixed::{FRAC_ONE, spec_lerp, spec_clamp, lerp_frac, clamp_u32};

verus! {

/// An RGB color; each channel is a fixed-point fraction where `FRAC_ONE`
/// stands for full intensity.
#[derive(Clone, Copy, PartialEq, Eq, Structural, Debug)]
pub struct ColorRgb {
    pub r: u32,
    pub g: u32,
    pub b: u32,
}

/// An RGBA color; each channel is a fixed-point fraction.
#[derive(Clone, Copy, PartialEq, Eq, Structural, Debug)]
pub struct ColorRgba {
    pub r: u32,
    pub g: u32,
    pub b: u32,
    pub a: u32,
}

impl ColorRgb {
    /// Every channel is a valid fraction.
    pub open spec fn valid(&self) -> bool {
        self.r <= FRAC_ONE && self.g <= FRAC_ONE && self.b <= FRAC_ONE
    }

    /// Black.
    pub fn black() -> (r: ColorRgb)
        ensures
            r == (ColorRgb { r: 0, g: 0, b: 0 }),
    {
        ColorRgb { r: 0, g: 0, b: 0 }
    }
}

impl ColorRgba {
    /// Every channel is a valid fraction.
    pub open spec fn valid(&self) -> bool {
        self.r <= FRAC_ONE && self.g <= FRAC_ONE && self.b <= FRAC_ONE && self.a <= FRAC_ONE
    }

    /// Opaque white.
    pub fn white() -> (r: ColorRgba)
        ensures
            r == (ColorRgba { r: FRAC_ONE, g: FRAC_ONE, b: FRAC_ONE, a: FRAC_ONE }),
    {
        ColorRgba { r: FRAC_ONE, g: FRAC_ONE, b: FRAC_ONE, a: FRAC_ONE }
    }
}

/// Channel-wise interpolation between two RGB colors.
pub open spec fn spec_lerp_rgb(a: ColorRgb, b: ColorRgb, t: int) -> ColorRgb {
    ColorRgb {
        r: spec_lerp(a.r as int, b.r as int, t) as u32,
        g: spec_lerp(a.g as int, b.g as int, t) as u32,
        b: spec_lerp(a.b as int, b.b as int, t) as u32,
    }
}

/// Interpolate between two RGB colors by the fraction `t / FRAC_ONE`.
pub fn lerp_rgb(a: ColorRgb, b: ColorRgb, t: u32) -> (r: ColorRgb)
    requires
        t <= FRAC_ONE,
    ensures
        r == spec_lerp_rgb(a, b, t as int),
{
    ColorRgb {
        r: lerp_frac(a.r, b.r, t),
        g: lerp_frac(a.g, b.g, t),
        b: lerp_frac(a.b, b.b, t),
    }
}

/// Channel-wise clamp of an RGB color to valid fractions.
pub open spec fn spec_clamp_rgb(c: ColorRgb) -> ColorRgb {
    ColorRgb {
        r: spec_clamp(c.r as int, 0, FRAC_ONE as int) as u32,
        g: spec_clamp(c.g as int, 0, FRAC_ONE as int) as u32,
        b: spec_clamp(c.b as int, 0, FRAC_ONE as int) as u32,
    }
}

/// Clamp every channel of an RGB color to a valid fraction.
pub fn clamp_rgb(c: ColorRgb) -> (r: ColorRgb)
    ensures
        r == spec_clamp_rgb(c),
        r.valid(),
{
    ColorRgb {
        r: clamp_u32(c.r, 0, FRAC_ONE),
        g: clamp_u32(c.g, 0, FRAC_ONE),
        b: clamp_u32(c.b, 0, FRAC_ONE),
    }
}

} // verus!
