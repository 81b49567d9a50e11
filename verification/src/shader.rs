//! Per-triangle shading: a colour for each barycentric weight triple.

use crate::color::Color;
use crate::fixed::div_floor;
use crate::fixed::floor_quot;
use crate::fixed::saturate;
use crate::fixed::wide_product;
use crate::fixed::Fixed;
use vstd::prelude::*;

verus! {

/// A pure function from the barycentric weights of a point to its colour.
pub trait Shader {
    /// The colour at the point with weights `bary`.
    spec fn shade_spec(&self, bary: (Fixed, Fixed, Fixed)) -> Color;

    /// The colour at the point with weights `bary`.
    fn shade(&self, bary: (Fixed, Fixed, Fixed)) -> (c: Color)
        ensures
            c == self.shade_spec(bary),
    ;
}

/// Shades every point with one constant colour.
#[derive(Clone, Copy, Debug)]
pub struct SolidColorShader(pub Color);

/// Blends the colours of the three vertices linearly.
#[derive(Clone, Copy, Debug)]
pub struct TriColorShader(pub Color, pub Color, pub Color);

/// One channel of the blend: `a * wa + b * wb + c * wc`, summed exactly and
/// then rounded toward minus infinity and saturated.
pub open spec fn blend_channel(a: Fixed, b: Fixed, c: Fixed, bary: (Fixed, Fixed, Fixed)) -> Fixed {
    Fixed::of(floor_quot(a@ * bary.0@ + b@ * bary.1@ + c@ * bary.2@, 65536))
}

/// One channel of the blend.
fn blend(a: Fixed, b: Fixed, c: Fixed, bary: (Fixed, Fixed, Fixed)) -> (r: Fixed)
    ensures
        r == blend_channel(a, b, c, bary),
{
    let sum: i128 = wide_product(a.raw, bary.0.raw) + wide_product(b.raw, bary.1.raw)
        + wide_product(c.raw, bary.2.raw);
    Fixed::from_raw(saturate(div_floor(sum, 65536)))
}

impl Shader for SolidColorShader {
    open spec fn shade_spec(&self, bary: (Fixed, Fixed, Fixed)) -> Color {
        self.0
    }

    fn shade(&self, bary: (Fixed, Fixed, Fixed)) -> (c: Color) {
        self.0
    }
}

impl Shader for TriColorShader {
    open spec fn shade_spec(&self, bary: (Fixed, Fixed, Fixed)) -> Color {
        Color {
            r: blend_channel(self.0.r, self.1.r, self.2.r, bary),
            g: blend_channel(self.0.g, self.1.g, self.2.g, bary),
            b: blend_channel(self.0.b, self.1.b, self.2.b, bary),
            a: blend_channel(self.0.a, self.1.a, self.2.a, bary),
        }
    }

    fn shade(&self, bary: (Fixed, Fixed, Fixed)) -> (c: Color) {
        Color {
            r: blend(self.0.r, self.1.r, self.2.r, bary),
            g: blend(self.0.g, self.1.g, self.2.g, bary),
            b: blend(self.0.b, self.1.b, self.2.b, bary),
            a: blend(self.0.a, self.1.a, self.2.a, bary),
        }
    }
}

} // verus!
