//! A perspective camera: projection to normalized device coordinates and the
//! containment test on them.

use crate::fixed::div_floor;
use crate::fixed::floor_quot;
use crate::fixed::saturate;
use crate::fixed::wide_product;
use crate::fixed::Fixed;
use crate::geometry::Triangle;
use crate::linalg::Vector;
use vstd::prelude::*;

verus! {

/// A perspective camera.
///
/// The field of view is held as the tangent of half the horizontal angle.
#[derive(Clone, Copy, Debug)]
pub struct Camera {
    pub pos: Vector,
    pub rot: Vector,
    /// The near clipping distance.
    pub z_near: Fixed,
    /// The far clipping distance.
    pub z_far: Fixed,
    /// The tangent of half the horizontal field of view.
    pub fov_tan: Fixed,
    /// The aspect ratio, width over height.
    pub ratio: Fixed,
}

/// The raw count of a number in units of `1 / 65536^3`, as the product
/// `ratio * fov_tan * z` is.
pub open spec fn cubed_unit() -> int {
    0x1_0000_0000_0000
}

impl Camera {
    /// The divisor of the projected `x`: `ratio * fov_tan * z`, exactly.
    pub open spec fn x_divisor(&self, v: Vector) -> int {
        self.ratio@ * self.fov_tan@ * v.z@
    }

    /// The depth range `z_far - z_near`, exactly.
    pub open spec fn depth_range(&self) -> int {
        self.z_far@ - self.z_near@
    }

    /// Whether `v` can be projected: none of the three divisors is zero.
    pub open spec fn projectable(&self, v: Vector) -> bool {
        &&& self.x_divisor(v) != 0
        &&& v.z@ != 0
        &&& self.depth_range() != 0
    }

    /// The projection of a projectable point:
    /// `x / (ratio * fov_tan * z)`, `y / z` and
    /// `(z - z_near) / (z_far - z_near)`, each rounded toward minus infinity
    /// and saturated, with `w` equal to one.
    pub open spec fn projected(&self, v: Vector) -> Vector {
        Vector {
            x: Fixed::of(floor_quot(v.x@ * cubed_unit(), self.x_divisor(v))),
            y: Fixed::of(floor_quot(v.y@ * 65536, v.z@)),
            z: Fixed::of(floor_quot((v.z@ - self.z_near@) * 65536, self.depth_range())),
            w: Fixed::of(65536),
        }
    }

    /// The projection of a triangle: each vertex projected on its own.
    pub open spec fn projected_triangle(&self, tri: Triangle) -> Triangle {
        Triangle(self.projected(tri.0), self.projected(tri.1), self.projected(tri.2))
    }

    /// Whether each of the three coordinates lies in `[-1, 1]`.
    pub open spec fn contains(p: (Fixed, Fixed, Fixed)) -> bool {
        &&& -65536 <= p.0@ <= 65536
        &&& -65536 <= p.1@ <= 65536
        &&& -65536 <= p.2@ <= 65536
    }

    /// A camera at `pos` with rotation `rot`, aspect ratio `aspect`, half-angle
    /// tangent `fov_tan` and clipping distances `near` and `far`.
    pub fn new(pos: Vector, rot: Vector, aspect: Fixed, fov_tan: Fixed, near: Fixed, far: Fixed) -> (c: Camera)
        ensures
            c.pos == pos,
            c.rot == rot,
            c.ratio == aspect,
            c.fov_tan == fov_tan,
            c.z_near == near,
            c.z_far == far,
    {
        Camera { pos, rot, ratio: aspect, fov_tan, z_near: near, z_far: far }
    }

    /// Projects a view-space point into normalized device coordinates, without
    /// clipping; `None` exactly when a divisor is zero.
    pub fn project_vector(&self, v: &Vector) -> (p: Option<Vector>)
        ensures
            p is Some <==> self.projectable(*v),
            match p {
                Some(q) => q == self.projected(*v),
                None => true,
            },
    {
        let rt: i128 = wide_product(self.ratio.raw, self.fov_tan.raw);
        let z: i128 = v.z().raw as i128;
        assert(-0x2000_0000_0000_0000_0000_0000 <= rt * z <= 0x2000_0000_0000_0000_0000_0000)
            by (nonlinear_arith)
            requires
                -0x4000_0000_0000_0000 <= rt <= 0x4000_0000_0000_0000,
                -0x8000_0000 <= z <= 0x7fff_ffff,
        ;
        let x_div: i128 = rt * z;
        let range: i128 = self.z_far.raw as i128 - self.z_near.raw as i128;
        if x_div == 0 || z == 0 || range == 0 {
            return None;
        }
        let x: i128 = div_floor(v.x().raw as i128 * 0x1_0000_0000_0000, x_div);
        let y: i128 = div_floor(v.y().raw as i128 * 65536, z);
        let depth: i128 = div_floor((z - self.z_near.raw as i128) * 65536, range);
        Some(
            Vector {
                x: Fixed::from_raw(saturate(x)),
                y: Fixed::from_raw(saturate(y)),
                z: Fixed::from_raw(saturate(depth)),
                w: Fixed::one(),
            },
        )
    }

    /// Projects the three vertices independently, without clipping; `None`
    /// exactly when one of them cannot be projected.
    pub fn project_triangle(&self, tri: &Triangle) -> (p: Option<Triangle>)
        ensures
            p is Some <==> self.projectable(tri.0) && self.projectable(tri.1) && self.projectable(
                tri.2,
            ),
            match p {
                Some(t) => t == self.projected_triangle(*tri),
                None => true,
            },
    {
        match (self.project_vector(&tri.0), self.project_vector(&tri.1), self.project_vector(&tri.2)) {
            (Some(a), Some(b), Some(c)) => Some(Triangle(a, b, c)),
            _ => None,
        }
    }

    /// Whether a point in normalized device coordinates lies inside the view
    /// volume: each coordinate in `[-1, 1]`.
    pub fn contains_point(&self, p: (Fixed, Fixed, Fixed)) -> (inside: bool)
        ensures
            inside == Camera::contains(p),
    {
        p.0.raw >= -65536 && p.0.raw <= 65536 && p.1.raw >= -65536 && p.1.raw <= 65536 && p.2.raw
            >= -65536 && p.2.raw <= 65536
    }
}

} // verus!
