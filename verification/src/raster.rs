//! Barycentric rasterization of one triangle onto a render target.
//!
//! For every pixel the sampler proposes weighted sample points. Each sample is
//! mapped from buffer-pixel space to normalized device coordinates, tested
//! against the triangle with the three edge functions, given a depth by
//! interpolation and tested against the view volume. The samples that pass
//! are shaded and accumulated; a pixel with at least one such sample gets one
//! depth test, on the mean depth of those samples, and is composited if the
//! test passes.
//!
//! Edge functions and the area are computed exactly, so a triangle is
//! degenerate precisely when its area is zero.

use crate::camera::Camera;
use crate::color::Color;
use crate::color::CompositeMode;
use crate::fixed::div_floor;
use crate::fixed::Coord;
use crate::fixed::floor_quot;
use crate::fixed::lemma_floor_quot_bounds;
use crate::fixed::saturate;
use crate::fixed::Fixed;
use crate::geometry::Triangle;
use crate::samplers::Sampler;
use crate::shader::Shader;
use crate::target::RenderTarget;
use crate::target::TargetView;
use vstd::prelude::*;

verus! {

/// Twice the signed area of the triangle in the XY plane: the cross product
/// of the edges `b - a` and `c - b`.
pub open spec fn area(tri: Triangle) -> int {
    (tri.1.x@ - tri.0.x@) * (tri.2.y@ - tri.1.y@) - (tri.1.y@ - tri.0.y@) * (tri.2.x@
        - tri.1.x@)
}

/// The edge function of the edge from `b` to `c` at the point `(px, py)`.
pub open spec fn edge_bc(tri: Triangle, px: int, py: int) -> int {
    (tri.2.x@ - tri.1.x@) * (py - tri.1.y@) - (tri.2.y@ - tri.1.y@) * (px - tri.1.x@)
}

/// The edge function of the edge from `c` to `a` at the point `(px, py)`.
pub open spec fn edge_ca(tri: Triangle, px: int, py: int) -> int {
    (tri.0.x@ - tri.2.x@) * (py - tri.2.y@) - (tri.0.y@ - tri.2.y@) * (px - tri.2.x@)
}

/// The edge function of the edge from `a` to `b` at the point `(px, py)`.
pub open spec fn edge_ab(tri: Triangle, px: int, py: int) -> int {
    (tri.1.x@ - tri.0.x@) * (py - tri.0.y@) - (tri.1.y@ - tri.0.y@) * (px - tri.0.x@)
}

/// The horizontal device coordinate of a sample at `sx` in a buffer `width`
/// pixels wide: `(sx - (width - 1) / 2) / ((width - 1) / 2)`.
pub open spec fn ndc_x(sx: Coord, width: int) -> Fixed {
    Fixed::of(floor_quot(2 * sx@ - (width - 1) * 65536, width - 1))
}

/// The vertical device coordinate of a sample at `sy` in a buffer `height`
/// pixels high: `-(sy - (height - 1) / 2) / ((height - 1) / 2)`, so that row
/// zero is at the top.
pub open spec fn ndc_y(sy: Coord, height: int) -> Fixed {
    Fixed::of(floor_quot((height - 1) * 65536 - 2 * sy@, height - 1))
}

/// A barycentric weight: the edge function over the area.
pub open spec fn weight(edge: int, area: int) -> int {
    floor_quot(edge * 65536, area)
}

/// The depth interpolated at `(px, py)`: the vertex depths weighted by the
/// three edge functions, over the area.
pub open spec fn depth_at(tri: Triangle, px: int, py: int) -> int {
    floor_quot(
        tri.0.z@ * edge_bc(tri, px, py) + tri.1.z@ * edge_ca(tri, px, py) + tri.2.z@
            * edge_ab(tri, px, py),
        area(tri),
    )
}

/// What the triangle contributes at a sample that it covers.
#[derive(Clone, Copy, Debug)]
pub struct Hit {
    /// The barycentric weights of the sample.
    pub bary: (Fixed, Fixed, Fixed),
    /// The interpolated depth of the sample.
    pub depth: Fixed,
}

/// The hit of the triangle at the sample position `(sx, sy)` of a buffer of
/// the given size, or `None` if the triangle does not cover the sample.
///
/// The sample is covered when the buffer is at least two pixels wide and
/// high, the triangle is not degenerate, all three weights are at least zero,
/// and the device coordinates with the interpolated depth lie in the view
/// volume.
pub open spec fn hit_of(tri: Triangle, width: int, height: int, sx: Coord, sy: Coord) -> Option<Hit> {
    let px = ndc_x(sx, width);
    let py = ndc_y(sy, height);
    let w0 = weight(edge_bc(tri, px@, py@), area(tri));
    let w1 = weight(edge_ca(tri, px@, py@), area(tri));
    let w2 = weight(edge_ab(tri, px@, py@), area(tri));
    let pz = Fixed::of(depth_at(tri, px@, py@));
    if width >= 2 && height >= 2 && area(tri) != 0 && w0 >= 0 && w1 >= 0 && w2 >= 0
        && Camera::contains((px, py, pz)) {
        Some(Hit { bary: (Fixed::of(w0), Fixed::of(w1), Fixed::of(w2)), depth: pz })
    } else {
        None
    }
}

/// What the samples of one pixel add up to.
pub struct Coverage {
    /// The weighted sum of the colours of the covered samples.
    pub color: Color,
    /// The sum of the depths of the covered samples, in raw units.
    pub depth_sum: int,
    /// The number of covered samples.
    pub hits: nat,
}

/// The coverage of a pixel by the triangle: over the samples in order, each
/// covered sample adds its shaded colour times its weight, its depth, and one
/// hit.
pub open spec fn coverage<H: Shader>(
    tri: Triangle,
    width: int,
    height: int,
    shader: H,
    samples: Seq<(Coord, Coord, Fixed)>,
) -> Coverage
    decreases samples.len(),
{
    if samples.len() == 0 {
        Coverage {
            color: Color { r: Fixed::of(0), g: Fixed::of(0), b: Fixed::of(0), a: Fixed::of(0) },
            depth_sum: 0,
            hits: 0,
        }
    } else {
        let before = coverage(tri, width, height, shader, samples.drop_last());
        let s = samples.last();
        match hit_of(tri, width, height, s.0, s.1) {
            Some(hit) => Coverage {
                color: before.color.plus(shader.shade_spec(hit.bary).times(s.2)),
                depth_sum: before.depth_sum + hit.depth@,
                hits: before.hits + 1,
            },
            None => before,
        }
    }
}

/// The mean depth of a coverage with at least one hit.
pub open spec fn mean_depth(cov: Coverage) -> Fixed {
    Fixed::of(floor_quot(cov.depth_sum, cov.hits as int))
}

/// The target after the pixel at `(x, y)` has received the coverage `cov`:
/// with at least one hit and a mean depth that passes the depth test, the
/// depth is stored and the colour is drawn over the pixel; otherwise nothing
/// changes.
pub open spec fn covered(t: TargetView, x: int, y: int, cov: Coverage) -> TargetView {
    if cov.hits > 0 && t.depth_passes(x, y, mean_depth(cov)) {
        t.depth_checked(x, y, mean_depth(cov)).painted(x, y, cov.color)
    } else {
        t
    }
}

/// The coverage of the pixel with storage index `i`.
pub open spec fn pixel_coverage<U: Sampler, H: Shader>(
    t: TargetView,
    tri: Triangle,
    sampler: U,
    shader: H,
    i: int,
) -> Coverage {
    let x = i % (t.width as int);
    let y = i / (t.width as int);
    coverage(tri, t.width as int, t.height as int, shader, sampler.samples(x as u32, y as u32))
}

/// The target after the triangle has been rasterized onto it: every pixel has
/// received its own coverage, and no pixel depends on another.
pub open spec fn rasterized<U: Sampler, H: Shader>(
    t: TargetView,
    tri: Triangle,
    sampler: U,
    shader: H,
) -> TargetView {
    TargetView {
        width: t.width,
        height: t.height,
        colors: Seq::new(
            t.colors.len(),
            |i: int|
                covered(
                    t,
                    i % (t.width as int),
                    i / (t.width as int),
                    pixel_coverage(t, tri, sampler, shader, i),
                ).colors[i],
        ),
        depths: Seq::new(
            t.depths.len(),
            |i: int|
                covered(
                    t,
                    i % (t.width as int),
                    i / (t.width as int),
                    pixel_coverage(t, tri, sampler, shader, i),
                ).depths[i],
        ),
    }
}

/// At every point the three edge functions sum to the area.
pub proof fn lemma_edges_sum_to_area(tri: Triangle, px: int, py: int)
    ensures
        edge_bc(tri, px, py) + edge_ca(tri, px, py) + edge_ab(tri, px, py) == area(tri),
{
    let ax = tri.0.x@;
    let ay = tri.0.y@;
    let bx = tri.1.x@;
    let by = tri.1.y@;
    let cx = tri.2.x@;
    let cy = tri.2.y@;
    assert((cx - bx) * (py - by) == cx * py - by * cx - bx * py + bx * by) by (nonlinear_arith);
    assert((cy - by) * (px - bx) == cy * px - bx * cy - by * px + bx * by) by (nonlinear_arith);
    assert((ax - cx) * (py - cy) == ax * py - ax * cy - cx * py + cx * cy) by (nonlinear_arith);
    assert((ay - cy) * (px - cx) == ay * px - ay * cx - cy * px + cx * cy) by (nonlinear_arith);
    assert((bx - ax) * (py - ay) == bx * py - ay * bx - ax * py + ax * ay) by (nonlinear_arith);
    assert((by - ay) * (px - ax) == by * px - ax * by - ay * px + ax * ay) by (nonlinear_arith);
    assert((bx - ax) * (cy - by) == bx * cy - bx * by - ax * cy + ax * by) by (nonlinear_arith);
    assert((by - ay) * (cx - bx) == by * cx - bx * by - ay * cx + ay * bx) by (nonlinear_arith);
}

/// Partition of unity: where the triangle is not degenerate and the three
/// barycentric weights of a point are at least zero, they sum to one, less
/// at most the two units that rounding down three quotients can lose.
pub proof fn lemma_weights_sum_to_one(tri: Triangle, px: int, py: int)
    requires
        area(tri) != 0,
        weight(edge_bc(tri, px, py), area(tri)) >= 0,
        weight(edge_ca(tri, px, py), area(tri)) >= 0,
        weight(edge_ab(tri, px, py), area(tri)) >= 0,
    ensures
        65536 - 2 <= weight(edge_bc(tri, px, py), area(tri)) + weight(
            edge_ca(tri, px, py),
            area(tri),
        ) + weight(edge_ab(tri, px, py), area(tri)) <= 65536,
{
    let d = area(tri);
    let e0 = edge_bc(tri, px, py);
    let e1 = edge_ca(tri, px, py);
    let e2 = edge_ab(tri, px, py);
    let w0 = weight(e0, d);
    let w1 = weight(e1, d);
    let w2 = weight(e2, d);
    lemma_edges_sum_to_area(tri, px, py);
    lemma_floor_quot_bounds(e0 * 65536, d);
    lemma_floor_quot_bounds(e1 * 65536, d);
    lemma_floor_quot_bounds(e2 * 65536, d);
    if d > 0 {
        assert(w0 + w1 + w2 <= 65536 && 65536 < w0 + w1 + w2 + 3) by (nonlinear_arith)
            requires
                d > 0,
                e0 + e1 + e2 == d,
                w0 * d <= e0 * 65536 < (w0 + 1) * d,
                w1 * d <= e1 * 65536 < (w1 + 1) * d,
                w2 * d <= e2 * 65536 < (w2 + 1) * d,
        ;
    } else {
        assert(w0 + w1 + w2 <= 65536 && 65536 < w0 + w1 + w2 + 3) by (nonlinear_arith)
            requires
                d < 0,
                e0 + e1 + e2 == d,
                (w0 + 1) * d < e0 * 65536 <= w0 * d,
                (w1 + 1) * d < e1 * 65536 <= w1 * d,
                (w2 + 1) * d < e2 * 65536 <= w2 * d,
        ;
    }
}

/// The weights of a hit are the barycentric weights themselves, none of them
/// below zero or above one, and they sum to one less at most two units.
pub proof fn lemma_hit_weights(tri: Triangle, width: int, height: int, sx: Coord, sy: Coord)
    requires
        hit_of(tri, width, height, sx, sy) is Some,
    ensures
        ({
            let bary = hit_of(tri, width, height, sx, sy)->0.bary;
            let px = ndc_x(sx, width)@;
            let py = ndc_y(sy, height)@;
            &&& bary.0@ == weight(edge_bc(tri, px, py), area(tri))
            &&& bary.1@ == weight(edge_ca(tri, px, py), area(tri))
            &&& bary.2@ == weight(edge_ab(tri, px, py), area(tri))
            &&& 0 <= bary.0@ <= 65536
            &&& 0 <= bary.1@ <= 65536
            &&& 0 <= bary.2@ <= 65536
            &&& 65536 - 2 <= bary.0@ + bary.1@ + bary.2@ <= 65536
        }),
{
    lemma_weights_sum_to_one(tri, ndc_x(sx, width)@, ndc_y(sy, height)@);
}

/// Rasterizing changes the pixel at `(x, y)` by the coverage of that pixel's
/// own samples and by nothing else.
pub proof fn lemma_rasterized_pixel<U: Sampler, H: Shader>(
    t: TargetView,
    tri: Triangle,
    sampler: U,
    shader: H,
    x: int,
    y: int,
)
    requires
        t.wf(),
        t.holds(x, y),
    ensures
        ({
            let cov = coverage(
                tri,
                t.width as int,
                t.height as int,
                shader,
                sampler.samples(x as u32, y as u32),
            );
            let after = rasterized(t, tri, sampler, shader);
            &&& after.color_at(x, y) == covered(t, x, y, cov).color_at(x, y)
            &&& after.depth_at(x, y) == covered(t, x, y, cov).depth_at(x, y)
        }),
{
    crate::buffer::lemma_cell_index(t.width as int, t.height as int, x, y);
}

/// Rasterizing never moves a pixel farther away: every depth after is at most
/// the depth before, and a pixel whose depth did not change kept its colour.
pub proof fn lemma_rasterized_depth_never_grows<U: Sampler, H: Shader>(
    t: TargetView,
    tri: Triangle,
    sampler: U,
    shader: H,
    x: int,
    y: int,
)
    requires
        t.wf(),
        t.holds(x, y),
    ensures
        rasterized(t, tri, sampler, shader).depth_at(x, y)@ <= t.depth_at(x, y)@,
        rasterized(t, tri, sampler, shader).depth_at(x, y) == t.depth_at(x, y) ==> rasterized(
            t,
            tri,
            sampler,
            shader,
        ).color_at(x, y) == t.color_at(x, y),
{
    lemma_rasterized_pixel(t, tri, sampler, shader, x, y);
    crate::buffer::lemma_cell_index(t.width as int, t.height as int, x, y);
}

/// A triangle of zero area covers no sample.
pub proof fn lemma_degenerate_covers_nothing<H: Shader>(
    tri: Triangle,
    width: int,
    height: int,
    shader: H,
    samples: Seq<(Coord, Coord, Fixed)>,
)
    requires
        area(tri) == 0,
    ensures
        coverage(tri, width, height, shader, samples).hits == 0,
    decreases samples.len(),
{
    if samples.len() > 0 {
        lemma_degenerate_covers_nothing(tri, width, height, shader, samples.drop_last());
    }
}

/// A degenerate triangle, one whose three vertices lie on a line and whose
/// area is therefore zero, changes no pixel and no depth.
pub proof fn lemma_degenerate_draws_nothing<U: Sampler, H: Shader>(
    t: TargetView,
    tri: Triangle,
    sampler: U,
    shader: H,
)
    requires
        area(tri) == 0,
    ensures
        rasterized(t, tri, sampler, shader) == t,
{
    let r = rasterized(t, tri, sampler, shader);
    assert forall|i: int| 0 <= i < t.colors.len() implies r.colors[i] == t.colors[i] by {
        let x = i % (t.width as int);
        let y = i / (t.width as int);
        lemma_degenerate_covers_nothing(
            tri,
            t.width as int,
            t.height as int,
            shader,
            sampler.samples(x as u32, y as u32),
        );
    }
    assert forall|i: int| 0 <= i < t.depths.len() implies r.depths[i] == t.depths[i] by {
        let x = i % (t.width as int);
        let y = i / (t.width as int);
        lemma_degenerate_covers_nothing(
            tri,
            t.width as int,
            t.height as int,
            shader,
            sampler.samples(x as u32, y as u32),
        );
    }
    assert(r.colors =~= t.colors);
    assert(r.depths =~= t.depths);
}

/// Occlusion does not depend on the order of drawing: when two coverages
/// reach the same pixel, the nearer one is opaque and nearer than what the
/// pixel holds, the pixel ends with exactly the nearer colour and depth,
/// whichever of the two is drawn first.
pub proof fn lemma_nearer_opaque_wins(t: TargetView, x: int, y: int, near: Coverage, far: Coverage)
    requires
        t.wf(),
        t.holds(x, y),
        near.hits > 0,
        far.hits > 0,
        near.color.a@ == 65536,
        mean_depth(near)@ < mean_depth(far)@,
        mean_depth(near)@ < t.depth_at(x, y)@,
    ensures
        covered(covered(t, x, y, near), x, y, far) == covered(covered(t, x, y, far), x, y, near),
        covered(covered(t, x, y, near), x, y, far).color_at(x, y) == near.color.pixel(),
        covered(covered(t, x, y, near), x, y, far).depth_at(x, y) == mean_depth(near),
{
    crate::buffer::lemma_cell_index(t.width as int, t.height as int, x, y);
    let i = t.index(x, y);
    let near_first = covered(t, x, y, near);
    let far_first = covered(t, x, y, far);
    crate::color::lemma_opaque_source_over(t.colors[i], near.color);
    crate::color::lemma_opaque_source_over(far_first.colors[i], near.color);
    let a = covered(near_first, x, y, far);
    let b = covered(far_first, x, y, near);
    assert(a == near_first);
    assert(b.colors =~= near_first.colors);
    assert(b.depths =~= near_first.depths);
}

/// The horizontal device coordinate of a sample.
fn device_x(sx: Coord, width: usize) -> (px: Fixed)
    requires
        width >= 2,
    ensures
        px == ndc_x(sx, width as int),
{
    let span: i128 = width as i128 - 1;
    let centred: i128 = 2 * (sx.raw as i128) - span * 65536;
    Fixed::from_raw(saturate(div_floor(centred, span)))
}

/// The vertical device coordinate of a sample.
fn device_y(sy: Coord, height: usize) -> (py: Fixed)
    requires
        height >= 2,
    ensures
        py == ndc_y(sy, height as int),
{
    let span: i128 = height as i128 - 1;
    let centred: i128 = span * 65536 - 2 * (sy.raw as i128);
    Fixed::from_raw(saturate(div_floor(centred, span)))
}

/// The cross product `ux * vy - uy * vx` of two differences of coordinates.
fn cross(ux: i128, uy: i128, vx: i128, vy: i128) -> (r: i128)
    requires
        -0x1_0000_0000 <= ux <= 0x1_0000_0000,
        -0x1_0000_0000 <= uy <= 0x1_0000_0000,
        -0x1_0000_0000 <= vx <= 0x1_0000_0000,
        -0x1_0000_0000 <= vy <= 0x1_0000_0000,
    ensures
        r == ux * vy - uy * vx,
        -0x2_0000_0000_0000_0000 <= r <= 0x2_0000_0000_0000_0000,
{
    assert(-0x1_0000_0000_0000_0000 <= ux * vy <= 0x1_0000_0000_0000_0000) by (nonlinear_arith)
        requires
            -0x1_0000_0000 <= ux <= 0x1_0000_0000,
            -0x1_0000_0000 <= vy <= 0x1_0000_0000,
    ;
    assert(-0x1_0000_0000_0000_0000 <= uy * vx <= 0x1_0000_0000_0000_0000) by (nonlinear_arith)
        requires
            -0x1_0000_0000 <= uy <= 0x1_0000_0000,
            -0x1_0000_0000 <= vx <= 0x1_0000_0000,
    ;
    ux * vy - uy * vx
}

/// A vertex depth times an edge function.
fn depth_term(z: i128, e: i128) -> (r: i128)
    requires
        -0x8000_0000 <= z <= 0x8000_0000,
        -0x2_0000_0000_0000_0000 <= e <= 0x2_0000_0000_0000_0000,
    ensures
        r == z * e,
        -0x1_0000_0000_0000_0000_0000_0000 <= r <= 0x1_0000_0000_0000_0000_0000_0000,
{
    assert(-0x1_0000_0000_0000_0000_0000_0000 <= z * e <= 0x1_0000_0000_0000_0000_0000_0000)
        by (nonlinear_arith)
        requires
            -0x8000_0000 <= z <= 0x8000_0000,
            -0x2_0000_0000_0000_0000 <= e <= 0x2_0000_0000_0000_0000,
    ;
    z * e
}

/// Tests one sample against the triangle: its barycentric weights and its
/// depth if the triangle covers it, `None` if it does not.
pub fn cover_sample(
    tri: &Triangle,
    camera: &Camera,
    width: usize,
    height: usize,
    sx: Coord,
    sy: Coord,
) -> (hit: Option<Hit>)
    ensures
        hit == hit_of(*tri, width as int, height as int, sx, sy),
{
    if width < 2 || height < 2 {
        return None;
    }
    let ax: i128 = tri.0.x().raw as i128;
    let ay: i128 = tri.0.y().raw as i128;
    let az: i128 = tri.0.z().raw as i128;
    let bx: i128 = tri.1.x().raw as i128;
    let by: i128 = tri.1.y().raw as i128;
    let bz: i128 = tri.1.z().raw as i128;
    let cx: i128 = tri.2.x().raw as i128;
    let cy: i128 = tri.2.y().raw as i128;
    let cz: i128 = tri.2.z().raw as i128;
    let area: i128 = cross(bx - ax, by - ay, cx - bx, cy - by);
    if area == 0 {
        return None;
    }
    let px: Fixed = device_x(sx, width);
    let py: Fixed = device_y(sy, height);
    let qx: i128 = px.raw as i128;
    let qy: i128 = py.raw as i128;
    let e0: i128 = cross(cx - bx, cy - by, qx - bx, qy - by);
    let e1: i128 = cross(ax - cx, ay - cy, qx - cx, qy - cy);
    let e2: i128 = cross(bx - ax, by - ay, qx - ax, qy - ay);
    let w0: i128 = div_floor(e0 * 65536, area);
    let w1: i128 = div_floor(e1 * 65536, area);
    let w2: i128 = div_floor(e2 * 65536, area);
    if w0 >= 0 && w1 >= 0 && w2 >= 0 {
        let sum: i128 = depth_term(az, e0) + depth_term(bz, e1) + depth_term(cz, e2);
        let pz: Fixed = Fixed::from_raw(saturate(div_floor(sum, area)));
        if camera.contains_point((px, py, pz)) {
            return Some(
                Hit {
                    bary: (
                        Fixed::from_raw(saturate(w0)),
                        Fixed::from_raw(saturate(w1)),
                        Fixed::from_raw(saturate(w2)),
                    ),
                    depth: pz,
                },
            );
        }
    }
    None
}

/// Every covered sample has a depth in `[-1, 1]`, so the depths of a pixel
/// sum to no more than the number of hits, and there are no more hits than
/// samples.
pub proof fn lemma_coverage_bounds<H: Shader>(
    tri: Triangle,
    width: int,
    height: int,
    shader: H,
    samples: Seq<(Coord, Coord, Fixed)>,
)
    ensures
        coverage(tri, width, height, shader, samples).hits <= samples.len(),
        -65536 * coverage(tri, width, height, shader, samples).hits <= coverage(
            tri,
            width,
            height,
            shader,
            samples,
        ).depth_sum <= 65536 * coverage(tri, width, height, shader, samples).hits,
    decreases samples.len(),
{
    if samples.len() > 0 {
        lemma_coverage_bounds(tri, width, height, shader, samples.drop_last());
    }
}

/// Accumulates the samples of one pixel: the weighted colour, the summed
/// depth and the number of the samples that the triangle covers.
pub fn cover_pixel<H: Shader>(
    tri: &Triangle,
    camera: &Camera,
    width: usize,
    height: usize,
    shader: &H,
    samples: &Vec<(Coord, Coord, Fixed)>,
) -> (acc: (Color, i128, usize))
    ensures
        acc.0 == coverage(*tri, width as int, height as int, *shader, samples@).color,
        acc.1 == coverage(*tri, width as int, height as int, *shader, samples@).depth_sum,
        acc.2 == coverage(*tri, width as int, height as int, *shader, samples@).hits,
{
    let mut color: Color = Color::zero();
    let mut depth: i128 = 0;
    let mut depth_entries: usize = 0;
    let mut k: usize = 0;
    while k < samples.len()
        invariant
            k <= samples.len(),
            color == coverage(*tri, width as int, height as int, *shader, samples@.take(k as int)).color,
            depth == coverage(
                *tri,
                width as int,
                height as int,
                *shader,
                samples@.take(k as int),
            ).depth_sum,
            depth_entries == coverage(
                *tri,
                width as int,
                height as int,
                *shader,
                samples@.take(k as int),
            ).hits,
        decreases samples.len() - k,
    {
        let s: (Coord, Coord, Fixed) = samples[k];
        proof {
            assert(samples@.take(k + 1).drop_last() =~= samples@.take(k as int));
            assert(samples@.take(k + 1).last() == s);
            lemma_coverage_bounds(
                *tri,
                width as int,
                height as int,
                *shader,
                samples@.take(k as int),
            );
        }
        match cover_sample(tri, camera, width, height, s.0, s.1) {
            Some(hit) => {
                let shader_color: Color = shader.shade(hit.bary);
                color = color + shader_color.multiply(s.2);
                depth = depth + hit.depth.raw as i128;
                depth_entries = depth_entries + 1;
            },
            None => {},
        }
        k = k + 1;
    }
    assert(samples@.take(k as int) =~= samples@);
    (color, depth, depth_entries)
}

/// Rasterizes the triangle, given in normalized device coordinates, onto the
/// target. Every pixel receives the coverage of its own samples; a triangle
/// whose area is zero covers nothing. The weights are edge functions over the
/// signed area, so a triangle is covered alike in either winding.
pub fn rasterize_barycentric_ccw<T, U>(
    tri: &Triangle,
    target: &mut RenderTarget,
    camera: &Camera,
    sampler: &U,
    shader: &T,
) where T: Shader, U: Sampler
    requires
        old(target).wf(),
        sampler.usable(),
    ensures
        final(target).wf(),
        final(target)@ == rasterized(old(target)@, *tri, *sampler, *shader),
{
    let width: usize = target.width();
    let height: usize = target.height();
    let ghost before: TargetView = target@;
    let ghost after: TargetView = rasterized(before, *tri, *sampler, *shader);
    proof {
        target.lemma_view_wf();
    }
    let mut y: usize = 0;
    while y < height
        invariant
            y <= height,
            target.wf(),
            before.wf(),
            width == before.width,
            height == before.height,
            width <= u32::MAX,
            height <= u32::MAX,
            sampler.usable(),
            after == rasterized(before, *tri, *sampler, *shader),
            target@.width == before.width,
            target@.height == before.height,
            target@.colors.len() == before.colors.len(),
            target@.depths.len() == before.depths.len(),
            forall|i: int|
                0 <= i < y * width ==> target@.colors[i] == after.colors[i] && target@.depths[i]
                    == after.depths[i],
            forall|i: int|
                y * width <= i < before.colors.len() ==> target@.colors[i] == before.colors[i]
                    && target@.depths[i] == before.depths[i],
        decreases height - y,
    {
        let mut x: usize = 0;
        while x < width
            invariant
                y < height,
                x <= width,
                target.wf(),
                before.wf(),
                width == before.width,
                height == before.height,
                width <= u32::MAX,
                height <= u32::MAX,
                sampler.usable(),
                after == rasterized(before, *tri, *sampler, *shader),
                target@.width == before.width,
                target@.height == before.height,
                target@.colors.len() == before.colors.len(),
                target@.depths.len() == before.depths.len(),
                forall|i: int|
                    0 <= i < y * width + x ==> target@.colors[i] == after.colors[i]
                        && target@.depths[i] == after.depths[i],
                forall|i: int|
                    y * width + x <= i < before.colors.len() ==> target@.colors[i]
                        == before.colors[i] && target@.depths[i] == before.depths[i],
            decreases width - x,
        {
            let ghost index: int = x + y * width;
            let ghost current: TargetView = target@;
            proof {
                crate::buffer::lemma_cell_index(width as int, height as int, x as int, y as int);
            }
            let samples: Vec<(Coord, Coord, Fixed)> = sampler.sample(x as u32, y as u32);
            let acc: (Color, i128, usize) = cover_pixel(tri, camera, width, height, shader, &samples);
            let ghost cov: Coverage = pixel_coverage(before, *tri, *sampler, *shader, index);
            proof {
                lemma_coverage_bounds(*tri, width as int, height as int, *shader, samples@);
                assert(cov == coverage(*tri, width as int, height as int, *shader, samples@));
            }
            if acc.2 > 0 {
                let mean: Fixed = Fixed::from_raw(saturate(div_floor(acc.1, acc.2 as i128)));
                assert(mean == mean_depth(cov));
                if target.check_depth((x, y), mean) {
                    target.paint((x, y), &acc.0, CompositeMode::SourceOver);
                }
            }
            proof {
                assert(target@ == covered(current, x as int, y as int, cov));
                assert(covered(current, x as int, y as int, cov).colors[index] == covered(
                    before,
                    x as int,
                    y as int,
                    cov,
                ).colors[index]);
                assert(covered(current, x as int, y as int, cov).depths[index] == covered(
                    before,
                    x as int,
                    y as int,
                    cov,
                ).depths[index]);
            }
            x = x + 1;
        }
        proof {
            assert((y + 1) * width == y * width + width) by (nonlinear_arith);
        }
        y = y + 1;
    }
    proof {
        assert(y * width == before.width * before.height) by (nonlinear_arith)
            requires
                y == before.height,
                width == before.width,
        ;
        assert(target@.colors =~= after.colors);
        assert(target@.depths =~= after.depths);
    }
}

} // verus!
