use rasterust::camera::Camera;
use rasterust::color::Color;
use rasterust::fixed::Coord;
use rasterust::fixed::Fixed;
use rasterust::geometry::Triangle;
use rasterust::linalg::Vector;
use rasterust::raster::cover_pixel;
use rasterust::raster::cover_sample;
use rasterust::raster::rasterize_barycentric_ccw;
use rasterust::samplers::Sampler;
use rasterust::samplers::SimpleMultiSampler;
use rasterust::shader::SolidColorShader;
use rasterust::shader::TriColorShader;
use rasterust::target::RenderTarget;

fn fx(v: f64) -> Fixed {
    Fixed::from_raw((v * 65536.0).round() as i32)
}

fn at(v: f64) -> Coord {
    Coord::from_raw((v * 65536.0).round() as i64)
}

fn camera() -> Camera {
    Camera::new(Vector::zero(), Vector::zero(), fx(1.0), fx(1.0), fx(0.0), fx(1.0))
}

fn triangle(a: (f64, f64), b: (f64, f64), c: (f64, f64), z: f64) -> Triangle {
    Triangle::new(
        Vector::new(fx(a.0), fx(a.1), fx(z)),
        Vector::new(fx(b.0), fx(b.1), fx(z)),
        Vector::new(fx(c.0), fx(c.1), fx(z)),
    )
}

fn rgba(r: f64, g: f64, b: f64, a: f64) -> Color {
    Color::new(fx(r), fx(g), fx(b), fx(a))
}

fn snapshot(t: &RenderTarget) -> Vec<(u32, Fixed)> {
    let mut cells = Vec::new();
    for y in 0..t.height() {
        for x in 0..t.width() {
            cells.push((t.color_at(x, y), t.depth_at(x, y)));
        }
    }
    cells
}

#[test]
fn single_triangle_on_three_by_three() {
    let tri = triangle((0.0, 0.5), (0.5, -0.5), (-0.5, -0.5), 0.5);
    let mut target = RenderTarget::new(3, 3);
    rasterize_barycentric_ccw(
        &tri,
        &mut target,
        &camera(),
        &SimpleMultiSampler(1),
        &SolidColorShader(Color::white()),
    );
    // The centre pixel is painted with opaque white and takes the depth.
    assert_eq!(target.color_at(1, 1), 0xffffffff);
    assert_eq!(target.depth_at(1, 1), fx(0.5));
    // The four corners are untouched.
    for (x, y) in [(0, 0), (2, 0), (0, 2), (2, 2)] {
        assert_eq!(target.color_at(x, y), 0);
        assert_eq!(target.color_at(x, y) & 0xff, 0);
        assert_eq!(target.depth_at(x, y), Fixed::one());
    }
}

#[test]
fn single_triangle_exact_footprint() {
    // The samples of a 3 by 3 target lie at -0.5, 0.5 and 1.5 in device
    // coordinates; 1.5 is outside the view volume. Of the four that remain
    // the triangle holds the two on its base.
    let tri = triangle((0.0, 0.5), (0.5, -0.5), (-0.5, -0.5), 0.5);
    let mut target = RenderTarget::new(3, 3);
    rasterize_barycentric_ccw(
        &tri,
        &mut target,
        &camera(),
        &SimpleMultiSampler(1),
        &SolidColorShader(Color::white()),
    );
    let painted: Vec<(usize, usize)> = (0..3)
        .flat_map(|y| (0..3).map(move |x| (x, y)))
        .filter(|&(x, y)| target.color_at(x, y) != 0)
        .collect();
    assert_eq!(painted, vec![(0, 1), (1, 1)]);
}

#[test]
fn nearer_triangle_wins_in_either_order() {
    let footprint = ((-0.9, -0.9), (0.9, -0.9), (0.0, 0.9));
    let near = triangle(footprint.0, footprint.1, footprint.2, 0.1);
    let far = triangle(footprint.0, footprint.1, footprint.2, 0.5);
    let red = SolidColorShader(rgba(1.0, 0.0, 0.0, 1.0));
    let blue = SolidColorShader(rgba(0.0, 0.0, 1.0, 1.0));
    let sampler = SimpleMultiSampler(1);

    let mut near_first = RenderTarget::new(9, 9);
    rasterize_barycentric_ccw(&near, &mut near_first, &camera(), &sampler, &red);
    rasterize_barycentric_ccw(&far, &mut near_first, &camera(), &sampler, &blue);

    let mut far_first = RenderTarget::new(9, 9);
    rasterize_barycentric_ccw(&far, &mut far_first, &camera(), &sampler, &blue);
    rasterize_barycentric_ccw(&near, &mut far_first, &camera(), &sampler, &red);

    let mut covered = 0;
    for y in 0..9 {
        for x in 0..9 {
            let c = near_first.color_at(x, y);
            assert!(c == 0 || c == 0xff0000ff);
            assert_eq!(far_first.color_at(x, y), c);
            assert_eq!(far_first.depth_at(x, y), near_first.depth_at(x, y));
            if c != 0 {
                covered += 1;
                assert_eq!(near_first.depth_at(x, y), fx(0.1));
            } else {
                assert_eq!(near_first.depth_at(x, y), Fixed::one());
            }
        }
    }
    assert!(covered > 0);
}

#[test]
fn degenerate_triangle_draws_nothing() {
    let collinear = [
        triangle((-0.5, -0.5), (0.0, 0.0), (0.5, 0.5), 0.5),
        triangle((0.25, 0.25), (0.25, 0.25), (0.25, 0.25), 0.5),
        triangle((-1.0, 0.0), (1.0, 0.0), (0.0, 0.0), 0.5),
        triangle((0.0, -1.0), (0.0, 1.0), (0.0, 0.5), 0.5),
    ];
    for tri in collinear.iter() {
        for power in 1..=3 {
            let mut target = RenderTarget::new(8, 8);
            rasterize_barycentric_ccw(
                tri,
                &mut target,
                &camera(),
                &SimpleMultiSampler(power),
                &SolidColorShader(Color::white()),
            );
            for cell in snapshot(&target) {
                assert_eq!(cell, (0, Fixed::one()));
            }
        }
    }
}

#[test]
fn clockwise_triangle_covers_the_same_pixels() {
    let ccw = triangle((-0.9, -0.9), (0.9, -0.9), (0.0, 0.9), 0.5);
    let cw = triangle((-0.9, -0.9), (0.0, 0.9), (0.9, -0.9), 0.5);
    let white = SolidColorShader(Color::white());
    let mut a = RenderTarget::new(9, 9);
    let mut b = RenderTarget::new(9, 9);
    rasterize_barycentric_ccw(&ccw, &mut a, &camera(), &SimpleMultiSampler(2), &white);
    rasterize_barycentric_ccw(&cw, &mut b, &camera(), &SimpleMultiSampler(2), &white);
    assert_eq!(snapshot(&a), snapshot(&b));
    assert!(snapshot(&a).iter().any(|cell| cell.0 != 0));
}

#[test]
fn targets_narrower_than_two_pixels_stay_blank() {
    let tri = triangle((-1.0, -1.0), (1.0, -1.0), (0.0, 1.0), 0.5);
    for (w, h) in [(1, 1), (1, 5), (5, 1), (0, 0), (0, 4), (4, 0)] {
        let mut target = RenderTarget::new(w, h);
        rasterize_barycentric_ccw(
            &tri,
            &mut target,
            &camera(),
            &SimpleMultiSampler(1),
            &SolidColorShader(Color::white()),
        );
        for cell in snapshot(&target) {
            assert_eq!(cell, (0, Fixed::one()));
        }
    }
}

#[test]
fn depth_outside_the_view_volume_is_rejected() {
    let tri = triangle((-0.9, -0.9), (0.9, -0.9), (0.0, 0.9), 1.5);
    let mut target = RenderTarget::new(9, 9);
    rasterize_barycentric_ccw(
        &tri,
        &mut target,
        &camera(),
        &SimpleMultiSampler(1),
        &SolidColorShader(Color::white()),
    );
    for cell in snapshot(&target) {
        assert_eq!(cell, (0, Fixed::one()));
    }
}

#[test]
fn depth_at_the_far_plane_fails_the_depth_test() {
    // A depth of exactly one lies in the view volume but is not nearer than
    // the depth that a blank target holds.
    let tri = triangle((-0.9, -0.9), (0.9, -0.9), (0.0, 0.9), 1.0);
    let mut target = RenderTarget::new(9, 9);
    rasterize_barycentric_ccw(
        &tri,
        &mut target,
        &camera(),
        &SimpleMultiSampler(1),
        &SolidColorShader(Color::white()),
    );
    for cell in snapshot(&target) {
        assert_eq!(cell, (0, Fixed::one()));
    }
}

#[test]
fn partial_coverage_scales_the_colour() {
    // With a two by two grid the samples of pixel (1, 1) of a 3 by 3 target
    // lie at device x = 0.25 and 0.75. The triangle ends at x = 0.5, so it
    // holds two of the four samples: the pixel gets half of white.
    let tri = triangle((-3.0, -3.0), (0.5, -3.0), (0.5, 3.0), 0.5);
    let mut target = RenderTarget::new(3, 3);
    rasterize_barycentric_ccw(
        &tri,
        &mut target,
        &camera(),
        &SimpleMultiSampler(2),
        &SolidColorShader(Color::white()),
    );
    assert_eq!(target.color_at(1, 1), 0x7f7f7f7f);
    assert_eq!(target.depth_at(1, 1), fx(0.5));
}

#[test]
fn cover_sample_gives_weights_of_the_vertices() {
    let tri = triangle((0.0, 0.5), (0.5, -0.5), (-0.5, -0.5), 0.25);
    // On a 3 by 3 target the sample at (1.5, 1.5) maps to (0.5, -0.5), vertex b.
    let hit = cover_sample(&tri, &camera(), 3, 3, at(1.5), at(1.5)).unwrap();
    assert_eq!(hit.bary, (fx(0.0), fx(1.0), fx(0.0)));
    assert_eq!(hit.depth, fx(0.25));
    // The sample at (0.5, 1.5) maps to (-0.5, -0.5), vertex c.
    let hit = cover_sample(&tri, &camera(), 3, 3, at(0.5), at(1.5)).unwrap();
    assert_eq!(hit.bary, (fx(0.0), fx(0.0), fx(1.0)));
    // The sample at (1.0, 0.5) maps to (0, 0.5), vertex a.
    let hit = cover_sample(&tri, &camera(), 3, 3, at(1.0), at(0.5)).unwrap();
    assert_eq!(hit.bary, (fx(1.0), fx(0.0), fx(0.0)));
    // The sample at (1.0, 1.0) maps to the point (0, 0): halfway up the middle.
    let hit = cover_sample(&tri, &camera(), 3, 3, at(1.0), at(1.0)).unwrap();
    assert_eq!(hit.bary, (fx(0.5), fx(0.25), fx(0.25)));
    // Outside the triangle.
    assert_eq!(cover_sample(&tri, &camera(), 3, 3, at(0.5), at(0.5)).map(|h| h.bary), None);
}

#[test]
fn cover_sample_interpolates_depth() {
    let tri = Triangle::new(
        Vector::new(fx(0.0), fx(0.5), fx(0.0)),
        Vector::new(fx(0.5), fx(-0.5), fx(0.5)),
        Vector::new(fx(-0.5), fx(-0.5), fx(1.0)),
    );
    // Weights (0.5, 0.25, 0.25) give 0 * 0.5 + 0.5 * 0.25 + 1 * 0.25.
    let hit = cover_sample(&tri, &camera(), 3, 3, at(1.0), at(1.0)).unwrap();
    assert_eq!(hit.depth, fx(0.375));
}

#[test]
fn weights_of_covered_samples_sum_to_one() {
    let tri = triangle((-0.83, -0.71), (0.77, -0.59), (0.13, 0.91), 0.5);
    let mut hits = 0;
    for y in 0..16u32 {
        for x in 0..16u32 {
            for s in SimpleMultiSampler(3).sample(x, y) {
                if let Some(hit) = cover_sample(&tri, &camera(), 16, 16, s.0, s.1) {
                    hits += 1;
                    let (w0, w1, w2) = (hit.bary.0.raw(), hit.bary.1.raw(), hit.bary.2.raw());
                    assert!(w0 >= 0 && w1 >= 0 && w2 >= 0);
                    let sum = w0 + w1 + w2;
                    assert!(65534 <= sum && sum <= 65536);
                }
            }
        }
    }
    assert!(hits > 100);
}

#[test]
fn cover_pixel_accumulates_hits() {
    let tri = triangle((-3.0, -3.0), (3.0, -3.0), (0.0, 3.0), 0.5);
    let samples = SimpleMultiSampler(2).sample(1, 1);
    let white = SolidColorShader(Color::white());
    let (color, depth_sum, hits) = cover_pixel(&tri, &camera(), 3, 3, &white, &samples);
    assert_eq!(hits, 4);
    assert_eq!(depth_sum, 4 * 32768);
    assert_eq!(color, Color::white());
    let none = cover_pixel(&tri, &camera(), 3, 3, &white, &Vec::new());
    assert_eq!(none, (Color::zero(), 0, 0));
}

#[test]
fn tri_color_shader_paints_vertex_colours() {
    let tri = triangle((0.0, 0.5), (0.5, -0.5), (-0.5, -0.5), 0.5);
    let shader = TriColorShader(
        rgba(1.0, 0.0, 0.0, 1.0),
        rgba(0.0, 1.0, 0.0, 1.0),
        rgba(0.0, 0.0, 1.0, 1.0),
    );
    let mut target = RenderTarget::new(3, 3);
    rasterize_barycentric_ccw(&tri, &mut target, &camera(), &SimpleMultiSampler(1), &shader);
    // Pixel (1, 1) samples vertex b and pixel (0, 1) samples vertex c.
    assert_eq!(target.color_at(1, 1), 0x00ff00ff);
    assert_eq!(target.color_at(0, 1), 0x0000ffff);
}

#[test]
fn one_depth_test_per_pixel_on_the_mean_depth() {
    // Depth grows with x; the four samples of a pixel have two depths, and
    // the pixel stores their mean.
    let tri = Triangle::new(
        Vector::new(fx(-1.0), fx(-3.0), fx(0.0)),
        Vector::new(fx(1.0), fx(-3.0), fx(1.0)),
        Vector::new(fx(-1.0), fx(5.0), fx(0.0)),
    );
    let mut target = RenderTarget::new(3, 3);
    rasterize_barycentric_ccw(
        &tri,
        &mut target,
        &camera(),
        &SimpleMultiSampler(2),
        &SolidColorShader(Color::white()),
    );
    // Pixel (0, 0): samples at x = 0.25 and 0.75 map to device x = -0.75 and
    // -0.25, with depths 0.125 and 0.375; the mean is 0.25.
    assert_eq!(target.depth_at(0, 0), fx(0.25));
    assert_eq!(target.color_at(0, 0), 0xffffffff);
}

#[test]
fn rasterizing_never_moves_depth_farther() {
    let first = triangle((-0.9, -0.9), (0.9, -0.9), (0.0, 0.9), 0.4);
    let second = Triangle::new(
        Vector::new(fx(-1.0), fx(-1.0), fx(0.1)),
        Vector::new(fx(1.0), fx(-0.5), fx(0.9)),
        Vector::new(fx(-0.2), fx(1.0), fx(0.3)),
    );
    let mut target = RenderTarget::new(12, 12);
    let grey = SolidColorShader(rgba(0.5, 0.5, 0.5, 0.5));
    rasterize_barycentric_ccw(&first, &mut target, &camera(), &SimpleMultiSampler(2), &grey);
    let before = snapshot(&target);
    rasterize_barycentric_ccw(&second, &mut target, &camera(), &SimpleMultiSampler(2), &grey);
    let after = snapshot(&target);
    let mut changed = 0;
    for (old, new) in before.iter().zip(after.iter()) {
        assert!(new.1.raw() <= old.1.raw());
        if new.1 == old.1 {
            assert_eq!(new.0, old.0);
        } else {
            changed += 1;
        }
    }
    assert!(changed > 0);
}

#[test]
fn wide_targets_are_sampled_pixel_by_pixel() {
    // 40001 columns: column x has its sample at device x = (x + 0.5 - 20000) / 20000.
    // The triangle spans device x from 0.7375 to 0.8625 on the row at device
    // y = -0.5, that is the columns from about 34750 to about 37249.
    let tri = triangle((0.7, -2.0), (0.9, -2.0), (0.8, 2.0), 0.5);
    let mut target = RenderTarget::new(40001, 3);
    rasterize_barycentric_ccw(
        &tri,
        &mut target,
        &camera(),
        &SimpleMultiSampler(1),
        &SolidColorShader(Color::white()),
    );
    let painted: Vec<usize> = (0..40001).filter(|&x| target.color_at(x, 1) != 0).collect();
    let first = painted[0];
    let last = painted[painted.len() - 1];
    assert!(34749 <= first && first <= 34751);
    assert!(37248 <= last && last <= 37250);
    // The painted columns are one unbroken run.
    assert_eq!(painted.len(), last - first + 1);
    assert_eq!(target.color_at(36000, 1), 0xffffffff);
    assert_eq!(target.color_at(32767, 1), 0);
    assert_eq!(target.color_at(32768, 1), 0);
    assert_eq!(target.color_at(33000, 1), 0);
    assert_eq!(target.color_at(39000, 1), 0);
    assert_eq!(target.color_at(40000, 1), 0);
}
