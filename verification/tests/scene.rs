use rasterust::camera::Camera;
use rasterust::fixed::Fixed;
use rasterust::geometry::Mesh;
use rasterust::geometry::Model;
use rasterust::geometry::Triangle;
use rasterust::linalg::Vector;
use rasterust::raster::rasterize_barycentric_ccw;
use rasterust::samplers::SimpleMultiSampler;
use rasterust::scene::Scene;
use rasterust::shader::SolidColorShader;
use rasterust::color::Color;
use rasterust::target::RenderTarget;

fn fx(v: f64) -> Fixed {
    Fixed::from_raw((v * 65536.0).round() as i32)
}

fn point(x: f64, y: f64, z: f64) -> Vector {
    Vector::new(fx(x), fx(y), fx(z))
}

fn snapshot(t: &RenderTarget) -> Vec<(u32, Fixed)> {
    let mut cells = Vec::new();
    for y in 0..t.height() {
        for x in 0..t.width() {
            cells.push((t.color_at(x, y), t.depth_at(x, y)));
        }
    }
    cells
}

fn demo_camera(target: &RenderTarget) -> Camera {
    // A field of view of a right angle: the tangent of half of it is one.
    Camera::new(
        Vector::zero(),
        Vector::zero(),
        target.aspect().unwrap(),
        fx(1.0),
        fx(0.0),
        fx(20.0),
    )
}

#[test]
fn scene_keeps_its_camera() {
    let target = RenderTarget::new(40, 20);
    let scene = Scene::new(demo_camera(&target));
    assert_eq!(scene.camera().ratio, fx(2.0));
    assert_eq!(scene.camera().fov_tan, fx(1.0));
    assert_eq!(scene.camera().z_near, fx(0.0));
    assert_eq!(scene.camera().z_far, fx(20.0));
}

#[test]
fn empty_scene_renders_nothing() {
    let mut target = RenderTarget::new(6, 4);
    let mut scene = Scene::new(demo_camera(&target));
    scene.render(&mut target);
    scene.add_model(Model::new(Mesh::new(vec![])));
    scene.render(&mut target);
    for cell in snapshot(&target) {
        assert_eq!(cell, (0, Fixed::one()));
    }
}

#[test]
fn scene_render_equals_projecting_and_rasterizing() {
    let tri1 = Triangle::new(point(1.0, 1.0, 2.0), point(1.0, -1.0, 2.0), point(-1.0, -1.0, 2.0));
    let tri2 = Triangle::new(point(-10.0, 0.0, 10.0), point(700.0, 500.0, 10.0), point(0.0, 500.0, 5.0));

    let mut rendered = RenderTarget::new(40, 20);
    let camera = demo_camera(&rendered);
    let mut scene = Scene::new(camera);
    scene.add_model(Model::new(Mesh::new(vec![tri1, tri2])));
    scene.render(&mut rendered);

    let mut by_hand = RenderTarget::new(40, 20);
    for tri in [tri1, tri2] {
        let projected = camera.project_triangle(&tri).unwrap();
        // The transform of a model at the origin keeps x, y and z.
        rasterize_barycentric_ccw(
            &projected,
            &mut by_hand,
            &camera,
            &SimpleMultiSampler(2),
            &SolidColorShader(Color::white()),
        );
    }
    assert_eq!(snapshot(&rendered), snapshot(&by_hand));
    assert!(snapshot(&rendered).iter().any(|cell| cell.0 == 0xffffffff));
    assert!(snapshot(&rendered).iter().any(|cell| cell.0 == 0));
}

#[test]
fn scene_skips_triangles_that_cannot_be_projected() {
    let flat = Triangle::new(point(1.0, 1.0, 0.0), point(1.0, -1.0, 2.0), point(-1.0, -1.0, 2.0));
    let mut target = RenderTarget::new(8, 8);
    let mut scene = Scene::new(demo_camera(&target));
    scene.add_model(Model::new(Mesh::new(vec![flat])));
    scene.render(&mut target);
    for cell in snapshot(&target) {
        assert_eq!(cell, (0, Fixed::one()));
    }
}

#[test]
fn scene_moves_triangles_by_the_model_position() {
    let tri = Triangle::new(point(1.0, 1.0, 2.0), point(1.0, -1.0, 2.0), point(-1.0, -1.0, 2.0));
    let shifted = Triangle::new(point(1.5, 1.0, 4.0), point(1.5, -1.0, 4.0), point(-0.5, -1.0, 4.0));

    let mut moved = RenderTarget::new(16, 16);
    let camera = demo_camera(&moved);
    let mut scene = Scene::new(camera);
    let mut model = Model::new(Mesh::new(vec![tri]));
    model.pos = point(0.5, 0.0, 2.0);
    scene.add_model(model);
    scene.render(&mut moved);

    let mut direct = RenderTarget::new(16, 16);
    let mut plain = Scene::new(camera);
    plain.add_model(Model::new(Mesh::new(vec![shifted])));
    plain.render(&mut direct);

    assert_eq!(snapshot(&moved), snapshot(&direct));
    assert!(snapshot(&moved).iter().any(|cell| cell.0 != 0));
}

#[test]
fn models_are_drawn_in_the_order_added() {
    // Two models with the same footprint and the same depth: the depth test
    // is strict, so the one drawn first keeps the pixel.
    let tri = Triangle::new(point(1.0, 1.0, 2.0), point(1.0, -1.0, 2.0), point(-1.0, -1.0, 2.0));
    let mut once = RenderTarget::new(16, 16);
    let camera = demo_camera(&once);
    let mut single = Scene::new(camera);
    single.add_model(Model::new(Mesh::new(vec![tri])));
    single.render(&mut once);

    let mut twice = RenderTarget::new(16, 16);
    let mut double = Scene::new(camera);
    double.add_model(Model::new(Mesh::new(vec![tri])));
    double.add_model(Model::new(Mesh::new(vec![tri])));
    double.render(&mut twice);
    assert_eq!(snapshot(&once), snapshot(&twice));
}
