use rasterust::camera::Camera;
use rasterust::fixed::Fixed;
use rasterust::geometry::Triangle;
use rasterust::linalg::Vector;

fn fx(v: f64) -> Fixed {
    Fixed::from_raw((v * 65536.0).round() as i32)
}

fn camera(aspect: f64, fov_tan: f64, near: f64, far: f64) -> Camera {
    Camera::new(Vector::zero(), Vector::zero(), fx(aspect), fx(fov_tan), fx(near), fx(far))
}

#[test]
fn project_vector_follows_the_formulas() {
    let cam = camera(2.0, 1.0, 0.0, 20.0);
    let p = cam.project_vector(&Vector::new(fx(700.0), fx(500.0), fx(10.0)));
    // x = 700 / (2 * 1 * 10), y = 500 / 10, z = (10 - 0) / (20 - 0)
    assert_eq!(p, Some(Vector::new(fx(35.0), fx(50.0), fx(0.5))));
}

#[test]
fn project_vector_uses_near_and_far() {
    let cam = camera(1.0, 0.5, 1.0, 5.0);
    let p = cam.project_vector(&Vector::new(fx(1.0), fx(-1.0), fx(2.0)));
    // x = 1 / (1 * 0.5 * 2) = 1, y = -1 / 2, z = (2 - 1) / (5 - 1)
    assert_eq!(p, Some(Vector::new(fx(1.0), fx(-0.5), fx(0.25))));
}

#[test]
fn project_vector_rounds_down() {
    let cam = camera(1.0, 1.0, 0.0, 3.0);
    let p = cam.project_vector(&Vector::new(fx(1.0), fx(-1.0), fx(3.0))).unwrap();
    assert_eq!(p.x(), Fixed::from_raw(21845));
    assert_eq!(p.y(), Fixed::from_raw(-21846));
    assert_eq!(p.z(), Fixed::one());
    assert_eq!(p.w(), Fixed::one());
}

#[test]
fn project_vector_rejects_zero_divisors() {
    let cam = camera(2.0, 1.0, 0.0, 20.0);
    assert_eq!(cam.project_vector(&Vector::new(fx(1.0), fx(1.0), fx(0.0))), None);
    let flat = camera(2.0, 1.0, 3.0, 3.0);
    assert_eq!(flat.project_vector(&Vector::new(fx(1.0), fx(1.0), fx(2.0))), None);
    let no_ratio = camera(0.0, 1.0, 0.0, 20.0);
    assert_eq!(no_ratio.project_vector(&Vector::new(fx(1.0), fx(1.0), fx(2.0))), None);
    let no_fov = camera(1.0, 0.0, 0.0, 20.0);
    assert_eq!(no_fov.project_vector(&Vector::new(fx(1.0), fx(1.0), fx(2.0))), None);
}

#[test]
fn project_triangle_projects_each_vertex() {
    let cam = camera(2.0, 1.0, 0.0, 20.0);
    let tri = Triangle::new(
        Vector::new(fx(1.0), fx(1.0), fx(2.0)),
        Vector::new(fx(1.0), fx(-1.0), fx(2.0)),
        Vector::new(fx(-1.0), fx(-1.0), fx(2.0)),
    );
    let p = cam.project_triangle(&tri).unwrap();
    // z = (2 - 0) / (20 - 0) = 0.1, rounded down to 6553 / 65536
    let tenth = Fixed::from_raw(6553);
    assert_eq!(p.0, Vector::new(fx(0.25), fx(0.5), tenth));
    assert_eq!(p.1, Vector::new(fx(0.25), fx(-0.5), tenth));
    assert_eq!(p.2, Vector::new(fx(-0.25), fx(-0.5), tenth));
    assert_eq!(Some(p.0), cam.project_vector(&tri.0));
    assert_eq!(Some(p.1), cam.project_vector(&tri.1));
    assert_eq!(Some(p.2), cam.project_vector(&tri.2));
}

#[test]
fn project_triangle_fails_with_any_vertex() {
    let cam = camera(2.0, 1.0, 0.0, 20.0);
    let good = Vector::new(fx(1.0), fx(1.0), fx(2.0));
    let bad = Vector::new(fx(1.0), fx(1.0), fx(0.0));
    assert_eq!(cam.project_triangle(&Triangle::new(bad, good, good)), None);
    assert_eq!(cam.project_triangle(&Triangle::new(good, bad, good)), None);
    assert_eq!(cam.project_triangle(&Triangle::new(good, good, bad)), None);
}

#[test]
fn contains_point_is_the_closed_cube() {
    let cam = camera(2.0, 1.0, 0.0, 20.0);
    assert!(cam.contains_point((fx(0.0), fx(0.0), fx(0.0))));
    assert!(cam.contains_point((fx(1.0), fx(-1.0), fx(1.0))));
    assert!(cam.contains_point((fx(-1.0), fx(1.0), fx(-1.0))));
    let over = Fixed::from_raw(65537);
    let under = Fixed::from_raw(-65537);
    assert!(!cam.contains_point((over, fx(0.0), fx(0.0))));
    assert!(!cam.contains_point((under, fx(0.0), fx(0.0))));
    assert!(!cam.contains_point((fx(0.0), over, fx(0.0))));
    assert!(!cam.contains_point((fx(0.0), under, fx(0.0))));
    assert!(!cam.contains_point((fx(0.0), fx(0.0), over)));
    assert!(!cam.contains_point((fx(0.0), fx(0.0), under)));
}
