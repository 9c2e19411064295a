use raytracer::parallelogram::{check_bounds, crosses_plane, in_front, intersect, tolerance, EPSILON_BITS};
use raytracer::scalar::Scalar;

fn s(x: f64) -> Scalar {
    Scalar::from_bits(x.to_bits())
}

fn f(x: Scalar) -> f64 {
    f64::from_bits(x.to_bits())
}

fn sub(a: [f64; 3], b: [f64; 3]) -> [f64; 3] {
    [a[0] - b[0], a[1] - b[1], a[2] - b[2]]
}

fn add(a: [f64; 3], b: [f64; 3]) -> [f64; 3] {
    [a[0] + b[0], a[1] + b[1], a[2] + b[2]]
}

fn scale(a: [f64; 3], k: f64) -> [f64; 3] {
    [a[0] * k, a[1] * k, a[2] * k]
}

fn dot(a: [f64; 3], b: [f64; 3]) -> f64 {
    a[0] * b[0] + a[1] * b[1] + a[2] * b[2]
}

fn cross(a: [f64; 3], b: [f64; 3]) -> [f64; 3] {
    [a[1] * b[2] - a[2] * b[1], a[2] * b[0] - a[0] * b[2], a[0] * b[1] - a[1] * b[0]]
}

fn normalized(a: [f64; 3]) -> [f64; 3] {
    scale(a, 1.0 / dot(a, a).sqrt())
}

struct Parallelogram {
    p: [f64; 3],
    u: [f64; 3],
    v: [f64; 3],
    normal: [f64; 3],
}

fn parallelogram(p: [f64; 3], u: [f64; 3], v: [f64; 3]) -> Parallelogram {
    Parallelogram { p, u, v, normal: normalized(cross(u, v)) }
}

/// Hit point and normal of a ray on a parallelogram.
fn hit(
    surface: &Parallelogram,
    origin: [f64; 3],
    direction: [f64; 3],
) -> Option<([f64; 3], [f64; 3])> {
    let direction = normalized(direction);
    let denom = dot(direction, surface.normal);
    let t = dot(sub(surface.p, origin), surface.normal) / denom;
    let point = add(origin, scale(direction, t));
    let local = sub(point, surface.p);
    let a = dot(local, surface.u) / dot(surface.u, surface.u);
    let b = dot(local, surface.v) / dot(surface.v, surface.v);
    let t = f(intersect(s(denom), s(t), s(a), s(b))?);
    Some((add(origin, scale(direction, t)), surface.normal))
}

fn make_test_surface() -> Parallelogram {
    parallelogram([0.0, 0.0, 0.0], [2.0, 0.0, 0.0], [0.0, 2.0, 0.0])
}

#[test]
fn test_surface_intersection() {
    let surface = make_test_surface();

    let ray_origin = [1.0, 1.0, 10.0];
    let ray_direction = [0.0, 0.0, -1.0];

    let intersection = hit(&surface, ray_origin, ray_direction).unwrap();
    assert_eq!(intersection.0, [1.0, 1.0, 0.0]);
    assert_eq!(intersection.1, [0.0, 0.0, 1.0]);
}

#[test]
fn test_surface_bounds() {
    let surface = make_test_surface();

    let ray_origin = [1.0, 1.0, 10.0];
    let ray_direction = [3.0, 0.0, -10.0];

    assert_eq!(hit(&surface, ray_origin, ray_direction), None);
}

#[test]
fn the_tolerance_is_one_ten_thousandth() {
    assert_eq!(EPSILON_BITS, 1.0e-4f64.to_bits());
    assert_eq!(f(tolerance()), 1.0e-4);
}

#[test]
fn a_ray_along_the_plane_does_not_cross_it() {
    assert!(!crosses_plane(s(0.0)));
    assert!(!crosses_plane(s(1.0e-4)));
    assert!(!crosses_plane(s(-1.0e-4)));
    assert!(!crosses_plane(s(5.0e-5)));
    assert!(!crosses_plane(s(f64::NAN)));
    assert!(crosses_plane(s(1.000_000_1e-4)));
    assert!(crosses_plane(s(-1.000_000_1e-4)));
    assert!(crosses_plane(s(1.0)));
    assert!(crosses_plane(s(-1.0)));
    let surface = make_test_surface();
    assert_eq!(hit(&surface, [1.0, 1.0, 10.0], [1.0, 0.0, 0.0]), None);
}

#[test]
fn a_hit_at_the_origin_of_the_ray_is_not_a_hit() {
    assert!(!in_front(s(0.0)));
    assert!(!in_front(s(-1.0)));
    assert!(!in_front(s(1.0e-4)));
    assert!(!in_front(s(f64::NAN)));
    assert!(in_front(s(1.000_000_1e-4)));
    assert!(in_front(s(10.0)));
    let surface = make_test_surface();
    assert_eq!(hit(&surface, [1.0, 1.0, 0.0], [0.0, 0.0, -1.0]), None);
    assert_eq!(hit(&surface, [1.0, 1.0, -10.0], [0.0, 0.0, -1.0]), None);
}

#[test]
fn the_patch_includes_its_border() {
    assert!(check_bounds(s(0.0), s(0.0)));
    assert!(check_bounds(s(1.0), s(1.0)));
    assert!(check_bounds(s(0.5), s(0.5)));
    assert!(check_bounds(s(-0.0), s(1.0)));
    assert!(!check_bounds(s(-1.0e-9), s(0.5)));
    assert!(!check_bounds(s(0.5), s(-1.0e-9)));
    assert!(!check_bounds(s(1.000_000_001), s(0.5)));
    assert!(!check_bounds(s(0.5), s(1.000_000_001)));
    assert!(!check_bounds(s(2.0), s(0.5)));
    assert!(!check_bounds(s(f64::NAN), s(0.5)));
    assert!(!check_bounds(s(0.5), s(f64::NAN)));
    let surface = make_test_surface();
    assert!(hit(&surface, [2.0, 2.0, 10.0], [0.0, 0.0, -1.0]).is_some());
    assert!(hit(&surface, [0.0, 0.0, 10.0], [0.0, 0.0, -1.0]).is_some());
    assert!(hit(&surface, [2.5, 1.0, 10.0], [0.0, 0.0, -1.0]).is_none());
}

#[test]
fn the_parameter_of_an_accepted_hit_is_returned() {
    assert_eq!(intersect(s(-1.0), s(10.0), s(0.5), s(0.5)), Some(s(10.0)));
    assert_eq!(intersect(s(1.0), s(10.0), s(0.5), s(0.5)), Some(s(10.0)));
    assert_eq!(intersect(s(0.0), s(10.0), s(0.5), s(0.5)), None);
    assert_eq!(intersect(s(-1.0), s(0.0), s(0.5), s(0.5)), None);
    assert_eq!(intersect(s(-1.0), s(10.0), s(1.5), s(0.5)), None);
    assert_eq!(intersect(s(-1.0), s(10.0), s(0.5), s(-0.5)), None);
}
