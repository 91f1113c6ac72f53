use raytracer::intersect::{SphereTerms, TriangleTerms};
use raytracer::scalar::Scalar;

fn s(v: f64) -> Scalar {
    Scalar::from_bits(v.to_bits())
}

fn sub(a: [f64; 3], b: [f64; 3]) -> [f64; 3] {
    [a[0] - b[0], a[1] - b[1], a[2] - b[2]]
}

fn add(a: [f64; 3], b: [f64; 3]) -> [f64; 3] {
    [a[0] + b[0], a[1] + b[1], a[2] + b[2]]
}

fn scale(a: [f64; 3], k: f64) -> [f64; 3] {
    [a[0] * k, a[1] * k, a[2] * k]
}

fn dot(a: [f64; 3], b: [f64; 3]) -> f64 {
    a[0] * b[0] + a[1] * b[1] + a[2] * b[2]
}

fn cross(u: [f64; 3], v: [f64; 3]) -> [f64; 3] {
    [u[1] * v[2] - u[2] * v[1], u[2] * v[0] - u[0] * v[2], u[0] * v[1] - u[1] * v[0]]
}

fn dist(a: [f64; 3], b: [f64; 3]) -> f64 {
    dot(sub(b, a), sub(b, a)).sqrt()
}

/// The terms of the triangle test, and the ray parameter.
fn triangle_terms(a: [f64; 3], b: [f64; 3], c: [f64; 3], origin: [f64; 3], direction: [f64; 3]) -> (TriangleTerms, f64) {
    let edge1 = sub(b, a);
    let edge2 = sub(c, a);
    let pvec = cross(direction, edge2);
    let det = dot(edge1, pvec);
    let tvec = sub(origin, a);
    let u = dot(pvec, tvec) / det;
    let qvec = cross(tvec, edge1);
    let v = dot(direction, qvec) / det;
    let t = dot(edge2, qvec) / det;
    (TriangleTerms { det: s(det), u: s(u), v: s(v), u_plus_v: s(u + v), t: s(t) }, t)
}

fn sphere_terms(center: [f64; 3], radius: f64, origin: [f64; 3], direction: [f64; 3]) -> SphereTerms {
    let oc = sub(origin, center);
    let oc_d = dot(oc, direction);
    let a = sub(oc, scale(direction, oc_d));
    SphereTerms {
        approach: s(oc_d),
        origin_sq: s(dot(oc, oc)),
        radius_sq: s(radius * radius),
        passing_sq: s(dot(a, a)),
    }
}

#[test]
fn tri_hit() {
    let a = [-1.0, 0.0, 0.0];
    let b = [0.0, 1.0, 0.0];
    let c = [1.0, 0.0, 0.0];
    let origin = [0.0, 0.33, 1.0];
    let direction = [0.0, 0.0, -1.0];
    let (terms, t) = triangle_terms(a, b, c, origin, direction);
    assert_eq!(terms.is_hit(), true);
    let point = add(origin, scale(direction, t));
    assert!(point[2].abs() < 1e-12);

    let origin = [0.0, 0.0, 0.0];
    let up = [0.0, 0.0, 1.0];
    let right = [1.0, 0.0, 0.0];
    assert_eq!(dist(origin, up), 1.0);
    assert_eq!(dist(origin, right), 1.0);
}

#[test]
fn a_ray_parallel_to_the_plane_misses_from_any_origin() {
    let a = [-1.0, 0.0, 0.0];
    let b = [0.0, 1.0, 0.0];
    let c = [1.0, 0.0, 0.0];
    let direction = [1.0, 0.0, 0.0];
    for origin in [[0.0, 0.33, 1.0], [0.0, 0.33, 0.0], [-5.0, 0.2, 0.0], [3.0, 3.0, -2.0]] {
        let (terms, _) = triangle_terms(a, b, c, origin, direction);
        assert!(!terms.is_hit());
    }
}

#[test]
fn a_determinant_within_epsilon_misses_whatever_the_rest() {
    for det in [0.0, -0.0, 0.00000009, -0.00000009, 5.0e-324] {
        let terms = TriangleTerms { det: s(det), u: s(0.25), v: s(0.25), u_plus_v: s(0.5), t: s(1.0) };
        assert!(!terms.is_hit());
    }
}

#[test]
fn a_determinant_at_epsilon_does_not_count_as_parallel() {
    let terms = TriangleTerms { det: s(0.0000001), u: s(0.25), v: s(0.25), u_plus_v: s(0.5), t: s(1.0) };
    assert!(terms.is_hit());
    let terms = TriangleTerms { det: s(-0.0000001), u: s(0.25), v: s(0.25), u_plus_v: s(0.5), t: s(1.0) };
    assert!(terms.is_hit());
}

#[test]
fn a_crossing_outside_the_triangle_misses() {
    let inside = TriangleTerms { det: s(2.0), u: s(0.25), v: s(0.25), u_plus_v: s(0.5), t: s(1.0) };
    assert!(inside.is_hit());
    assert!(!TriangleTerms { u: s(-0.1), ..inside }.is_hit());
    assert!(!TriangleTerms { u: s(1.1), ..inside }.is_hit());
    assert!(!TriangleTerms { v: s(-0.1), ..inside }.is_hit());
    assert!(!TriangleTerms { u_plus_v: s(1.1), ..inside }.is_hit());
}

#[test]
fn the_edges_of_the_triangle_belong_to_it() {
    let edge = TriangleTerms { det: s(2.0), u: s(0.0), v: s(1.0), u_plus_v: s(1.0), t: s(1.0) };
    assert!(edge.is_hit());
    let corner = TriangleTerms { det: s(2.0), u: s(1.0), v: s(0.0), u_plus_v: s(1.0), t: s(1.0) };
    assert!(corner.is_hit());
}

#[test]
fn a_crossing_behind_the_origin_misses() {
    let ahead = TriangleTerms { det: s(2.0), u: s(0.25), v: s(0.25), u_plus_v: s(0.5), t: s(0.0000001) };
    assert!(ahead.is_hit());
    assert!(!TriangleTerms { t: s(0.00000009), ..ahead }.is_hit());
    assert!(!TriangleTerms { t: s(0.0), ..ahead }.is_hit());
    assert!(!TriangleTerms { t: s(-3.0), ..ahead }.is_hit());
}

#[test]
fn a_triangle_behind_the_ray_misses() {
    let a = [-1.0, 0.0, 0.0];
    let b = [0.0, 1.0, 0.0];
    let c = [1.0, 0.0, 0.0];
    let (terms, _) = triangle_terms(a, b, c, [0.0, 0.33, 1.0], [0.0, 0.0, 1.0]);
    assert!(!terms.is_hit());
}

#[test]
fn a_ray_towards_a_sphere_hits_it() {
    let terms = sphere_terms([0.0, 0.0, 0.0], 1.0, [0.0, 0.0, 5.0], [0.0, 0.0, -1.0]);
    assert!(terms.is_hit());
}

#[test]
fn a_ray_from_inside_a_sphere_misses() {
    let center = [1.0, 2.0, 3.0];
    for radius in [0.5, 1.0, 4.0] {
        for offset in [[0.0, 0.0, 0.0], [0.1, 0.0, 0.0], [0.0, -0.2, 0.3]] {
            let origin = add(center, offset);
            for direction in [[0.0, 0.0, -1.0], [1.0, 0.0, 0.0], [0.0, -1.0, 0.0]] {
                let terms = sphere_terms(center, radius, origin, direction);
                assert!(!terms.is_hit());
            }
        }
    }
}

#[test]
fn an_origin_inside_misses_whatever_the_rest() {
    let terms = SphereTerms { approach: s(-1.0), origin_sq: s(0.99), radius_sq: s(1.0), passing_sq: s(0.0) };
    assert!(!terms.is_hit());
    let on_the_surface = SphereTerms { origin_sq: s(1.0), ..terms };
    assert!(on_the_surface.is_hit());
}

#[test]
fn a_ray_leading_away_from_a_sphere_misses() {
    let terms = sphere_terms([0.0, 0.0, 0.0], 1.0, [0.0, 0.0, 5.0], [0.0, 0.0, 1.0]);
    assert!(!terms.is_hit());
}

#[test]
fn a_ray_passing_a_sphere_by_misses() {
    let terms = sphere_terms([0.0, 0.0, 0.0], 1.0, [2.0, 0.0, 5.0], [0.0, 0.0, -1.0]);
    assert!(!terms.is_hit());
    let grazing = sphere_terms([0.0, 0.0, 0.0], 1.0, [1.0, 0.0, 5.0], [0.0, 0.0, -1.0]);
    assert!(grazing.is_hit());
}
