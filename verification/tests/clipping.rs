use rusterer::fx::FX_ONE;
use rusterer::geometry::{
    dist, triangle_clip_against_plane, vector_intersect_plane, vector_normalize, Triangle, Vec2d,
    Vec3d,
};

fn v(x: i64, y: i64, z: i64) -> Vec3d {
    Vec3d { x, y, z, w: FX_ONE }
}

fn t(u: i64, w: i64) -> Vec2d {
    Vec2d { u, v: w, w: FX_ONE }
}

fn tri(p0: Vec3d, p1: Vec3d, p2: Vec3d) -> Triangle {
    Triangle {
        points: [p0, p1, p2],
        texture_points: [t(0, 0), t(FX_ONE, 0), t(0, FX_ONE)],
    }
}

fn zero_tri() -> Triangle {
    tri(v(0, 0, 0), v(0, 0, 0), v(0, 0, 0))
}

// the plane z = 1 with its normal toward +z; inside is z >= 1
fn plane() -> (Vec3d, Vec3d) {
    (v(0, 0, FX_ONE), v(0, 0, FX_ONE))
}

fn area(p: &Triangle) -> f64 {
    let xs: Vec<f64> = p.points.iter().map(|q| q.x as f64 / 65536.0).collect();
    let ys: Vec<f64> = p.points.iter().map(|q| q.y as f64 / 65536.0).collect();
    let zs: Vec<f64> = p.points.iter().map(|q| q.z as f64 / 65536.0).collect();
    let ux = xs[1] - xs[0];
    let uy = ys[1] - ys[0];
    let uz = zs[1] - zs[0];
    let wx = xs[2] - xs[0];
    let wy = ys[2] - ys[0];
    let wz = zs[2] - zs[0];
    let cx = uy * wz - uz * wy;
    let cy = uz * wx - ux * wz;
    let cz = ux * wy - uy * wx;
    0.5 * (cx * cx + cy * cy + cz * cz).sqrt()
}

#[test]
fn fully_inside_triangle_is_kept_unchanged() {
    let (pp, pn) = plane();
    let input = tri(v(0, 0, 2 * FX_ONE), v(FX_ONE, 0, 3 * FX_ONE), v(0, FX_ONE, 2 * FX_ONE));
    let mut o1 = zero_tri();
    let mut o2 = zero_tri();
    let n = triangle_clip_against_plane(&pp, &pn, &input, &mut o1, &mut o2);
    assert_eq!(n, 1);
    assert_eq!(o1, input);
}

#[test]
fn fully_outside_triangle_is_discarded() {
    let (pp, pn) = plane();
    let input = tri(v(0, 0, 0), v(FX_ONE, 0, 0), v(0, FX_ONE, -FX_ONE));
    let mut o1 = zero_tri();
    let mut o2 = zero_tri();
    let before = o1;
    let n = triangle_clip_against_plane(&pp, &pn, &input, &mut o1, &mut o2);
    assert_eq!(n, 0);
    assert_eq!(o1, before);
    assert_eq!(o2, before);
}

#[test]
fn one_vertex_inside_yields_one_triangle_on_the_plane() {
    let (pp, pn) = plane();
    // one vertex at z = 3 inside, two at z = 0 outside
    let input = tri(v(0, 0, 3 * FX_ONE), v(2 * FX_ONE, 0, 0), v(0, 2 * FX_ONE, 0));
    let mut o1 = zero_tri();
    let mut o2 = zero_tri();
    let n = triangle_clip_against_plane(&pp, &pn, &input, &mut o1, &mut o2);
    assert_eq!(n, 1);
    // the kept vertex is the inside one
    assert_eq!(o1.points[0], input.points[0]);
    // the two new vertices lie on the plane, within rounding
    let nn = vector_normalize(&pn);
    for k in 1..3 {
        let d = dist(&o1.points[k], &nn, &pp);
        assert!(d.abs() <= 8, "distance of new vertex {} was {}", k, d);
    }
}

#[test]
fn two_vertices_inside_yield_two_triangles_covering_the_kept_area() {
    let (pp, pn) = plane();
    // two vertices at z = 2 inside, one at z = 0 outside
    let a = v(0, 0, 2 * FX_ONE);
    let b = v(2 * FX_ONE, 0, 2 * FX_ONE);
    let c = v(0, 0, 0);
    let input = Triangle {
        points: [a, b, c],
        texture_points: [t(0, 0), t(FX_ONE, 0), t(0, FX_ONE)],
    };
    let mut o1 = zero_tri();
    let mut o2 = zero_tri();
    let n = triangle_clip_against_plane(&pp, &pn, &input, &mut o1, &mut o2);
    assert_eq!(n, 2);
    // the documented vertex arrangement: first triangle keeps both inside
    // vertices, the second shares the first intersection
    assert_eq!(o1.points[0], a);
    assert_eq!(o1.points[1], b);
    assert_eq!(o2.points[0], b);
    assert_eq!(o2.points[1], o1.points[2]);
    // the two pieces together cover the part of the triangle above the
    // plane: z in [1, 2] cuts the triangle at half its height
    let kept = area(&o1) + area(&o2);
    let expected = area(&input) * 0.75;
    assert!((kept - expected).abs() < 0.01, "kept {} expected {}", kept, expected);
}

#[test]
fn segment_meets_plane_at_the_crossing_parameter() {
    let (pp, pn) = plane();
    // a segment from z = 0 to z = 4 crosses z = 1 at a quarter of its way
    let start = v(0, 0, 0);
    let end = v(4 * FX_ONE, 0, 4 * FX_ONE);
    let mut tt: i64 = 0;
    let p = vector_intersect_plane(&pp, &pn, start, end, &mut tt);
    assert_eq!(tt, FX_ONE / 4);
    assert_eq!(p.z, FX_ONE);
    assert_eq!(p.x, FX_ONE);
    assert_eq!(p.y, 0);
}
