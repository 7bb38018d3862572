use rusterer::fx::FX_ONE;
use rusterer::geometry::{
    dist, matrix_make_identity, matrix_make_projection, matrix_make_rotation_y,
    matrix_make_translation, matrix_multiply_matrix, matrix_multiply_vector, matrix_point_at,
    matrix_quick_inverse, vector_add, vector_cross_product, vector_dot_product, vector_sub,
    Mat4x4, Vec3d,
};

fn sample_matrix() -> Mat4x4 {
    Mat4x4 {
        m: [
            [FX_ONE, 2 * FX_ONE, 3 * FX_ONE, 0],
            [-FX_ONE, FX_ONE / 2, 0, FX_ONE],
            [7 * FX_ONE, 0, -3 * FX_ONE, 0],
            [0, FX_ONE, FX_ONE, FX_ONE],
        ],
    }
}

#[test]
fn identity_times_matrix_is_matrix() {
    let id = matrix_make_identity();
    let m = sample_matrix();
    let p = matrix_multiply_matrix(&id, &m);
    for r in 0..4 {
        for c in 0..4 {
            assert_eq!(p.m[r][c], m.m[r][c]);
        }
    }
}

#[test]
fn identity_times_vector_is_vector() {
    let id = matrix_make_identity();
    let v = Vec3d { x: 123456, y: -7890, z: 55555, w: FX_ONE };
    let r = matrix_multiply_vector(&id, &v);
    assert_eq!(r.x, v.x);
    assert_eq!(r.y, v.y);
    assert_eq!(r.z, v.z);
    assert_eq!(r.w, v.w);
}

#[test]
fn vector_arithmetic_exact() {
    let a = Vec3d { x: FX_ONE, y: 2 * FX_ONE, z: 3 * FX_ONE, w: FX_ONE };
    let b = Vec3d { x: 4 * FX_ONE, y: -FX_ONE, z: FX_ONE / 2, w: FX_ONE };
    let s = vector_add(&a, &b);
    assert_eq!((s.x, s.y, s.z), (5 * FX_ONE, FX_ONE, 3 * FX_ONE + FX_ONE / 2));
    let d = vector_sub(&a, &b);
    assert_eq!((d.x, d.y, d.z), (-3 * FX_ONE, 3 * FX_ONE, 3 * FX_ONE - FX_ONE / 2));
    // dot: 1*4 + 2*(-1) + 3*0.5 = 3.5
    assert_eq!(vector_dot_product(&a, &b), 3 * FX_ONE + FX_ONE / 2);
    // cross of x and y unit vectors is the z unit vector
    let x = Vec3d { x: FX_ONE, y: 0, z: 0, w: FX_ONE };
    let y = Vec3d { x: 0, y: FX_ONE, z: 0, w: FX_ONE };
    let c = vector_cross_product(&x, &y);
    assert_eq!((c.x, c.y, c.z), (0, 0, FX_ONE));
}

#[test]
fn translation_moves_a_point() {
    let t = matrix_make_translation(10 * FX_ONE, -5 * FX_ONE, 2 * FX_ONE);
    let v = Vec3d { x: FX_ONE, y: FX_ONE, z: FX_ONE, w: FX_ONE };
    let r = matrix_multiply_vector(&t, &v);
    assert_eq!((r.x, r.y, r.z, r.w), (11 * FX_ONE, -4 * FX_ONE, 3 * FX_ONE, FX_ONE));
}

#[test]
fn rotation_y_quarter_turn() {
    // a quarter turn about Y sends +Z to +X (row-vector convention)
    let half_pi: i64 = 102944;
    let m = matrix_make_rotation_y(&half_pi);
    let z = Vec3d { x: 0, y: 0, z: FX_ONE, w: FX_ONE };
    let r = matrix_multiply_vector(&m, &z);
    assert!((r.x + FX_ONE).abs() < 200, "x was {}", r.x);
    assert_eq!(r.y, 0);
    assert!(r.z.abs() < 200, "z was {}", r.z);
}

#[test]
fn projection_matrix_entries() {
    // fov 90 degrees, square aspect, near 0.1, far 1000
    let p = matrix_make_projection(90 * FX_ONE, FX_ONE, 6554, 65536000);
    // 1/tan(45 degrees) is 1
    assert!((p.m[1][1] - FX_ONE).abs() < 200, "fov scale {}", p.m[1][1]);
    assert!((p.m[0][0] - FX_ONE).abs() < 200);
    // far/(far-near) is just above one
    assert!(p.m[2][2] >= FX_ONE && p.m[2][2] < FX_ONE + 20);
    // -far*near/(far-near) is about -0.1
    assert!((p.m[3][2] + 6554).abs() < 20, "depth offset {}", p.m[3][2]);
    assert_eq!(p.m[2][3], FX_ONE);
    assert_eq!(p.m[3][3], 0);
}

#[test]
fn quick_inverse_undoes_point_at() {
    let pos = Vec3d { x: 2 * FX_ONE, y: 3 * FX_ONE, z: -FX_ONE, w: FX_ONE };
    let target = Vec3d { x: 2 * FX_ONE, y: 3 * FX_ONE, z: 5 * FX_ONE, w: FX_ONE };
    let up = Vec3d { x: 0, y: FX_ONE, z: 0, w: FX_ONE };
    let cam = matrix_point_at(&pos, &target, &up);
    let view = matrix_quick_inverse(&cam);
    // the camera position maps to the view-space origin
    let r = matrix_multiply_vector(&view, &pos);
    assert!(r.x.abs() <= 4 && r.y.abs() <= 4 && r.z.abs() <= 4, "({}, {}, {})", r.x, r.y, r.z);
    // a point one unit ahead of the camera lands one unit down view-space Z
    let ahead = Vec3d { x: 2 * FX_ONE, y: 3 * FX_ONE, z: 0, w: FX_ONE };
    let ra = matrix_multiply_vector(&view, &ahead);
    assert!(ra.x.abs() <= 8 && ra.y.abs() <= 8);
    assert!((ra.z - FX_ONE).abs() <= 8, "z was {}", ra.z);
}

#[test]
fn dist_is_signed_plane_distance() {
    let n = Vec3d { x: 0, y: 0, z: FX_ONE, w: FX_ONE };
    let pp = Vec3d { x: 0, y: 0, z: 2 * FX_ONE, w: FX_ONE };
    let above = Vec3d { x: 5 * FX_ONE, y: 1, z: 3 * FX_ONE, w: FX_ONE };
    let below = Vec3d { x: 0, y: 0, z: 0, w: FX_ONE };
    assert_eq!(dist(&above, &n, &pp), FX_ONE);
    assert_eq!(dist(&below, &n, &pp), -2 * FX_ONE);
}

#[test]
fn composed_translations_add_up() {
    let a = matrix_make_translation(FX_ONE, 2 * FX_ONE, 3 * FX_ONE);
    let b = matrix_make_translation(10 * FX_ONE, 20 * FX_ONE, 30 * FX_ONE);
    let c = matrix_multiply_matrix(&a, &b);
    assert_eq!(c.m[3][0], 11 * FX_ONE);
    assert_eq!(c.m[3][1], 22 * FX_ONE);
    assert_eq!(c.m[3][2], 33 * FX_ONE);
    assert_eq!(c.m[0][0], FX_ONE);
    assert_eq!(c.m[3][3], FX_ONE);
}
