//! Vectors, 4x4 matrices and the homogeneous triangle clipper, all over the
//! fixed-point scalar of `fx`. Every operation's contract gives the exact raw
//! value of its result.

use vstd::prelude::*;
use crate::texture::Texture;
use crate::fx::{
    cos_fx_spec, fx_cos, fx_div, fx_div_spec, fx_mul, fx_mul_spec, fx_ok, fx_sin,
    isqrt_u128, lemma_fx_div_unit_neg, lemma_fx_mul_bound, lemma_fx_mul_one, lemma_fx_mul_unit,
    lemma_fx_mul_zero, sin_fx_spec, sqrt_spec, FX_LIM, FX_ONE,
};

verus! {

/// A 3D vector with a homogeneous W component, W set to one by default.
#[derive(Debug, Clone, Copy, PartialEq)]
pub struct Vec3d {
    pub x: i64,
    pub y: i64,
    pub z: i64,
    pub w: i64,
}

impl Default for Vec3d {
    fn default() -> (v: Vec3d)
        ensures
            v == (Vec3d { x: 0i64, y: 0i64, z: 0i64, w: FX_ONE }),
    {
        Vec3d { x: 0, y: 0, z: 0, w: FX_ONE }
    }
}

/// A texture coordinate with a homogeneous W component, W set to one by
/// default; after projection the W slot holds the inverse depth.
#[derive(Debug, Clone, Copy, PartialEq)]
pub struct Vec2d {
    pub u: i64,
    pub v: i64,
    pub w: i64,
}

impl Default for Vec2d {
    fn default() -> (v: Vec2d)
        ensures
            v == (Vec2d { u: 0i64, v: 0i64, w: FX_ONE }),
    {
        Vec2d { u: 0, v: 0, w: FX_ONE }
    }
}

/// A triangle: three positions and their three texture coordinates,
/// index-aligned.
#[derive(Debug, Clone, Copy, PartialEq)]
pub struct Triangle {
    pub points: [Vec3d; 3],
    pub texture_points: [Vec2d; 3],
}

impl Default for Triangle {
    fn default() -> (t: Triangle)
        ensures
            t == Triangle::zero(),
    {
        Triangle {
            points: [
                Vec3d { x: 0, y: 0, z: 0, w: FX_ONE },
                Vec3d { x: 0, y: 0, z: 0, w: FX_ONE },
                Vec3d { x: 0, y: 0, z: 0, w: FX_ONE },
            ],
            texture_points: [
                Vec2d { u: 0, v: 0, w: FX_ONE },
                Vec2d { u: 0, v: 0, w: FX_ONE },
                Vec2d { u: 0, v: 0, w: FX_ONE },
            ],
        }
    }
}

impl Triangle {
    /// The triangle of origin points, the default before a pipeline stage
    /// fills it; every homogeneous W starts at one.
    pub open spec fn zero() -> Triangle {
        Triangle {
            points: [
                Vec3d { x: 0i64, y: 0i64, z: 0i64, w: FX_ONE },
                Vec3d { x: 0i64, y: 0i64, z: 0i64, w: FX_ONE },
                Vec3d { x: 0i64, y: 0i64, z: 0i64, w: FX_ONE },
            ],
            texture_points: [
                Vec2d { u: 0i64, v: 0i64, w: FX_ONE },
                Vec2d { u: 0i64, v: 0i64, w: FX_ONE },
                Vec2d { u: 0i64, v: 0i64, w: FX_ONE },
            ],
        }
    }
}

/// All three scalar components lie within the admitted range.
pub open spec fn vec3_ok(v: Vec3d) -> bool {
    fx_ok(v.x as int) && fx_ok(v.y as int) && fx_ok(v.z as int)
}

/// The squared length of a vector, in raw-times-raw units.
pub open spec fn len_sq(v: Vec3d) -> int {
    v.x * v.x + v.y * v.y + v.z * v.z
}

/// The dot product of the spatial parts, as the library computes it.
pub open spec fn dot3_spec(a: Vec3d, b: Vec3d) -> int {
    fx_mul_spec(a.x as int, b.x as int) + fx_mul_spec(a.y as int, b.y as int) + fx_mul_spec(
        a.z as int,
        b.z as int,
    )
}

/// The normalized copy of a vector: each component divided by the integer
/// square root of the squared length.
pub open spec fn norm_spec(v: Vec3d) -> Vec3d {
    Vec3d {
        x: fx_div_spec(v.x as int, sqrt_spec(len_sq(v))) as i64,
        y: fx_div_spec(v.y as int, sqrt_spec(len_sq(v))) as i64,
        z: fx_div_spec(v.z as int, sqrt_spec(len_sq(v))) as i64,
        w: FX_ONE,
    }
}

/// Add a 'Vec3d' to a 'Vec3d'.
pub fn vector_add(v1: &Vec3d, v2: &Vec3d) -> (r: Vec3d)
    requires
        vec3_ok(*v1),
        vec3_ok(*v2),
    ensures
        r.x == v1.x + v2.x,
        r.y == v1.y + v2.y,
        r.z == v1.z + v2.z,
        r.w == FX_ONE,
{
    Vec3d { x: v1.x + v2.x, y: v1.y + v2.y, z: v1.z + v2.z, w: FX_ONE }
}

/// Subtract a 'Vec3d' from a 'Vec3d'.
pub fn vector_sub(v1: &Vec3d, v2: &Vec3d) -> (r: Vec3d)
    requires
        vec3_ok(*v1),
        vec3_ok(*v2),
    ensures
        r.x == v1.x - v2.x,
        r.y == v1.y - v2.y,
        r.z == v1.z - v2.z,
        r.w == FX_ONE,
{
    Vec3d { x: v1.x - v2.x, y: v1.y - v2.y, z: v1.z - v2.z, w: FX_ONE }
}

/// Multiply a 'Vec3d' by a constant 'k'.
pub fn vector_mul(v1: &Vec3d, k: i64) -> (r: Vec3d)
    requires
        vec3_ok(*v1),
        fx_ok(k as int),
    ensures
        r.x == fx_mul_spec(v1.x as int, k as int),
        r.y == fx_mul_spec(v1.y as int, k as int),
        r.z == fx_mul_spec(v1.z as int, k as int),
        r.w == FX_ONE,
{
    Vec3d { x: fx_mul(v1.x, k), y: fx_mul(v1.y, k), z: fx_mul(v1.z, k), w: FX_ONE }
}

/// Divide a 'Vec3d' by a constant 'k'.
pub fn vector_div(v1: &Vec3d, k: i64) -> (r: Vec3d)
    requires
        vec3_ok(*v1),
        k != 0,
    ensures
        r.x == fx_div_spec(v1.x as int, k as int),
        r.y == fx_div_spec(v1.y as int, k as int),
        r.z == fx_div_spec(v1.z as int, k as int),
        r.w == FX_ONE,
{
    Vec3d { x: fx_div(v1.x, k), y: fx_div(v1.y, k), z: fx_div(v1.z, k), w: FX_ONE }
}

/// Calculate the dot product of 2 'Vec3d' objects.
pub fn vector_dot_product(v1: &Vec3d, v2: &Vec3d) -> (r: i64)
    requires
        vec3_ok(*v1),
        vec3_ok(*v2),
    ensures
        r == dot3_spec(*v1, *v2),
{
    proof {
        lemma_fx_mul_bound(v1.x as int, v2.x as int, FX_LIM as int, FX_LIM as int);
        lemma_fx_mul_bound(v1.y as int, v2.y as int, FX_LIM as int, FX_LIM as int);
        lemma_fx_mul_bound(v1.z as int, v2.z as int, FX_LIM as int, FX_LIM as int);
    }
    fx_mul(v1.x, v2.x) + fx_mul(v1.y, v2.y) + fx_mul(v1.z, v2.z)
}

/// Calculate the length of a 'Vec3d' object: the integer square root of the
/// squared length.
pub fn vector_length(v1: &Vec3d) -> (r: i64)
    requires
        vec3_ok(*v1),
    ensures
        r == sqrt_spec(len_sq(*v1)),
        0 <= r <= 0x80_0000_0000i64,
        r * r <= len_sq(*v1) < (r + 1) * (r + 1),
{
    proof {
        assert(v1.x * v1.x <= FX_LIM * FX_LIM && v1.y * v1.y <= FX_LIM * FX_LIM && v1.z * v1.z
            <= FX_LIM * FX_LIM && v1.x * v1.x >= 0 && v1.y * v1.y >= 0 && v1.z * v1.z >= 0)
            by (nonlinear_arith)
            requires
                vec3_ok(*v1),
        ;
    }
    let xx: i128 = (v1.x as i128) * (v1.x as i128);
    let yy: i128 = (v1.y as i128) * (v1.y as i128);
    let zz: i128 = (v1.z as i128) * (v1.z as i128);
    let s: u128 = (xx + yy + zz) as u128;
    let r: u128 = isqrt_u128(s);
    proof {
        assert(r <= 0x80_0000_0000u128) by (nonlinear_arith)
            requires
                r * r <= s,
                s <= 3 * ((FX_LIM as int) * (FX_LIM as int)),
        ;
    }
    r as i64
}

/// Each component of a vector is bounded by the vector's length.
proof fn lemma_comp_le_len(x: int, s: int, l: int)
    by (nonlinear_arith)
    requires
        x * x <= s,
        0 <= l,
        s < (l + 1) * (l + 1),
    ensures
        -l <= x <= l,
{
}

/// Normalize a 'Vec3d' object. The zero vector is excluded: its direction is
/// undefined.
pub fn vector_normalize(v: &Vec3d) -> (r: Vec3d)
    requires
        vec3_ok(*v),
        len_sq(*v) > 0,
    ensures
        r == norm_spec(*v),
        -FX_ONE <= r.x <= FX_ONE,
        -FX_ONE <= r.y <= FX_ONE,
        -FX_ONE <= r.z <= FX_ONE,
        r.w == FX_ONE,
{
    let l: i64 = vector_length(v);
    proof {
        let ls = len_sq(*v);
        let li = l as int;
        assert(v.x * v.x <= ls && v.y * v.y <= ls && v.z * v.z <= ls) by (nonlinear_arith)
            requires
                ls == v.x * v.x + v.y * v.y + v.z * v.z,
        ;
        lemma_comp_le_len(v.x as int, ls, li);
        lemma_comp_le_len(v.y as int, ls, li);
        lemma_comp_le_len(v.z as int, ls, li);
        crate::fx::lemma_fx_div_unit(v.x as int, li);
        crate::fx::lemma_fx_div_unit(v.y as int, li);
        crate::fx::lemma_fx_div_unit(v.z as int, li);
    }
    Vec3d { x: fx_div(v.x, l), y: fx_div(v.y, l), z: fx_div(v.z, l), w: FX_ONE }
}

/// Calculate the cross product of 2 'Vec3d' objects.
pub fn vector_cross_product(v1: &Vec3d, v2: &Vec3d) -> (r: Vec3d)
    requires
        vec3_ok(*v1),
        vec3_ok(*v2),
    ensures
        r.x == fx_mul_spec(v1.y as int, v2.z as int) - fx_mul_spec(v1.z as int, v2.y as int),
        r.y == fx_mul_spec(v1.z as int, v2.x as int) - fx_mul_spec(v1.x as int, v2.z as int),
        r.z == fx_mul_spec(v1.x as int, v2.y as int) - fx_mul_spec(v1.y as int, v2.x as int),
        r.w == FX_ONE,
{
    proof {
        lemma_fx_mul_bound(v1.y as int, v2.z as int, FX_LIM as int, FX_LIM as int);
        lemma_fx_mul_bound(v1.z as int, v2.y as int, FX_LIM as int, FX_LIM as int);
        lemma_fx_mul_bound(v1.z as int, v2.x as int, FX_LIM as int, FX_LIM as int);
        lemma_fx_mul_bound(v1.x as int, v2.z as int, FX_LIM as int, FX_LIM as int);
        lemma_fx_mul_bound(v1.x as int, v2.y as int, FX_LIM as int, FX_LIM as int);
        lemma_fx_mul_bound(v1.y as int, v2.x as int, FX_LIM as int, FX_LIM as int);
    }
    Vec3d {
        x: fx_mul(v1.y, v2.z) - fx_mul(v1.z, v2.y),
        y: fx_mul(v1.z, v2.x) - fx_mul(v1.x, v2.z),
        z: fx_mul(v1.x, v2.y) - fx_mul(v1.y, v2.x),
        w: FX_ONE,
    }
}

/// Law: normalizing a vector that lies along an axis gives a vector of
/// exactly unit length. (Off-axis, truncation can leave the length one or
/// two raw units from one.)
pub proof fn lemma_normalize_axis_unit(x: i64)
    requires
        1 <= x,
    ensures
        ({
            let v = Vec3d { x, y: 0i64, z: 0i64, w: FX_ONE };
            crate::fx::sqrt_spec(len_sq(norm_spec(v))) == FX_ONE
        }),
{
    let v = Vec3d { x, y: 0i64, z: 0i64, w: FX_ONE };
    assert(len_sq(v) == x * x);
    assert(x * x < (x + 1) * (x + 1)) by (nonlinear_arith)
        requires
            1 <= x,
    ;
    crate::fx::lemma_sqrt_unique((x * x) as int, x as int);
    let l = crate::fx::sqrt_spec(len_sq(v));
    assert(l == x);
    assert(fx_div_spec(x as int, l) == 65536) by (nonlinear_arith)
        requires
            l == x,
            1 <= x,
    ;
    assert(fx_div_spec(0, l) == 0) by (nonlinear_arith)
        requires
            1 <= l,
    ;
    let n = norm_spec(v);
    assert(n.x == 65536 && n.y == 0 && n.z == 0);
    assert(len_sq(n) == 65536 * 65536);
    assert(65536int * 65536 < (65536 + 1) * (65536 + 1)) by (nonlinear_arith);
    crate::fx::lemma_sqrt_unique((65536 * 65536) as int, 65536int);
}

/// The signed distance of a point from a plane through 'pp' with the
/// pre-normalized normal 'n'.
pub open spec fn dist_spec(p: Vec3d, n: Vec3d, pp: Vec3d) -> int {
    dot3_spec(n, p) - dot3_spec(n, pp)
}

/// Signed distance of point 'p' from the plane through 'plane_p' with normal
/// 'plane_n'; callers pass an already-normalized normal.
pub fn dist(p: &Vec3d, plane_n: &Vec3d, plane_p: &Vec3d) -> (r: i64)
    requires
        vec3_ok(*p),
        vec3_ok(*plane_n),
        vec3_ok(*plane_p),
    ensures
        r == dist_spec(*p, *plane_n, *plane_p),
{
    let a: i64 = vector_dot_product(plane_n, p);
    let b: i64 = vector_dot_product(plane_n, plane_p);
    proof {
        lemma_fx_mul_bound(plane_n.x as int, p.x as int, FX_LIM as int, FX_LIM as int);
        lemma_fx_mul_bound(plane_n.y as int, p.y as int, FX_LIM as int, FX_LIM as int);
        lemma_fx_mul_bound(plane_n.z as int, p.z as int, FX_LIM as int, FX_LIM as int);
        lemma_fx_mul_bound(plane_n.x as int, plane_p.x as int, FX_LIM as int, FX_LIM as int);
        lemma_fx_mul_bound(plane_n.y as int, plane_p.y as int, FX_LIM as int, FX_LIM as int);
        lemma_fx_mul_bound(plane_n.z as int, plane_p.z as int, FX_LIM as int, FX_LIM as int);
    }
    a - b
}

/// A 4x4 matrix of fixed-point scalars, row-major in the convention
/// v' = v * M.
#[derive(Debug, Clone, Copy, PartialEq)]
pub struct Mat4x4 {
    pub m: [[i64; 4]; 4],
}

impl Default for Mat4x4 {
    fn default() -> (r: Mat4x4)
        ensures
            r == Mat4x4::zero(),
    {
        Mat4x4 { m: [[0, 0, 0, 0], [0, 0, 0, 0], [0, 0, 0, 0], [0, 0, 0, 0]] }
    }
}

impl Mat4x4 {
    /// The all-zero matrix.
    pub open spec fn zero() -> Mat4x4 {
        Mat4x4 {
            m: [
                [0i64, 0i64, 0i64, 0i64],
                [0i64, 0i64, 0i64, 0i64],
                [0i64, 0i64, 0i64, 0i64],
                [0i64, 0i64, 0i64, 0i64],
            ],
        }
    }

    /// The identity matrix.
    pub open spec fn identity() -> Mat4x4 {
        Mat4x4 {
            m: [
                [FX_ONE, 0i64, 0i64, 0i64],
                [0i64, FX_ONE, 0i64, 0i64],
                [0i64, 0i64, FX_ONE, 0i64],
                [0i64, 0i64, 0i64, FX_ONE],
            ],
        }
    }
}

/// Every entry lies within the admitted scalar range.
pub open spec fn mat4_ok(a: Mat4x4) -> bool {
    forall|r: int, c: int|
        0 <= r < 4 && 0 <= c < 4 ==> fx_ok(#[trigger] a.m[r][c] as int)
}

/// One component of the row-vector-times-matrix product.
pub open spec fn mat_vec_spec(m: Mat4x4, i: Vec3d, c: int) -> int {
    fx_mul_spec(i.x as int, m.m[0][c] as int) + fx_mul_spec(i.y as int, m.m[1][c] as int)
        + fx_mul_spec(i.z as int, m.m[2][c] as int) + fx_mul_spec(i.w as int, m.m[3][c] as int)
}

/// One entry of the matrix product.
pub open spec fn mat_mul_spec(m1: Mat4x4, m2: Mat4x4, r: int, c: int) -> int {
    fx_mul_spec(m1.m[r][0] as int, m2.m[0][c] as int) + fx_mul_spec(
        m1.m[r][1] as int,
        m2.m[1][c] as int,
    ) + fx_mul_spec(m1.m[r][2] as int, m2.m[2][c] as int) + fx_mul_spec(
        m1.m[r][3] as int,
        m2.m[3][c] as int,
    )
}

/// The homogeneous W component also lies within the admitted range.
pub open spec fn vec4_ok(v: Vec3d) -> bool {
    vec3_ok(v) && fx_ok(v.w as int)
}

/// Multiply a 'Mat4x4' by a 'Vec3d': row vector times matrix, producing a
/// new homogeneous vector including the transformed W.
pub fn matrix_multiply_vector(m: &Mat4x4, i: &Vec3d) -> (v: Vec3d)
    requires
        mat4_ok(*m),
        vec4_ok(*i),
    ensures
        v.x == mat_vec_spec(*m, *i, 0),
        v.y == mat_vec_spec(*m, *i, 1),
        v.z == mat_vec_spec(*m, *i, 2),
        v.w == mat_vec_spec(*m, *i, 3),
{
    let x = mat_vec_col(m, i, 0);
    let y = mat_vec_col(m, i, 1);
    let z = mat_vec_col(m, i, 2);
    let w = mat_vec_col(m, i, 3);
    Vec3d { x, y, z, w }
}

/// One column of the row-vector-times-matrix product.
fn mat_vec_col(m: &Mat4x4, i: &Vec3d, c: usize) -> (r: i64)
    requires
        mat4_ok(*m),
        vec4_ok(*i),
        c < 4,
    ensures
        r == mat_vec_spec(*m, *i, c as int),
{
    proof {
        lemma_fx_mul_bound(i.x as int, m.m[0][c as int] as int, FX_LIM as int, FX_LIM as int);
        lemma_fx_mul_bound(i.y as int, m.m[1][c as int] as int, FX_LIM as int, FX_LIM as int);
        lemma_fx_mul_bound(i.z as int, m.m[2][c as int] as int, FX_LIM as int, FX_LIM as int);
        lemma_fx_mul_bound(i.w as int, m.m[3][c as int] as int, FX_LIM as int, FX_LIM as int);
    }
    fx_mul(i.x, m.m[0][c]) + fx_mul(i.y, m.m[1][c]) + fx_mul(i.z, m.m[2][c]) + fx_mul(
        i.w,
        m.m[3][c],
    )
}

/// Return a 'Mat4x4' identity matrix.
pub fn matrix_make_identity() -> (r: Mat4x4)
    ensures
        r == Mat4x4::identity(),
{
    Mat4x4 {
        m: [
            [FX_ONE, 0, 0, 0],
            [0, FX_ONE, 0, 0],
            [0, 0, FX_ONE, 0],
            [0, 0, 0, FX_ONE],
        ],
    }
}

/// Return a 'Mat4x4' translation matrix based on inputs 'x', 'y' and 'z'.
pub fn matrix_make_translation(x: i64, y: i64, z: i64) -> (r: Mat4x4)
    ensures
        r.m[0][0] == FX_ONE && r.m[1][1] == FX_ONE && r.m[2][2] == FX_ONE && r.m[3][3] == FX_ONE,
        r.m[3][0] == x && r.m[3][1] == y && r.m[3][2] == z,
        r.m[0][1] == 0 && r.m[0][2] == 0 && r.m[0][3] == 0,
        r.m[1][0] == 0 && r.m[1][2] == 0 && r.m[1][3] == 0,
        r.m[2][0] == 0 && r.m[2][1] == 0 && r.m[2][3] == 0,
{
    Mat4x4 {
        m: [
            [FX_ONE, 0, 0, 0],
            [0, FX_ONE, 0, 0],
            [0, 0, FX_ONE, 0],
            [x, y, z, FX_ONE],
        ],
    }
}

/// Multiply a 'Mat4x4' matrix by a 'Mat4x4' matrix.
pub fn matrix_multiply_matrix(m1: &Mat4x4, m2: &Mat4x4) -> (r: Mat4x4)
    requires
        mat4_ok(*m1),
        mat4_ok(*m2),
    ensures
        forall|i: int, j: int|
            0 <= i < 4 && 0 <= j < 4 ==> #[trigger] r.m[i][j] == mat_mul_spec(*m1, *m2, i, j),
{
    Mat4x4 {
        m: [
            [
                mat_mul_entry(m1, m2, 0, 0),
                mat_mul_entry(m1, m2, 0, 1),
                mat_mul_entry(m1, m2, 0, 2),
                mat_mul_entry(m1, m2, 0, 3),
            ],
            [
                mat_mul_entry(m1, m2, 1, 0),
                mat_mul_entry(m1, m2, 1, 1),
                mat_mul_entry(m1, m2, 1, 2),
                mat_mul_entry(m1, m2, 1, 3),
            ],
            [
                mat_mul_entry(m1, m2, 2, 0),
                mat_mul_entry(m1, m2, 2, 1),
                mat_mul_entry(m1, m2, 2, 2),
                mat_mul_entry(m1, m2, 2, 3),
            ],
            [
                mat_mul_entry(m1, m2, 3, 0),
                mat_mul_entry(m1, m2, 3, 1),
                mat_mul_entry(m1, m2, 3, 2),
                mat_mul_entry(m1, m2, 3, 3),
            ],
        ],
    }
}

/// One entry of the 4x4 matrix product.
fn mat_mul_entry(m1: &Mat4x4, m2: &Mat4x4, r: usize, c: usize) -> (e: i64)
    requires
        mat4_ok(*m1),
        mat4_ok(*m2),
        r < 4,
        c < 4,
    ensures
        e == mat_mul_spec(*m1, *m2, r as int, c as int),
{
    proof {
        lemma_fx_mul_bound(
            m1.m[r as int][0] as int,
            m2.m[0][c as int] as int,
            FX_LIM as int,
            FX_LIM as int,
        );
        lemma_fx_mul_bound(
            m1.m[r as int][1] as int,
            m2.m[1][c as int] as int,
            FX_LIM as int,
            FX_LIM as int,
        );
        lemma_fx_mul_bound(
            m1.m[r as int][2] as int,
            m2.m[2][c as int] as int,
            FX_LIM as int,
            FX_LIM as int,
        );
        lemma_fx_mul_bound(
            m1.m[r as int][3] as int,
            m2.m[3][c as int] as int,
            FX_LIM as int,
            FX_LIM as int,
        );
    }
    fx_mul(m1.m[r][0], m2.m[0][c]) + fx_mul(m1.m[r][1], m2.m[1][c]) + fx_mul(m1.m[r][2], m2.m[2][c])
        + fx_mul(m1.m[r][3], m2.m[3][c])
}

/// Coordinate range for the camera construction: inputs this small keep every
/// intermediate of the Gram-Schmidt basis within the scalar range.
pub const COORD_LIM: i64 = 0x8000_0000;

pub open spec fn vec3_small(v: Vec3d) -> bool {
    -COORD_LIM <= v.x <= COORD_LIM && -COORD_LIM <= v.y <= COORD_LIM && -COORD_LIM <= v.z
        <= COORD_LIM
}

/// The spatial difference of two vectors, W set to one.
pub open spec fn vsub_spec(a: Vec3d, b: Vec3d) -> Vec3d {
    Vec3d { x: (a.x - b.x) as i64, y: (a.y - b.y) as i64, z: (a.z - b.z) as i64, w: FX_ONE }
}

/// A vector scaled by a raw factor, W set to one.
pub open spec fn vmul_spec(a: Vec3d, k: int) -> Vec3d {
    Vec3d {
        x: fx_mul_spec(a.x as int, k) as i64,
        y: fx_mul_spec(a.y as int, k) as i64,
        z: fx_mul_spec(a.z as int, k) as i64,
        w: FX_ONE,
    }
}

/// The cross product of the spatial parts, W set to one.
pub open spec fn cross_spec(a: Vec3d, b: Vec3d) -> Vec3d {
    Vec3d {
        x: (fx_mul_spec(a.y as int, b.z as int) - fx_mul_spec(a.z as int, b.y as int)) as i64,
        y: (fx_mul_spec(a.z as int, b.x as int) - fx_mul_spec(a.x as int, b.z as int)) as i64,
        z: (fx_mul_spec(a.x as int, b.y as int) - fx_mul_spec(a.y as int, b.x as int)) as i64,
        w: FX_ONE,
    }
}

/// The camera's forward basis vector: the normalized direction from 'pos' to
/// 'target'.
pub open spec fn pa_forward(pos: Vec3d, target: Vec3d) -> Vec3d {
    norm_spec(vsub_spec(target, pos))
}

/// The not-yet-normalized up candidate: 'up' minus its projection onto the
/// forward vector.
pub open spec fn pa_up_input(pos: Vec3d, target: Vec3d, up: Vec3d) -> Vec3d {
    vsub_spec(up, vmul_spec(pa_forward(pos, target), dot3_spec(up, pa_forward(pos, target))))
}

/// The camera's up basis vector after Gram-Schmidt.
pub open spec fn pa_up(pos: Vec3d, target: Vec3d, up: Vec3d) -> Vec3d {
    norm_spec(pa_up_input(pos, target, up))
}

/// The camera's right basis vector.
pub open spec fn pa_right(pos: Vec3d, target: Vec3d, up: Vec3d) -> Vec3d {
    cross_spec(pa_up(pos, target, up), pa_forward(pos, target))
}

/// The camera-to-world matrix: the three basis rows and the position row.
pub open spec fn point_at_spec(pos: Vec3d, target: Vec3d, up: Vec3d) -> Mat4x4 {
    Mat4x4 {
        m: [
            [
                pa_right(pos, target, up).x,
                pa_right(pos, target, up).y,
                pa_right(pos, target, up).z,
                0i64,
            ],
            [pa_up(pos, target, up).x, pa_up(pos, target, up).y, pa_up(pos, target, up).z, 0i64],
            [
                pa_forward(pos, target).x,
                pa_forward(pos, target).y,
                pa_forward(pos, target).z,
                0i64,
            ],
            [pos.x, pos.y, pos.z, FX_ONE],
        ],
    }
}

/// Return an aptly named point_at matrix for translating between a position
/// and a target.
pub fn matrix_point_at(pos: &Vec3d, target: &Vec3d, up: &Vec3d) -> (r: Mat4x4)
    requires
        vec3_small(*pos),
        vec3_small(*target),
        vec3_small(*up),
        len_sq(vsub_spec(*target, *pos)) > 0,
        len_sq(pa_up_input(*pos, *target, *up)) > 0,
    ensures
        r == point_at_spec(*pos, *target, *up),
{
    let diff = vector_sub(target, pos);
    let new_forward = vector_normalize(&diff);
    assert(new_forward == pa_forward(*pos, *target));

    let d = vector_dot_product(up, &new_forward);
    proof {
        lemma_fx_mul_bound(up.x as int, new_forward.x as int, COORD_LIM as int, FX_ONE as int);
        lemma_fx_mul_bound(up.y as int, new_forward.y as int, COORD_LIM as int, FX_ONE as int);
        lemma_fx_mul_bound(up.z as int, new_forward.z as int, COORD_LIM as int, FX_ONE as int);
    }
    let a = vector_mul(&new_forward, d);
    proof {
        lemma_fx_mul_bound(new_forward.x as int, d as int, FX_ONE as int, 3 * COORD_LIM as int);
        lemma_fx_mul_bound(new_forward.y as int, d as int, FX_ONE as int, 3 * COORD_LIM as int);
        lemma_fx_mul_bound(new_forward.z as int, d as int, FX_ONE as int, 3 * COORD_LIM as int);
    }
    let up_in = vector_sub(up, &a);
    assert(up_in == pa_up_input(*pos, *target, *up));
    let new_up = vector_normalize(&up_in);
    assert(new_up == pa_up(*pos, *target, *up));

    let new_right = vector_cross_product(&new_up, &new_forward);
    proof {
        lemma_fx_mul_bound(new_up.y as int, new_forward.z as int, FX_ONE as int, FX_ONE as int);
        lemma_fx_mul_bound(new_up.z as int, new_forward.y as int, FX_ONE as int, FX_ONE as int);
        lemma_fx_mul_bound(new_up.z as int, new_forward.x as int, FX_ONE as int, FX_ONE as int);
        lemma_fx_mul_bound(new_up.x as int, new_forward.z as int, FX_ONE as int, FX_ONE as int);
        lemma_fx_mul_bound(new_up.x as int, new_forward.y as int, FX_ONE as int, FX_ONE as int);
        lemma_fx_mul_bound(new_up.y as int, new_forward.x as int, FX_ONE as int, FX_ONE as int);
    }
    assert(new_right == pa_right(*pos, *target, *up));

    Mat4x4 {
        m: [
            [new_right.x, new_right.y, new_right.z, 0],
            [new_up.x, new_up.y, new_up.z, 0],
            [new_forward.x, new_forward.y, new_forward.z, 0],
            [pos.x, pos.y, pos.z, FX_ONE],
        ],
    }
}

/// Quickly invert a 'Mat4x4' matrix, assuming it is a rigid
/// rotation-plus-translation (an orthonormal basis with a position row).
pub fn matrix_quick_inverse(m: &Mat4x4) -> (r: Mat4x4)
    requires
        mat4_ok(*m),
    ensures
        r.m[0][0] == m.m[0][0] && r.m[0][1] == m.m[1][0] && r.m[0][2] == m.m[2][0],
        r.m[1][0] == m.m[0][1] && r.m[1][1] == m.m[1][1] && r.m[1][2] == m.m[2][1],
        r.m[2][0] == m.m[0][2] && r.m[2][1] == m.m[1][2] && r.m[2][2] == m.m[2][2],
        r.m[0][3] == 0 && r.m[1][3] == 0 && r.m[2][3] == 0 && r.m[3][3] == FX_ONE,
        r.m[3][0] == -(fx_mul_spec(m.m[3][0] as int, m.m[0][0] as int) + fx_mul_spec(
            m.m[3][1] as int,
            m.m[1][0] as int,
        ) + fx_mul_spec(m.m[3][2] as int, m.m[2][0] as int)),
        r.m[3][1] == -(fx_mul_spec(m.m[3][0] as int, m.m[0][1] as int) + fx_mul_spec(
            m.m[3][1] as int,
            m.m[1][1] as int,
        ) + fx_mul_spec(m.m[3][2] as int, m.m[2][1] as int)),
        r.m[3][2] == -(fx_mul_spec(m.m[3][0] as int, m.m[0][2] as int) + fx_mul_spec(
            m.m[3][1] as int,
            m.m[1][2] as int,
        ) + fx_mul_spec(m.m[3][2] as int, m.m[2][2] as int)),
{
    proof {
        lemma_fx_mul_bound(m.m[3][0] as int, m.m[0][0] as int, FX_LIM as int, FX_LIM as int);
        lemma_fx_mul_bound(m.m[3][1] as int, m.m[1][0] as int, FX_LIM as int, FX_LIM as int);
        lemma_fx_mul_bound(m.m[3][2] as int, m.m[2][0] as int, FX_LIM as int, FX_LIM as int);
        lemma_fx_mul_bound(m.m[3][0] as int, m.m[0][1] as int, FX_LIM as int, FX_LIM as int);
        lemma_fx_mul_bound(m.m[3][1] as int, m.m[1][1] as int, FX_LIM as int, FX_LIM as int);
        lemma_fx_mul_bound(m.m[3][2] as int, m.m[2][1] as int, FX_LIM as int, FX_LIM as int);
        lemma_fx_mul_bound(m.m[3][0] as int, m.m[0][2] as int, FX_LIM as int, FX_LIM as int);
        lemma_fx_mul_bound(m.m[3][1] as int, m.m[1][2] as int, FX_LIM as int, FX_LIM as int);
        lemma_fx_mul_bound(m.m[3][2] as int, m.m[2][2] as int, FX_LIM as int, FX_LIM as int);
    }
    let t0: i64 = -(fx_mul(m.m[3][0], m.m[0][0]) + fx_mul(m.m[3][1], m.m[1][0]) + fx_mul(
        m.m[3][2],
        m.m[2][0],
    ));
    let t1: i64 = -(fx_mul(m.m[3][0], m.m[0][1]) + fx_mul(m.m[3][1], m.m[1][1]) + fx_mul(
        m.m[3][2],
        m.m[2][1],
    ));
    let t2: i64 = -(fx_mul(m.m[3][0], m.m[0][2]) + fx_mul(m.m[3][1], m.m[1][2]) + fx_mul(
        m.m[3][2],
        m.m[2][2],
    ));
    Mat4x4 {
        m: [
            [m.m[0][0], m.m[1][0], m.m[2][0], 0],
            [m.m[0][1], m.m[1][1], m.m[2][1], 0],
            [m.m[0][2], m.m[1][2], m.m[2][2], 0],
            [t0, t1, t2, FX_ONE],
        ],
    }
}

/// The parameter at which the segment from 'ls' to 'le' meets the plane
/// through 'pp' with unit normal 'n'.
pub open spec fn isect_t_spec(pp: Vec3d, n: Vec3d, ls: Vec3d, le: Vec3d) -> int {
    fx_div_spec(
        dot3_spec(n, pp) - dot3_spec(n, ls),
        dot3_spec(n, le) - dot3_spec(n, ls),
    )
}

/// The point at which the segment from 'ls' to 'le' meets the plane.
pub open spec fn isect_pt_spec(pp: Vec3d, n: Vec3d, ls: Vec3d, le: Vec3d) -> Vec3d {
    Vec3d {
        x: (ls.x + fx_mul_spec(isect_t_spec(pp, n, ls, le), le.x - ls.x)) as i64,
        y: (ls.y + fx_mul_spec(isect_t_spec(pp, n, ls, le), le.y - ls.y)) as i64,
        z: (ls.z + fx_mul_spec(isect_t_spec(pp, n, ls, le), le.z - ls.z)) as i64,
        w: FX_ONE,
    }
}

/// A texture coordinate interpolated from 'a' toward 'b' by the raw
/// parameter 't'.
pub open spec fn lerp_tex_spec(t: int, a: Vec2d, b: Vec2d) -> Vec2d {
    Vec2d {
        u: (fx_mul_spec(t, b.u - a.u) + a.u) as i64,
        v: (fx_mul_spec(t, b.v - a.v) + a.v) as i64,
        w: (fx_mul_spec(t, b.w - a.w) + a.w) as i64,
    }
}

/// Texture components lie within the coordinate range.
pub open spec fn tex2_small(t: Vec2d) -> bool {
    -COORD_LIM <= t.u <= COORD_LIM && -COORD_LIM <= t.v <= COORD_LIM && -COORD_LIM <= t.w
        <= COORD_LIM
}

/// Component bound for a unit normal.
pub open spec fn vec3_unit(n: Vec3d) -> bool {
    -FX_ONE <= n.x <= FX_ONE && -FX_ONE <= n.y <= FX_ONE && -FX_ONE <= n.z <= FX_ONE
}

/// Intersection of a segment with a plane whose normal is already
/// normalized; returns the point and the crossing parameter.
fn intersect_unit(plane_p: &Vec3d, plane_n: &Vec3d, line_start: &Vec3d, line_end: &Vec3d) -> (res: (
    Vec3d,
    i64,
))
    requires
        vec3_small(*plane_p),
        vec3_unit(*plane_n),
        vec3_small(*line_start),
        vec3_small(*line_end),
        dot3_spec(*plane_n, *line_end) != dot3_spec(*plane_n, *line_start),
        fx_ok(isect_t_spec(*plane_p, *plane_n, *line_start, *line_end)),
    ensures
        res.1 == isect_t_spec(*plane_p, *plane_n, *line_start, *line_end),
        res.0 == isect_pt_spec(*plane_p, *plane_n, *line_start, *line_end),
{
    proof {
        lemma_fx_mul_bound(plane_n.x as int, plane_p.x as int, FX_ONE as int, COORD_LIM as int);
        lemma_fx_mul_bound(plane_n.y as int, plane_p.y as int, FX_ONE as int, COORD_LIM as int);
        lemma_fx_mul_bound(plane_n.z as int, plane_p.z as int, FX_ONE as int, COORD_LIM as int);
        lemma_fx_mul_bound(plane_n.x as int, line_start.x as int, FX_ONE as int, COORD_LIM as int);
        lemma_fx_mul_bound(plane_n.y as int, line_start.y as int, FX_ONE as int, COORD_LIM as int);
        lemma_fx_mul_bound(plane_n.z as int, line_start.z as int, FX_ONE as int, COORD_LIM as int);
        lemma_fx_mul_bound(plane_n.x as int, line_end.x as int, FX_ONE as int, COORD_LIM as int);
        lemma_fx_mul_bound(plane_n.y as int, line_end.y as int, FX_ONE as int, COORD_LIM as int);
        lemma_fx_mul_bound(plane_n.z as int, line_end.z as int, FX_ONE as int, COORD_LIM as int);
    }
    let plane_d: i64 = -vector_dot_product(plane_n, plane_p);
    let ad: i64 = vector_dot_product(plane_n, line_start);
    let bd: i64 = vector_dot_product(plane_n, line_end);
    let t: i64 = fx_div(-plane_d - ad, bd - ad);
    proof {
        lemma_fx_mul_bound(
            t as int,
            line_end.x - line_start.x,
            FX_LIM as int,
            2 * COORD_LIM as int,
        );
        lemma_fx_mul_bound(
            t as int,
            line_end.y - line_start.y,
            FX_LIM as int,
            2 * COORD_LIM as int,
        );
        lemma_fx_mul_bound(
            t as int,
            line_end.z - line_start.z,
            FX_LIM as int,
            2 * COORD_LIM as int,
        );
    }
    let p = Vec3d {
        x: line_start.x + fx_mul(t, line_end.x - line_start.x),
        y: line_start.y + fx_mul(t, line_end.y - line_start.y),
        z: line_start.z + fx_mul(t, line_end.z - line_start.z),
        w: FX_ONE,
    };
    (p, t)
}

/// Get the 'Vec3d' at the point where the segment from 'line_start' to
/// 'line_end' meets the plane. Also returns 't' through the out parameter,
/// for interpolating the new texture coordinates.
pub fn vector_intersect_plane(
    plane_p: &Vec3d,
    plane_n_input: &Vec3d,
    line_start: Vec3d,
    line_end: Vec3d,
    t: &mut i64,
) -> (r: Vec3d)
    requires
        vec3_small(*plane_p),
        vec3_small(*plane_n_input),
        vec3_small(line_start),
        vec3_small(line_end),
        len_sq(*plane_n_input) > 0,
        dot3_spec(norm_spec(*plane_n_input), line_end) != dot3_spec(
            norm_spec(*plane_n_input),
            line_start,
        ),
        fx_ok(isect_t_spec(*plane_p, norm_spec(*plane_n_input), line_start, line_end)),
    ensures
        *final(t) == isect_t_spec(*plane_p, norm_spec(*plane_n_input), line_start, line_end),
        r == isect_pt_spec(*plane_p, norm_spec(*plane_n_input), line_start, line_end),
{
    let plane_n = vector_normalize(plane_n_input);
    let (p, tt) = intersect_unit(plane_p, &plane_n, &line_start, &line_end);
    *t = tt;
    p
}

/// How many triangles a clip against a plane yields, from the three signed
/// vertex distances: none inside drops the triangle, all inside keeps it,
/// one inside yields one new triangle, two inside yield two.
pub open spec fn clip_count_spec(d0: int, d1: int, d2: int) -> int {
    let k = (if d0 >= 0 {
        1int
    } else {
        0int
    }) + (if d1 >= 0 {
        1int
    } else {
        0int
    }) + (if d2 >= 0 {
        1int
    } else {
        0int
    });
    if k == 0 {
        0int
    } else if k == 1 {
        1int
    } else if k == 2 {
        2int
    } else {
        1int
    }
}

/// The triangle kept when exactly one vertex is inside: the inside vertex
/// and the two edge intersections toward the outside vertices, in order.
pub open spec fn clip_one_inside_spec(
    pp: Vec3d,
    n: Vec3d,
    ip: Vec3d,
    it: Vec2d,
    op0: Vec3d,
    ot0: Vec2d,
    op1: Vec3d,
    ot1: Vec2d,
) -> Triangle {
    Triangle {
        points: [ip, isect_pt_spec(pp, n, ip, op0), isect_pt_spec(pp, n, ip, op1)],
        texture_points: [
            it,
            lerp_tex_spec(isect_t_spec(pp, n, ip, op0), it, ot0),
            lerp_tex_spec(isect_t_spec(pp, n, ip, op1), it, ot1),
        ],
    }
}

/// The first triangle kept when exactly two vertices are inside: both inside
/// vertices and the intersection from the first inside vertex.
pub open spec fn clip_two_inside_first_spec(
    pp: Vec3d,
    n: Vec3d,
    ip0: Vec3d,
    it0: Vec2d,
    ip1: Vec3d,
    it1: Vec2d,
    op: Vec3d,
    ot: Vec2d,
) -> Triangle {
    Triangle {
        points: [ip0, ip1, isect_pt_spec(pp, n, ip0, op)],
        texture_points: [it0, it1, lerp_tex_spec(isect_t_spec(pp, n, ip0, op), it0, ot)],
    }
}

/// The second triangle kept when exactly two vertices are inside: it shares
/// the first triangle's intersection edge.
pub open spec fn clip_two_inside_second_spec(
    pp: Vec3d,
    n: Vec3d,
    ip0: Vec3d,
    it0: Vec2d,
    ip1: Vec3d,
    it1: Vec2d,
    op: Vec3d,
    ot: Vec2d,
) -> Triangle {
    Triangle {
        points: [ip1, isect_pt_spec(pp, n, ip0, op), isect_pt_spec(pp, n, ip1, op)],
        texture_points: [
            it1,
            lerp_tex_spec(isect_t_spec(pp, n, ip0, op), it0, ot),
            lerp_tex_spec(isect_t_spec(pp, n, ip1, op), it1, ot),
        ],
    }
}

/// Builds the clipped triangle for one inside vertex and two outside ones.
fn clip_one_inside(
    pp: &Vec3d,
    n: &Vec3d,
    ip: &Vec3d,
    it: &Vec2d,
    op0: &Vec3d,
    ot0: &Vec2d,
    op1: &Vec3d,
    ot1: &Vec2d,
) -> (r: Triangle)
    requires
        vec3_small(*pp),
        vec3_unit(*n),
        vec3_small(*ip),
        vec3_small(*op0),
        vec3_small(*op1),
        tex2_small(*it),
        tex2_small(*ot0),
        tex2_small(*ot1),
        dist_spec(*ip, *n, *pp) >= 0,
        dist_spec(*op0, *n, *pp) < 0,
        dist_spec(*op1, *n, *pp) < 0,
    ensures
        r == clip_one_inside_spec(*pp, *n, *ip, *it, *op0, *ot0, *op1, *ot1),
{
    proof {
        lemma_fx_div_unit_neg(
            dot3_spec(*n, *pp) - dot3_spec(*n, *ip),
            dot3_spec(*n, *op0) - dot3_spec(*n, *ip),
        );
        lemma_fx_div_unit_neg(
            dot3_spec(*n, *pp) - dot3_spec(*n, *ip),
            dot3_spec(*n, *op1) - dot3_spec(*n, *ip),
        );
    }
    let (q0, t0) = intersect_unit(pp, n, ip, op0);
    let (q1, t1) = intersect_unit(pp, n, ip, op1);
    let tex0 = lerp_tex(t0, it, ot0);
    let tex1 = lerp_tex(t1, it, ot1);
    Triangle { points: [*ip, q0, q1], texture_points: [*it, tex0, tex1] }
}

/// Builds the two clipped triangles for two inside vertices and one outside.
fn clip_two_inside(
    pp: &Vec3d,
    n: &Vec3d,
    ip0: &Vec3d,
    it0: &Vec2d,
    ip1: &Vec3d,
    it1: &Vec2d,
    op: &Vec3d,
    ot: &Vec2d,
) -> (r: (Triangle, Triangle))
    requires
        vec3_small(*pp),
        vec3_unit(*n),
        vec3_small(*ip0),
        vec3_small(*ip1),
        vec3_small(*op),
        tex2_small(*it0),
        tex2_small(*it1),
        tex2_small(*ot),
        dist_spec(*ip0, *n, *pp) >= 0,
        dist_spec(*ip1, *n, *pp) >= 0,
        dist_spec(*op, *n, *pp) < 0,
    ensures
        r.0 == clip_two_inside_first_spec(*pp, *n, *ip0, *it0, *ip1, *it1, *op, *ot),
        r.1 == clip_two_inside_second_spec(*pp, *n, *ip0, *it0, *ip1, *it1, *op, *ot),
{
    proof {
        lemma_fx_div_unit_neg(
            dot3_spec(*n, *pp) - dot3_spec(*n, *ip0),
            dot3_spec(*n, *op) - dot3_spec(*n, *ip0),
        );
        lemma_fx_div_unit_neg(
            dot3_spec(*n, *pp) - dot3_spec(*n, *ip1),
            dot3_spec(*n, *op) - dot3_spec(*n, *ip1),
        );
    }
    let (q0, t0) = intersect_unit(pp, n, ip0, op);
    let (q1, t1) = intersect_unit(pp, n, ip1, op);
    let tex_q0 = lerp_tex(t0, it0, ot);
    let tex_q1 = lerp_tex(t1, it1, ot);
    let first = Triangle { points: [*ip0, *ip1, q0], texture_points: [*it0, *it1, tex_q0] };
    let second = Triangle { points: [*ip1, q0, q1], texture_points: [*it1, tex_q0, tex_q1] };
    (first, second)
}

/// Interpolate a texture coordinate by the raw parameter 't' in [0, 1].
fn lerp_tex(t: i64, a: &Vec2d, b: &Vec2d) -> (r: Vec2d)
    requires
        0 <= t <= FX_ONE,
        tex2_small(*a),
        tex2_small(*b),
    ensures
        r == lerp_tex_spec(t as int, *a, *b),
{
    proof {
        lemma_fx_mul_unit(t as int, b.u - a.u, 2 * COORD_LIM as int);
        lemma_fx_mul_unit(t as int, b.v - a.v, 2 * COORD_LIM as int);
        lemma_fx_mul_unit(t as int, b.w - a.w, 2 * COORD_LIM as int);
    }
    Vec2d {
        u: fx_mul(t, b.u - a.u) + a.u,
        v: fx_mul(t, b.v - a.v) + a.v,
        w: fx_mul(t, b.w - a.w) + a.w,
    }
}

/// Every position within the coordinate range and every texture coordinate
/// within it too.
pub open spec fn tri_small(t: Triangle) -> bool {
    vec3_small(t.points[0]) && vec3_small(t.points[1]) && vec3_small(t.points[2]) && tex2_small(
        t.texture_points[0],
    ) && tex2_small(t.texture_points[1]) && tex2_small(t.texture_points[2])
}

/// A triangle fit for the pipeline: coordinates in range and homogeneous W
/// equal to one on every position.
pub open spec fn tri_mesh_ok(t: Triangle) -> bool {
    tri_small(t) && t.points[0].w == FX_ONE && t.points[1].w == FX_ONE && t.points[2].w == FX_ONE
}

/// Clip a 'Triangle' object against a plane. Returns how many triangles
/// remain (0, 1 or 2) and writes them to 'out_tri1' and 'out_tri2'; an out
/// slot that is not used keeps its previous value.
pub fn triangle_clip_against_plane(
    plane_p: &Vec3d,
    plane_n_input: &Vec3d,
    in_tri: &Triangle,
    out_tri1: &mut Triangle,
    out_tri2: &mut Triangle,
) -> (r: u64)
    requires
        vec3_small(*plane_p),
        vec3_small(*plane_n_input),
        len_sq(*plane_n_input) > 0,
        tri_small(*in_tri),
    ensures
        ({
            let n = norm_spec(*plane_n_input);
            let d0 = dist_spec(in_tri.points[0], n, *plane_p);
            let d1 = dist_spec(in_tri.points[1], n, *plane_p);
            let d2 = dist_spec(in_tri.points[2], n, *plane_p);
            &&& r == clip_count_spec(d0, d1, d2)
            &&& (d0 < 0 && d1 < 0 && d2 < 0) ==> (*final(out_tri1) == *old(out_tri1)
                && *final(out_tri2) == *old(out_tri2))
            &&& (d0 >= 0 && d1 >= 0 && d2 >= 0) ==> (*final(out_tri1) == *in_tri
                && *final(out_tri2) == *old(out_tri2))
            &&& (d0 >= 0 && d1 < 0 && d2 < 0) ==> (*final(out_tri1) == clip_one_inside_spec(
                *plane_p,
                n,
                in_tri.points[0],
                in_tri.texture_points[0],
                in_tri.points[1],
                in_tri.texture_points[1],
                in_tri.points[2],
                in_tri.texture_points[2],
            ) && *final(out_tri2) == *old(out_tri2))
            &&& (d0 < 0 && d1 >= 0 && d2 < 0) ==> (*final(out_tri1) == clip_one_inside_spec(
                *plane_p,
                n,
                in_tri.points[1],
                in_tri.texture_points[1],
                in_tri.points[0],
                in_tri.texture_points[0],
                in_tri.points[2],
                in_tri.texture_points[2],
            ) && *final(out_tri2) == *old(out_tri2))
            &&& (d0 < 0 && d1 < 0 && d2 >= 0) ==> (*final(out_tri1) == clip_one_inside_spec(
                *plane_p,
                n,
                in_tri.points[2],
                in_tri.texture_points[2],
                in_tri.points[0],
                in_tri.texture_points[0],
                in_tri.points[1],
                in_tri.texture_points[1],
            ) && *final(out_tri2) == *old(out_tri2))
            &&& (d0 >= 0 && d1 >= 0 && d2 < 0) ==> (*final(out_tri1) == clip_two_inside_first_spec(
                *plane_p,
                n,
                in_tri.points[0],
                in_tri.texture_points[0],
                in_tri.points[1],
                in_tri.texture_points[1],
                in_tri.points[2],
                in_tri.texture_points[2],
            ) && *final(out_tri2) == clip_two_inside_second_spec(
                *plane_p,
                n,
                in_tri.points[0],
                in_tri.texture_points[0],
                in_tri.points[1],
                in_tri.texture_points[1],
                in_tri.points[2],
                in_tri.texture_points[2],
            ))
            &&& (d0 >= 0 && d1 < 0 && d2 >= 0) ==> (*final(out_tri1) == clip_two_inside_first_spec(
                *plane_p,
                n,
                in_tri.points[0],
                in_tri.texture_points[0],
                in_tri.points[2],
                in_tri.texture_points[2],
                in_tri.points[1],
                in_tri.texture_points[1],
            ) && *final(out_tri2) == clip_two_inside_second_spec(
                *plane_p,
                n,
                in_tri.points[0],
                in_tri.texture_points[0],
                in_tri.points[2],
                in_tri.texture_points[2],
                in_tri.points[1],
                in_tri.texture_points[1],
            ))
            &&& (d0 < 0 && d1 >= 0 && d2 >= 0) ==> (*final(out_tri1) == clip_two_inside_first_spec(
                *plane_p,
                n,
                in_tri.points[1],
                in_tri.texture_points[1],
                in_tri.points[2],
                in_tri.texture_points[2],
                in_tri.points[0],
                in_tri.texture_points[0],
            ) && *final(out_tri2) == clip_two_inside_second_spec(
                *plane_p,
                n,
                in_tri.points[1],
                in_tri.texture_points[1],
                in_tri.points[2],
                in_tri.texture_points[2],
                in_tri.points[0],
                in_tri.texture_points[0],
            ))
        }),
        r <= 2,
{
    let plane_n = vector_normalize(plane_n_input);
    let d0 = dist(&in_tri.points[0], &plane_n, plane_p);
    let d1 = dist(&in_tri.points[1], &plane_n, plane_p);
    let d2 = dist(&in_tri.points[2], &plane_n, plane_p);
    let i0: bool = d0 >= 0;
    let i1: bool = d1 >= 0;
    let i2: bool = d2 >= 0;

    if !i0 && !i1 && !i2 {
        return 0;
    }
    if i0 && i1 && i2 {
        *out_tri1 = *in_tri;
        return 1;
    }
    if i0 && !i1 && !i2 {
        *out_tri1 = clip_one_inside(
            plane_p,
            &plane_n,
            &in_tri.points[0],
            &in_tri.texture_points[0],
            &in_tri.points[1],
            &in_tri.texture_points[1],
            &in_tri.points[2],
            &in_tri.texture_points[2],
        );
        return 1;
    }
    if !i0 && i1 && !i2 {
        *out_tri1 = clip_one_inside(
            plane_p,
            &plane_n,
            &in_tri.points[1],
            &in_tri.texture_points[1],
            &in_tri.points[0],
            &in_tri.texture_points[0],
            &in_tri.points[2],
            &in_tri.texture_points[2],
        );
        return 1;
    }
    if !i0 && !i1 && i2 {
        *out_tri1 = clip_one_inside(
            plane_p,
            &plane_n,
            &in_tri.points[2],
            &in_tri.texture_points[2],
            &in_tri.points[0],
            &in_tri.texture_points[0],
            &in_tri.points[1],
            &in_tri.texture_points[1],
        );
        return 1;
    }
    if i0 && i1 {
        let (first, second) = clip_two_inside(
            plane_p,
            &plane_n,
            &in_tri.points[0],
            &in_tri.texture_points[0],
            &in_tri.points[1],
            &in_tri.texture_points[1],
            &in_tri.points[2],
            &in_tri.texture_points[2],
        );
        *out_tri1 = first;
        *out_tri2 = second;
        return 2;
    }
    if i0 && i2 {
        let (first, second) = clip_two_inside(
            plane_p,
            &plane_n,
            &in_tri.points[0],
            &in_tri.texture_points[0],
            &in_tri.points[2],
            &in_tri.texture_points[2],
            &in_tri.points[1],
            &in_tri.texture_points[1],
        );
        *out_tri1 = first;
        *out_tri2 = second;
        return 2;
    }
    let (first, second) = clip_two_inside(
        plane_p,
        &plane_n,
        &in_tri.points[1],
        &in_tri.texture_points[1],
        &in_tri.points[2],
        &in_tri.texture_points[2],
        &in_tri.points[0],
        &in_tri.texture_points[0],
    );
    *out_tri1 = first;
    *out_tri2 = second;
    2
}

/// Law: the identity matrix is a left unit of the matrix product; every
/// entry of identity * M equals the entry of M.
pub proof fn lemma_identity_times_matrix(m2: Mat4x4)
    ensures
        forall|i: int, j: int|
            0 <= i < 4 && 0 <= j < 4 ==> #[trigger] mat_mul_spec(Mat4x4::identity(), m2, i, j)
                == m2.m[i][j],
{
    assert forall|i: int, j: int|
        0 <= i < 4 && 0 <= j < 4 implies #[trigger] mat_mul_spec(Mat4x4::identity(), m2, i, j)
        == m2.m[i][j] by {
        lemma_fx_mul_one(m2.m[i][j] as int);
        lemma_fx_mul_zero(m2.m[0][j] as int);
        lemma_fx_mul_zero(m2.m[1][j] as int);
        lemma_fx_mul_zero(m2.m[2][j] as int);
        lemma_fx_mul_zero(m2.m[3][j] as int);
    }
}

/// Law: the identity matrix leaves any homogeneous vector unchanged.
pub proof fn lemma_identity_times_vector(v: Vec3d)
    ensures
        mat_vec_spec(Mat4x4::identity(), v, 0) == v.x,
        mat_vec_spec(Mat4x4::identity(), v, 1) == v.y,
        mat_vec_spec(Mat4x4::identity(), v, 2) == v.z,
        mat_vec_spec(Mat4x4::identity(), v, 3) == v.w,
{
    lemma_fx_mul_one(v.x as int);
    lemma_fx_mul_one(v.y as int);
    lemma_fx_mul_one(v.z as int);
    lemma_fx_mul_one(v.w as int);
    lemma_fx_mul_zero(v.x as int);
    lemma_fx_mul_zero(v.y as int);
    lemma_fx_mul_zero(v.z as int);
    lemma_fx_mul_zero(v.w as int);
}

/// Law: a triangle whose three vertices all lie inside the half-space is
/// kept as a single triangle; `triangle_clip_against_plane` then returns it
/// unchanged.
pub proof fn lemma_clip_count_all_inside(d0: int, d1: int, d2: int)
    requires
        d0 >= 0,
        d1 >= 0,
        d2 >= 0,
    ensures
        clip_count_spec(d0, d1, d2) == 1,
{
}

/// Law: a triangle whose three vertices all lie outside the half-space is
/// discarded.
pub proof fn lemma_clip_count_all_outside(d0: int, d1: int, d2: int)
    requires
        d0 < 0,
        d1 < 0,
        d2 < 0,
    ensures
        clip_count_spec(d0, d1, d2) == 0,
{
}

/// Law: a triangle straddling the plane with exactly one vertex inside
/// yields exactly one clipped triangle.
pub proof fn lemma_clip_count_one_inside(d0: int, d1: int, d2: int)
    requires
        (if d0 >= 0 { 1int } else { 0int }) + (if d1 >= 0 { 1int } else { 0int }) + (if d2 >= 0 {
            1int
        } else {
            0int
        }) == 1,
    ensures
        clip_count_spec(d0, d1, d2) == 1,
{
}

/// Law: a triangle straddling the plane with exactly two vertices inside
/// yields exactly two clipped triangles.
pub proof fn lemma_clip_count_two_inside(d0: int, d1: int, d2: int)
    requires
        (if d0 >= 0 { 1int } else { 0int }) + (if d1 >= 0 { 1int } else { 0int }) + (if d2 >= 0 {
            1int
        } else {
            0int
        }) == 2,
    ensures
        clip_count_spec(d0, d1, d2) == 2,
{
}

/// Largest raw angle the rotation constructors accept.
pub const ANGLE_LIM: i64 = 0x100_0000_0000;

/// Return a 'Mat4x4' x rotation matrix based on input angle 'f_angle_rad'.
pub fn matrix_make_rotation_x(f_angle_rad: &i64) -> (r: Mat4x4)
    requires
        -ANGLE_LIM <= *f_angle_rad <= ANGLE_LIM,
    ensures
        r.m[0][0] == FX_ONE && r.m[3][3] == FX_ONE,
        r.m[1][1] == cos_fx_spec(*f_angle_rad as int),
        r.m[1][2] == sin_fx_spec(*f_angle_rad as int),
        r.m[2][1] == -sin_fx_spec(*f_angle_rad as int),
        r.m[2][2] == cos_fx_spec(*f_angle_rad as int),
        r.m[0][1] == 0 && r.m[0][2] == 0 && r.m[0][3] == 0 && r.m[1][0] == 0 && r.m[1][3] == 0
            && r.m[2][0] == 0 && r.m[2][3] == 0 && r.m[3][0] == 0 && r.m[3][1] == 0 && r.m[3][2]
            == 0,
        mat4_ok(r),
{
    let c = fx_cos(*f_angle_rad);
    let sn = fx_sin(*f_angle_rad);
    Mat4x4 { m: [[FX_ONE, 0, 0, 0], [0, c, sn, 0], [0, -sn, c, 0], [0, 0, 0, FX_ONE]] }
}

/// Return a 'Mat4x4' y rotation matrix based on input angle 'f_angle_rad'.
pub fn matrix_make_rotation_y(f_angle_rad: &i64) -> (r: Mat4x4)
    requires
        -ANGLE_LIM <= *f_angle_rad <= ANGLE_LIM,
    ensures
        r.m[1][1] == FX_ONE && r.m[3][3] == FX_ONE,
        r.m[0][0] == cos_fx_spec(*f_angle_rad as int),
        r.m[0][2] == sin_fx_spec(*f_angle_rad as int),
        r.m[2][0] == -sin_fx_spec(*f_angle_rad as int),
        r.m[2][2] == cos_fx_spec(*f_angle_rad as int),
        r.m[0][1] == 0 && r.m[0][3] == 0 && r.m[1][0] == 0 && r.m[1][2] == 0 && r.m[1][3] == 0
            && r.m[2][1] == 0 && r.m[2][3] == 0 && r.m[3][0] == 0 && r.m[3][1] == 0 && r.m[3][2]
            == 0,
        mat4_ok(r),
{
    let c = fx_cos(*f_angle_rad);
    let sn = fx_sin(*f_angle_rad);
    Mat4x4 { m: [[c, 0, sn, 0], [0, FX_ONE, 0, 0], [-sn, 0, c, 0], [0, 0, 0, FX_ONE]] }
}

/// Return a 'Mat4x4' z rotation matrix based on input angle 'f_angle_rad'.
pub fn matrix_make_rotation_z(f_angle_rad: &i64) -> (r: Mat4x4)
    requires
        -ANGLE_LIM <= *f_angle_rad <= ANGLE_LIM,
    ensures
        r.m[2][2] == FX_ONE && r.m[3][3] == FX_ONE,
        r.m[0][0] == cos_fx_spec(*f_angle_rad as int),
        r.m[0][1] == sin_fx_spec(*f_angle_rad as int),
        r.m[1][0] == -sin_fx_spec(*f_angle_rad as int),
        r.m[1][1] == cos_fx_spec(*f_angle_rad as int),
        r.m[0][2] == 0 && r.m[0][3] == 0 && r.m[1][2] == 0 && r.m[1][3] == 0 && r.m[2][0] == 0
            && r.m[2][1] == 0 && r.m[2][3] == 0 && r.m[3][0] == 0 && r.m[3][1] == 0 && r.m[3][2]
            == 0,
        mat4_ok(r),
{
    let c = fx_cos(*f_angle_rad);
    let sn = fx_sin(*f_angle_rad);
    Mat4x4 { m: [[c, sn, 0, 0], [-sn, c, 0, 0], [0, 0, FX_ONE, 0], [0, 0, 0, FX_ONE]] }
}

/// The half field of view in raw radians: fov * 0.5 / 180 * pi.
pub open spec fn fov_half_rad_spec(fov: int) -> int {
    fx_mul_spec(fx_div_spec(fx_mul_spec(fov, 32768), 11796480), 205887)
}

/// The projection scale 1 / tan(fov / 2), computed as cos / sin of the half
/// angle; zero when the half angle's sine vanishes or the quotient leaves
/// the scalar range.
pub open spec fn proj_fov_spec(fov: int) -> int {
    let c = fov_half_rad_spec(fov);
    if sin_fx_spec(c) == 0 {
        0int
    } else {
        let fr = fx_div_spec(cos_fx_spec(c), sin_fx_spec(c));
        if -FX_LIM <= fr <= FX_LIM {
            fr
        } else {
            0int
        }
    }
}

/// Largest raw near or far plane distance the projection accepts.
pub const DEPTH_LIM: i64 = 0x800_0000;

/// Return a 'Mat4x4' projection matrix based on the viewport parameters.
pub fn matrix_make_projection(
    f_fov_degrees: i64,
    f_aspect_ratio: i64,
    f_near: i64,
    f_far: i64,
) -> (r: Mat4x4)
    requires
        fx_ok(f_fov_degrees as int),
        fx_ok(f_aspect_ratio as int),
        -DEPTH_LIM <= f_near <= DEPTH_LIM,
        -DEPTH_LIM <= f_far <= DEPTH_LIM,
    ensures
        r.m[0][0] == fx_mul_spec(f_aspect_ratio as int, proj_fov_spec(f_fov_degrees as int)),
        r.m[1][1] == proj_fov_spec(f_fov_degrees as int),
        r.m[2][2] == (if f_far != f_near {
            fx_div_spec(f_far as int, f_far - f_near)
        } else {
            0int
        }),
        r.m[3][2] == (if f_far != f_near {
            -fx_div_spec(fx_mul_spec(f_far as int, f_near as int), f_far - f_near)
        } else {
            0int
        }),
        r.m[2][3] == FX_ONE,
        r.m[0][1] == 0 && r.m[0][2] == 0 && r.m[0][3] == 0 && r.m[1][0] == 0 && r.m[1][2] == 0
            && r.m[1][3] == 0 && r.m[2][0] == 0 && r.m[2][1] == 0 && r.m[3][0] == 0 && r.m[3][1]
            == 0 && r.m[3][3] == 0,
{
    let half = fx_mul(f_fov_degrees, 32768);
    let b = fx_div(half, 11796480);
    proof {
        lemma_fx_mul_bound(f_fov_degrees as int, 32768, FX_LIM as int, 32768);
        crate::fx::lemma_fx_div_bound(half as int, 11796480, FX_LIM as int);
        lemma_fx_mul_bound(b as int, 205887, FX_LIM as int, 205887);
        assert((FX_LIM as int) * 65536 / 11796480 <= 0x6_0000_0000int);
        assert(0x6_0000_0000int * 205887 / 65536 <= 0x200_0000_0000int - 102944);
    }
    let c = fx_mul(b, 205887);
    let sn = fx_sin(c);
    let co = fx_cos(c);
    let f_fov_rad: i64 = if sn != 0 {
        let fr = fx_div(co, sn);
        if -FX_LIM <= fr && fr <= FX_LIM {
            fr
        } else {
            0
        }
    } else {
        0
    };
    let m22: i64 = if f_far != f_near {
        fx_div(f_far, f_far - f_near)
    } else {
        0
    };
    let m32: i64 = if f_far != f_near {
        proof {
            lemma_fx_mul_bound(f_far as int, f_near as int, DEPTH_LIM as int, DEPTH_LIM as int);
        }
        -fx_div(fx_mul(f_far, f_near), f_far - f_near)
    } else {
        0
    };
    let m00 = fx_mul(f_aspect_ratio, f_fov_rad);
    Mat4x4 {
        m: [[m00, 0, 0, 0], [0, f_fov_rad, 0, 0], [0, 0, m22, FX_ONE], [0, 0, m32, 0]],
    }
}

/// A Mesh object holding a vector of Triangle objects and a reference to a
/// texture.
pub struct Mesh<'a> {
    pub tris: Vec<Triangle>,
    pub texture: &'a Texture,
}

impl Mesh<'_> {
    /// Creates a new 'Mesh' object from the bytes of a model file, or
    /// nothing when the file does not parse.
    pub fn new<'a>(tex: &'a Texture, file: &[u8]) -> (r: Option<Mesh<'a>>)
        ensures
            match r {
                Some(m) => {
                    &&& crate::obj::parse_obj_spec(file@, true) == Some(m.tris@)
                    &&& crate::obj::tris_ok(m.tris@)
                    &&& m.texture == tex
                },
                None => crate::obj::parse_obj_spec(file@, true) is None,
            },
    {
        match crate::obj::parse_obj(file, true) {
            Some(tris) => Some(Mesh { tris, texture: tex }),
            None => None,
        }
    }

    /// Populate the mesh object with the vertices and texture coordinates
    /// of the model file, appending to the triangles already held; on a
    /// malformed file nothing is appended and false comes back.
    pub fn load_from_object_file(&mut self, file: &[u8], b_has_texture: bool) -> (ok: bool)
        ensures
            final(self).texture == old(self).texture,
            ok ==> ({
                &&& crate::obj::parse_obj_spec(file@, b_has_texture) matches Some(ts)
                    && final(self).tris@ == old(self).tris@ + ts
            }),
            !ok ==> crate::obj::parse_obj_spec(file@, b_has_texture) is None && final(self).tris@
                == old(self).tris@,
    {
        match crate::obj::parse_obj(file, b_has_texture) {
            Some(mut ts) => {
                self.tris.append(&mut ts);
                true
            },
            None => false,
        }
    }
}

/// A copy of a triangle list, element for element.
pub fn copy_tris(v: &Vec<Triangle>) -> (r: Vec<Triangle>)
    ensures
        r@ == v@,
{
    let mut r: Vec<Triangle> = Vec::new();
    let mut i: usize = 0;
    while i < v.len()
        invariant
            i <= v@.len(),
            r@ =~= v@.take(i as int),
        decreases v@.len() - i,
    {
        r.push(v[i]);
        proof {
            assert(v@.take(i + 1) =~= v@.take(i as int).push(v@[i as int]));
        }
        i = i + 1;
    }
    proof {
        assert(v@.take(v@.len() as int) =~= v@);
    }
    r
}

/// A vertex interpolated from 'a' toward 'b' by the raw parameter 't'; the
/// homogeneous W stays that of 'a'.
pub open spec fn blend_pt(a: Vec3d, b: Vec3d, t: int) -> Vec3d {
    Vec3d {
        x: (a.x + fx_mul_spec(b.x - a.x, t)) as i64,
        y: (a.y + fx_mul_spec(b.y - a.y, t)) as i64,
        z: (a.z + fx_mul_spec(b.z - a.z, t)) as i64,
        w: a.w,
    }
}

/// A triangle blended between two keyframes: positions interpolated,
/// texture coordinates kept from the first keyframe.
pub open spec fn blend_tri(a: Triangle, b: Triangle, t: int) -> Triangle {
    Triangle {
        points: [
            blend_pt(a.points[0], b.points[0], t),
            blend_pt(a.points[1], b.points[1], t),
            blend_pt(a.points[2], b.points[2], t),
        ],
        texture_points: a.texture_points,
    }
}

/// Law: blending by a whole frame step lands exactly on the next
/// keyframe's position.
pub proof fn lemma_blend_full_step(a: Vec3d, b: Vec3d)
    ensures
        blend_pt(a, b, 65536) == (Vec3d { x: b.x, y: b.y, z: b.z, w: a.w }),
{
    lemma_fx_mul_one(b.x - a.x);
    lemma_fx_mul_one(b.y - a.y);
    lemma_fx_mul_one(b.z - a.z);
}

/// Law: blending by nothing keeps the first keyframe's position.
pub proof fn lemma_blend_zero_step(a: Vec3d, b: Vec3d)
    ensures
        blend_pt(a, b, 0) == (Vec3d { x: a.x, y: a.y, z: a.z, w: a.w }),
{
    lemma_fx_mul_zero(b.x - a.x);
    lemma_fx_mul_zero(b.y - a.y);
    lemma_fx_mul_zero(b.z - a.z);
}

/// Law: blending by half a frame step moves each coordinate by half the
/// keyframe difference, truncated toward zero.
pub proof fn lemma_blend_half_step(a: Vec3d, b: Vec3d)
    ensures
        blend_pt(a, b, 32768).x == a.x + crate::fx::sdiv(b.x - a.x, 2),
        blend_pt(a, b, 32768).y == a.y + crate::fx::sdiv(b.y - a.y, 2),
        blend_pt(a, b, 32768).z == a.z + crate::fx::sdiv(b.z - a.z, 2),
{
    assert(fx_mul_spec(b.x - a.x, 32768) == crate::fx::sdiv(b.x - a.x, 2)) by (nonlinear_arith);
    assert(fx_mul_spec(b.y - a.y, 32768) == crate::fx::sdiv(b.y - a.y, 2)) by (nonlinear_arith);
    assert(fx_mul_spec(b.z - a.z, 32768) == crate::fx::sdiv(b.z - a.z, 2)) by (nonlinear_arith);
}

/// A scaling by a factor in [0, 1] stays between nothing and the whole
/// difference.
proof fn lemma_fx_mul_interp(d: int, t: int)
    by (nonlinear_arith)
    requires
        0 <= t <= 65536,
    ensures
        d >= 0 ==> 0 <= fx_mul_spec(d, t) <= d,
        d < 0 ==> d <= fx_mul_spec(d, t) <= 0,
{
}

/// An Animated Mesh object holding a vector of keyframe meshes, the
/// interpolated current frame, and the playback position.
pub struct AnimatedMesh<'a> {
    pub meshes: Vec<Mesh<'a>>,
    pub texture: &'a Texture,
    pub current_frame: Mesh<'a>,
    pub frames_per_second: i64,
    pub running: bool,
    pub current_frame_numeric: i64,
}

impl AnimatedMesh<'_> {
    /// The continuous playback position, in raw frame units.
    pub open spec fn frame_pos(&self) -> i64 {
        self.current_frame_numeric
    }

    /// The keyframes agree in shape, their coordinates are in range, their
    /// textures are fit for sampling, and the playback state is within its
    /// bounds.
    pub open spec fn wf(&self) -> bool {
        &&& 1 <= self.meshes@.len() <= 0x10000
        &&& forall|i: int|
            0 <= i < self.meshes@.len() ==> crate::obj::tris_ok(#[trigger] self.meshes@[i].tris@)
        &&& forall|i: int|
            0 <= i < self.meshes@.len() ==> (#[trigger] self.meshes@[i].tris@).len()
                == self.meshes@[0].tris@.len()
        &&& forall|i: int| 0 <= i < self.meshes@.len() ==> (#[trigger] self.meshes@[i]).texture.wf()
        &&& crate::obj::tris_ok(self.current_frame.tris@)
        &&& self.current_frame.texture.wf()
        &&& 0 <= self.frame_pos() < self.meshes@.len() * 65536
        &&& 0 <= self.frames_per_second <= FX_LIM
    }

    /// Creates a new `AnimatedMesh` from one model file per keyframe, or
    /// nothing when a file does not parse, no file is given, or the
    /// keyframes disagree in shape.
    #[verifier::loop_isolation(false)]
    pub fn new<'a>(tex: &'a Texture, files: Vec<Vec<u8>>, fps: i64, running: bool) -> (r: Option<
        AnimatedMesh<'a>,
    >)
        requires
            tex.wf(),
            0 <= fps <= FX_LIM,
        ensures
            r is Some <==> ({
                &&& 1 <= files@.len() <= 0x10000
                &&& forall|i: int|
                    0 <= i < files@.len() ==> (#[trigger] crate::obj::parse_obj_spec(
                        files@[i]@,
                        true,
                    )) is Some
                &&& forall|i: int|
                    0 <= i < files@.len() ==> (#[trigger] crate::obj::parse_obj_spec(
                        files@[i]@,
                        true,
                    )).unwrap().len() == crate::obj::parse_obj_spec(files@[0]@, true).unwrap().len()
            }),
            r matches Some(am) ==> {
                &&& am.wf()
                &&& am.meshes@.len() == files@.len()
                &&& forall|i: int|
                    0 <= i < files@.len() ==> crate::obj::parse_obj_spec(files@[i]@, true) == Some(
                        (#[trigger] am.meshes@[i]).tris@,
                    )
                &&& am.current_frame.tris@ == am.meshes@[0].tris@
                &&& am.texture == tex
                &&& am.frames_per_second == fps
                &&& am.running == running
                &&& am.frame_pos() == 0
            },
    {
        if files.len() == 0 || files.len() > 0x10000 {
            return None;
        }
        let mut meshes: Vec<Mesh<'a>> = Vec::new();
        let mut i: usize = 0;
        while i < files.len()
            invariant
                i <= files@.len(),
                files@.len() <= 0x10000,
                meshes@.len() == i,
                forall|j: int|
                    0 <= j < i ==> crate::obj::parse_obj_spec(files@[j]@, true) == Some(
                        (#[trigger] meshes@[j]).tris@,
                    ),
                forall|j: int|
                    0 <= j < i ==> crate::obj::tris_ok(#[trigger] meshes@[j].tris@),
                forall|j: int| 0 <= j < i ==> (#[trigger] meshes@[j]).texture == tex,
            decreases files@.len() - i,
        {
            match Mesh::new(tex, files[i].as_slice()) {
                Some(m) => {
                    meshes.push(m);
                },
                None => {
                    proof {
                        assert(crate::obj::parse_obj_spec(files@[i as int]@, true) is None);
                    }
                    return None;
                },
            }
            i = i + 1;
        }
        let n0 = meshes[0].tris.len();
        let mut j: usize = 1;
        while j < meshes.len()
            invariant
                1 <= j <= meshes@.len(),
                n0 == meshes@[0].tris@.len(),
                forall|i2: int| 0 <= i2 < j ==> (#[trigger] meshes@[i2].tris@).len() == n0,
            decreases meshes@.len() - j,
        {
            if meshes[j].tris.len() != n0 {
                proof {
                    assert(crate::obj::parse_obj_spec(files@[j as int]@, true).unwrap().len()
                        != crate::obj::parse_obj_spec(files@[0]@, true).unwrap().len());
                }
                return None;
            }
            j = j + 1;
        }
        proof {
            assert forall|i: int|
                0 <= i < files@.len() implies (#[trigger] crate::obj::parse_obj_spec(
                files@[i]@,
                true,
            )) is Some by {
                assert(crate::obj::parse_obj_spec(files@[i]@, true) == Some(meshes@[i].tris@));
            }
            assert forall|i: int|
                0 <= i < files@.len() implies (#[trigger] crate::obj::parse_obj_spec(
                files@[i]@,
                true,
            )).unwrap().len() == crate::obj::parse_obj_spec(files@[0]@, true).unwrap().len() by {
                assert(crate::obj::parse_obj_spec(files@[i]@, true) == Some(meshes@[i].tris@));
                assert(crate::obj::parse_obj_spec(files@[0]@, true) == Some(meshes@[0].tris@));
                assert(meshes@[i].tris@.len() == n0);
                assert(meshes@[0].tris@.len() == n0);
            }
        }
        let current = Mesh { tris: copy_tris(&meshes[0].tris), texture: tex };
        Some(
            AnimatedMesh {
                meshes,
                texture: tex,
                current_frame: current,
                frames_per_second: fps,
                running,
                current_frame_numeric: 0,
            },
        )
    }
}

/// The playback position after one tick: the position advanced by the
/// playback rate times the elapsed seconds, wrapping modulo the keyframe
/// count.
pub open spec fn tick_pos_spec(pos: int, fps: int, dt: int, n: int) -> int {
    (pos + fx_mul_spec(fps, dt)) % (n * 65536)
}

/// How one tick relates an animated mesh's new state to its old one: the
/// keyframes and settings are kept; when running, the playback position
/// advances and the current frame becomes the per-vertex blend of the two
/// bracketing keyframes by the position's fractional part.
pub open spec fn tick_rel(pre: AnimatedMesh, post: AnimatedMesh, dt: int) -> bool {
    &&& post.meshes@ == pre.meshes@
    &&& post.texture == pre.texture
    &&& post.frames_per_second == pre.frames_per_second
    &&& post.running == pre.running
    &&& !pre.running ==> post == pre
    &&& pre.running ==> ({
        let n = pre.meshes@.len() as int;
        let np = tick_pos_spec(pre.frame_pos() as int, pre.frames_per_second as int, dt, n);
        let base = np / 65536;
        let nxt = if base + 1 >= n {
            0int
        } else {
            base + 1
        };
        let amount = np - base * 65536;
        &&& post.frame_pos() == np
        &&& post.current_frame.texture == pre.meshes@[base].texture
        &&& post.current_frame.tris@.len() == pre.meshes@[base].tris@.len()
        &&& forall|i: int|
            0 <= i < post.current_frame.tris@.len() ==> post.current_frame.tris@[i] == blend_tri(
                pre.meshes@[base].tris@[i],
                pre.meshes@[nxt].tris@[i],
                amount,
            )
    })
}

impl AnimatedMesh<'_> {
    /// Interpolates the 'current_frame' object based on the
    /// 'time_elapsed_seconds': the playback position advances, and the
    /// current frame becomes the per-vertex blend of the two bracketing
    /// keyframes by the position's fractional part.
    #[verifier::loop_isolation(false)]
    pub fn tick(&mut self, time_elapsed_seconds: i64)
        requires
            old(self).wf(),
            0 <= time_elapsed_seconds <= FX_LIM,
        ensures
            final(self).wf(),
            tick_rel(*old(self), *final(self), time_elapsed_seconds as int),
    {
        if self.running {
            let dt = time_elapsed_seconds;
            proof {
                crate::fx::lemma_fx_mul_nonneg(
                    self.frames_per_second as int,
                    dt as int,
                );
                lemma_fx_mul_bound(
                    self.frames_per_second as int,
                    dt as int,
                    FX_LIM as int,
                    FX_LIM as int,
                );
            }
            let interpolation_factor = fx_mul(self.frames_per_second, dt);
            let total_i: i64 = (self.meshes.len() as i64) * 65536;
            let raw_time: i64 = self.current_frame_numeric + interpolation_factor;
            let new_frame_time: i64 = ((raw_time as u64) % (total_i as u64)) as i64;
            proof {
                assert(new_frame_time / 65536 < self.meshes@.len() && 0 <= new_frame_time / 65536
                    && new_frame_time % 65536 == new_frame_time - (new_frame_time / 65536) * 65536
                    && 0 <= new_frame_time % 65536 < 65536) by (nonlinear_arith)
                    requires
                        0 <= new_frame_time,
                        new_frame_time < self.meshes@.len() * 65536,
                        1 <= self.meshes@.len(),
                ;
            }
            let base: usize = ((new_frame_time as u64) / 65536) as usize;
            let mut next_frame: usize = base + 1;
            if next_frame >= self.meshes.len() {
                next_frame = 0;
            }
            let amount: i64 = new_frame_time - (base as i64) * 65536;
            let mut new_tris: Vec<Triangle> = Vec::new();
            let mut i: usize = 0;
            let ghost amt = amount as int;
            while i < self.meshes[base].tris.len()
                invariant
                    i <= self.meshes@[base as int].tris@.len(),
                    new_tris@.len() == i,
                    base < self.meshes@.len(),
                    next_frame < self.meshes@.len(),
                    0 <= amount < 65536,
                    amt == amount as int,
                    forall|ii: int|
                        0 <= ii < i ==> #[trigger] new_tris@[ii] == blend_tri(
                            self.meshes@[base as int].tris@[ii],
                            self.meshes@[next_frame as int].tris@[ii],
                            amt,
                        ),
                    crate::obj::tris_ok(new_tris@),
                decreases self.meshes@[base as int].tris@.len() - i,
            {
                let a: Triangle = self.meshes[base].tris[i];
                let b: Triangle = self.meshes[next_frame].tris[i];
                proof {
                    lemma_fx_mul_interp(b.points[0].x - a.points[0].x, amt);
                    lemma_fx_mul_interp(b.points[0].y - a.points[0].y, amt);
                    lemma_fx_mul_interp(b.points[0].z - a.points[0].z, amt);
                    lemma_fx_mul_interp(b.points[1].x - a.points[1].x, amt);
                    lemma_fx_mul_interp(b.points[1].y - a.points[1].y, amt);
                    lemma_fx_mul_interp(b.points[1].z - a.points[1].z, amt);
                    lemma_fx_mul_interp(b.points[2].x - a.points[2].x, amt);
                    lemma_fx_mul_interp(b.points[2].y - a.points[2].y, amt);
                    lemma_fx_mul_interp(b.points[2].z - a.points[2].z, amt);
                }
                let p0 = Vec3d {
                    x: a.points[0].x + fx_mul(b.points[0].x - a.points[0].x, amount),
                    y: a.points[0].y + fx_mul(b.points[0].y - a.points[0].y, amount),
                    z: a.points[0].z + fx_mul(b.points[0].z - a.points[0].z, amount),
                    w: a.points[0].w,
                };
                let p1 = Vec3d {
                    x: a.points[1].x + fx_mul(b.points[1].x - a.points[1].x, amount),
                    y: a.points[1].y + fx_mul(b.points[1].y - a.points[1].y, amount),
                    z: a.points[1].z + fx_mul(b.points[1].z - a.points[1].z, amount),
                    w: a.points[1].w,
                };
                let p2 = Vec3d {
                    x: a.points[2].x + fx_mul(b.points[2].x - a.points[2].x, amount),
                    y: a.points[2].y + fx_mul(b.points[2].y - a.points[2].y, amount),
                    z: a.points[2].z + fx_mul(b.points[2].z - a.points[2].z, amount),
                    w: a.points[2].w,
                };
                new_tris.push(Triangle { points: [p0, p1, p2], texture_points: a.texture_points });
                i = i + 1;
            }
            let tex_ref = self.meshes[base].texture;
            self.current_frame = Mesh { tris: new_tris, texture: tex_ref };
            self.current_frame_numeric = new_frame_time;
        }
    }
}

} // verus!
