//! The pipeline and camera controller: owns the camera state, the
//! projection matrix and the depth buffer, and renders every mesh through
//! the transform, cull, clip, project and rasterize sequence once per call.

use vstd::prelude::*;
use crate::draw::{draw_textured_triangle, raster_frame_ok};
use crate::framebuffer::Framebuffer;
use crate::fx::{
    cos_fx_spec, fx_div, fx_div_spec, fx_mul, fx_mul_spec, fx_ok, fx_round, lemma_fx_div_bound,
    lemma_fx_mul_bound, lemma_fx_mul_one, lemma_fx_mul_zero, sin_fx_spec, FX_LIM, FX_ONE,
};
use crate::geometry::{
    mat4_ok, matrix_make_projection, matrix_make_rotation_x, matrix_make_rotation_y,
    matrix_make_rotation_z, matrix_make_translation, matrix_multiply_matrix,
    matrix_multiply_vector, matrix_point_at, matrix_quick_inverse, proj_fov_spec, tick_rel,
    tri_small, triangle_clip_against_plane, vec3_small, vector_add, vector_cross_product,
    vector_div, vector_dot_product, vector_mul, vector_sub, AnimatedMesh, Mat4x4, Mesh, Triangle,
    Vec2d, Vec3d, ANGLE_LIM, COORD_LIM,
};
use crate::obj::tris_ok;
use crate::texture::Texture;

verus! {

/// Camera positions the controller admits; they keep every camera matrix
/// within the scalar range.
pub const CAM_LIM: i64 = 0x4000_0000;

/// A mesh the pipeline can draw: coordinates in range and a texture fit
/// for sampling.
pub open spec fn mesh_ok(m: Mesh) -> bool {
    tris_ok(m.tris@) && m.texture.wf()
}

/// The look direction for a yaw angle: the base forward vector rotated
/// about Y; should the approximated sine and cosine both vanish, the base
/// forward vector itself.
pub open spec fn look_dir_spec(yaw: int) -> Vec3d {
    let sx = sin_fx_spec(yaw);
    let cz = cos_fx_spec(yaw);
    if sx == 0 && cz == 0 {
        Vec3d { x: 0i64, y: 0i64, z: FX_ONE, w: FX_ONE }
    } else {
        Vec3d { x: (-sx) as i64, y: 0i64, z: cz as i64, w: FX_ONE }
    }
}

/// The entries a projection matrix for these viewport parameters holds.
pub open spec fn is_proj_for(m: Mat4x4, fov: int, aspect: int, near: int, far: int) -> bool {
    &&& m.m[0][0] == fx_mul_spec(aspect, proj_fov_spec(fov))
    &&& m.m[1][1] == proj_fov_spec(fov)
    &&& m.m[2][2] == (if far != near {
        fx_div_spec(far, far - near)
    } else {
        0int
    })
    &&& m.m[3][2] == (if far != near {
        -fx_div_spec(fx_mul_spec(far, near), far - near)
    } else {
        0int
    })
    &&& m.m[2][3] == FX_ONE
    &&& m.m[0][1] == 0 && m.m[0][2] == 0 && m.m[0][3] == 0 && m.m[1][0] == 0 && m.m[1][2] == 0
        && m.m[1][3] == 0 && m.m[2][0] == 0 && m.m[2][1] == 0 && m.m[3][0] == 0 && m.m[3][1] == 0
        && m.m[3][3] == 0
}

/// The parts of a renderer a camera mutator never touches: the scene, the
/// viewport, the projection and the depth buffer.
pub open spec fn same_scene(a: Renderer, b: Renderer) -> bool {
    &&& a.mesh_list() == b.mesh_list()
    &&& a.anim_list() == b.anim_list()
    &&& a.width_px() == b.width_px()
    &&& a.height_px() == b.height_px()
    &&& a.clear_color() == b.clear_color()
    &&& a.proj() == b.proj()
    &&& a.depth_vals() == b.depth_vals()
}

/// Drawability of the scene carries over to any state holding the same
/// lists.
proof fn lemma_scene_wf_transfer(a: Renderer, b: Renderer)
    requires
        a.mesh_list() == b.mesh_list(),
        a.anim_list() == b.anim_list(),
        forall|i: int| 0 <= i < a.mesh_list().len() ==> mesh_ok(#[trigger] a.mesh_list()[i]),
        forall|i: int| 0 <= i < a.anim_list().len() ==> (#[trigger] a.anim_list()[i]).wf(),
    ensures
        forall|i: int| 0 <= i < b.mesh_list().len() ==> mesh_ok(#[trigger] b.mesh_list()[i]),
        forall|i: int| 0 <= i < b.anim_list().len() ==> (#[trigger] b.anim_list()[i]).wf(),
{
    assert forall|i: int| 0 <= i < b.mesh_list().len() implies mesh_ok(
        #[trigger] b.mesh_list()[i],
    ) by {
        assert(b.mesh_list()[i] == a.mesh_list()[i]);
        assert(mesh_ok(a.mesh_list()[i]));
    }
    assert forall|i: int| 0 <= i < b.anim_list().len() implies (#[trigger] b.anim_list()[i]).wf() by {
        assert(b.anim_list()[i] == a.anim_list()[i]);
        assert(a.anim_list()[i].wf());
    }
}


/// The projection scale for the ninety-degree field of view, evaluated
/// step by step through the sine and cosine of the half angle.
proof fn lemma_proj_fov_ninety()
    ensures
        proj_fov_spec(5898240) == 65537,
{
    assert(fx_mul_spec(5898240, 32768) == 2949120) by (nonlinear_arith);
    assert(fx_div_spec(2949120, 11796480) == 16384) by (nonlinear_arith);
    assert(fx_mul_spec(16384, 205887) == 51471) by (nonlinear_arith);
    assert(crate::geometry::fov_half_rad_spec(5898240) == 51471);
    assert(crate::fx::angle_reduce_spec(51471) == 51471) by (nonlinear_arith);
    assert(fx_mul_spec(51471, 51471) == 40424) by (nonlinear_arith);
    assert(fx_mul_spec(40424, 51471) == 31748) by (nonlinear_arith);
    assert(fx_mul_spec(31748, 40424) == 19582) by (nonlinear_arith);
    assert(fx_mul_spec(19582, 40424) == 12078) by (nonlinear_arith);
    assert(fx_div_spec(31748, 393216) == 5291) by (nonlinear_arith);
    assert(fx_div_spec(19582, 7864320) == 163) by (nonlinear_arith);
    assert(fx_div_spec(12078, 330301440) == 2) by (nonlinear_arith);
    assert(crate::fx::sin_poly_spec(51471) == 46341);
    assert(sin_fx_spec(51471) == 46341);
    assert(crate::fx::angle_reduce_spec(154415) == 154415) by (nonlinear_arith);
    assert(fx_mul_spec(51472, 51472) == 40426) by (nonlinear_arith);
    assert(fx_mul_spec(40426, 51472) == 31750) by (nonlinear_arith);
    assert(fx_mul_spec(31750, 40426) == 19585) by (nonlinear_arith);
    assert(fx_mul_spec(19585, 40426) == 12081) by (nonlinear_arith);
    assert(fx_div_spec(31750, 393216) == 5291) by (nonlinear_arith);
    assert(fx_div_spec(19585, 7864320) == 163) by (nonlinear_arith);
    assert(fx_div_spec(12081, 330301440) == 2) by (nonlinear_arith);
    assert(crate::fx::sin_poly_spec(51472) == 46342);
    assert(sin_fx_spec(154415) == 46342);
    assert(cos_fx_spec(51471) == 46342);
    assert(fx_div_spec(46342, 46341) == 65537) by (nonlinear_arith);
}

/// A Renderer object. This is the object responsible for performing the
/// geometric calculations to output a 2D camera perspective of the 3D
/// environment passed in via the mesh lists.
pub struct Renderer<'a> {
    meshes: Vec<Mesh<'a>>,
    animated_meshes: Vec<AnimatedMesh<'a>>,
    view_width: usize,
    view_height: usize,
    framebuffer_clear_color: u32,
    mat_projection: Mat4x4,
    vec_camera: Vec3d,
    vec_target: Vec3d,
    vec_look_dir: Vec3d,
    vec_up: Vec3d,
    yaw: i64,
    depth_buffer: Vec<i64>,
}

impl<'a> Renderer<'a> {
    pub closed spec fn mesh_list(&self) -> Seq<Mesh<'a>> {
        self.meshes@
    }

    pub closed spec fn anim_list(&self) -> Seq<AnimatedMesh<'a>> {
        self.animated_meshes@
    }

    pub closed spec fn width_px(&self) -> usize {
        self.view_width
    }

    pub closed spec fn height_px(&self) -> usize {
        self.view_height
    }

    pub closed spec fn clear_color(&self) -> u32 {
        self.framebuffer_clear_color
    }

    pub closed spec fn proj(&self) -> Mat4x4 {
        self.mat_projection
    }

    pub closed spec fn camera(&self) -> Vec3d {
        self.vec_camera
    }

    pub closed spec fn target(&self) -> Vec3d {
        self.vec_target
    }

    pub closed spec fn look_dir(&self) -> Vec3d {
        self.vec_look_dir
    }

    pub closed spec fn up(&self) -> Vec3d {
        self.vec_up
    }

    pub closed spec fn yaw_val(&self) -> i64 {
        self.yaw
    }

    pub closed spec fn depth_vals(&self) -> Seq<i64> {
        self.depth_buffer@
    }

    /// The controller's invariant: viewport and depth buffer agree, every
    /// matrix and vector stays in range, and every mesh is drawable.
    pub open spec fn wf(&self) -> bool {
        &&& 1 <= self.width_px() <= 32768
        &&& 1 <= self.height_px() <= 32768
        &&& self.depth_vals().len() == self.width_px() * self.height_px()
        &&& mat4_ok(self.proj())
        &&& -CAM_LIM <= self.camera().x <= CAM_LIM
        &&& -CAM_LIM <= self.camera().y <= CAM_LIM
        &&& -CAM_LIM <= self.camera().z <= CAM_LIM
        &&& self.up() == (Vec3d { x: 0i64, y: FX_ONE, z: 0i64, w: FX_ONE })
        &&& -ANGLE_LIM <= self.yaw_val() <= ANGLE_LIM
        &&& vec3_small(self.look_dir())
        &&& forall|i: int| 0 <= i < self.mesh_list().len() ==> mesh_ok(#[trigger] self.mesh_list()[i])
        &&& forall|i: int| 0 <= i < self.anim_list().len() ==> (#[trigger] self.anim_list()[i]).wf()
    }

    /// Creates a new `Renderer` for a viewport, with a 90 degree field of
    /// view, a near plane at 0.1 and a far plane at 1000.
    pub fn new(
        meshes: Vec<Mesh<'a>>,
        animated_meshes: Vec<AnimatedMesh<'a>>,
        view_width: usize,
        view_height: usize,
        framebuffer_clear_color: u32,
    ) -> (r: Renderer<'a>)
        requires
            1 <= view_width <= 32768,
            1 <= view_height <= 32768,
            forall|i: int| 0 <= i < meshes@.len() ==> mesh_ok(#[trigger] meshes@[i]),
            forall|i: int| 0 <= i < animated_meshes@.len() ==> (#[trigger] animated_meshes@[i]).wf(),
        ensures
            r.wf(),
            r.mesh_list() == meshes@,
            r.anim_list() == animated_meshes@,
            r.width_px() == view_width,
            r.height_px() == view_height,
            r.clear_color() == framebuffer_clear_color,
            r.camera() == (Vec3d { x: 0i64, y: 0i64, z: 0i64, w: FX_ONE }),
            r.target() == (Vec3d { x: 0i64, y: 0i64, z: FX_ONE, w: FX_ONE }),
            r.look_dir() == (Vec3d { x: 0i64, y: 0i64, z: FX_ONE, w: FX_ONE }),
            r.up() == (Vec3d { x: 0i64, y: FX_ONE, z: 0i64, w: FX_ONE }),
            r.yaw_val() == 0,
            r.depth_vals().len() == view_width * view_height,
            forall|i: int| 0 <= i < r.depth_vals().len() ==> r.depth_vals()[i] == 0i64,
            is_proj_for(
                r.proj(),
                5898240,
                fx_div_spec(view_height * 65536, view_width * 65536),
                6554,
                65536000,
            ),
    {
        proof {
            lemma_fx_div_bound(view_height * 65536, view_width * 65536, 0x8000_0000);
        }
        let aspect: i64 = fx_div((view_height as i64) * 65536, (view_width as i64) * 65536);
        let mat_projection = matrix_make_projection(5898240, aspect, 6554, 65536000);
        proof {
            lemma_proj_fov_ninety();
            assert(fx_div_spec(65536000, 65529446) == 65542) by (nonlinear_arith);
            assert(fx_mul_spec(65536000, 6554) == 6554000) by (nonlinear_arith);
            assert(fx_div_spec(6554000, 65529446) == 6554) by (nonlinear_arith);
            lemma_fx_mul_bound(aspect as int, proj_fov_spec(5898240), 0x8000_0000, 0x20000);
            assert(mat4_ok(mat_projection));
        }
        let vec_camera = Vec3d { x: 0, y: 0, z: 0, w: FX_ONE };
        let vec_target = Vec3d { x: 0, y: 0, z: FX_ONE, w: FX_ONE };
        let vec_look_dir = Vec3d { x: 0, y: 0, z: FX_ONE, w: FX_ONE };
        let vec_up = Vec3d { x: 0, y: FX_ONE, z: 0, w: FX_ONE };
        proof {
            assert((view_width * view_height) as int <= 32768 * 32768) by (nonlinear_arith)
                requires
                    1 <= view_width <= 32768,
                    1 <= view_height <= 32768,
            ;
        }
        let depth_buffer: Vec<i64> = vec![0i64; view_width * view_height];
        Renderer {
            meshes,
            animated_meshes,
            view_width,
            view_height,
            framebuffer_clear_color,
            mat_projection,
            vec_camera,
            vec_look_dir,
            vec_target,
            vec_up,
            yaw: 0,
            depth_buffer,
        }
    }

    /// The camera position, for hosts that guard their own inputs.
    pub fn camera_value(&self) -> (c: Vec3d)
        ensures
            c == self.camera(),
    {
        self.vec_camera
    }

    /// The current look direction.
    pub fn look_dir_value(&self) -> (d: Vec3d)
        ensures
            d == self.look_dir(),
    {
        self.vec_look_dir
    }

    /// The current yaw angle in raw radians.
    pub fn yaw_value(&self) -> (y: i64)
        ensures
            y == self.yaw_val(),
    {
        self.yaw
    }

    /// The viewport extents the renderer was made for.
    pub fn view_size(&self) -> (s: (usize, usize))
        ensures
            s.0 == self.width_px() && s.1 == self.height_px(),
    {
        (self.view_width, self.view_height)
    }

    /// Translates the renderer camera yaw by 'yaw_adjustment'.
    pub fn translate_yaw(&mut self, yaw_adjustment: i64)
        requires
            old(self).wf(),
            -ANGLE_LIM <= old(self).yaw_val() + yaw_adjustment <= ANGLE_LIM,
        ensures
            final(self).wf(),
            final(self).yaw_val() == old(self).yaw_val() + yaw_adjustment,
            same_scene(*final(self), *old(self)),
            final(self).camera() == old(self).camera(),
            final(self).target() == old(self).target(),
            final(self).look_dir() == old(self).look_dir(),
            final(self).up() == old(self).up(),
    {
        self.yaw = self.yaw + yaw_adjustment;
        proof {
            lemma_scene_wf_transfer(*old(self), *self);
        }
    }

    /// Translates the renderer camera along world X by 'x_adjustment'.
    pub fn translate_camera_x(&mut self, x_adjustment: i64)
        requires
            old(self).wf(),
            -CAM_LIM <= old(self).camera().x + x_adjustment <= CAM_LIM,
        ensures
            final(self).wf(),
            final(self).camera() == (Vec3d {
                x: (old(self).camera().x + x_adjustment) as i64,
                ..old(self).camera()
            }),
            same_scene(*final(self), *old(self)),
            final(self).yaw_val() == old(self).yaw_val(),
            final(self).target() == old(self).target(),
            final(self).look_dir() == old(self).look_dir(),
            final(self).up() == old(self).up(),
    {
        self.vec_camera.x = self.vec_camera.x + x_adjustment;
        proof {
            lemma_scene_wf_transfer(*old(self), *self);
        }
    }

    /// Translates the renderer camera along world Y by 'y_adjustment'.
    pub fn translate_camera_y(&mut self, y_adjustment: i64)
        requires
            old(self).wf(),
            -CAM_LIM <= old(self).camera().y + y_adjustment <= CAM_LIM,
        ensures
            final(self).wf(),
            final(self).camera() == (Vec3d {
                y: (old(self).camera().y + y_adjustment) as i64,
                ..old(self).camera()
            }),
            same_scene(*final(self), *old(self)),
            final(self).yaw_val() == old(self).yaw_val(),
            final(self).target() == old(self).target(),
            final(self).look_dir() == old(self).look_dir(),
            final(self).up() == old(self).up(),
    {
        self.vec_camera.y = self.vec_camera.y + y_adjustment;
        proof {
            lemma_scene_wf_transfer(*old(self), *self);
        }
    }

    /// Translates the camera forward along the look direction by
    /// 'forward_adjustment' scaled by 'time_elapsed'.
    pub fn translate_camera_forward(&mut self, forward_adjustment: i64, time_elapsed: i64)
        requires
            old(self).wf(),
            fx_ok(forward_adjustment as int),
            fx_ok(time_elapsed as int),
            fx_ok(fx_mul_spec(forward_adjustment as int, time_elapsed as int)),
            ({
                let k = fx_mul_spec(forward_adjustment as int, time_elapsed as int);
                let d = old(self).look_dir();
                &&& -CAM_LIM <= old(self).camera().x + fx_mul_spec(d.x as int, k) <= CAM_LIM
                &&& -CAM_LIM <= old(self).camera().y + fx_mul_spec(d.y as int, k) <= CAM_LIM
                &&& -CAM_LIM <= old(self).camera().z + fx_mul_spec(d.z as int, k) <= CAM_LIM
            }),
        ensures
            final(self).wf(),
            ({
                let k = fx_mul_spec(forward_adjustment as int, time_elapsed as int);
                let d = old(self).look_dir();
                final(self).camera() == (Vec3d {
                    x: (old(self).camera().x + fx_mul_spec(d.x as int, k)) as i64,
                    y: (old(self).camera().y + fx_mul_spec(d.y as int, k)) as i64,
                    z: (old(self).camera().z + fx_mul_spec(d.z as int, k)) as i64,
                    w: FX_ONE,
                })
            }),
            same_scene(*final(self), *old(self)),
            final(self).yaw_val() == old(self).yaw_val(),
            final(self).target() == old(self).target(),
            final(self).look_dir() == old(self).look_dir(),
            final(self).up() == old(self).up(),
    {
        let k = fx_mul(forward_adjustment, time_elapsed);
        let vec_forward = vector_mul(&self.vec_look_dir, k);
        self.vec_camera = vector_add(&self.vec_camera, &vec_forward);
        proof {
            lemma_scene_wf_transfer(*old(self), *self);
        }
    }

    /// Translates the camera backward along the look direction by
    /// 'backward_adjustment' scaled by 'time_elapsed'.
    pub fn translate_camera_backward(&mut self, backward_adjustment: i64, time_elapsed: i64)
        requires
            old(self).wf(),
            fx_ok(backward_adjustment as int),
            fx_ok(time_elapsed as int),
            fx_ok(fx_mul_spec(backward_adjustment as int, time_elapsed as int)),
            ({
                let k = fx_mul_spec(backward_adjustment as int, time_elapsed as int);
                let d = old(self).look_dir();
                &&& -CAM_LIM <= old(self).camera().x - fx_mul_spec(d.x as int, k) <= CAM_LIM
                &&& -CAM_LIM <= old(self).camera().y - fx_mul_spec(d.y as int, k) <= CAM_LIM
                &&& -CAM_LIM <= old(self).camera().z - fx_mul_spec(d.z as int, k) <= CAM_LIM
            }),
        ensures
            final(self).wf(),
            ({
                let k = fx_mul_spec(backward_adjustment as int, time_elapsed as int);
                let d = old(self).look_dir();
                final(self).camera() == (Vec3d {
                    x: (old(self).camera().x - fx_mul_spec(d.x as int, k)) as i64,
                    y: (old(self).camera().y - fx_mul_spec(d.y as int, k)) as i64,
                    z: (old(self).camera().z - fx_mul_spec(d.z as int, k)) as i64,
                    w: FX_ONE,
                })
            }),
            same_scene(*final(self), *old(self)),
            final(self).yaw_val() == old(self).yaw_val(),
            final(self).target() == old(self).target(),
            final(self).look_dir() == old(self).look_dir(),
            final(self).up() == old(self).up(),
    {
        let k = fx_mul(backward_adjustment, time_elapsed);
        let vec_backward = vector_mul(&self.vec_look_dir, k);
        self.vec_camera = vector_sub(&self.vec_camera, &vec_backward);
        proof {
            lemma_scene_wf_transfer(*old(self), *self);
        }
    }
}

/// Whether every entry of the matrix lies within the scalar range.
fn mat4_ok_check(m: &Mat4x4) -> (b: bool)
    ensures
        b == mat4_ok(*m),
{
    let mut ok = true;
    let mut r: usize = 0;
    while r < 4
        invariant
            r <= 4,
            ok == (forall|i: int, j: int|
                0 <= i < r && 0 <= j < 4 ==> fx_ok(#[trigger] m.m[i][j] as int)),
        decreases 4 - r,
    {
        let mut c: usize = 0;
        while c < 4
            invariant
                r < 4,
                c <= 4,
                ok == ((forall|i: int, j: int|
                    0 <= i < r && 0 <= j < 4 ==> fx_ok(#[trigger] m.m[i][j] as int)) && (forall|
                    j: int,
                |
                    0 <= j < c ==> fx_ok(#[trigger] m.m[r as int][j] as int))),
            decreases 4 - c,
        {
            if !(-FX_LIM <= m.m[r][c] && m.m[r][c] <= FX_LIM) {
                ok = false;
            }
            c = c + 1;
        }
        r = r + 1;
    }
    ok
}

/// Position and texture values a pipeline stage hands on: all within the
/// coordinate range, the homogeneous W included.
pub open spec fn tri_vals_small(t: Triangle) -> bool {
    &&& tri_small(t)
    &&& -COORD_LIM <= t.points[0].w <= COORD_LIM
    &&& -COORD_LIM <= t.points[1].w <= COORD_LIM
    &&& -COORD_LIM <= t.points[2].w <= COORD_LIM
}

/// Whether all three spatial components lie within 'lim'.
fn vec3_in(v: &Vec3d, lim: i64) -> (b: bool)
    requires
        0 <= lim,
    ensures
        b == (-lim <= v.x <= lim && -lim <= v.y <= lim && -lim <= v.z <= lim),
{
    -lim <= v.x && v.x <= lim && -lim <= v.y && v.y <= lim && -lim <= v.z && v.z <= lim
}

/// Whether a whole triangle's values lie within the coordinate range.
fn check_tri_ok(t: &Triangle) -> (b: bool)
    ensures
        b == tri_vals_small(*t),
{
    let p = &t.points;
    let q = &t.texture_points;
    vec3_in(&p[0], COORD_LIM) && vec3_in(&p[1], COORD_LIM) && vec3_in(&p[2], COORD_LIM)
        && -COORD_LIM <= p[0].w && p[0].w <= COORD_LIM && -COORD_LIM <= p[1].w && p[1].w
        <= COORD_LIM && -COORD_LIM <= p[2].w && p[2].w <= COORD_LIM && -COORD_LIM <= q[0].u
        && q[0].u <= COORD_LIM && -COORD_LIM <= q[0].v && q[0].v <= COORD_LIM && -COORD_LIM
        <= q[0].w && q[0].w <= COORD_LIM && -COORD_LIM <= q[1].u && q[1].u <= COORD_LIM
        && -COORD_LIM <= q[1].v && q[1].v <= COORD_LIM && -COORD_LIM <= q[1].w && q[1].w
        <= COORD_LIM && -COORD_LIM <= q[2].u && q[2].u <= COORD_LIM && -COORD_LIM <= q[2].v
        && q[2].v <= COORD_LIM && -COORD_LIM <= q[2].w && q[2].w <= COORD_LIM
}

/// The all-zero triangle with unit homogeneous components, the scratch
/// value the clipper writes into.
fn tri_zero() -> (t: Triangle)
    ensures
        t == Triangle::zero(),
{
    Triangle {
        points: [
            Vec3d { x: 0, y: 0, z: 0, w: FX_ONE },
            Vec3d { x: 0, y: 0, z: 0, w: FX_ONE },
            Vec3d { x: 0, y: 0, z: 0, w: FX_ONE },
        ],
        texture_points: [
            Vec2d { u: 0, v: 0, w: FX_ONE },
            Vec2d { u: 0, v: 0, w: FX_ONE },
            Vec2d { u: 0, v: 0, w: FX_ONE },
        ],
    }
}

/// A color the scene could have drawn: a texel of a static mesh's texture
/// or of an animated mesh's current frame's texture.
pub open spec fn scene_texel(ml: Seq<Mesh>, al: Seq<AnimatedMesh>, c: u32) -> bool {
    ||| exists|i: int, ti: int|
        0 <= i < ml.len() && 0 <= ti < ml[i].texture.pixels@.len()
            && c == #[trigger] ml[i].texture.pixels@[ti]
    ||| exists|i: int, ti: int|
        0 <= i < al.len() && 0 <= ti < al[i].current_frame.texture.pixels@.len() && c
            == #[trigger] al[i].current_frame.texture.pixels@[ti]
}

/// The frame's standing invariant during a render: one depth slot per
/// pixel, no slot negative, and any pixel that is not the clear color has
/// passed a depth test.
pub open spec fn frame_inv(fb: Framebuffer, d: Seq<i64>, clear: u32) -> bool {
    &&& fb.wf()
    &&& d.len() == fb@.len()
    &&& forall|k: int| 0 <= k < d.len() ==> #[trigger] d[k] >= 0
    &&& forall|k: int| 0 <= k < fb@.len() && #[trigger] fb@[k] != clear ==> d[k] > 0
}

/// Drawing a triangle keeps the frame's standing invariant.
proof fn lemma_frame_inv_step(
    fb0: Framebuffer,
    d0: Seq<i64>,
    fb1: Framebuffer,
    d1: Seq<i64>,
    tex: Texture,
    clear: u32,
)
    requires
        frame_inv(fb0, d0, clear),
        raster_frame_ok(fb0, d0, fb1, d1, tex),
    ensures
        frame_inv(fb1, d1, clear),
{
    assert forall|k: int| 0 <= k < d1.len() implies #[trigger] d1[k] >= 0 by {
        assert(d1[k] >= d0[k]);
        assert(d0[k] >= 0);
    }
    assert forall|k: int| 0 <= k < fb1@.len() && #[trigger] fb1@[k] != clear implies d1[k] > 0 by {
        if fb1@[k] != fb0@[k] {
            assert(d1[k] > d0[k]);
            assert(d0[k] >= 0);
        } else {
            assert(fb0@[k] != clear);
            assert(d0[k] > 0);
            assert(d1[k] >= d0[k]);
        }
    }
}

/// The plane point and normal of one of the four screen edges: top,
/// bottom, left, right, in that order.
fn screen_plane(p: usize, view_width: usize, view_height: usize) -> (r: (Vec3d, Vec3d))
    requires
        p < 4,
        1 <= view_width <= 32768,
        1 <= view_height <= 32768,
    ensures
        vec3_small(r.0),
        vec3_small(r.1),
        crate::geometry::len_sq(r.1) > 0,
{
    let r = if p == 0 {
        (
            Vec3d { x: 0, y: 0, z: 0, w: FX_ONE },
            Vec3d { x: 0, y: FX_ONE, z: 0, w: FX_ONE },
        )
    } else if p == 1 {
        (
            Vec3d { x: 0, y: ((view_height - 1) as i64) * 65536, z: 0, w: FX_ONE },
            Vec3d { x: 0, y: -FX_ONE, z: 0, w: FX_ONE },
        )
    } else if p == 2 {
        (
            Vec3d { x: 0, y: 0, z: 0, w: FX_ONE },
            Vec3d { x: FX_ONE, y: 0, z: 0, w: FX_ONE },
        )
    } else {
        (
            Vec3d { x: ((view_width - 1) as i64) * 65536, y: 0, z: 0, w: FX_ONE },
            Vec3d { x: -FX_ONE, y: 0, z: 0, w: FX_ONE },
        )
    };
    proof {
        assert(65536int * 65536 > 0) by (nonlinear_arith);
        assert((-65536int) * (-65536int) > 0) by (nonlinear_arith);
    }
    r
}


/// Projects one near-clipped triangle, performs the perspective divide on
/// geometry and texture, flips and scales into screen space, and queues
/// the result; values leaving the coordinate range drop the triangle.
fn project_queue(
    ctri: &Triangle,
    mat_proj: &Mat4x4,
    wf2: i64,
    hf2: i64,
    out: &mut Vec<Triangle>,
)
    requires
        mat4_ok(*mat_proj),
        tri_vals_small(*ctri),
        0 <= wf2 <= 0x4000_0000,
        0 <= hf2 <= 0x4000_0000,
        forall|q: int| 0 <= q < old(out)@.len() ==> tri_vals_small(#[trigger] old(out)@[q]),
    ensures
        final(out)@.len() >= old(out)@.len(),
        forall|q: int| 0 <= q < final(out)@.len() ==> tri_vals_small(#[trigger] final(out)@[q]),
{
    let pr0 = matrix_multiply_vector(mat_proj, &ctri.points[0]);
    let pr1 = matrix_multiply_vector(mat_proj, &ctri.points[1]);
    let pr2 = matrix_multiply_vector(mat_proj, &ctri.points[2]);
    if pr0.w != 0 && pr1.w != 0 && pr2.w != 0 && vec3_in(&pr0, FX_LIM) && vec3_in(&pr1, FX_LIM)
        && vec3_in(&pr2, FX_LIM) {
        let t0 = Vec2d {
            u: fx_div(ctri.texture_points[0].u, pr0.w),
            v: fx_div(ctri.texture_points[0].v, pr0.w),
            w: fx_div(FX_ONE, pr0.w),
        };
        let t1 = Vec2d {
            u: fx_div(ctri.texture_points[1].u, pr1.w),
            v: fx_div(ctri.texture_points[1].v, pr1.w),
            w: fx_div(FX_ONE, pr1.w),
        };
        let t2 = Vec2d {
            u: fx_div(ctri.texture_points[2].u, pr2.w),
            v: fx_div(ctri.texture_points[2].v, pr2.w),
            w: fx_div(FX_ONE, pr2.w),
        };
        let d0 = vector_div(&pr0, pr0.w);
        let d1 = vector_div(&pr1, pr1.w);
        let d2 = vector_div(&pr2, pr2.w);
        if vec3_in(&d0, COORD_LIM) && vec3_in(&d1, COORD_LIM) && vec3_in(&d2, COORD_LIM) {
            let s0 = Vec3d {
                x: fx_mul(-d0.x + 65536, wf2),
                y: fx_mul(-d0.y + 65536, hf2),
                z: d0.z,
                w: d0.w,
            };
            let s1 = Vec3d {
                x: fx_mul(-d1.x + 65536, wf2),
                y: fx_mul(-d1.y + 65536, hf2),
                z: d1.z,
                w: d1.w,
            };
            let s2 = Vec3d {
                x: fx_mul(-d2.x + 65536, wf2),
                y: fx_mul(-d2.y + 65536, hf2),
                z: d2.z,
                w: d2.w,
            };
            let newtri = Triangle { points: [s0, s1, s2], texture_points: [t0, t1, t2] };
            if check_tri_ok(&newtri) {
                out.push(newtri);
            }
        }
    }
}

/// Runs one mesh through the whole per-triangle pipeline: world transform,
/// back-face cull, view transform, near-plane clip, projection and
/// perspective divide, screen-space scale, the four screen-edge clips, and
/// the depth-tested rasterization. Geometry whose intermediate values
/// leave the coordinate range is dropped rather than drawn.
#[verifier::loop_isolation(false)]
#[verifier::rlimit(60)]
fn render_mesh(
    tris: &Vec<Triangle>,
    tex: &Texture,
    mat_world: &Mat4x4,
    mat_view: &Mat4x4,
    mat_proj: &Mat4x4,
    camera: &Vec3d,
    view_width: usize,
    view_height: usize,
    framebuffer: &mut Framebuffer,
    depth: &mut Vec<i64>,
)
    requires
        tex.wf(),
        mat4_ok(*mat_world),
        mat4_ok(*mat_view),
        mat4_ok(*mat_proj),
        vec3_small(*camera),
        1 <= view_width <= 32768,
        1 <= view_height <= 32768,
        old(framebuffer).wf(),
        old(framebuffer).width() == view_width,
        old(framebuffer).height() == view_height,
        old(depth)@.len() == old(framebuffer)@.len(),
    ensures
        raster_frame_ok(
            *old(framebuffer),
            old(depth)@,
            *final(framebuffer),
            final(depth)@,
            *tex,
        ),
{
    let near_p = Vec3d { x: 0, y: 0, z: 6554, w: FX_ONE };
    let near_n = Vec3d { x: 0, y: 0, z: FX_ONE, w: FX_ONE };
    proof {
        assert(65536int * 65536 > 0) by (nonlinear_arith);
    }
    let wf2: i64 = (view_width as i64) * 32768;
    let hf2: i64 = (view_height as i64) * 32768;
    let mut raster_list: Vec<Triangle> = Vec::new();
    let mut ti: usize = 0;
    while ti < tris.len()
        invariant
            forall|q: int| 0 <= q < raster_list@.len() ==> tri_vals_small(#[trigger] raster_list@[q]),
        decreases tris@.len() - ti,
    {
        let tri: Triangle = tris[ti];
        if check_tri_ok(&tri) {
            let p0 = matrix_multiply_vector(mat_world, &tri.points[0]);
            let p1 = matrix_multiply_vector(mat_world, &tri.points[1]);
            let p2 = matrix_multiply_vector(mat_world, &tri.points[2]);
            let tri_transformed = Triangle {
                points: [p0, p1, p2],
                texture_points: tri.texture_points,
            };
            if check_tri_ok(&tri_transformed) {
                let line1 = vector_sub(&tri_transformed.points[1], &tri_transformed.points[0]);
                let line2 = vector_sub(&tri_transformed.points[2], &tri_transformed.points[0]);
                let normal = vector_cross_product(&line1, &line2);
                let v_camera_ray = vector_sub(&tri_transformed.points[0], camera);
                if vec3_in(&normal, FX_LIM) && vec3_in(&v_camera_ray, FX_LIM) {
                    let d = vector_dot_product(&normal, &v_camera_ray);
                    if d < 0 {
                        let q0 = matrix_multiply_vector(mat_view, &tri_transformed.points[0]);
                        let q1 = matrix_multiply_vector(mat_view, &tri_transformed.points[1]);
                        let q2 = matrix_multiply_vector(mat_view, &tri_transformed.points[2]);
                        let tri_viewed = Triangle {
                            points: [q0, q1, q2],
                            texture_points: tri_transformed.texture_points,
                        };
                        if check_tri_ok(&tri_viewed) {
                            let mut clipped1 = tri_zero();
                            let mut clipped2 = tri_zero();
                            let n_clipped = triangle_clip_against_plane(
                                &near_p,
                                &near_n,
                                &tri_viewed,
                                &mut clipped1,
                                &mut clipped2,
                            );
                            let mut ci: u64 = 0;
                            while ci < n_clipped
                                invariant
                                    n_clipped <= 2,
                                    forall|q: int|
                                        0 <= q < raster_list@.len() ==> tri_vals_small(
                                            #[trigger] raster_list@[q],
                                        ),
                                decreases n_clipped - ci,
                            {
                                let ctri: Triangle = if ci == 0 {
                                    clipped1
                                } else {
                                    clipped2
                                };
                                if check_tri_ok(&ctri) {
                                    project_queue(&ctri, mat_proj, wf2, hf2, &mut raster_list);
                                }
                                ci = ci + 1;
                            }
                        }
                    }
                }
            }
        }
        ti = ti + 1;
    }

    let sw: i64 = framebuffer.width_value() as i64;
    let mut ri: usize = 0;
    while ri < raster_list.len()
        invariant
            forall|q: int| 0 <= q < raster_list@.len() ==> tri_vals_small(#[trigger] raster_list@[q]),
            framebuffer.wf(),
            framebuffer.width() == old(framebuffer).width(),
            framebuffer.height() == old(framebuffer).height(),
            raster_frame_ok(*old(framebuffer), old(depth)@, *framebuffer, depth@, *tex),
        decreases raster_list@.len() - ri,
    {
        let mut cur: Vec<Triangle> = Vec::new();
        cur.push(raster_list[ri]);
        let mut plane: usize = 0;
        while plane < 4
            invariant
                forall|q: int| 0 <= q < cur@.len() ==> tri_vals_small(#[trigger] cur@[q]),
            decreases 4 - plane,
        {
            let mut next_q: Vec<Triangle> = Vec::new();
            let mut qi: usize = 0;
            while qi < cur.len()
                invariant
                    forall|q: int| 0 <= q < cur@.len() ==> tri_vals_small(#[trigger] cur@[q]),
                    forall|q: int| 0 <= q < next_q@.len() ==> tri_vals_small(#[trigger] next_q@[q]),
                    plane < 4,
                decreases cur@.len() - qi,
            {
                let t: Triangle = cur[qi];
                let mut c1 = tri_zero();
                let mut c2 = tri_zero();
                let (pp, pn) = screen_plane(plane, view_width, view_height);
                let n = triangle_clip_against_plane(&pp, &pn, &t, &mut c1, &mut c2);
                if n >= 1 {
                    if check_tri_ok(&c1) {
                        next_q.push(c1);
                    }
                }
                if n >= 2 {
                    if check_tri_ok(&c2) {
                        next_q.push(c2);
                    }
                }
                qi = qi + 1;
            }
            cur = next_q;
            plane = plane + 1;
        }
        let mut di: usize = 0;
        while di < cur.len()
            invariant
                forall|q: int| 0 <= q < cur@.len() ==> tri_vals_small(#[trigger] cur@[q]),
                framebuffer.wf(),
                framebuffer.width() == old(framebuffer).width(),
                framebuffer.height() == old(framebuffer).height(),
                raster_frame_ok(*old(framebuffer), old(depth)@, *framebuffer, depth@, *tex),
            decreases cur@.len() - di,
        {
            let t: Triangle = cur[di];
            proof {
                crate::fx::lemma_fx_round_bound(t.points[0].x as int, COORD_LIM as int);
                crate::fx::lemma_fx_round_bound(t.points[0].y as int, COORD_LIM as int);
                crate::fx::lemma_fx_round_bound(t.points[1].x as int, COORD_LIM as int);
                crate::fx::lemma_fx_round_bound(t.points[1].y as int, COORD_LIM as int);
                crate::fx::lemma_fx_round_bound(t.points[2].x as int, COORD_LIM as int);
                crate::fx::lemma_fx_round_bound(t.points[2].y as int, COORD_LIM as int);
            }
            let ghost fb_pre = *framebuffer;
            let ghost d_pre = depth@;
            draw_textured_triangle(
                fx_round(t.points[0].x),
                fx_round(t.points[0].y),
                t.texture_points[0].u,
                t.texture_points[0].v,
                t.texture_points[0].w,
                fx_round(t.points[1].x),
                fx_round(t.points[1].y),
                t.texture_points[1].u,
                t.texture_points[1].v,
                t.texture_points[1].w,
                fx_round(t.points[2].x),
                fx_round(t.points[2].y),
                t.texture_points[2].u,
                t.texture_points[2].v,
                t.texture_points[2].w,
                tex,
                framebuffer,
                depth,
                &sw,
            );
            proof {
                crate::draw::lemma_raster_frame_trans(
                    *old(framebuffer),
                    old(depth)@,
                    fb_pre,
                    d_pre,
                    *framebuffer,
                    depth@,
                    *tex,
                );
            }
            di = di + 1;
        }
        ri = ri + 1;
    }
}

/// Clear every depth slot to zero (far).
fn clear_depth(d: &mut Vec<i64>)
    ensures
        final(d)@.len() == old(d)@.len(),
        forall|k: int| 0 <= k < final(d)@.len() ==> final(d)@[k] == 0i64,
{
    let mut i: usize = 0;
    while i < d.len()
        invariant
            i <= d@.len(),
            d@.len() == old(d)@.len(),
            forall|k: int| 0 <= k < i ==> d@[k] == 0i64,
        decreases d@.len() - i,
    {
        d[i] = 0;
        i = i + 1;
    }
}

/// Advance every animated mesh by the elapsed time.
#[verifier::loop_isolation(false)]
fn tick_all(list: &mut Vec<AnimatedMesh>, dt: i64)
    requires
        forall|i: int| 0 <= i < old(list)@.len() ==> (#[trigger] old(list)@[i]).wf(),
        0 <= dt <= FX_LIM,
    ensures
        final(list)@.len() == old(list)@.len(),
        forall|i: int| 0 <= i < final(list)@.len() ==> (#[trigger] final(list)@[i]).wf(),
        forall|i: int|
            0 <= i < final(list)@.len() ==> tick_rel(
                #[trigger] old(list)@[i],
                final(list)@[i],
                dt as int,
            ),
{
    let mut i: usize = 0;
    while i < list.len()
        invariant
            i <= list@.len(),
            list@.len() == old(list)@.len(),
            0 <= dt <= FX_LIM,
            forall|j: int| i <= j < list@.len() ==> #[trigger] list@[j] == old(list)@[j],
            forall|j: int| 0 <= j < i ==> (#[trigger] list@[j]).wf(),
            forall|j: int|
                0 <= j < i ==> tick_rel(#[trigger] old(list)@[j], list@[j], dt as int),
        decreases list@.len() - i,
    {
        proof {
            assert(list@[i as int] == old(list)@[i as int]);
            assert(old(list)@[i as int].wf());
        }
        list[i].tick(dt);
        i = i + 1;
    }
}

/// The camera's frame construction never degenerates: the look direction
/// is nonzero and the Gram-Schmidt up candidate keeps its full length.
proof fn lemma_camera_setup(camera: Vec3d, look: Vec3d, target: Vec3d, up: Vec3d)
    requires
        look.y == 0,
        look.x != 0 || look.z != 0,
        target.x == camera.x + look.x,
        target.y == camera.y + look.y,
        target.z == camera.z + look.z,
        -COORD_LIM <= look.x <= COORD_LIM,
        -COORD_LIM <= look.z <= COORD_LIM,
        up == (Vec3d { x: 0i64, y: FX_ONE, z: 0i64, w: FX_ONE }),
    ensures
        crate::geometry::len_sq(crate::geometry::vsub_spec(target, camera)) > 0,
        crate::geometry::len_sq(crate::geometry::pa_up_input(camera, target, up)) > 0,
{
    let v = crate::geometry::vsub_spec(target, camera);
    assert(v.x == look.x && v.y == 0 && v.z == look.z);
    assert(v.x * v.x + v.y * v.y + v.z * v.z >= 1) by (nonlinear_arith)
        requires
            v.y == 0,
            v.x != 0 || v.z != 0,
    ;
    let n = crate::geometry::len_sq(v);
    crate::fx::lemma_sqrt_pos(n);
    let l = crate::fx::sqrt_spec(n);
    assert(l >= 1) by (nonlinear_arith)
        requires
            l * l <= n,
            n < (l + 1) * (l + 1),
            1 <= n,
            0 <= l,
    ;
    let fwd = crate::geometry::pa_forward(camera, target);
    assert(fx_div_spec(0, l) == 0) by (nonlinear_arith)
        requires
            l >= 1,
    ;
    assert(fwd.y == 0);
    lemma_fx_mul_zero(fwd.x as int);
    lemma_fx_mul_zero(fwd.z as int);
    lemma_fx_mul_one(0);
    assert(crate::geometry::dot3_spec(up, fwd) == 0);
    let a = crate::geometry::vmul_spec(fwd, 0);
    lemma_fx_mul_zero(fwd.y as int);
    assert(a.x == 0 && a.y == 0 && a.z == 0);
    let ui = crate::geometry::pa_up_input(camera, target, up);
    assert(ui.x == 0 && ui.y == FX_ONE && ui.z == 0);
    assert(65536int * 65536 > 0) by (nonlinear_arith);
}

impl<'a> Renderer<'a> {
    /// Performs the render function, translating the world meshes and
    /// camera location into a 2D frame: the depth buffer and frame are
    /// cleared, the animated meshes advance, the look direction and target
    /// are recomputed from the yaw, and every mesh runs through the
    /// pipeline. Afterwards no depth slot is negative, every pixel holds
    /// the clear color or a texel of one of the scene's textures, a pixel
    /// that is not the clear color has passed a depth test, and an empty
    /// scene leaves every pixel at the clear color.
    #[verifier::loop_isolation(false)]
    #[verifier::rlimit(60)]
    pub fn render(&mut self, time_elapsed: i64, framebuffer: &mut Framebuffer)
        requires
            old(self).wf(),
            old(framebuffer).wf(),
            old(framebuffer).width() == old(self).width_px(),
            old(framebuffer).height() == old(self).height_px(),
            0 <= time_elapsed <= FX_LIM,
        ensures
            final(self).wf(),
            final(framebuffer).wf(),
            final(framebuffer).width() == old(framebuffer).width(),
            final(framebuffer).height() == old(framebuffer).height(),
            final(self).mesh_list() == old(self).mesh_list(),
            final(self).width_px() == old(self).width_px(),
            final(self).height_px() == old(self).height_px(),
            final(self).clear_color() == old(self).clear_color(),
            final(self).proj() == old(self).proj(),
            final(self).camera() == old(self).camera(),
            final(self).up() == old(self).up(),
            final(self).yaw_val() == old(self).yaw_val(),
            final(self).look_dir() == look_dir_spec(old(self).yaw_val() as int),
            final(self).target().x == old(self).camera().x + look_dir_spec(
                old(self).yaw_val() as int,
            ).x,
            final(self).target().y == old(self).camera().y + look_dir_spec(
                old(self).yaw_val() as int,
            ).y,
            final(self).target().z == old(self).camera().z + look_dir_spec(
                old(self).yaw_val() as int,
            ).z,
            final(self).target().w == FX_ONE,
            final(self).anim_list().len() == old(self).anim_list().len(),
            forall|i: int|
                0 <= i < old(self).anim_list().len() ==> tick_rel(
                    #[trigger] old(self).anim_list()[i],
                    final(self).anim_list()[i],
                    time_elapsed as int,
                ),
            final(self).depth_vals().len() == old(self).depth_vals().len(),
            forall|k: int|
                0 <= k < final(self).depth_vals().len() ==> #[trigger] final(self).depth_vals()[k]
                    >= 0,
            forall|k: int|
                0 <= k < final(framebuffer)@.len() && #[trigger] final(framebuffer)@[k] != old(
                    self,
                ).clear_color() ==> final(self).depth_vals()[k] > 0,
            forall|k: int|
                0 <= k < final(framebuffer)@.len() ==> #[trigger] final(framebuffer)@[k] == old(
                    self,
                ).clear_color() || scene_texel(
                    final(self).mesh_list(),
                    final(self).anim_list(),
                    final(framebuffer)@[k],
                ),
            (old(self).mesh_list().len() == 0 && old(self).anim_list().len() == 0) ==> (forall|
                k: int,
            |
                0 <= k < final(framebuffer)@.len() ==> #[trigger] final(framebuffer)@[k] == old(
                    self,
                ).clear_color()),
            (old(self).mesh_list().len() == 0 && old(self).anim_list().len() == 0) ==> (forall|
                k: int,
            |
                0 <= k < final(self).depth_vals().len() ==> #[trigger] final(self).depth_vals()[k]
                    == 0i64),
    {
        clear_depth(&mut self.depth_buffer);
        let cc = self.framebuffer_clear_color;
        framebuffer.clear_buffer_color(&cc);
        tick_all(&mut self.animated_meshes, time_elapsed);
        proof {
            assert forall|i: int| 0 <= i < self.mesh_list().len() implies mesh_ok(
                #[trigger] self.mesh_list()[i],
            ) by {
                assert(self.mesh_list()[i] == old(self).mesh_list()[i]);
                assert(mesh_ok(old(self).mesh_list()[i]));
            }
        }

        let mat_rot_z = matrix_make_rotation_z(&0);
        let mat_rot_x = matrix_make_rotation_x(&0);
        let mat_trans = matrix_make_translation(0, 0, 327680);
        proof {
            assert(mat4_ok(mat_trans));
        }
        let world0 = matrix_multiply_matrix(&mat_rot_z, &mat_rot_x);
        let world_ok0 = mat4_ok_check(&world0);
        let mat_world = if world_ok0 {
            matrix_multiply_matrix(&world0, &mat_trans)
        } else {
            world0
        };
        let world_ok = world_ok0 && mat4_ok_check(&mat_world);

        let base_dir = Vec3d { x: 0, y: 0, z: FX_ONE, w: FX_ONE };
        self.vec_look_dir = base_dir;
        self.vec_target = base_dir;
        let mat_camera_rot = matrix_make_rotation_y(&self.yaw);
        let look0 = matrix_multiply_vector(&mat_camera_rot, &self.vec_target);
        proof {
            lemma_fx_mul_zero(mat_camera_rot.m[0][0] as int);
            lemma_fx_mul_zero(mat_camera_rot.m[0][1] as int);
            lemma_fx_mul_zero(mat_camera_rot.m[0][2] as int);
            lemma_fx_mul_zero(mat_camera_rot.m[0][3] as int);
            lemma_fx_mul_zero(mat_camera_rot.m[1][0] as int);
            lemma_fx_mul_zero(mat_camera_rot.m[1][1] as int);
            lemma_fx_mul_zero(mat_camera_rot.m[1][2] as int);
            lemma_fx_mul_zero(mat_camera_rot.m[1][3] as int);
            lemma_fx_mul_one(mat_camera_rot.m[2][0] as int);
            lemma_fx_mul_one(mat_camera_rot.m[2][1] as int);
            lemma_fx_mul_one(mat_camera_rot.m[2][2] as int);
            lemma_fx_mul_one(mat_camera_rot.m[2][3] as int);
            lemma_fx_mul_one(mat_camera_rot.m[3][0] as int);
            lemma_fx_mul_one(mat_camera_rot.m[3][1] as int);
            lemma_fx_mul_one(mat_camera_rot.m[3][2] as int);
            lemma_fx_mul_one(mat_camera_rot.m[3][3] as int);
            assert(look0.x == -sin_fx_spec(self.yaw as int));
            assert(look0.y == 0);
            assert(look0.z == cos_fx_spec(self.yaw as int));
            crate::fx::lemma_sin_fx_bounded(self.yaw as int);
            crate::fx::lemma_cos_fx_bounded(self.yaw as int);
        }
        let look = if look0.x == 0 && look0.y == 0 && look0.z == 0 {
            base_dir
        } else {
            look0
        };
        proof {
            assert(look == look_dir_spec(old(self).yaw_val() as int));
        }
        self.vec_look_dir = look;
        self.vec_target = vector_add(&self.vec_camera, &look);
        let ghost vtarget_snap = self.vec_target;

        proof {
            lemma_camera_setup(self.vec_camera, look, self.vec_target, self.vec_up);
        }
        let mat_camera = matrix_point_at(&self.vec_camera, &self.vec_target, &self.vec_up);
        let cam_ok = mat4_ok_check(&mat_camera);
        let mat_view = if cam_ok {
            matrix_quick_inverse(&mat_camera)
        } else {
            mat_camera
        };
        let view_ok = cam_ok && mat4_ok_check(&mat_view);

        if world_ok && view_ok {
            let mut mi: usize = 0;
            while mi < self.meshes.len()
                invariant
                    self.meshes@.len() == old(self).mesh_list().len(),
                    self.meshes == old(self).meshes,
                    self.animated_meshes@.len() == old(self).anim_list().len(),
                    forall|j: int|
                        0 <= j < self.animated_meshes@.len() ==> (
                        #[trigger] self.animated_meshes@[j]).wf(),
                    forall|j: int|
                        0 <= j < self.animated_meshes@.len() ==> tick_rel(
                            #[trigger] old(self).anim_list()[j],
                            self.animated_meshes@[j],
                            time_elapsed as int,
                        ),
                    self.view_width == old(self).width_px(),
                    self.view_height == old(self).height_px(),
                    self.framebuffer_clear_color == old(self).clear_color(),
                    self.mat_projection == old(self).proj(),
                    self.vec_camera == old(self).camera(),
                    self.vec_up == old(self).up(),
                    self.yaw == old(self).yaw_val(),
                    self.vec_look_dir == look,
                    self.vec_target == vtarget_snap,
                    mat4_ok(mat_world),
                    mat4_ok(mat_view),
                    framebuffer.wf(),
                    framebuffer.width() == old(framebuffer).width(),
                    framebuffer.height() == old(framebuffer).height(),
                    self.depth_buffer@.len() == framebuffer@.len(),
                    frame_inv(*framebuffer, self.depth_buffer@, cc),
                    (self.meshes@.len() == 0 && self.animated_meshes@.len() == 0) ==> (forall|
                        k: int,
                    |
                        0 <= k < self.depth_buffer@.len() ==> #[trigger] self.depth_buffer@[k]
                            == 0i64),
                    forall|k: int|
                        0 <= k < framebuffer@.len() ==> #[trigger] framebuffer@[k] == cc
                            || scene_texel(
                            self.meshes@,
                            self.animated_meshes@,
                            framebuffer@[k],
                        ),
                decreases self.meshes@.len() - mi,
            {
                let ghost fb_pre = *framebuffer;
                let ghost d_pre = self.depth_buffer@;
                let tex_ref = self.meshes[mi].texture;
                render_mesh(
                    &self.meshes[mi].tris,
                    tex_ref,
                    &mat_world,
                    &mat_view,
                    &self.mat_projection,
                    &self.vec_camera,
                    self.view_width,
                    self.view_height,
                    framebuffer,
                    &mut self.depth_buffer,
                );
                proof {
                    lemma_frame_inv_step(
                        fb_pre,
                        d_pre,
                        *framebuffer,
                        self.depth_buffer@,
                        *tex_ref,
                        cc,
                    );
                    assert forall|k: int|
                        0 <= k < framebuffer@.len() implies #[trigger] framebuffer@[k] == cc
                        || scene_texel(self.meshes@, self.animated_meshes@, framebuffer@[k]) by {
                        if framebuffer@[k] != fb_pre@[k] {
                            let ti = choose|ti: int|
                                0 <= ti < tex_ref.pixels@.len() && framebuffer@[k]
                                    == #[trigger] tex_ref.pixels@[ti];
                            assert(framebuffer@[k]
                                == self.meshes@[mi as int].texture.pixels@[ti]);
                        } else {
                            assert(fb_pre@[k] == cc || scene_texel(
                                self.meshes@,
                                self.animated_meshes@,
                                fb_pre@[k],
                            ));
                        }
                    }
                }
                mi = mi + 1;
            }
            let mut ai: usize = 0;
            while ai < self.animated_meshes.len()
                invariant
                    self.meshes == old(self).meshes,
                    self.animated_meshes@.len() == old(self).anim_list().len(),
                    forall|j: int|
                        0 <= j < self.animated_meshes@.len() ==> (
                        #[trigger] self.animated_meshes@[j]).wf(),
                    forall|j: int|
                        0 <= j < self.animated_meshes@.len() ==> tick_rel(
                            #[trigger] old(self).anim_list()[j],
                            self.animated_meshes@[j],
                            time_elapsed as int,
                        ),
                    self.view_width == old(self).width_px(),
                    self.view_height == old(self).height_px(),
                    self.framebuffer_clear_color == old(self).clear_color(),
                    self.mat_projection == old(self).proj(),
                    self.vec_camera == old(self).camera(),
                    self.vec_up == old(self).up(),
                    self.yaw == old(self).yaw_val(),
                    self.vec_look_dir == look,
                    self.vec_target == vtarget_snap,
                    mat4_ok(mat_world),
                    mat4_ok(mat_view),
                    framebuffer.wf(),
                    framebuffer.width() == old(framebuffer).width(),
                    framebuffer.height() == old(framebuffer).height(),
                    self.depth_buffer@.len() == framebuffer@.len(),
                    frame_inv(*framebuffer, self.depth_buffer@, cc),
                    (self.meshes@.len() == 0 && self.animated_meshes@.len() == 0) ==> (forall|
                        k: int,
                    |
                        0 <= k < self.depth_buffer@.len() ==> #[trigger] self.depth_buffer@[k]
                            == 0i64),
                    forall|k: int|
                        0 <= k < framebuffer@.len() ==> #[trigger] framebuffer@[k] == cc
                            || scene_texel(
                            self.meshes@,
                            self.animated_meshes@,
                            framebuffer@[k],
                        ),
                decreases self.animated_meshes@.len() - ai,
            {
                let ghost fb_pre = *framebuffer;
                let ghost d_pre = self.depth_buffer@;
                let tex_ref = self.animated_meshes[ai].current_frame.texture;
                render_mesh(
                    &self.animated_meshes[ai].current_frame.tris,
                    tex_ref,
                    &mat_world,
                    &mat_view,
                    &self.mat_projection,
                    &self.vec_camera,
                    self.view_width,
                    self.view_height,
                    framebuffer,
                    &mut self.depth_buffer,
                );
                proof {
                    lemma_frame_inv_step(
                        fb_pre,
                        d_pre,
                        *framebuffer,
                        self.depth_buffer@,
                        *tex_ref,
                        cc,
                    );
                    assert forall|k: int|
                        0 <= k < framebuffer@.len() implies #[trigger] framebuffer@[k] == cc
                        || scene_texel(self.meshes@, self.animated_meshes@, framebuffer@[k]) by {
                        if framebuffer@[k] != fb_pre@[k] {
                            let ti = choose|ti: int|
                                0 <= ti < tex_ref.pixels@.len() && framebuffer@[k]
                                    == #[trigger] tex_ref.pixels@[ti];
                            assert(framebuffer@[k]
                                == self.animated_meshes@[ai as int].current_frame.texture.pixels@[ti]);
                        } else {
                            assert(fb_pre@[k] == cc || scene_texel(
                                self.meshes@,
                                self.animated_meshes@,
                                fb_pre@[k],
                            ));
                        }
                    }
                }
                ai = ai + 1;
            }
        }
        proof {
            assert forall|i: int| 0 <= i < self.mesh_list().len() implies mesh_ok(
                #[trigger] self.mesh_list()[i],
            ) by {
                assert(self.mesh_list()[i] == old(self).mesh_list()[i]);
                assert(mesh_ok(old(self).mesh_list()[i]));
            }
        }
    }
}

} // verus!
