use rusterer::framebuffer::Framebuffer;
use rusterer::fx::FX_ONE;
use rusterer::geometry::{
    matrix_make_projection, matrix_multiply_vector, vector_div, Mesh, Vec3d,
};
use rusterer::renderer::Renderer;
use rusterer::texture::Texture;

fn tex() -> Texture {
    Texture { pixels: vec![0xffffffff; 4], width: 2, height: 2 }
}

const QUAD_OBJ: &str = "vt 0 0\nvt 1 0\nvt 0 1\nv -1 -1 0\nv -1 1 0\nv 1 1 0\nv 1 -1 0\nf 1/1 2/2 3/3\nf 1/1 3/3 4/2\n";

#[test]
fn projected_frustum_point_lands_on_screen() {
    // project a point known to be inside the view frustum, divide by W,
    // and map to a 256 x 256 viewport: the result lies on the screen
    let proj = matrix_make_projection(90 * FX_ONE, FX_ONE, 6554, 65536000);
    let p = Vec3d { x: FX_ONE / 2, y: -FX_ONE / 2, z: 5 * FX_ONE, w: FX_ONE };
    let pr = matrix_multiply_vector(&proj, &p);
    assert!(pr.w > 0);
    let d = vector_div(&pr, pr.w);
    let sx = ((-d.x + FX_ONE) as f64) / 65536.0 * 128.0;
    let sy = ((-d.y + FX_ONE) as f64) / 65536.0 * 128.0;
    assert!(0.0 <= sx && sx <= 256.0, "screen x {}", sx);
    assert!(0.0 <= sy && sy <= 256.0, "screen y {}", sy);
}

fn footprint(fb: &Framebuffer, w: usize, h: usize, clear: u32) -> Option<(usize, usize, usize, usize, usize)> {
    let v = fb.get_framebuffer();
    let mut min_x = w;
    let mut max_x = 0;
    let mut min_y = h;
    let mut max_y = 0;
    let mut count = 0;
    for y in 0..h {
        for x in 0..w {
            if v[y * w + x] != clear {
                count += 1;
                if x < min_x {
                    min_x = x;
                }
                if x > max_x {
                    max_x = x;
                }
                if y < min_y {
                    min_y = y;
                }
                if y > max_y {
                    max_y = y;
                }
            }
        }
    }
    if count == 0 {
        None
    } else {
        Some((min_x, max_x, min_y, max_y, count))
    }
}

#[test]
fn centered_quad_fills_its_screen_bounding_box() {
    // a quad centered ahead of the camera; the world transform places it
    // five units down +Z, well inside the near and far planes
    let t = tex();
    let mesh = Mesh::new(&t, QUAD_OBJ.as_bytes()).unwrap();
    let mut renderer = Renderer::new(vec![mesh], Vec::new(), 100, 100, 1);
    let mut fb = Framebuffer::new(100, 100);
    renderer.render(0, &mut fb);
    let (min_x, max_x, min_y, max_y, count) =
        footprint(&fb, 100, 100, 1).expect("the quad is drawn");
    // analytically the quad spans x, y in [40, 60]; allow rounding slack
    assert!(min_x >= 38 && min_x <= 42, "min x {}", min_x);
    assert!(max_x >= 58 && max_x <= 62, "max x {}", max_x);
    assert!(min_y >= 38 && min_y <= 42, "min y {}", min_y);
    assert!(max_y >= 58 && max_y <= 62, "max y {}", max_y);
    // the footprint is solid, not a sliver
    assert!(count >= 300, "only {} pixels", count);
}

#[test]
fn turned_camera_no_longer_sees_the_quad() {
    let t = tex();
    let mesh = Mesh::new(&t, QUAD_OBJ.as_bytes()).unwrap();
    let mut renderer = Renderer::new(vec![mesh], Vec::new(), 100, 100, 1);
    // a quarter turn of yaw points the camera away from the quad
    renderer.translate_yaw(rusterer::fx::FX_HALF_PI);
    let mut fb = Framebuffer::new(100, 100);
    renderer.render(0, &mut fb);
    assert!(footprint(&fb, 100, 100, 1).is_none());
}

#[test]
fn moved_camera_shifts_the_footprint() {
    let t = tex();
    let mesh = Mesh::new(&t, QUAD_OBJ.as_bytes()).unwrap();
    let mut renderer = Renderer::new(vec![mesh], Vec::new(), 100, 100, 1);
    renderer.translate_camera_y(FX_ONE);
    let mut fb = Framebuffer::new(100, 100);
    renderer.render(0, &mut fb);
    let (_, _, min_y, max_y, _) = footprint(&fb, 100, 100, 1).expect("still visible");
    // raising the camera moves the quad down the screen
    assert!(min_y > 45, "min y {}", min_y);
    assert!(max_y > 65, "max y {}", max_y);
}

#[test]
fn nearer_mesh_hides_the_farther_one() {
    // two stacked quads; the renderer must keep the nearer one's pixels
    // whatever the mesh order
    let near_quad = "vt 0 0\nv -1 -1 -1\nv -1 1 -1\nv 1 1 -1\nv 1 -1 -1\nf 1/1 2/1 3/1\nf 1/1 3/1 4/1\n";
    let red = Texture { pixels: vec![0xffff0000; 4], width: 2, height: 2 };
    let blue = Texture { pixels: vec![0xff0000ff; 4], width: 2, height: 2 };
    for order in 0..2 {
        let m_near = Mesh::new(&red, near_quad.as_bytes()).unwrap();
        let m_far = Mesh::new(&blue, QUAD_OBJ.as_bytes()).unwrap();
        let meshes = if order == 0 {
            vec![m_near, m_far]
        } else {
            vec![m_far, m_near]
        };
        let mut renderer = Renderer::new(meshes, Vec::new(), 64, 64, 1);
        let mut fb = Framebuffer::new(64, 64);
        renderer.render(0, &mut fb);
        // the center pixel shows the nearer, red quad
        assert_eq!(*fb.get_color_at(&32, &32), 0xffff0000, "order {}", order);
    }
}
