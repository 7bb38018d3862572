use rusterer::draw::{depth_plot, draw_line, draw_textured_triangle};
use rusterer::framebuffer::Framebuffer;
use rusterer::fx::FX_ONE;
use rusterer::texture::Texture;

fn solid_texture(color: u32) -> Texture {
    Texture { pixels: vec![color; 4], width: 2, height: 2 }
}

fn draw_tri(
    fb: &mut Framebuffer,
    depth: &mut Vec<i64>,
    tex: &Texture,
    pts: [(i64, i64); 3],
    inv_depth: i64,
) {
    let sw: i64 = 16;
    draw_textured_triangle(
        pts[0].0,
        pts[0].1,
        0,
        0,
        inv_depth,
        pts[1].0,
        pts[1].1,
        FX_ONE / 2,
        0,
        inv_depth,
        pts[2].0,
        pts[2].1,
        0,
        FX_ONE / 2,
        inv_depth,
        tex,
        fb,
        depth,
        &sw,
    );
}

#[test]
fn nearer_triangle_wins_regardless_of_order() {
    let red = solid_texture(0xffff0000);
    let blue = solid_texture(0xff0000ff);
    // same screen footprint, red nearer (larger inverse depth)
    let pts = [(2i64, 2i64), (12i64, 2i64), (2i64, 12i64)];
    let near = FX_ONE / 2;
    let far = FX_ONE / 4;

    let mut fb1 = Framebuffer::new(16, 16);
    let mut d1: Vec<i64> = vec![0; 256];
    draw_tri(&mut fb1, &mut d1, &red, pts, near);
    draw_tri(&mut fb1, &mut d1, &blue, pts, far);

    let mut fb2 = Framebuffer::new(16, 16);
    let mut d2: Vec<i64> = vec![0; 256];
    draw_tri(&mut fb2, &mut d2, &blue, pts, far);
    draw_tri(&mut fb2, &mut d2, &red, pts, near);

    let v1 = fb1.get_framebuffer();
    let v2 = fb2.get_framebuffer();
    let mut drawn = 0;
    for i in 0..256 {
        assert_eq!(v1[i], v2[i], "pixel {} differs between draw orders", i);
        if v1[i] != 0 {
            assert_eq!(v1[i], 0xffff0000, "pixel {} lost the nearer color", i);
            drawn += 1;
        }
    }
    assert!(drawn > 20, "only {} pixels drawn", drawn);
}

#[test]
fn rasterizer_updates_depth_only_where_it_draws() {
    let tex = solid_texture(0xff00ff00);
    let mut fb = Framebuffer::new(16, 16);
    let mut depth: Vec<i64> = vec![0; 256];
    draw_tri(&mut fb, &mut depth, &tex, [(1, 1), (9, 1), (1, 9)], FX_ONE / 8);
    let v = fb.get_framebuffer();
    for i in 0..256 {
        if v[i] != 0 {
            // interpolation may truncate the inverse depth by an ulp
            assert!((depth[i] - FX_ONE / 8).abs() <= 1 && depth[i] > 0, "depth {}", depth[i]);
        } else {
            assert_eq!(depth[i], 0);
        }
    }
}

#[test]
fn draw_line_paints_the_endpoints_and_only_the_color() {
    let mut fb = Framebuffer::new(8, 8);
    draw_line(1, 1, 6, 4, &mut fb, 7);
    let v = fb.get_framebuffer();
    assert_eq!(v[1 * 8 + 1], 7);
    assert_eq!(v[4 * 8 + 6], 7);
    let mut count = 0;
    for i in 0..64 {
        assert!(v[i] == 0 || v[i] == 7);
        if v[i] == 7 {
            count += 1;
        }
    }
    assert_eq!(count, 6);
}

#[test]
fn draw_line_clips_outside_the_frame() {
    let mut fb = Framebuffer::new(4, 4);
    draw_line(-3, -3, 7, 7, &mut fb, 9);
    let v = fb.get_framebuffer();
    // the diagonal within the frame is painted, nothing panics
    for i in 0..4 {
        assert_eq!(v[i * 4 + i], 9);
    }
}

#[test]
fn framebuffer_set_get_and_clear() {
    let mut fb = Framebuffer::new(3, 2);
    fb.set_color_at(&2, &1, 0xabcd);
    assert_eq!(*fb.get_color_at(&2, &1), 0xabcd);
    // out-of-frame writes are dropped silently
    fb.set_color_at(&3, &0, 0xffff);
    fb.set_color_at(&0, &2, 0xffff);
    assert_eq!(fb.get_framebuffer().iter().filter(|&&c| c == 0xffff).count(), 0);
    fb.clear_buffer_color(&5);
    assert!(fb.get_framebuffer().iter().all(|&c| c == 5));
    fb.clear_buffer();
    assert!(fb.get_framebuffer().iter().all(|&c| c == 0));
}

#[test]
fn texture_sampling_maps_corners_with_v_flip() {
    let tex = Texture {
        pixels: vec![1, 2, 3, 4], // rows top to bottom: [1 2] / [3 4]
        width: 2,
        height: 2,
    };
    // v = 1 is the top row, v = 0 the bottom row
    assert_eq!(*tex.get_color_at_normalized_coord(&0, &FX_ONE), 1);
    assert_eq!(*tex.get_color_at_normalized_coord(&FX_ONE, &FX_ONE), 2);
    assert_eq!(*tex.get_color_at_normalized_coord(&0, &0), 3);
    assert_eq!(*tex.get_color_at_normalized_coord(&FX_ONE, &0), 4);
}

#[test]
fn depth_plot_writes_only_when_strictly_nearer() {
    let mut fb = Framebuffer::new(4, 4);
    let mut depth: Vec<i64> = vec![0; 16];
    depth_plot(&mut fb, &mut depth, 1, 2, 100, 7);
    assert_eq!(*fb.get_color_at(&1, &2), 7);
    assert_eq!(depth[2 * 4 + 1], 100);
    // an equal depth does not overwrite
    depth_plot(&mut fb, &mut depth, 1, 2, 100, 9);
    assert_eq!(*fb.get_color_at(&1, &2), 7);
    // a farther write does not overwrite
    depth_plot(&mut fb, &mut depth, 1, 2, 50, 9);
    assert_eq!(*fb.get_color_at(&1, &2), 7);
    // a nearer write does
    depth_plot(&mut fb, &mut depth, 1, 2, 150, 9);
    assert_eq!(*fb.get_color_at(&1, &2), 9);
    assert_eq!(depth[2 * 4 + 1], 150);
    // off-frame positions are dropped
    depth_plot(&mut fb, &mut depth, -1, 0, 500, 3);
    depth_plot(&mut fb, &mut depth, 0, 4, 500, 3);
    assert!(depth.iter().filter(|&&d| d == 500).count() == 0);
}

#[test]
fn zero_height_triangle_draws_nothing() {
    let tex = solid_texture(5);
    let mut fb = Framebuffer::new(8, 8);
    let mut depth: Vec<i64> = vec![0; 64];
    draw_tri(&mut fb, &mut depth, &tex, [(1, 3), (5, 3), (7, 3)], FX_ONE);
    assert!(fb.get_framebuffer().iter().all(|&c| c == 0));
    assert!(depth.iter().all(|&d| d == 0));
}
