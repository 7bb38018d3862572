//! Pixel-level drawing: a line by integer error accumulation, and the
//! perspective-correct, depth-tested scanline fill of a textured triangle.

use vstd::prelude::*;
use crate::framebuffer::Framebuffer;
use crate::texture::Texture;
use crate::fx::{
    fx_abs, fx_div, fx_div_spec, fx_mul, fx_mul_spec, fx_round, fx_round_spec, lemma_fx_div_bound,
    lemma_fx_mul_bound, lemma_fx_mul_unit, lemma_fx_round_bound, FX_LIM, FX_ONE,
};

verus! {

/// Coordinate range for the rasterizer's screen positions.
pub const PIX_LIM: i64 = 0x20_0000;

/// Range for the rasterizer's interpolated texture values.
pub const TEX_VAL_LIM: i64 = 0x8000_0000;

/// The outcome of one depth-tested pixel write: the pixel and its depth slot
/// are updated exactly when the position is on the frame and the new inverse
/// depth is strictly nearer than the stored one.
pub open spec fn plot_spec(
    fbv: Seq<u32>,
    dv: Seq<i64>,
    fbw: int,
    fbh: int,
    x: int,
    y: int,
    wv: int,
    color: u32,
) -> (Seq<u32>, Seq<i64>) {
    let idx = y * fbw + x;
    if 0 <= x < fbw && 0 <= y < fbh && 0 <= idx < dv.len() && idx < fbv.len() && wv > dv[idx] {
        (fbv.update(idx, color), dv.update(idx, wv as i64))
    } else {
        (fbv, dv)
    }
}

/// Law: when two depth-tested writes land on the same pixel, the nearer one
/// (the larger inverse depth) gives the pixel its final color and depth,
/// whichever order the two are drawn in.
pub proof fn lemma_depth_test_order(
    fbv: Seq<u32>,
    dv: Seq<i64>,
    fbw: int,
    fbh: int,
    x: int,
    y: int,
    wa: i64,
    ca: u32,
    wb: i64,
    cb: u32,
)
    requires
        wa > wb,
        0 <= x < fbw,
        0 <= y < fbh,
        0 <= y * fbw + x < dv.len(),
        y * fbw + x < fbv.len(),
        wa > dv[y * fbw + x],
    ensures
        ({
            let (f1, d1) = plot_spec(fbv, dv, fbw, fbh, x, y, wa as int, ca);
            let (f2, d2) = plot_spec(f1, d1, fbw, fbh, x, y, wb as int, cb);
            f2[y * fbw + x] == ca && d2[y * fbw + x] == wa
        }),
        ({
            let (f1, d1) = plot_spec(fbv, dv, fbw, fbh, x, y, wb as int, cb);
            let (f2, d2) = plot_spec(f1, d1, fbw, fbh, x, y, wa as int, ca);
            f2[y * fbw + x] == ca && d2[y * fbw + x] == wa
        }),
{
}

/// Writes 'color' and the inverse depth 'wv' at ('x', 'y') if that position
/// is on the frame and nearer than what the depth buffer holds.
pub fn depth_plot(
    framebuffer: &mut Framebuffer,
    p_depth_buffer: &mut Vec<i64>,
    x: i64,
    y: i64,
    wv: i64,
    color: u32,
)
    requires
        old(framebuffer).wf(),
        old(framebuffer).width() <= 0x8000_0000,
        old(framebuffer).height() <= 0x8000_0000,
        old(p_depth_buffer)@.len() == old(framebuffer)@.len(),
    ensures
        final(framebuffer).wf(),
        final(framebuffer).width() == old(framebuffer).width(),
        final(framebuffer).height() == old(framebuffer).height(),
        (final(framebuffer)@, final(p_depth_buffer)@) == plot_spec(
            old(framebuffer)@,
            old(p_depth_buffer)@,
            old(framebuffer).width() as int,
            old(framebuffer).height() as int,
            x as int,
            y as int,
            wv as int,
            color,
        ),
{
    proof {
        assert(old(framebuffer)@.len() == old(framebuffer).width() * old(framebuffer).height());
    }
    if x >= 0 && y >= 0 && y <= 0x8000_0000i64 && x <= 0x8000_0000i64 {
        let ww: i64 = framebuffer.width_value() as i64;
        let hh: i64 = framebuffer.height_value() as i64;
        if x < ww && y < hh {
            proof {
                let h0 = old(framebuffer).height() as int;
                let dl = old(p_depth_buffer)@.len() as int;
                assert(0 <= y * (ww as int) + x < dl && y * (ww as int) <= 0x4000_0000_0000_0000)
                    by (nonlinear_arith)
                    requires
                        0 <= x < ww,
                        0 <= y < h0,
                        ww <= 0x8000_0000,
                        h0 <= 0x8000_0000,
                        dl == ww * h0,
                ;
            }
            let idx_i: i64 = y * ww + x;
            let dlen: usize = p_depth_buffer.len();
            proof {
                assert(0 <= idx_i < dlen);
            }
            let idx: usize = idx_i as usize;
            if wv > p_depth_buffer[idx] {
                framebuffer.set_color_at(&(x as u32), &(y as u32), color);
                p_depth_buffer[idx] = wv;
                proof {
                    assert(framebuffer@ =~= old(framebuffer)@.update(y * (ww as int) + x, color));
                    assert(p_depth_buffer@ =~= old(p_depth_buffer)@.update(
                        y * (ww as int) + x,
                        wv,
                    ));
                }
            }
        }
    }

}

/// A raw value clamped into [0, 1].
pub open spec fn clamp01_spec(a: int) -> int {
    if a < 0 {
        0int
    } else if a > 65536 {
        65536int
    } else {
        a
    }
}

/// Clamp a raw value into [0, 1].
fn clamp01(a: i64) -> (r: i64)
    ensures
        0 <= r <= FX_ONE,
        r == clamp01_spec(a as int),
{
    if a < 0 {
        0
    } else if a > FX_ONE {
        FX_ONE
    } else {
        a
    }
}

/// Frame-to-frame relation the rasterizer guarantees: the frame keeps its
/// shape, depth values only grow, and a pixel changes color only when its
/// depth slot strictly grew, to a texel of 'tex'.
pub open spec fn raster_frame_ok(
    fb0: Framebuffer,
    d0: Seq<i64>,
    fb1: Framebuffer,
    d1: Seq<i64>,
    tex: Texture,
) -> bool {
    &&& fb1.wf()
    &&& fb1.width() == fb0.width()
    &&& fb1.height() == fb0.height()
    &&& fb1@.len() == fb0@.len()
    &&& d0.len() == fb0@.len()
    &&& d1.len() == d0.len()
    &&& forall|k: int| 0 <= k < d0.len() ==> #[trigger] d1[k] >= d0[k]
    &&& forall|k: int|
        0 <= k < fb0@.len() && #[trigger] fb1@[k] != fb0@[k] ==> d1[k] > d0[k] && (exists|ti: int|
            0 <= ti < tex.pixels@.len() && fb1@[k] == #[trigger] tex.pixels@[ti])
}

/// The relation composes across successive drawing steps.
pub proof fn lemma_raster_frame_trans(
    fb0: Framebuffer,
    d0: Seq<i64>,
    fb1: Framebuffer,
    d1: Seq<i64>,
    fb2: Framebuffer,
    d2: Seq<i64>,
    tex: Texture,
)
    requires
        raster_frame_ok(fb0, d0, fb1, d1, tex),
        raster_frame_ok(fb1, d1, fb2, d2, tex),
    ensures
        raster_frame_ok(fb0, d0, fb2, d2, tex),
{
    assert forall|k: int|
        0 <= k < fb0@.len() && #[trigger] fb2@[k] != fb0@[k] implies d2[k] > d0[k] && (exists|
        ti: int,
    |
        0 <= ti < tex.pixels@.len() && fb2@[k] == #[trigger] tex.pixels@[ti]) by {
        assert(d1[k] >= d0[k]);
        assert(d2[k] >= d1[k]);
        if fb2@[k] != fb1@[k] {
            assert(d2[k] > d1[k]);
        } else {
            assert(fb1@[k] != fb0@[k]);
            assert(d1[k] > d0[k]);
        }
    }
}

/// The constants one half-triangle's scanlines interpolate from: the two
/// edge anchors and the per-row steps of the screen X bound and the three
/// texture values.
pub struct HalfTri {
    pub xa: int,
    pub ya: int,
    pub ua: int,
    pub va: int,
    pub wa: int,
    pub dax: int,
    pub du1: int,
    pub dv1: int,
    pub dw1: int,
    pub xb: int,
    pub yb: int,
    pub ub: int,
    pub vb: int,
    pub wb: int,
    pub dbx: int,
    pub du2: int,
    pub dv2: int,
    pub dw2: int,
}

/// One pixel of a scanline: the three texture values interpolated by 't',
/// the range guard, the perspective division with clamped coordinates, the
/// texture lookup, and the depth-tested write.
pub open spec fn raster_pixel_spec(
    fbv: Seq<u32>,
    dv: Seq<i64>,
    fbw: int,
    fbh: int,
    tex: Texture,
    j: int,
    i: int,
    t: int,
    su: int,
    sv: int,
    sw: int,
    eu: int,
    ev: int,
    ew: int,
) -> (Seq<u32>, Seq<i64>) {
    let tu = fx_mul_spec(65536 - t, su) + fx_mul_spec(t, eu);
    let tv = fx_mul_spec(65536 - t, sv) + fx_mul_spec(t, ev);
    let tw = fx_mul_spec(65536 - t, sw) + fx_mul_spec(t, ew);
    if -FX_LIM <= tu <= FX_LIM && -FX_LIM <= tv <= FX_LIM && -FX_LIM <= tw <= FX_LIM && tw != 0 {
        let ud = clamp01_spec(fx_div_spec(tu, tw));
        let vd = clamp01_spec(fx_div_spec(tv, tw));
        let color = crate::texture::sample_spec(tex, ud, vd);
        plot_spec(fbv, dv, fbw, fbh, j, i, tw, color)
    } else {
        (fbv, dv)
    }
}

/// One scanline's span from column 'j' up to 'bx', the blend parameter
/// advancing by 'tstep' per pixel.
pub open spec fn raster_span_spec(
    fbv: Seq<u32>,
    dv: Seq<i64>,
    fbw: int,
    fbh: int,
    tex: Texture,
    j: int,
    bx: int,
    t: int,
    tstep: int,
    i: int,
    su: int,
    sv: int,
    sw: int,
    eu: int,
    ev: int,
    ew: int,
) -> (Seq<u32>, Seq<i64>)
    decreases bx - j,
{
    if j >= bx {
        (fbv, dv)
    } else {
        let r = raster_pixel_spec(fbv, dv, fbw, fbh, tex, j, i, t, su, sv, sw, eu, ev, ew);
        raster_span_spec(r.0, r.1, fbw, fbh, tex, j + 1, bx, t + tstep, tstep, i, su, sv, sw, eu, ev, ew)
    }
}

/// One scanline of a half triangle: the bounds and texture values
/// interpolated from the two anchors, left and right swapped into order,
/// the range guard, and the span fill; a row whose values leave the scalar
/// range is dropped.
pub open spec fn raster_row_spec(
    fbv: Seq<u32>,
    dv: Seq<i64>,
    fbw: int,
    fbh: int,
    tex: Texture,
    i: int,
    h: HalfTri,
) -> (Seq<u32>, Seq<i64>) {
    let ax0 = fx_round_spec(h.xa * 65536 + fx_mul_spec((i - h.ya) * 65536, h.dax));
    let bx0 = fx_round_spec(h.xb * 65536 + fx_mul_spec((i - h.yb) * 65536, h.dbx));
    let su0 = h.ua + fx_mul_spec((i - h.ya) * 65536, h.du1);
    let sv0 = h.va + fx_mul_spec((i - h.ya) * 65536, h.dv1);
    let sw0 = h.wa + fx_mul_spec((i - h.ya) * 65536, h.dw1);
    let eu0 = h.ub + fx_mul_spec((i - h.yb) * 65536, h.du2);
    let ev0 = h.vb + fx_mul_spec((i - h.yb) * 65536, h.dv2);
    let ew0 = h.wb + fx_mul_spec((i - h.yb) * 65536, h.dw2);
    let swap = ax0 > bx0;
    let ax = if swap { bx0 } else { ax0 };
    let bx = if swap { ax0 } else { bx0 };
    let su = if swap { eu0 } else { su0 };
    let sv = if swap { ev0 } else { sv0 };
    let sw = if swap { ew0 } else { sw0 };
    let eu = if swap { su0 } else { eu0 };
    let ev = if swap { sv0 } else { ev0 };
    let ew = if swap { sw0 } else { ew0 };
    if -FX_LIM <= su <= FX_LIM && -FX_LIM <= sv <= FX_LIM && -FX_LIM <= sw <= FX_LIM && -FX_LIM
        <= eu <= FX_LIM && -FX_LIM <= ev <= FX_LIM && -FX_LIM <= ew <= FX_LIM {
        let tstep = if bx > ax {
            fx_div_spec(65536, (bx - ax) * 65536)
        } else {
            0int
        };
        raster_span_spec(fbv, dv, fbw, fbh, tex, ax, bx, 0, tstep, i, su, sv, sw, eu, ev, ew)
    } else {
        (fbv, dv)
    }
}

/// The scanlines of a half triangle from row 'i' up to 'i1'.
pub open spec fn raster_rows_spec(
    fbv: Seq<u32>,
    dv: Seq<i64>,
    fbw: int,
    fbh: int,
    tex: Texture,
    i: int,
    i1: int,
    h: HalfTri,
) -> (Seq<u32>, Seq<i64>)
    decreases i1 - i,
{
    if i >= i1 {
        (fbv, dv)
    } else {
        let r = raster_row_spec(fbv, dv, fbw, fbh, tex, i, h);
        raster_rows_spec(r.0, r.1, fbw, fbh, tex, i + 1, i1, h)
    }
}

/// The whole fill of a triangle whose vertices are already sorted by
/// ascending Y: the edge steps, then the upper and the lower half.
pub open spec fn raster_sorted_spec(
    fbv: Seq<u32>,
    dv: Seq<i64>,
    fbw: int,
    fbh: int,
    tex: Texture,
    x1: int,
    y1: int,
    u1: int,
    v1: int,
    w1: int,
    x2: int,
    y2: int,
    u2: int,
    v2: int,
    w2: int,
    x3: int,
    y3: int,
    u3: int,
    v3: int,
    w3: int,
) -> (Seq<u32>, Seq<i64>) {
    let dy2 = y3 - y1;
    let dbx = if dy2 != 0 {
        fx_div_spec((x3 - x1) * 65536, fx_abs(dy2) * 65536)
    } else {
        0int
    };
    let du2 = if dy2 != 0 {
        fx_div_spec(u3 - u1, fx_abs(dy2) * 65536)
    } else {
        0int
    };
    let dv2 = if dy2 != 0 {
        fx_div_spec(v3 - v1, fx_abs(dy2) * 65536)
    } else {
        0int
    };
    let dw2 = if dy2 != 0 {
        fx_div_spec(w3 - w1, fx_abs(dy2) * 65536)
    } else {
        0int
    };
    let dy1 = y2 - y1;
    let upper = if dy1 != 0 {
        let h = HalfTri {
            xa: x1,
            ya: y1,
            ua: u1,
            va: v1,
            wa: w1,
            dax: fx_div_spec((x2 - x1) * 65536, fx_abs(dy1) * 65536),
            du1: fx_div_spec(u2 - u1, fx_abs(dy1) * 65536),
            dv1: fx_div_spec(v2 - v1, fx_abs(dy1) * 65536),
            dw1: fx_div_spec(w2 - w1, fx_abs(dy1) * 65536),
            xb: x1,
            yb: y1,
            ub: u1,
            vb: v1,
            wb: w1,
            dbx: dbx,
            du2: du2,
            dv2: dv2,
            dw2: dw2,
        };
        raster_rows_spec(fbv, dv, fbw, fbh, tex, y1, y2, h)
    } else {
        (fbv, dv)
    };
    let dy1b = y3 - y2;
    if dy1b != 0 {
        let h = HalfTri {
            xa: x2,
            ya: y2,
            ua: u2,
            va: v2,
            wa: w2,
            dax: fx_div_spec((x3 - x2) * 65536, fx_abs(dy1b) * 65536),
            du1: fx_div_spec(u3 - u2, fx_abs(dy1b) * 65536),
            dv1: fx_div_spec(v3 - v2, fx_abs(dy1b) * 65536),
            dw1: fx_div_spec(w3 - w2, fx_abs(dy1b) * 65536),
            xb: x1,
            yb: y1,
            ub: u1,
            vb: v1,
            wb: w1,
            dbx: dbx,
            du2: du2,
            dv2: dv2,
            dw2: dw2,
        };
        raster_rows_spec(upper.0, upper.1, fbw, fbh, tex, y2, y3, h)
    } else {
        upper
    }
}

/// What rasterizing a triangle leaves in the frame and the depth buffer:
/// the vertices sorted by ascending Y as the original three conditional
/// swaps sort them, then the sorted fill.
pub open spec fn raster_tri_spec(
    fbv: Seq<u32>,
    dv: Seq<i64>,
    fbw: int,
    fbh: int,
    tex: Texture,
    p1: (int, int, int, int, int),
    p2: (int, int, int, int, int),
    p3: (int, int, int, int, int),
) -> (Seq<u32>, Seq<i64>) {
    let q1 = if p2.1 < p1.1 { p2 } else { p1 };
    let q2 = if p2.1 < p1.1 { p1 } else { p2 };
    let r1 = if p3.1 < q1.1 { p3 } else { q1 };
    let r3 = if p3.1 < q1.1 { q1 } else { p3 };
    let s2 = if r3.1 < q2.1 { r3 } else { q2 };
    let s3 = if r3.1 < q2.1 { q2 } else { r3 };
    raster_sorted_spec(
        fbv, dv, fbw, fbh, tex,
        r1.0, r1.1, r1.2, r1.3, r1.4,
        s2.0, s2.1, s2.2, s2.3, s2.4,
        s3.0, s3.1, s3.2, s3.3, s3.4,
    )
}

/// Law: a zero-height triangle draws nothing: with all three vertices on
/// one scanline both half fills are empty, so the frame and the depth
/// buffer come back unchanged.
pub proof fn lemma_raster_zero_height(
    fbv: Seq<u32>,
    dv: Seq<i64>,
    fbw: int,
    fbh: int,
    tex: Texture,
    p1: (int, int, int, int, int),
    p2: (int, int, int, int, int),
    p3: (int, int, int, int, int),
)
    requires
        p1.1 == p2.1,
        p2.1 == p3.1,
    ensures
        raster_tri_spec(fbv, dv, fbw, fbh, tex, p1, p2, p3) == (fbv, dv),
{
}

/// Fills the scanlines from 'i0' up to 'i1', interpolating the left bound
/// from the 'a' anchor and the right bound from the 'b' anchor, writing each
/// pixel through the depth test.
#[verifier::loop_isolation(false)]
fn raster_rows(
    i0: i64,
    i1: i64,
    xa: i64,
    ya: i64,
    ua: i64,
    va: i64,
    wa: i64,
    dax_step: i64,
    du1_step: i64,
    dv1_step: i64,
    dw1_step: i64,
    xb: i64,
    yb: i64,
    ub: i64,
    vb: i64,
    wb: i64,
    dbx_step: i64,
    du2_step: i64,
    dv2_step: i64,
    dw2_step: i64,
    tex: &Texture,
    framebuffer: &mut Framebuffer,
    p_depth_buffer: &mut Vec<i64>,
)
    requires
        tex.wf(),
        old(framebuffer).wf(),
        old(framebuffer).width() <= 0x8000_0000,
        old(framebuffer).height() <= 0x8000_0000,
        old(p_depth_buffer)@.len() == old(framebuffer)@.len(),
        -PIX_LIM <= i0 <= PIX_LIM,
        -PIX_LIM <= i1 <= PIX_LIM,
        -PIX_LIM <= xa <= PIX_LIM,
        -PIX_LIM <= ya <= PIX_LIM,
        -PIX_LIM <= xb <= PIX_LIM,
        -PIX_LIM <= yb <= PIX_LIM,
        -TEX_VAL_LIM <= ua <= TEX_VAL_LIM,
        -TEX_VAL_LIM <= va <= TEX_VAL_LIM,
        -TEX_VAL_LIM <= wa <= TEX_VAL_LIM,
        -TEX_VAL_LIM <= ub <= TEX_VAL_LIM,
        -TEX_VAL_LIM <= vb <= TEX_VAL_LIM,
        -TEX_VAL_LIM <= wb <= TEX_VAL_LIM,
        -FX_LIM <= dax_step <= FX_LIM,
        -FX_LIM <= dbx_step <= FX_LIM,
        -0x2_0000_0000 <= du1_step <= 0x2_0000_0000,
        -0x2_0000_0000 <= dv1_step <= 0x2_0000_0000,
        -0x2_0000_0000 <= dw1_step <= 0x2_0000_0000,
        -0x2_0000_0000 <= du2_step <= 0x2_0000_0000,
        -0x2_0000_0000 <= dv2_step <= 0x2_0000_0000,
        -0x2_0000_0000 <= dw2_step <= 0x2_0000_0000,
    ensures
        raster_frame_ok(
            *old(framebuffer),
            old(p_depth_buffer)@,
            *final(framebuffer),
            final(p_depth_buffer)@,
            *tex,
        ),
        (final(framebuffer)@, final(p_depth_buffer)@) == raster_rows_spec(
            old(framebuffer)@,
            old(p_depth_buffer)@,
            old(framebuffer).width() as int,
            old(framebuffer).height() as int,
            *tex,
            i0 as int,
            i1 as int,
            HalfTri {
                xa: xa as int,
                ya: ya as int,
                ua: ua as int,
                va: va as int,
                wa: wa as int,
                dax: dax_step as int,
                du1: du1_step as int,
                dv1: dv1_step as int,
                dw1: dw1_step as int,
                xb: xb as int,
                yb: yb as int,
                ub: ub as int,
                vb: vb as int,
                wb: wb as int,
                dbx: dbx_step as int,
                du2: du2_step as int,
                dv2: dv2_step as int,
                dw2: dw2_step as int,
            },
        ),
{
    let ghost h = HalfTri {
        xa: xa as int,
        ya: ya as int,
        ua: ua as int,
        va: va as int,
        wa: wa as int,
        dax: dax_step as int,
        du1: du1_step as int,
        dv1: dv1_step as int,
        dw1: dw1_step as int,
        xb: xb as int,
        yb: yb as int,
        ub: ub as int,
        vb: vb as int,
        wb: wb as int,
        dbx: dbx_step as int,
        du2: du2_step as int,
        dv2: dv2_step as int,
        dw2: dw2_step as int,
    };
    let ghost fbw = old(framebuffer).width() as int;
    let ghost fbh = old(framebuffer).height() as int;
    let mut i: i64 = i0;
    while i < i1
        invariant
            i0 <= i,
            i <= i1 || i == i0,
            raster_frame_ok(
                *old(framebuffer),
                old(p_depth_buffer)@,
                *framebuffer,
                p_depth_buffer@,
                *tex,
            ),
            raster_rows_spec(
                old(framebuffer)@,
                old(p_depth_buffer)@,
                fbw,
                fbh,
                *tex,
                i0 as int,
                i1 as int,
                h,
            ) == raster_rows_spec(
                framebuffer@,
                p_depth_buffer@,
                fbw,
                fbh,
                *tex,
                i as int,
                i1 as int,
                h,
            ),
        decreases i1 - i,
    {
        let ghost fb_row = framebuffer@;
        let ghost d_row = p_depth_buffer@;
        let iya: i64 = i - ya;
        let iyb: i64 = i - yb;
        proof {
            lemma_fx_mul_bound(iya * 65536, dax_step as int, FX_LIM as int, FX_LIM as int);
            lemma_fx_mul_bound(iyb * 65536, dbx_step as int, FX_LIM as int, FX_LIM as int);
            lemma_fx_mul_bound(iya * 65536, du1_step as int, FX_LIM as int, 0x2_0000_0000);
            lemma_fx_mul_bound(iya * 65536, dv1_step as int, FX_LIM as int, 0x2_0000_0000);
            lemma_fx_mul_bound(iya * 65536, dw1_step as int, FX_LIM as int, 0x2_0000_0000);
            lemma_fx_mul_bound(iyb * 65536, du2_step as int, FX_LIM as int, 0x2_0000_0000);
            lemma_fx_mul_bound(iyb * 65536, dv2_step as int, FX_LIM as int, 0x2_0000_0000);
            lemma_fx_mul_bound(iyb * 65536, dw2_step as int, FX_LIM as int, 0x2_0000_0000);
            lemma_fx_round_bound(
                xa * 65536 + fx_mul_spec(iya * 65536, dax_step as int),
                0x2000_0000_0000_0000,
            );
            lemma_fx_round_bound(
                xb * 65536 + fx_mul_spec(iyb * 65536, dbx_step as int),
                0x2000_0000_0000_0000,
            );
        }
        let mut ax: i64 = fx_round(xa * 65536 + fx_mul(iya * 65536, dax_step));
        let mut bx: i64 = fx_round(xb * 65536 + fx_mul(iyb * 65536, dbx_step));
        let mut tex_su: i64 = ua + fx_mul(iya * 65536, du1_step);
        let mut tex_sv: i64 = va + fx_mul(iya * 65536, dv1_step);
        let mut tex_sw: i64 = wa + fx_mul(iya * 65536, dw1_step);
        let mut tex_eu: i64 = ub + fx_mul(iyb * 65536, du2_step);
        let mut tex_ev: i64 = vb + fx_mul(iyb * 65536, dv2_step);
        let mut tex_ew: i64 = wb + fx_mul(iyb * 65536, dw2_step);

        if ax > bx {
            let tmp = ax;
            ax = bx;
            bx = tmp;
            let tmp = tex_su;
            tex_su = tex_eu;
            tex_eu = tmp;
            let tmp = tex_sv;
            tex_sv = tex_ev;
            tex_ev = tmp;
            let tmp = tex_sw;
            tex_sw = tex_ew;
            tex_ew = tmp;
        }
        if -FX_LIM <= tex_su && tex_su <= FX_LIM && -FX_LIM <= tex_sv && tex_sv <= FX_LIM
            && -FX_LIM <= tex_sw && tex_sw <= FX_LIM && -FX_LIM <= tex_eu && tex_eu <= FX_LIM
            && -FX_LIM <= tex_ev && tex_ev <= FX_LIM && -FX_LIM <= tex_ew && tex_ew <= FX_LIM {
            let tstep: i64 = if bx > ax {
                fx_div(FX_ONE, (bx - ax) * 65536)
            } else {
                0
            };
            proof {
                if bx > ax {
                    lemma_fx_div_bound(FX_ONE as int, (bx - ax) * 65536, FX_ONE as int);
                    assert(fx_div_spec(65536, (bx - ax) * 65536) == 65536int / (bx - ax)
                        && 0 <= fx_div_spec(65536, (bx - ax) * 65536)) by (nonlinear_arith)
                        requires
                            0 < bx - ax,
                    ;
                }
            }
            let mut t: i64 = 0;
            let mut j: i64 = ax;
            while j < bx
                invariant
                    ax <= j,
                    j <= bx || j == ax,
                    t == (j - ax) * tstep,
                    0 <= t <= FX_ONE,
                    raster_frame_ok(
                        *old(framebuffer),
                        old(p_depth_buffer)@,
                        *framebuffer,
                        p_depth_buffer@,
                        *tex,
                    ),
                    raster_span_spec(
                        fb_row,
                        d_row,
                        fbw,
                        fbh,
                        *tex,
                        ax as int,
                        bx as int,
                        0,
                        tstep as int,
                        i as int,
                        tex_su as int,
                        tex_sv as int,
                        tex_sw as int,
                        tex_eu as int,
                        tex_ev as int,
                        tex_ew as int,
                    ) == raster_span_spec(
                        framebuffer@,
                        p_depth_buffer@,
                        fbw,
                        fbh,
                        *tex,
                        j as int,
                        bx as int,
                        t as int,
                        tstep as int,
                        i as int,
                        tex_su as int,
                        tex_sv as int,
                        tex_sw as int,
                        tex_eu as int,
                        tex_ev as int,
                        tex_ew as int,
                    ),
                decreases bx - j,
            {
                let ghost fb_px = framebuffer@;
                let ghost d_px = p_depth_buffer@;
                proof {
                    lemma_fx_mul_unit(FX_ONE - t, tex_su as int, FX_LIM as int);
                    lemma_fx_mul_unit(FX_ONE - t, tex_sv as int, FX_LIM as int);
                    lemma_fx_mul_unit(FX_ONE - t, tex_sw as int, FX_LIM as int);
                    lemma_fx_mul_unit(t as int, tex_eu as int, FX_LIM as int);
                    lemma_fx_mul_unit(t as int, tex_ev as int, FX_LIM as int);
                    lemma_fx_mul_unit(t as int, tex_ew as int, FX_LIM as int);
                }
                let tex_u: i64 = fx_mul(FX_ONE - t, tex_su) + fx_mul(t, tex_eu);
                let tex_v: i64 = fx_mul(FX_ONE - t, tex_sv) + fx_mul(t, tex_ev);
                let tex_w: i64 = fx_mul(FX_ONE - t, tex_sw) + fx_mul(t, tex_ew);
                if -FX_LIM <= tex_u && tex_u <= FX_LIM && -FX_LIM <= tex_v && tex_v <= FX_LIM
                    && -FX_LIM <= tex_w && tex_w <= FX_LIM && tex_w != 0 {
                    let ghost fb_pre = *framebuffer;
                    let ghost d_pre = p_depth_buffer@;
                    let ud = clamp01(fx_div(tex_u, tex_w));
                    let vd = clamp01(fx_div(tex_v, tex_w));
                    let color = *tex.get_color_at_normalized_coord(&ud, &vd);
                    depth_plot(framebuffer, p_depth_buffer, j, i, tex_w, color);
                    proof {
                        assert(raster_frame_ok(fb_pre, d_pre, *framebuffer, p_depth_buffer@, *tex));
                        lemma_raster_frame_trans(
                            *old(framebuffer),
                            old(p_depth_buffer)@,
                            fb_pre,
                            d_pre,
                            *framebuffer,
                            p_depth_buffer@,
                            *tex,
                        );
                    }
                }
                proof {
                    assert((framebuffer@, p_depth_buffer@) == raster_pixel_spec(
                        fb_px,
                        d_px,
                        fbw,
                        fbh,
                        *tex,
                        j as int,
                        i as int,
                        t as int,
                        tex_su as int,
                        tex_sv as int,
                        tex_sw as int,
                        tex_eu as int,
                        tex_ev as int,
                        tex_ew as int,
                    ));
                    assert((j + 1 - ax) * tstep == t + tstep && 0 <= (j + 1 - ax) * tstep
                        <= 65536) by (nonlinear_arith)
                        requires
                            t == (j - ax) * tstep,
                            0 <= tstep,
                            j < bx,
                            ax <= j,
                            (bx > ax) ==> tstep == 65536int / (bx - ax),
                            (bx <= ax) ==> tstep == 0,
                    ;
                }
                t = t + tstep;
                j = j + 1;
            }
            proof {
                assert((framebuffer@, p_depth_buffer@) == raster_row_spec(
                    fb_row,
                    d_row,
                    fbw,
                    fbh,
                    *tex,
                    i as int,
                    h,
                ));
            }
        } else {
            proof {
                assert((framebuffer@, p_depth_buffer@) == raster_row_spec(
                    fb_row,
                    d_row,
                    fbw,
                    fbh,
                    *tex,
                    i as int,
                    h,
                ));
            }
        }
        i = i + 1;
    }
}

/// Fills a texture-mapped triangle into the frame using a per-pixel depth
/// test. Vertices arrive in screen space with texture coordinates already
/// divided by the original depth, and the W slot holding the inverse depth:
/// nearer pixels carry a larger W and win the test. The resulting frame
/// and depth buffer are exactly the scanline fill 'raster_tri_spec' of the
/// three vertices over the old buffers; besides that, the frame keeps its
/// shape, depth slots only ever grow, and a pixel changes color only when
/// its depth slot strictly grew, to a texel of 'tex'.
#[verifier::rlimit(80)]
pub fn draw_textured_triangle(
    x1_param: i64,
    y1_param: i64,
    u1_param: i64,
    v1_param: i64,
    w1_param: i64,
    x2_param: i64,
    y2_param: i64,
    u2_param: i64,
    v2_param: i64,
    w2_param: i64,
    x3_param: i64,
    y3_param: i64,
    u3_param: i64,
    v3_param: i64,
    w3_param: i64,
    tex: &Texture,
    framebuffer: &mut Framebuffer,
    p_depth_buffer: &mut Vec<i64>,
    screen_width: &i64,
)
    requires
        tex.wf(),
        old(framebuffer).wf(),
        old(framebuffer).width() <= 0x8000_0000,
        old(framebuffer).height() <= 0x8000_0000,
        old(p_depth_buffer)@.len() == old(framebuffer)@.len(),
        *screen_width == old(framebuffer).width(),
        -PIX_LIM <= x1_param <= PIX_LIM,
        -PIX_LIM <= y1_param <= PIX_LIM,
        -PIX_LIM <= x2_param <= PIX_LIM,
        -PIX_LIM <= y2_param <= PIX_LIM,
        -PIX_LIM <= x3_param <= PIX_LIM,
        -PIX_LIM <= y3_param <= PIX_LIM,
        -TEX_VAL_LIM <= u1_param <= TEX_VAL_LIM,
        -TEX_VAL_LIM <= v1_param <= TEX_VAL_LIM,
        -TEX_VAL_LIM <= w1_param <= TEX_VAL_LIM,
        -TEX_VAL_LIM <= u2_param <= TEX_VAL_LIM,
        -TEX_VAL_LIM <= v2_param <= TEX_VAL_LIM,
        -TEX_VAL_LIM <= w2_param <= TEX_VAL_LIM,
        -TEX_VAL_LIM <= u3_param <= TEX_VAL_LIM,
        -TEX_VAL_LIM <= v3_param <= TEX_VAL_LIM,
        -TEX_VAL_LIM <= w3_param <= TEX_VAL_LIM,
    ensures
        raster_frame_ok(
            *old(framebuffer),
            old(p_depth_buffer)@,
            *final(framebuffer),
            final(p_depth_buffer)@,
            *tex,
        ),
        (final(framebuffer)@, final(p_depth_buffer)@) == raster_tri_spec(
            old(framebuffer)@,
            old(p_depth_buffer)@,
            old(framebuffer).width() as int,
            old(framebuffer).height() as int,
            *tex,
            (x1_param as int, y1_param as int, u1_param as int, v1_param as int, w1_param as int),
            (x2_param as int, y2_param as int, u2_param as int, v2_param as int, w2_param as int),
            (x3_param as int, y3_param as int, u3_param as int, v3_param as int, w3_param as int),
        ),
{
    let ghost fbw = old(framebuffer).width() as int;
    let ghost fbh = old(framebuffer).height() as int;
    let mut x1 = x1_param;
    let mut y1 = y1_param;
    let mut u1 = u1_param;
    let mut v1 = v1_param;
    let mut w1 = w1_param;
    let mut x2 = x2_param;
    let mut y2 = y2_param;
    let mut u2 = u2_param;
    let mut v2 = v2_param;
    let mut w2 = w2_param;
    let mut x3 = x3_param;
    let mut y3 = y3_param;
    let mut u3 = u3_param;
    let mut v3 = v3_param;
    let mut w3 = w3_param;

    if y2 < y1 {
        let t = y1;
        y1 = y2;
        y2 = t;
        let t = x1;
        x1 = x2;
        x2 = t;
        let t = u1;
        u1 = u2;
        u2 = t;
        let t = v1;
        v1 = v2;
        v2 = t;
        let t = w1;
        w1 = w2;
        w2 = t;
    }
    if y3 < y1 {
        let t = y1;
        y1 = y3;
        y3 = t;
        let t = x1;
        x1 = x3;
        x3 = t;
        let t = u1;
        u1 = u3;
        u3 = t;
        let t = v1;
        v1 = v3;
        v3 = t;
        let t = w1;
        w1 = w3;
        w3 = t;
    }
    if y3 < y2 {
        let t = y2;
        y2 = y3;
        y3 = t;
        let t = x2;
        x2 = x3;
        x3 = t;
        let t = u2;
        u2 = u3;
        u3 = t;
        let t = v2;
        v2 = v3;
        v3 = t;
        let t = w2;
        w2 = w3;
        w3 = t;
    }

    let dy1: i64 = y2 - y1;
    let dx1: i64 = x2 - x1;
    let dv1: i64 = v2 - v1;
    let du1: i64 = u2 - u1;
    let dw1: i64 = w2 - w1;

    let dy2: i64 = y3 - y1;
    let dx2: i64 = x3 - x1;
    let dv2: i64 = v3 - v1;
    let du2: i64 = u3 - u1;
    let dw2: i64 = w3 - w1;

    let dy1_abs: i64 = if dy1 < 0 {
        -dy1
    } else {
        dy1
    };
    let dy2_abs: i64 = if dy2 < 0 {
        -dy2
    } else {
        dy2
    };

    let mut dbx_step: i64 = 0;
    let mut du2_step: i64 = 0;
    let mut dv2_step: i64 = 0;
    let mut dw2_step: i64 = 0;
    if dy2 != 0 {
        dbx_step = fx_div(dx2 * 65536, dy2_abs * 65536);
        du2_step = fx_div(du2, dy2_abs * 65536);
        dv2_step = fx_div(dv2, dy2_abs * 65536);
        dw2_step = fx_div(dw2, dy2_abs * 65536);
        proof {
            lemma_fx_div_bound(dx2 * 65536, dy2_abs * 65536, 0x40_0000_0000);
            lemma_fx_div_bound(du2 as int, dy2_abs * 65536, 0x1_0000_0000);
            lemma_fx_div_bound(dv2 as int, dy2_abs * 65536, 0x1_0000_0000);
            lemma_fx_div_bound(dw2 as int, dy2_abs * 65536, 0x1_0000_0000);
        }
    }

    if dy1 != 0 {
        let dax_step = fx_div(dx1 * 65536, dy1_abs * 65536);
        let du1_step = fx_div(du1, dy1_abs * 65536);
        let dv1_step = fx_div(dv1, dy1_abs * 65536);
        let dw1_step = fx_div(dw1, dy1_abs * 65536);
        proof {
            lemma_fx_div_bound(dx1 * 65536, dy1_abs * 65536, 0x40_0000_0000);
            lemma_fx_div_bound(du1 as int, dy1_abs * 65536, 0x1_0000_0000);
            lemma_fx_div_bound(dv1 as int, dy1_abs * 65536, 0x1_0000_0000);
            lemma_fx_div_bound(dw1 as int, dy1_abs * 65536, 0x1_0000_0000);
        }
        raster_rows(
            y1,
            y2,
            x1,
            y1,
            u1,
            v1,
            w1,
            dax_step,
            du1_step,
            dv1_step,
            dw1_step,
            x1,
            y1,
            u1,
            v1,
            w1,
            dbx_step,
            du2_step,
            dv2_step,
            dw2_step,
            tex,
            framebuffer,
            p_depth_buffer,
        );
    }

    let ghost fb_mid = *framebuffer;
    let ghost d_mid = p_depth_buffer@;
    let dy1b: i64 = y3 - y2;
    let dx1b: i64 = x3 - x2;
    let dv1b: i64 = v3 - v2;
    let du1b: i64 = u3 - u2;
    let dw1b: i64 = w3 - w2;
    let dy1b_abs: i64 = if dy1b < 0 {
        -dy1b
    } else {
        dy1b
    };

    if dy1b != 0 {
        let dax_step = fx_div(dx1b * 65536, dy1b_abs * 65536);
        let du1_step = fx_div(du1b, dy1b_abs * 65536);
        let dv1_step = fx_div(dv1b, dy1b_abs * 65536);
        let dw1_step = fx_div(dw1b, dy1b_abs * 65536);
        proof {
            lemma_fx_div_bound(dx1b * 65536, dy1b_abs * 65536, 0x40_0000_0000);
            lemma_fx_div_bound(du1b as int, dy1b_abs * 65536, 0x1_0000_0000);
            lemma_fx_div_bound(dv1b as int, dy1b_abs * 65536, 0x1_0000_0000);
            lemma_fx_div_bound(dw1b as int, dy1b_abs * 65536, 0x1_0000_0000);
        }
        raster_rows(
            y2,
            y3,
            x2,
            y2,
            u2,
            v2,
            w2,
            dax_step,
            du1_step,
            dv1_step,
            dw1_step,
            x1,
            y1,
            u1,
            v1,
            w1,
            dbx_step,
            du2_step,
            dv2_step,
            dw2_step,
            tex,
            framebuffer,
            p_depth_buffer,
        );
        proof {
            lemma_raster_frame_trans(
                *old(framebuffer),
                old(p_depth_buffer)@,
                fb_mid,
                d_mid,
                *framebuffer,
                p_depth_buffer@,
                *tex,
            );
        }
    }
    proof {
        assert((framebuffer@, p_depth_buffer@) == raster_sorted_spec(
            old(framebuffer)@,
            old(p_depth_buffer)@,
            fbw,
            fbh,
            *tex,
            x1 as int,
            y1 as int,
            u1 as int,
            v1 as int,
            w1 as int,
            x2 as int,
            y2 as int,
            u2 as int,
            v2 as int,
            w2 as int,
            x3 as int,
            y3 as int,
            u3 as int,
            v3 as int,
            w3 as int,
        ));
        assert((framebuffer@, p_depth_buffer@) == raster_tri_spec(
            old(framebuffer)@,
            old(p_depth_buffer)@,
            fbw,
            fbh,
            *tex,
            (x1_param as int, y1_param as int, u1_param as int, v1_param as int, w1_param as int),
            (x2_param as int, y2_param as int, u2_param as int, v2_param as int, w2_param as int),
            (x3_param as int, y3_param as int, u3_param as int, v3_param as int, w3_param as int),
        ));
    }
}

/// The pixels a line covers, produced by the integer error accumulation:
/// one pixel per column from 'x' to 'x_end', stepping the row by 'ystep'
/// whenever the doubled error leaves (-dx, dx]. With 'steep' the two axes
/// are transposed.
pub open spec fn bres_points(
    x: int,
    x_end: int,
    y: int,
    e: int,
    dx: int,
    dy2: int,
    ystep: int,
    steep: bool,
) -> Seq<(int, int)>
    decreases x_end + 1 - x,
{
    if x > x_end {
        Seq::empty()
    } else {
        let pix: (int, int) = if steep {
            (y, x)
        } else {
            (x, y)
        };
        let e2 = e + dy2;
        if e2 > dx {
            seq![pix] + bres_points(x + 1, x_end, y + ystep, e2 - 2 * dx, dx, dy2, ystep, steep)
        } else {
            seq![pix] + bres_points(x + 1, x_end, y, e2, dx, dy2, ystep, steep)
        }
    }
}

/// Paint each listed position with 'color', dropping positions outside the
/// w-by-h frame.
pub open spec fn paint(fbv: Seq<u32>, pts: Seq<(int, int)>, w: int, h: int, color: u32) -> Seq<u32>
    decreases pts.len(),
{
    if pts.len() == 0 {
        fbv
    } else {
        let p = pts[0];
        let fbv2 = if 0 <= p.0 < w && 0 <= p.1 < h {
            fbv.update(p.1 * w + p.0, color)
        } else {
            fbv
        };
        paint(fbv2, pts.drop_first(), w, h, color)
    }
}

/// What drawing a line from (x0, y0) to (x1, y1) leaves in the frame: the
/// frame with every pixel of the error-accumulated line painted 'color'.
pub open spec fn draw_line_spec(
    fbv: Seq<u32>,
    x0: int,
    y0: int,
    x1: int,
    y1: int,
    w: int,
    h: int,
    color: u32,
) -> Seq<u32> {
    let steep = fx_abs(x1 - x0) < fx_abs(y1 - y0);
    let a0 = if steep {
        y0
    } else {
        x0
    };
    let b0 = if steep {
        x0
    } else {
        y0
    };
    let a1 = if steep {
        y1
    } else {
        x1
    };
    let b1 = if steep {
        x1
    } else {
        y1
    };
    let s0 = if a0 > a1 {
        a1
    } else {
        a0
    };
    let t0 = if a0 > a1 {
        b1
    } else {
        b0
    };
    let s1 = if a0 > a1 {
        a0
    } else {
        a1
    };
    let t1 = if a0 > a1 {
        b0
    } else {
        b1
    };
    let dx = s1 - s0;
    let dy2 = 2 * fx_abs(t1 - t0);
    let ystep: int = if t1 > t0 {
        1int
    } else {
        -1int
    };
    paint(fbv, bres_points(s0, s1, t0, 0, dx, dy2, ystep, steep), w, h, color)
}

/// Draw the line from (x0, y0) to (x1, y1) into the framebuffer with
/// 'color'; pixels outside the frame are silently dropped.
#[verifier::loop_isolation(false)]
#[verifier::rlimit(60)]
pub fn draw_line(
    x0_param: i32,
    y0_param: i32,
    x1_param: i32,
    y1_param: i32,
    framebuffer: &mut Framebuffer,
    color: u32,
)
    requires
        old(framebuffer).wf(),
        old(framebuffer).width() <= 0x8000_0000,
        old(framebuffer).height() <= 0x8000_0000,
        -0x10_0000 <= x0_param <= 0x10_0000,
        -0x10_0000 <= y0_param <= 0x10_0000,
        -0x10_0000 <= x1_param <= 0x10_0000,
        -0x10_0000 <= y1_param <= 0x10_0000,
    ensures
        final(framebuffer).wf(),
        final(framebuffer).width() == old(framebuffer).width(),
        final(framebuffer).height() == old(framebuffer).height(),
        final(framebuffer)@ == draw_line_spec(
            old(framebuffer)@,
            x0_param as int,
            y0_param as int,
            x1_param as int,
            y1_param as int,
            old(framebuffer).width() as int,
            old(framebuffer).height() as int,
            color,
        ),
{
    let mut x0 = x0_param;
    let mut y0 = y0_param;
    let mut x1 = x1_param;
    let mut y1 = y1_param;
    let adx: i32 = if x0 > x1 {
        x0 - x1
    } else {
        x1 - x0
    };
    let ady: i32 = if y0 > y1 {
        y0 - y1
    } else {
        y1 - y0
    };
    let mut steep: bool = false;
    if adx < ady {
        let t = x0;
        x0 = y0;
        y0 = t;
        let t = x1;
        x1 = y1;
        y1 = t;
        steep = true;
    }
    if x0 > x1 {
        let t = x0;
        x0 = x1;
        x1 = t;
        let t = y0;
        y0 = y1;
        y1 = t;
    }
    let dx: i32 = x1 - x0;
    let dy: i32 = y1 - y0;
    let derror2: i32 = (if dy < 0 {
        -dy
    } else {
        dy
    }) * 2;
    let ystep: i32 = if y1 > y0 {
        1
    } else {
        -1
    };
    let mut error2: i32 = 0;
    let mut y: i32 = y0;
    let mut x: i32 = x0;
    proof {
        assert(bres_points(
            x0 as int,
            x1 as int,
            y0 as int,
            0,
            dx as int,
            derror2 as int,
            ystep as int,
            steep,
        ) == bres_points(x as int, x1 as int, y as int, error2 as int, dx as int, derror2 as int, ystep as int, steep));
    }
    while x <= x1
        invariant
            x0 <= x,
            x <= x1 + 1,
            y0 - (x - x0) <= y <= y0 + (x - x0),
            -2 * dx <= error2 <= dx,
            framebuffer.wf(),
            framebuffer.width() == old(framebuffer).width(),
            framebuffer.height() == old(framebuffer).height(),
            paint(
                old(framebuffer)@,
                bres_points(
                    x0 as int,
                    x1 as int,
                    y0 as int,
                    0,
                    dx as int,
                    derror2 as int,
                    ystep as int,
                    steep,
                ),
                old(framebuffer).width() as int,
                old(framebuffer).height() as int,
                color,
            ) == paint(
                framebuffer@,
                bres_points(
                    x as int,
                    x1 as int,
                    y as int,
                    error2 as int,
                    dx as int,
                    derror2 as int,
                    ystep as int,
                    steep,
                ),
                old(framebuffer).width() as int,
                old(framebuffer).height() as int,
                color,
            ),
        decreases x1 + 1 - x,
    {
        let ghost fb_pre = framebuffer@;
        let ghost pts_pre = bres_points(
            x as int,
            x1 as int,
            y as int,
            error2 as int,
            dx as int,
            derror2 as int,
            ystep as int,
            steep,
        );
        let px: i32 = if steep {
            y
        } else {
            x
        };
        let py: i32 = if steep {
            x
        } else {
            y
        };
        if px >= 0 && py >= 0 {
            framebuffer.set_color_at(&(px as u32), &(py as u32), color);
        }
        proof {
            let w = old(framebuffer).width() as int;
            let h = old(framebuffer).height() as int;
            let pix: (int, int) = (px as int, py as int);
            assert(pts_pre[0] == pix);
            assert(pts_pre.drop_first() =~= bres_points(
                x + 1,
                x1 as int,
                (if error2 + derror2 > dx {
                    y + ystep
                } else {
                    y as int
                }),
                (if error2 + derror2 > dx {
                    error2 + derror2 - 2 * dx
                } else {
                    error2 + derror2
                }),
                dx as int,
                derror2 as int,
                ystep as int,
                steep,
            ));
            if 0 <= pix.0 < w && 0 <= pix.1 < h {
                assert(framebuffer@ =~= fb_pre.update(pix.1 * w + pix.0, color));
            } else {
                assert(framebuffer@ == fb_pre);
            }
            assert(paint(fb_pre, pts_pre, w, h, color) == paint(
                framebuffer@,
                pts_pre.drop_first(),
                w,
                h,
                color,
            ));
        }
        error2 = error2 + derror2;
        if error2 > dx {
            y = y + ystep;
            error2 = error2 - dx * 2;
        }
        x = x + 1;
    }
    proof {
        assert(bres_points(
            x as int,
            x1 as int,
            y as int,
            error2 as int,
            dx as int,
            derror2 as int,
            ystep as int,
            steep,
        ) =~= Seq::<(int, int)>::empty());
        assert(paint(
            framebuffer@,
            Seq::<(int, int)>::empty(),
            old(framebuffer).width() as int,
            old(framebuffer).height() as int,
            color,
        ) == framebuffer@);
    }
}

} // verus!
