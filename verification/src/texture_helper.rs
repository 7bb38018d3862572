//! Building a `Texture` from a BMP image. The decoding itself is done by
//! the `tinybmp` crate; the packing of the decoded pixels into color words
//! and the sizing of the texture are verified.

use vstd::prelude::*;
use embedded_graphics::pixelcolor::RgbColor;
use crate::texture::Texture;

verus! {

/// What the BMP decoder yields for a byte string: each pixel's position and
/// its red, green and blue channels, top-left first, or nothing when the
/// bytes are not a well-formed image. The decoder's output depends on the
/// bytes alone.
pub uninterp spec fn bmp_decode(bytes: Seq<u8>) -> Option<Seq<(i32, i32, u8, u8, u8)>>;

/// Relies on tinybmp::Bmp::from_slice and Bmp::pixels (with
/// embedded_graphics::Pixel and the Rgb888 channel accessors): decodes a
/// BMP image into its pixels, top-left first.
#[verifier::external_body]
fn decode_bmp_pixels(bmp_bytes: &[u8]) -> (r: Option<Vec<(i32, i32, u8, u8, u8)>>)
    ensures
        match r {
            Some(v) => bmp_decode(bmp_bytes@) == Some(v@),
            None => bmp_decode(bmp_bytes@) is None,
        },
{
    match tinybmp::Bmp::<embedded_graphics::pixelcolor::Rgb888>::from_slice(bmp_bytes) {
        Ok(bmp) => Some(
            bmp.pixels().map(|p| (p.0.x, p.0.y, p.1.r(), p.1.g(), p.1.b())).collect(),
        ),
        Err(_) => None,
    }
}

/// A decoded channel triple packed as an opaque ARGB color word.
pub open spec fn pack_argb(r: u8, g: u8, b: u8) -> u32 {
    0xff00_0000u32 | ((r as u32) << 16u32) | ((g as u32) << 8u32) | (b as u32)
}

/// The decoded pixels packed as ARGB words, in decoding order.
pub open spec fn packed_of(s: Seq<(i32, i32, u8, u8, u8)>) -> Seq<u32> {
    s.map_values(|p: (i32, i32, u8, u8, u8)| pack_argb(p.2, p.3, p.4))
}

/// The largest first coordinate among the decoded pixels, folded from 'acc'.
pub open spec fn max_x_from(s: Seq<(i32, i32, u8, u8, u8)>, acc: int) -> int
    decreases s.len(),
{
    if s.len() == 0 {
        acc
    } else {
        max_x_from(
            s.drop_first(),
            if s[0].0 > acc {
                s[0].0 as int
            } else {
                acc
            },
        )
    }
}

/// The largest second coordinate among the decoded pixels, folded from
/// 'acc'.
pub open spec fn max_y_from(s: Seq<(i32, i32, u8, u8, u8)>, acc: int) -> int
    decreases s.len(),
{
    if s.len() == 0 {
        acc
    } else {
        max_y_from(
            s.drop_first(),
            if s[0].1 > acc {
                s[0].1 as int
            } else {
                acc
            },
        )
    }
}

/// The decoded pixel list fills a rectangle the sampler can address.
pub open spec fn bmp_dims_ok(s: Seq<(i32, i32, u8, u8, u8)>) -> bool {
    let w = max_x_from(s, 0) + 1;
    let h = max_y_from(s, 0) + 1;
    w <= 32768 && h <= 32768 && s.len() == w * h
}

/// The decoded positions come as whole rows, top row first: pixel i sits
/// at column i mod width and row i div width.
pub open spec fn rows_top_down(s: Seq<(i32, i32, u8, u8, u8)>) -> bool {
    let w = max_x_from(s, 0) + 1;
    forall|i: int| 0 <= i < s.len() ==> ((#[trigger] s[i]).0 == i % w && s[i].1 == i / w)
}

/// The decoded positions come as whole rows, bottom row first, the order
/// in which a bottom-up bitmap file stores them.
pub open spec fn rows_bottom_up(s: Seq<(i32, i32, u8, u8, u8)>) -> bool {
    let w = max_x_from(s, 0) + 1;
    let h = max_y_from(s, 0) + 1;
    forall|i: int|
        0 <= i < s.len() ==> ((#[trigger] s[i]).0 == i % w && s[i].1 == h - 1 - i / w)
}

/// The decoded positions enumerate the rectangle row by row, in one of the
/// two orders a bitmap file can store, so each word of the packed buffer
/// belongs to a known position.
pub open spec fn bmp_rect_ok(s: Seq<(i32, i32, u8, u8, u8)>) -> bool {
    rows_top_down(s) || rows_bottom_up(s)
}

/// Creates a new Texture object from a BMP file: the decoded pixels packed
/// as ARGB words in row-major order, the extents one past the largest
/// decoded coordinates. Returns nothing when the bytes do not decode or
/// the decoded pixels do not enumerate, row-major, a rectangle the sampler
/// can address.
#[verifier::loop_isolation(false)]
pub fn get_texture_from_bmp(bmp_bytes: &[u8]) -> (r: Option<Texture>)
    ensures
        ({
            let d = bmp_decode(bmp_bytes@);
            match r {
                Some(t) => {
                    &&& d is Some
                    &&& bmp_dims_ok(d.unwrap())
                    &&& bmp_rect_ok(d.unwrap())
                    &&& t.wf()
                    &&& t.width == max_x_from(d.unwrap(), 0) + 1
                    &&& t.height == max_y_from(d.unwrap(), 0) + 1
                    &&& t.pixels@ == packed_of(d.unwrap())
                },
                None => d is None || !bmp_dims_ok(d.unwrap()) || !bmp_rect_ok(d.unwrap()),
            }
        }),
{
    let decoded = decode_bmp_pixels(bmp_bytes);
    match decoded {
        None => None,
        Some(list) => {
            let ghost full = list@;
            let mut pixels: Vec<u32> = Vec::new();
            let mut max_x: i32 = 0;
            let mut max_y: i32 = 0;
            let mut i: usize = 0;
            proof {
                assert(full.skip(0) =~= full);
                assert(full.take(0) =~= Seq::<(i32, i32, u8, u8, u8)>::empty());
            }
            while i < list.len()
                invariant
                    i <= list@.len(),
                    full == list@,
                    0 <= max_x,
                    0 <= max_y,
                    max_x_from(full, 0) == max_x_from(full.skip(i as int), max_x as int),
                    max_y_from(full, 0) == max_y_from(full.skip(i as int), max_y as int),
                    pixels@ =~= packed_of(full.take(i as int)),
                decreases list@.len() - i,
            {
                let (px, py, cr, cg, cb) = list[i];
                let word: u32 = 0xff00_0000u32 | ((cr as u32) << 16u32) | ((cg as u32) << 8u32)
                    | (cb as u32);
                pixels.push(word);
                proof {
                    assert(full.skip(i as int).drop_first() =~= full.skip(i + 1));
                    assert(packed_of(full.take(i + 1)) =~= packed_of(full.take(i as int)).push(
                        pack_argb(full[i as int].2, full[i as int].3, full[i as int].4),
                    ));
                }
                if px > max_x {
                    max_x = px;
                }
                if py > max_y {
                    max_y = py;
                }
                i = i + 1;
            }
            proof {
                assert(full.skip(full.len() as int) =~= Seq::<(i32, i32, u8, u8, u8)>::empty());
                assert(full.take(full.len() as int) =~= full);
            }
            if max_x <= 32767 && max_y <= 32767 {
                let width: u32 = (max_x + 1) as u32;
                let height: u32 = (max_y + 1) as u32;
                proof {
                    assert((width as int) * (height as int) <= 0x4000_0000) by (nonlinear_arith)
                        requires
                            0 < width <= 32768,
                            0 < height <= 32768,
                    ;
                }
                if pixels.len() == (width as usize) * (height as usize) {
                    let wu: usize = width as usize;
                    let hu: usize = height as usize;
                    let mut ok_down: bool = true;
                    let mut ok_up: bool = true;
                    let mut ri: usize = 0;
                    while ri < list.len()
                        invariant
                            ri <= full.len(),
                            full == list@,
                            1 <= wu <= 32768,
                            1 <= hu <= 32768,
                            full.len() == wu * hu,
                            wu == max_x_from(full, 0) + 1,
                            hu == max_y_from(full, 0) + 1,
                            ok_down == (forall|q: int|
                                0 <= q < ri ==> ((#[trigger] full[q]).0 == q % (wu as int)
                                    && full[q].1 == q / (wu as int))),
                            ok_up == (forall|q: int|
                                0 <= q < ri ==> ((#[trigger] full[q]).0 == q % (wu as int)
                                    && full[q].1 == hu - 1 - q / (wu as int))),
                        decreases full.len() - ri,
                    {
                        proof {
                            assert(ri < wu * hu <= 0x4000_0000) by (nonlinear_arith)
                                requires
                                    ri < wu * hu,
                                    1 <= wu <= 32768,
                                    1 <= hu <= 32768,
                            ;
                            assert(ri as int / (wu as int) < hu) by (nonlinear_arith)
                                requires
                                    0 <= ri < wu * hu,
                                    1 <= wu,
                            ;
                        }
                        let (px, py, _, _, _) = list[ri];
                        let col: usize = ri % wu;
                        let row: usize = ri / wu;
                        if !(px == col as i32 && py == row as i32) {
                            ok_down = false;
                        }
                        if !(px == col as i32 && py == (hu - 1 - row) as i32) {
                            ok_up = false;
                        }
                        ri = ri + 1;
                    }
                    if ok_down || ok_up {
                        Some(Texture { pixels, width, height })
                    } else {
                        None
                    }
                } else {
                    None
                }
            } else {
                None
            }
        },
    }
}

} // verus!
