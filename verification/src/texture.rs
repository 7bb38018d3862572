use vstd::prelude::*;
use crate::fx::{fx_mul, fx_mul_spec, lemma_fx_mul_unit, FX_ONE};

verus! {

/// A Texture object holding the width and height of a texture as well as
/// the pixel data for the texture, row-major, packed color words.
#[derive(Default, Debug, Clone)]
pub struct Texture {
    pub pixels: Vec<u32>,
    pub width: u32,
    pub height: u32,
}

/// Largest texture extent the sampler accepts.
pub const TEX_LIM: u32 = 32768;

/// A normalized coordinate scaled to a pixel index: round(c * (extent - 1)).
pub open spec fn tex_coord_spec(c: int, extent: int) -> int {
    (fx_mul_spec(c, (extent - 1) * 65536) + 32768) / 65536
}

/// The texel the sampler returns for a normalized coordinate pair: the
/// pixel nearest to the coordinate, with the vertical axis flipped.
pub open spec fn sample_spec(t: Texture, u: int, v: int) -> u32 {
    t.pixels@[tex_coord_spec(u, t.width as int) + (t.height - 1 - tex_coord_spec(
        v,
        t.height as int,
    )) * t.width]
}

impl Texture {
    /// One word per pixel, and extents the sampler accepts.
    pub open spec fn wf(&self) -> bool {
        self.pixels@.len() == self.width * self.height && 1 <= self.width <= TEX_LIM && 1
            <= self.height <= TEX_LIM
    }

    /// Returns the color of the pixel in the texture object nearest to the
    /// normalized coordinate ('x_coord', 'y_coord'); the vertical axis is
    /// flipped.
    pub fn get_color_at_normalized_coord(&self, x_coord: &i64, y_coord: &i64) -> (color: &u32)
        requires
            self.wf(),
            0 <= *x_coord <= FX_ONE,
            0 <= *y_coord <= FX_ONE,
        ensures
            *color == sample_spec(*self, *x_coord as int, *y_coord as int),
            exists|ti: int| 0 <= ti < self.pixels@.len() && *color == #[trigger] self.pixels@[ti],
    {
        let wm1: i64 = (self.width - 1) as i64;
        let hm1: i64 = (self.height - 1) as i64;
        proof {
            lemma_fx_mul_unit(*x_coord as int, wm1 * 65536, wm1 * 65536);
            lemma_fx_mul_unit(*y_coord as int, hm1 * 65536, hm1 * 65536);
            crate::fx::lemma_fx_mul_nonneg(*x_coord as int, wm1 * 65536);
            crate::fx::lemma_fx_mul_nonneg(*y_coord as int, hm1 * 65536);
        }
        let px: i64 = fx_mul(*x_coord, wm1 * 65536);
        let py: i64 = fx_mul(*y_coord, hm1 * 65536);
        let texture_coord_x: u32 = (((px as u64) + 32768) / 65536) as u32;
        let texture_coord_y: u32 = (self.height - 1) - (((py as u64) + 32768) / 65536) as u32;
        proof {
            assert(texture_coord_x + texture_coord_y * self.width < self.pixels@.len()
                && texture_coord_y * self.width <= 0x4000_0000) by (nonlinear_arith)
                requires
                    texture_coord_x < self.width,
                    texture_coord_y < self.height,
                    self.width <= TEX_LIM,
                    self.height <= TEX_LIM,
                    self.pixels@.len() == self.width * self.height,
            ;
        }
        &self.pixels[(texture_coord_x + texture_coord_y * self.width) as usize]
    }
}

} // verus!
