//! A CPU-only 3D rendering library: a transform-clip-rasterize pipeline over
//! fixed-point scalars, with a depth-tested, perspective-correct scanline
//! rasterizer writing into a packed-pixel framebuffer.

pub mod draw;
pub mod framebuffer;
pub mod fx;
pub mod geometry;
pub mod obj;
pub mod renderer;
pub mod texture;
pub mod texture_helper;
