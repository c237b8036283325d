//! The rasterizer: primitives that write into a row-major RGBA byte buffer,
//! origin top-left, y growing downward.

pub mod background;
pub mod graphics;
pub mod line;
pub mod rectangle;
pub mod pixels;
pub mod point;
