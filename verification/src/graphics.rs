//! Integer geometry value types consumed by the rasterizer.

pub mod color;
pub mod graphic;
pub mod line;
pub mod point;
pub mod rectangle;
