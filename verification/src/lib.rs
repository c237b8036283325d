//! A grid-based ray-casting renderer's verified core.
//!
//! The library holds the parts of the renderer that work on plain integer
//! data: the RGBA pixel rasterizer (`canvas`), the integer geometry value
//! types it consumes (`graphics`), and the grid model, palette data and
//! movement-intent logic (`app`). The floating-point ray traversal itself
//! and the window plumbing live outside the library and feed it rounded
//! pixel coordinates and tile indices.

pub mod app;
pub mod canvas;
pub mod graphics;
