//! Conway's Game of Life on a bounded (non-toroidal) rectangular grid.
//!
//! The grid is a row-major `Vec<Vec<bool>>` of live/dead cells. One
//! generation is computed by [`life::render`], which also paints one
//! color-coded pixel per cell into a [`framebuffer::Framebuffer`];
//! [`life::set_pattern`] seeds the grid with a named organism from
//! [`patterns`]. The driver that owns the window lives outside this crate
//! and only shuttles grids and pixel buffers back and forth.

pub mod framebuffer;
pub mod life;
pub mod patterns;
