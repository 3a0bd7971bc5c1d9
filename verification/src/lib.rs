//! Conway's Game of Life on a fixed 48x128 grid: the grid state, the
//! generation step, a text-pattern loader, the frame renderer, and the
//! frame-budget arithmetic of the display loop.

pub mod engine;
pub mod grid;
pub mod laws;
pub mod loader;
pub mod render;
pub mod timing;
