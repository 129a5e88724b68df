//! Verified core of a VEX V5 robot-program simulator host.
//!
//! The library models the simulated device: a software-rasterized display
//! with header bar and double-buffered presentation, packed-color
//! conversions, glyph-layout caching and alpha-blended text compositing,
//! guest-memory marshalling helpers, the SDK jump-table builder and its
//! installation plan, and the command protocol that drives the simulator
//! between its setup and executing phases.

pub mod color;
pub mod jump;
pub mod mem;
pub mod display;
pub mod state;
pub mod text;
