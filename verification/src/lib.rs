//! Text-output driver for a memory-mapped character-grid display.
//!
//! The display is a fixed 25x80 grid of cells, each holding one ASCII
//! character byte and one packed color attribute byte. The driver tracks a
//! cursor column on the last row, wraps and scrolls the grid, expands tabs,
//! and substitutes a placeholder glyph for bytes the device cannot show.
//!
//! Every cell access goes through a volatile read or write, so stores reach
//! the underlying memory region exactly once and in program order.

pub mod color;
pub mod grid;
pub mod writer;
pub mod laws;
