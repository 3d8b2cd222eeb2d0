//! A verified core for a 5x7 firmware glyph toolkit.
//!
//! The library models a fixed-size monochrome pixel grid and the two
//! producers that fill it: a decoder for 4-bit indexed Windows bitmaps and a
//! cursor-driven interactive editor, plus the exporter that turns a grid into
//! the textual byte-array literal embedded in firmware font tables.

pub mod bmp;
pub mod editor;
pub mod export;
pub mod grid;

pub use grid::Pixel;
pub use grid::PixelGrid;
