//! Falling-text rain for a character terminal: the registry of falling lines,
//! the field of ambient glyphs behind their trails, and the cells a frame paints.

pub mod bridge;
pub mod chance;
pub mod field;
pub mod glyph;
pub mod line;
pub mod random;
pub mod render;
