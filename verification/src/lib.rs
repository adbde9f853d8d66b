//! Display and scrolling core of a text console: a fixed-size rectangular
//! character grid with a direction-aware shift/scroll primitive, a cell codec
//! that packs styled glyphs into 16-bit storage words, and a stateful writer
//! that turns a byte stream into positioned, styled cells with automatic line
//! wrapping and scroll-on-overflow.

pub mod attribute;
pub mod character;
pub mod color;
pub mod grid;
pub mod vga;
pub mod writer;
