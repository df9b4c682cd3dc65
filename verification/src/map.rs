//! The map chunk format.
//!
//! The format is positional. A [`cursor::Cursor`] walks the buffer front to
//! back, [`color`] sizes and resolves the tint record of each sprite,
//! [`sprite`] reads one placed element, and [`chunk`] drives the nested walk
//! over rectangles, cells and stacks. All multi-byte integers are
//! little-endian.
//!
//! [`wire`] writes the format down from the other side, as the bytes that a
//! given chunk is made of, and proves that reading gives back what was
//! written. [`truncation`] proves that a chunk cut short does not decode.

pub mod chunk;
pub mod color;
pub mod cursor;
pub mod sprite;
pub mod truncation;
pub mod wire;
