//! The caret of a text editor: a position in a buffer of lines, moved by
//! requests, with a remembered screen column that keeps vertical movement
//! steady across lines of different widths.
//!
//! - [`width`]: how many screen cells a character takes up.
//! - [`layout`]: buffer columns and screen columns on one line.
//! - [`buffer`]: the lines of a buffer, each a sequence of cells.
//! - [`caret`]: the caret, its requests, and the two conversions between
//!   buffer columns and screen columns.
//! - [`laws`]: what holds of them in every buffer.

pub mod buffer;
pub mod caret;
pub mod laws;
pub mod layout;
pub mod width;
