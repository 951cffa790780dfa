//! Drawing primitives: lines, styles and text.
pub mod normal;
pub mod text;
