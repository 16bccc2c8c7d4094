//! A minimal full-screen, line-oriented text editor core.
//!
//! The library holds the verified heart of the editor: decoding raw bytes
//! into input events, the line-buffer text model with cursor-relative
//! edits, the viewport scrolling rule, and the construction of the escape
//! sequences that paint a frame. Reading the keyboard, touching the file
//! system and switching the terminal into raw mode live outside of it.

pub mod buffer;
pub mod editor;
pub mod input;
pub mod render;
pub mod viewport;
