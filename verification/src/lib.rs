//! Display text inside a configurable rectangular frame.
//!
//! A [`TextFrame`] holds the border glyphs, fill glyph, size controls,
//! text alignment and colors; its rendering methods turn a text block
//! into a sequence of string fragments whose concatenation is the frame.

pub mod algn;
pub mod color;
pub mod esc;
pub mod lines;
pub mod render;
pub mod frame_var;
pub mod glyph;
pub mod laws;
pub mod txt_frame;

pub use crate::algn::Algn;
pub use crate::color::Color;
pub use crate::frame_var::FrameVar;
pub use crate::txt_frame::TextFrame;
