//! Conway's Game of Life on a fixed-size pixel surface.
//!
//! A [`framebuffer::Framebuffer`] couples a packed 24-bit RGB pixel buffer
//! (stored bottom-up: grid row 0 is the bottom of the displayed image) with a
//! parallel grid of boolean cell states.  The [`life`] module advances the
//! cell grid one generation at a time under the standard Game-of-Life rule
//! with toroidal neighbor wraparound, the [`patterns`] module seeds well-known
//! shapes, and the [`bmp`] module turns the pixel buffer into the bytes of a
//! 24-bit bitmap file.

pub mod bmp;
pub mod framebuffer;
pub mod life;
pub mod patterns;
