pub mod glyph;
pub mod framebuffer;
pub mod serial;
pub mod console;
