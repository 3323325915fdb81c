pub mod buffer;
pub mod color_byte;
