pub mod arch;
pub mod xtask;
pub mod text;
pub mod string;
pub mod vga_buffer;
pub mod memory;
pub mod boot;
pub mod drivers;
pub mod kernel;
pub mod progress_bar;
