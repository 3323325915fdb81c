pub mod gdt;
pub mod serial;
pub mod idt;
