pub mod image;
pub mod commands;
pub mod smoke;
pub mod limine;
