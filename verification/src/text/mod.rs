pub mod fixed_string;
pub mod utf8;
pub mod number;
