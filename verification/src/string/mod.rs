pub mod string;
