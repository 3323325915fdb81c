pub mod progress_bar;
