pub mod dir_entry;
pub mod error;
pub mod le;
pub mod long_name;
pub mod names;
pub mod path;
pub mod fat16;
pub mod boot_record;
pub mod files;
pub mod reader;
pub mod contents;
