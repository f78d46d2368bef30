pub mod text;
pub mod priority;

pub use priority::Priority;
pub mod tags;
pub mod pattern;

pub use tags::{default_tag_names, find_tag, TagDefinition};
pub mod parser;

pub use parser::{PatternError, TodoItem, TodoParser};
pub mod path_order;
pub mod scan_model;
pub mod scanner;

pub use scanner::{ScanOptions, ScanResult};
pub mod config;
pub mod cli_config;
