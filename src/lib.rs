//! Finds the lines of a text that hold a query, compared character for
//! character or in lower case.

pub mod config;
pub mod lines;
pub mod search;

pub use config::{Config, ConfigError};
pub use lines::split_lines;
pub use search::{contains, search, search_case_insensitive, search_case_sensitive};
