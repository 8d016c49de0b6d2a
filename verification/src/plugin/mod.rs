//! Plugins: the registry and the logic of the built-in and user-defined tools.
pub mod registry;
pub mod web_search;
pub mod calc_parse;
pub mod calculator;
pub mod file_ops;
pub mod system;
pub mod knowledge;
pub mod executor;
