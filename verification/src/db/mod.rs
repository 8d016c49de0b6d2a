//! Database schema and the pure parts of the repositories.
pub mod migrations;
pub mod rules;
