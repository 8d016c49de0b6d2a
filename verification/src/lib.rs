//! Core logic of the KokoroChat backend, verified with Verus.
pub mod db;
pub mod error;
pub mod json;
pub mod text;
pub mod llm;
pub mod models;
pub mod plugin;
pub mod spontaneous;
pub mod memory;
