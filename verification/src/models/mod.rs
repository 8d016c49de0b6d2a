//! The data model of the application.
pub mod attachment;
pub mod chat;
pub mod config;
pub mod knowledge;
pub mod memory;
pub mod plugin;
pub mod thought;
pub mod tts;
