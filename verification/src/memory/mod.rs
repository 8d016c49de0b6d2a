//! Long-term memory: compressing a long conversation into a remembered summary.
pub mod manager;
