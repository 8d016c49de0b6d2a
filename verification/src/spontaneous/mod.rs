//! The character's spontaneous speech: when to speak on its own, and what to ask the model.
pub mod speaker;
