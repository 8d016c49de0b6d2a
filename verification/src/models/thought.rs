//! The character's own thoughts.
use vstd::prelude::*;

verus! {

/// A thought the character had on its own.
#[derive(Debug, Clone)]
pub struct Thought {
    pub id: String,
    pub character_id: String,
    pub content: String,
    /// Summary of the context the thought came from.
    pub context: Option<String>,
    pub created_at: String,
}

} // verus!
