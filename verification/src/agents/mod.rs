//! The three stages of the pipeline: splitting a question, asking one
//! table, and drawing the answers together. Each stage states what is
//! to be asked of the language model; the asking is the caller's.

use vstd::prelude::*;

pub mod map;
pub mod query;
pub mod reduce;

verus! {

/// The model that every stage runs on.
pub const MODEL: &'static str = "grok-3-mini";

/// What one stage asks of the language model.
#[derive(Debug)]
pub struct PromptRequest {
    /// The model to ask.
    pub model: String,
    /// The instructions under which the model answers.
    pub preamble: String,
    /// The question put to the model.
    pub prompt: String,
}

} // verus!
