use vstd::prelude::*;

verus! {

/// The embedding models the service offers.
#[derive(Debug, Copy, Clone, PartialEq, Eq, Structural)]
pub enum EmbeddingModel {
    Ada,
}

/// The text to embed: one string, or several.
#[derive(Debug, Clone)]
pub enum EmbeddingInput {
    String(String),
    Array(Vec<String>),
}

/// A request for embeddings.
#[derive(Debug)]
pub struct EmbeddingRequest {
    pub model: EmbeddingModel,
    pub input: EmbeddingInput,
    pub user: Option<String>,
}

/// Token counts that the service reports for an embedding request.
#[derive(Debug, Copy, Clone, PartialEq, Eq, Structural)]
pub struct EmbeddingUsage {
    pub prompt_tokens: u32,
    pub total_tokens: u32,
}

impl EmbeddingRequest {
    /// A request with the default model and no user.
    pub fn new(input: EmbeddingInput) -> (r: Self)
        ensures
            r.model == EmbeddingModel::Ada,
            r.input == input,
            r.user is None,
    {
        EmbeddingRequest { model: EmbeddingModel::Ada, input, user: None }
    }
}

} // verus!
