pub mod chat;
pub mod embeddings;
pub mod manifest;
pub mod parsing;
pub mod stream;

pub use chat::ChatMessage;
pub use embeddings::EmbeddingRequest;
pub use manifest::{
    Manifest, ManifestApi, ManifestAuth, MAX_DESCRIPTION_FOR_HUMAN, MAX_DESCRIPTION_FOR_MODEL,
    MAX_NAME_FOR_HUMAN, MAX_NAME_FOR_MODEL,
};
