//! Local embedding models, which this build does not have.

use vstd::prelude::*;

verus! {

/// A provider of embeddings that runs a model locally. This build has no such model, so that no
/// provider can be made.
#[derive(Debug)]
pub struct LocalEmbeddingProvider {
    dims: u32,
}

/// Why there is no provider for a model.
pub open spec fn unavailable_message(model_id: Seq<char>) -> Seq<char> {
    "Local embedding model '"@ + model_id
        + "' is not available — the `local-embeddings` feature is disabled (ort-sys / fastembed not compiled in). Use an API-based embedding provider instead."@
}

impl LocalEmbeddingProvider {
    /// The number of dimensions of an embedding.
    pub closed spec fn spec_dims(self) -> u32 {
        self.dims
    }

    /// Refuses to make a provider, with the reason.
    pub fn new(model_id: &str) -> (r: Result<Self, String>)
        ensures
            r matches Err(message) && message@ == unavailable_message(model_id@),
    {
        let mut message = "Local embedding model '".to_owned();
        message.append(model_id);
        message.append(
            "' is not available — the `local-embeddings` feature is disabled (ort-sys / fastembed not compiled in). Use an API-based embedding provider instead.",
        );
        Err(message)
    }

    /// Why nothing can be embedded.
    pub fn embed_refusal(&self) -> (r: String)
        ensures
            r@ == "local-embeddings feature is disabled"@,
    {
        "local-embeddings feature is disabled".to_owned()
    }

    /// The number of dimensions of an embedding.
    pub fn dimensions(&self) -> (r: u32)
        ensures
            r == self.spec_dims(),
    {
        self.dims
    }
}

// ── Laws ─────────────────────────────────────────────────────────

/// The refusal names the model between quotes, as it was asked for, and says what to use instead.
pub proof fn refusal_names_the_model(model_id: Seq<char>)
    ensures
        unavailable_message(model_id) == "Local embedding model '"@ + model_id
            + "' is not available — the `local-embeddings` feature is disabled (ort-sys / fastembed not compiled in). Use an API-based embedding provider instead."@,
{
}

} // verus!
