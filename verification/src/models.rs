//! Records describing the models that the locally exposed API service
//! offers, as exchanged with provider endpoints; plain data with no
//! behaviour of its own.

use vstd::prelude::*;

verus! {

/// A model offered by a provider endpoint.
pub struct AvailableModel {
    pub id: String,
    pub owned_by: String,
    /// Authentication source the model was discovered through.
    pub source: String,
}

/// Outcome of probing a provider endpoint.
pub struct ProviderTestResult {
    pub success: bool,
    pub message: String,
    pub latency_ms: Option<u64>,
    pub models_found: Option<u32>,
}

/// Model list fetched from one provider.
pub struct OpenAICompatibleProviderModels {
    pub provider_name: String,
    pub base_url: String,
    pub models: Vec<OpenAICompatibleModel>,
    pub error: Option<String>,
}

/// One model entry as a provider reports it.
pub struct OpenAICompatibleModel {
    pub id: String,
    pub owned_by: Option<String>,
    pub created: Option<i64>,
}

} // verus!
