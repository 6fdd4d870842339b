use tunnel_supervisor::models::{
    AvailableModel, OpenAICompatibleModel, OpenAICompatibleProviderModels, ProviderTestResult,
};

#[test]
fn model_records_hold_what_providers_report() {
    let model = OpenAICompatibleModel {
        id: "gpt-test".to_string(),
        owned_by: Some("openai".to_string()),
        created: Some(1700000000),
    };
    let listing = OpenAICompatibleProviderModels {
        provider_name: "local".to_string(),
        base_url: "http://127.0.0.1:8317/v1".to_string(),
        models: vec![model],
        error: None,
    };
    assert_eq!(listing.models.len(), 1);
    assert_eq!(listing.models[0].id, "gpt-test");

    let available = AvailableModel {
        id: "gemini-pro".to_string(),
        owned_by: "google".to_string(),
        source: "gemini-api".to_string(),
    };
    assert_eq!(available.source, "gemini-api");

    let probe = ProviderTestResult {
        success: true,
        message: "ok".to_string(),
        latency_ms: Some(42),
        models_found: Some(1),
    };
    assert!(probe.success);
    assert_eq!(probe.latency_ms, Some(42));
}
