use smart_tavern::log_format::ApiConfig;
use smart_tavern::provider_routing::{create_provider, provider_kind, trim_trailing_slashes, ProviderKind};

fn config(provider: &str, base_url: Option<&str>, api_key: Option<&str>) -> ApiConfig {
    ApiConfig {
        provider: provider.to_string(),
        base_url: base_url.map(|s| s.to_string()),
        api_key: api_key.map(|s| s.to_string()),
        model: "m".to_string(),
    }
}

#[test]
fn providers_get_their_default_base_urls() {
    let cases = [
        ("openai_chat", ProviderKind::OpenAIChat, "https://api.openai.com/v1"),
        ("openai_responses", ProviderKind::OpenAIResponses, "https://api.openai.com/v1"),
        ("anthropic", ProviderKind::Anthropic, "https://api.anthropic.com/v1"),
        ("gemini", ProviderKind::Gemini, "https://generativelanguage.googleapis.com/v1beta"),
        ("deepseek", ProviderKind::DeepSeek, "https://api.deepseek.com/v1"),
        ("claude_code", ProviderKind::ClaudeCode, "http://localhost:8080"),
    ];
    for (name, kind, base) in cases {
        let p = create_provider(&config(name, None, Some("k"))).unwrap();
        assert_eq!(p.kind, kind);
        assert_eq!(p.base_url, base);
        assert_eq!(p.api_key, "k");
        assert_eq!(p.model, "m");
    }
}

#[test]
fn configured_base_urls_are_kept_and_agent_server_loses_trailing_slashes() {
    let p = create_provider(&config("openai_chat", Some("http://proxy/v1/"), None)).unwrap();
    assert_eq!(p.base_url, "http://proxy/v1/");
    assert_eq!(p.api_key, "");
    let c = create_provider(&config("claude_code", Some("http://host:9000//"), None)).unwrap();
    assert_eq!(c.base_url, "http://host:9000");
    assert_eq!(trim_trailing_slashes("///"), "");
}

#[test]
fn unknown_providers_are_refused() {
    assert_eq!(provider_kind("mistral"), Err("Unknown provider: mistral".to_string()));
    assert_eq!(create_provider(&config("", None, None)).err(), Some("Unknown provider: ".to_string()));
}
