use provider_routing::claude::{
    format_of_name, get_claude_api_format, openai_error_to_anthropic, switch_is_on, ClaudeAdapter,
    ProviderType, RequestTransform, ResponseTransform,
};
use provider_routing::json::member_str;
use provider_routing::provider::{
    AuthInfo, AuthStrategy, ConfigProblem, Provider, ProviderMeta, ProxyError,
};
use serde_json::Value;

fn json(text: &str) -> Value {
    serde_json::from_str(text).expect("valid JSON")
}

fn text_of(value: &Value, key: &str) -> Option<String> {
    value.get(key).and_then(|v| v.as_str()).map(|s| s.to_string())
}

fn provider_from_value(value: &Value) -> Option<Provider> {
    Some(Provider {
        id: text_of(value, "id")?,
        name: text_of(value, "name")?,
        settings_config: value.get("settingsConfig")?.clone(),
        meta: value.get("meta").map(|meta| ProviderMeta {
            api_format: text_of(meta, "apiFormat"),
            provider_type: text_of(meta, "providerType"),
            prompt_cache_key: text_of(meta, "promptCacheKey"),
        }),
        stream_include_usage: false,
    })
}

fn with_settings(settings: &str) -> Provider {
    Provider {
        id: "p1".to_string(),
        name: "Provider".to_string(),
        settings_config: json(settings),
        meta: None,
        stream_include_usage: false,
    }
}

fn with_meta(settings: &str, api_format: Option<&str>, cache_key: Option<&str>) -> Provider {
    let mut provider = with_settings(settings);
    provider.meta = Some(ProviderMeta {
        api_format: api_format.map(|s| s.to_string()),
        provider_type: None,
        prompt_cache_key: cache_key.map(|s| s.to_string()),
    });
    provider
}

fn key_of(settings: &str) -> Option<String> {
    let adapter = ClaudeAdapter::new();
    let provider = with_settings(settings);
    let key = adapter.extract_key(&provider);
    assert_eq!(adapter.extract_auth(&provider).map(|auth| auth.api_key), key);
    key
}

#[test]
fn provider_meta_provider_type_github_copilot_uses_upstream_runtime_behavior() {
    let adapter = ClaudeAdapter::new();
    let provider: Provider = provider_from_value(&json(
        r#"{
            "id": "copilot-meta",
            "name": "Copilot Meta",
            "settingsConfig": {
                "env": {
                    "ANTHROPIC_BASE_URL": "https://relay.example.com",
                    "ANTHROPIC_AUTH_TOKEN": "token-1"
                }
            },
            "meta": {
                "providerType": "github_copilot"
            }
        }"#,
    ))
    .expect("provider should deserialize");

    assert_eq!(
        format!("{:?}", adapter.provider_type(&provider)),
        "GitHubCopilot"
    );
    let auth = adapter
        .extract_auth(&provider)
        .expect("github copilot should resolve auth");
    assert_eq!(format!("{:?}", auth.strategy), "GitHubCopilot");
    assert!(adapter.needs_transform(&provider));
    assert_eq!(auth.api_key, "copilot_placeholder");
}

#[test]
fn format_names() {
    assert_eq!(format_of_name("openai_chat"), "openai_chat");
    assert_eq!(format_of_name("openai_responses"), "openai_responses");
    assert_eq!(format_of_name("anthropic"), "anthropic");
    assert_eq!(format_of_name("OPENAI_CHAT"), "anthropic");
    assert_eq!(format_of_name(""), "anthropic");
}

#[test]
fn format_in_meta_decides_before_settings() {
    let settings = r#"{"api_format": "openai_responses", "openrouter_compat_mode": true}"#;
    assert_eq!(get_claude_api_format(&with_meta(settings, Some("openai_chat"), None)), "openai_chat");
    assert_eq!(get_claude_api_format(&with_meta(settings, Some("other"), None)), "anthropic");
    assert_eq!(get_claude_api_format(&with_meta(settings, None, None)), "openai_responses");
    assert_eq!(get_claude_api_format(&with_settings(settings)), "openai_responses");
}

#[test]
fn format_in_settings_counts_only_as_text() {
    let settings = r#"{"api_format": 1, "openrouter_compat_mode": true}"#;
    assert_eq!(get_claude_api_format(&with_settings(settings)), "openai_chat");
    assert_eq!(get_claude_api_format(&with_settings(r#"{"api_format": "x", "openrouter_compat_mode": true}"#)), "anthropic");
}

#[test]
fn compatibility_switch() {
    let format = |raw: &str| {
        get_claude_api_format(&with_settings(&format!("{{\"openrouter_compat_mode\": {raw}}}")))
    };
    assert_eq!(format("true"), "openai_chat");
    assert_eq!(format("false"), "anthropic");
    assert_eq!(format("1"), "openai_chat");
    assert_eq!(format("-3"), "openai_chat");
    assert_eq!(format("0"), "anthropic");
    assert_eq!(format("1.0"), "anthropic");
    assert_eq!(format("18446744073709551615"), "anthropic");
    assert_eq!(format("9223372036854775807"), "openai_chat");
    assert_eq!(format("\" TRUE\\t\""), "openai_chat");
    assert_eq!(format("\"\\u30001\\u00a0\""), "openai_chat");
    assert_eq!(format("\"yes\""), "anthropic");
    assert_eq!(format("\"\u{ff34}RUE\""), "anthropic");
    assert_eq!(format("null"), "anthropic");
    assert_eq!(format("[true]"), "anthropic");
    assert_eq!(get_claude_api_format(&with_settings("{}")), "anthropic");
    assert_eq!(get_claude_api_format(&with_settings("[1]")), "anthropic");
}

#[test]
fn switch_texts() {
    assert!(switch_is_on("true"));
    assert!(switch_is_on("1"));
    assert!(!switch_is_on("True"));
    assert!(!switch_is_on(""));
}

#[test]
fn kinds_of_provider() {
    let adapter = ClaudeAdapter::default();
    let kind = |settings: &str| adapter.provider_type(&with_settings(settings));
    assert_eq!(kind(r#"{"base_url": "https://api.githubcopilot.com/"}"#), ProviderType::GitHubCopilot);
    assert_eq!(kind(r#"{"base_url": "https://openrouter.ai/api"}"#), ProviderType::OpenRouter);
    assert_eq!(
        kind(r#"{"base_url": "https://openrouter.ai/api", "auth_mode": "bearer_only"}"#),
        ProviderType::OpenRouter
    );
    assert_eq!(kind(r#"{"auth_mode": "bearer_only"}"#), ProviderType::ClaudeAuth);
    assert_eq!(kind(r#"{"env": {"AUTH_MODE": "bearer_only"}}"#), ProviderType::ClaudeAuth);
    assert_eq!(kind(r#"{"auth_mode": "other", "env": {"AUTH_MODE": 1}}"#), ProviderType::Claude);
    assert_eq!(kind("{}"), ProviderType::Claude);
    assert_eq!(kind("null"), ProviderType::Claude);
}

#[test]
fn base_url_is_found_in_order_and_trimmed() {
    let adapter = ClaudeAdapter::new();
    let url = |settings: &str| adapter.extract_base_url(&with_settings(settings)).ok();
    let all = r#"{"env": {"ANTHROPIC_BASE_URL": "https://a///"}, "base_url": "https://b/",
        "baseURL": "https://c", "apiEndpoint": "https://d/"}"#;
    assert_eq!(url(all).as_deref(), Some("https://a"));
    assert_eq!(
        url(r#"{"env": {"ANTHROPIC_BASE_URL": 1}, "base_url": "https://b/", "baseURL": "c"}"#).as_deref(),
        Some("https://b")
    );
    assert_eq!(url(r#"{"baseURL": "https://c/x/", "apiEndpoint": "d"}"#).as_deref(), Some("https://c/x"));
    assert_eq!(url(r#"{"apiEndpoint": "https://d/"}"#).as_deref(), Some("https://d"));
    assert_eq!(url(r#"{"apiEndpoint": "///"}"#).as_deref(), Some(""));
}

#[test]
fn missing_base_url_is_a_configuration_error() {
    match ClaudeAdapter::new().extract_base_url(&with_settings("{}")) {
        Err(ProxyError::ConfigError(problem)) => {
            assert_eq!(problem, ConfigProblem::MissingBaseUrl);
            let name = format!("{:?}", ProviderType::Claude);
            assert_eq!(problem.message(&name), format!("{name} Provider 缺少 base_url 配置"));
            assert_eq!(problem.message("A"), "A Provider 缺少 base_url 配置");
        }
        _ => panic!("a configuration error is expected"),
    }
}

#[test]
fn keys_are_found_in_order() {
    let all = r#"{"env": {"ANTHROPIC_AUTH_TOKEN": "t", "ANTHROPIC_API_KEY": "a",
        "OPENROUTER_API_KEY": "r", "OPENAI_API_KEY": "o"}, "apiKey": "k", "api_key": "l"}"#;
    assert_eq!(key_of(all).as_deref(), Some("t"));
    assert_eq!(
        key_of(r#"{"env": {"ANTHROPIC_AUTH_TOKEN": "", "ANTHROPIC_API_KEY": "a"}}"#).as_deref(),
        Some("a")
    );
    assert_eq!(key_of(r#"{"env": {"OPENROUTER_API_KEY": "r", "OPENAI_API_KEY": "o"}}"#).as_deref(), Some("r"));
    assert_eq!(key_of(r#"{"env": {"OPENAI_API_KEY": "o"}, "apiKey": "k"}"#).as_deref(), Some("o"));
    assert_eq!(key_of(r#"{"env": {}, "apiKey": "k", "api_key": "l"}"#).as_deref(), Some("k"));
    assert_eq!(key_of(r#"{"api_key": "l"}"#).as_deref(), Some("l"));
    assert_eq!(key_of(r#"{"apiKey": 1, "api_key": "l"}"#), None);
    assert_eq!(key_of(r#"{"apiKey": "", "api_key": "l"}"#), None);
    assert_eq!(key_of(r#"{"apiKey": " k "}"#).as_deref(), Some(" k "));
    assert_eq!(key_of("{}"), None);
}

#[test]
fn strategies_follow_the_kind() {
    let adapter = ClaudeAdapter::new();
    let strategy = |settings: &str| {
        adapter.extract_auth(&with_settings(settings)).map(|auth| auth.strategy)
    };
    assert_eq!(strategy(r#"{"apiKey": "k"}"#), Some(AuthStrategy::Anthropic));
    assert_eq!(strategy(r#"{"apiKey": "k", "auth_mode": "bearer_only"}"#), Some(AuthStrategy::ClaudeAuth));
    assert_eq!(
        strategy(r#"{"apiKey": "k", "base_url": "https://openrouter.ai"}"#),
        Some(AuthStrategy::Bearer)
    );
    assert_eq!(
        strategy(r#"{"base_url": "https://api.githubcopilot.com"}"#),
        Some(AuthStrategy::GitHubCopilot)
    );
    assert_eq!(strategy("{}"), None);
}

#[test]
fn headers_for_each_strategy() {
    let adapter = ClaudeAdapter::new();
    let headers = |strategy: AuthStrategy| {
        adapter.add_auth_headers(
            vec![("Accept".to_string(), "*/*".to_string())],
            &AuthInfo::new("k".to_string(), strategy),
        )
    };
    let expect = |more: &[(&str, &str)]| {
        let mut list = vec![
            ("Accept".to_string(), "*/*".to_string()),
            ("Authorization".to_string(), "Bearer k".to_string()),
        ];
        list.extend(more.iter().map(|(name, value)| (name.to_string(), value.to_string())));
        list
    };
    assert_eq!(headers(AuthStrategy::Anthropic), expect(&[("x-api-key", "k")]));
    assert_eq!(headers(AuthStrategy::ClaudeAuth), expect(&[]));
    assert_eq!(headers(AuthStrategy::Bearer), expect(&[]));
    assert_eq!(headers(AuthStrategy::Google), expect(&[]));
    assert_eq!(headers(AuthStrategy::GoogleOAuth), expect(&[]));
    assert_eq!(
        headers(AuthStrategy::GitHubCopilot),
        expect(&[
            ("Editor-Version", "vscode/1.85.0"),
            ("Editor-Plugin-Version", "copilot/1.150.0"),
            ("Copilot-Integration-Id", "vscode-chat"),
        ])
    );
}

#[test]
fn urls_are_joined() {
    let adapter = ClaudeAdapter::new();
    assert_eq!(
        adapter.build_url("https://api.example.com//", "//v1/models"),
        "https://api.example.com/v1/models"
    );
    assert_eq!(
        adapter.build_url("https://api.example.com/v1", "/v1/messages"),
        "https://api.example.com/v1/messages?beta=true"
    );
    assert_eq!(
        adapter.build_url("https://api.example.com/v1/v1/v1", "/v1/v1/models"),
        "https://api.example.com/v1/models"
    );
    assert_eq!(
        adapter.build_url("https://api.example.com/v1", "/v1beta/v1/v12"),
        "https://api.example.com/v1beta/v12"
    );
}

#[test]
fn beta_is_asked_for_messages_only() {
    let adapter = ClaudeAdapter::new();
    assert_eq!(adapter.build_url("h", "/v1/messages"), "h/v1/messages?beta=true");
    assert_eq!(adapter.build_url("h", "v1/messages"), "h/v1/messages");
    assert_eq!(adapter.build_url("h", "/v1/messages?x=1"), "h/v1/messages?x=1");
    assert_eq!(
        adapter.build_url("h", "/v1/messages/v1/chat/completions"),
        "h/v1/messages/v1/chat/completions"
    );
    assert_eq!(adapter.build_url("h", "/v1/chat/completions"), "h/v1/chat/completions");
}

#[test]
fn transformation_is_needed_for_openai_formats() {
    let adapter = ClaudeAdapter::new();
    assert!(adapter.needs_transform(&with_meta("{}", Some("openai_chat"), None)));
    assert!(adapter.needs_transform(&with_meta("{}", Some("openai_responses"), None)));
    assert!(!adapter.needs_transform(&with_meta("{}", Some("anthropic"), None)));
    assert!(!adapter.needs_transform(&with_settings("{}")));
}

#[test]
fn requests_are_transformed_by_format() {
    let adapter = ClaudeAdapter::new();
    match adapter.transform_request(
        json(r#"{"model": "m"}"#),
        &with_meta("{}", Some("openai_responses"), Some("cache")),
    ) {
        RequestTransform::ToResponses { body, cache_key } => {
            assert_eq!(body, json(r#"{"model": "m"}"#));
            assert_eq!(cache_key, "cache");
        }
        RequestTransform::ToChat { .. } => panic!("the responses interface is expected"),
    }
    let mut provider = with_meta("{}", Some("openai_chat"), None);
    provider.stream_include_usage = true;
    match adapter.transform_request(json("1"), &provider) {
        RequestTransform::ToChat { body, cache_key, stream_include_usage } => {
            assert_eq!(body, json("1"));
            assert_eq!(cache_key, "p1");
            assert!(stream_include_usage);
        }
        RequestTransform::ToResponses { .. } => panic!("the chat interface is expected"),
    }
    match adapter.transform_request(json("1"), &with_settings("{}")) {
        RequestTransform::ToChat { cache_key, stream_include_usage, .. } => {
            assert_eq!(cache_key, "p1");
            assert!(!stream_include_usage);
        }
        RequestTransform::ToResponses { .. } => panic!("the chat interface is expected"),
    }
}

#[test]
fn replies_are_told_apart() {
    let adapter = ClaudeAdapter::new();
    match adapter.transform_response(json(r#"{"error": {"message": "m", "type": "t"}}"#)) {
        ResponseTransform::ErrorReport(report) => assert_eq!(
            report,
            json(r#"{"type": "error", "error": {"type": "t", "message": "m"}}"#)
        ),
        _ => panic!("an error report is expected"),
    }
    assert!(matches!(
        adapter.transform_response(json(r#"{"error": 1, "output": []}"#)),
        ResponseTransform::FromResponses(_)
    ));
    assert!(matches!(
        adapter.transform_response(json(r#"{"error": 1, "choices": []}"#)),
        ResponseTransform::FromChat(_)
    ));
    assert!(matches!(
        adapter.transform_response(json(r#"{"error": null}"#)),
        ResponseTransform::ErrorReport(_)
    ));
    assert!(matches!(adapter.transform_response(json("[]")), ResponseTransform::FromChat(_)));
}

#[test]
fn errors_are_translated_with_fallbacks() {
    let fallback = json(
        r#"{"type": "error", "error": {"type": "invalid_request_error", "message": "Upstream error"}}"#,
    );
    assert_eq!(openai_error_to_anthropic(json("{}")), fallback);
    assert_eq!(openai_error_to_anthropic(json(r#"{"error": "text"}"#)), fallback);
    assert_eq!(openai_error_to_anthropic(json(r#"{"error": {"message": 1, "type": null}}"#)), fallback);
    assert_eq!(
        openai_error_to_anthropic(json(r#"{"error": {"message": "m"}}"#)),
        json(r#"{"type": "error", "error": {"type": "invalid_request_error", "message": "m"}}"#)
    );
    let once = openai_error_to_anthropic(json(r#"{"error": {"message": "m", "type": "t"}}"#));
    assert_eq!(openai_error_to_anthropic(once.clone()), once);
}

#[test]
fn members_are_read_as_text() {
    let value = json(r#"{"a": "x", "b": 1}"#);
    assert_eq!(member_str(&value, "a"), Some("x"));
    assert_eq!(member_str(&value, "b"), None);
    assert_eq!(member_str(&value, "c"), None);
    assert_eq!(member_str(&json("\"a\""), "a"), None);
}

#[test]
fn clones_hold_the_same() {
    let provider = with_meta(r#"{"apiKey": "k", "n": [1, 2.5]}"#, Some("openai_chat"), Some("c"));
    let copy = provider.clone();
    assert_eq!(copy.id, provider.id);
    assert_eq!(copy.name, provider.name);
    assert_eq!(copy.settings_config, provider.settings_config);
    let meta = copy.meta.expect("the meta data is copied");
    assert_eq!(meta.api_format.as_deref(), Some("openai_chat"));
    assert_eq!(meta.provider_type, None);
    assert_eq!(meta.prompt_cache_key.as_deref(), Some("c"));
}

#[test]
fn a_joined_url_stays_as_it_is() {
    let adapter = ClaudeAdapter::new();
    let url = adapter.build_url("https://h/v1/v1", "/v1/v1/models/v1/v1");
    assert_eq!(url, "https://h/v1/models/v1");
    assert_eq!(adapter.build_url(&url, ""), "https://h/v1/models/v1/");
    assert_eq!(
        adapter.build_url("https://h/", "models"),
        adapter.build_url("https://h", "/models")
    );
}
