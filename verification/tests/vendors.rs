//! Vendors: their tokens, their models and their settings.
use latte::env::resolve_env;
use latte::table::Table;
use latte::vendor::{
    AnthropicModelsApi, ApiKeyProvider, BearerProvider, BearerRefresher, DiscoveryReply,
    EnvRefresher, FixedIntervalRefresher, Manual, ModelDescriptor, ModelDiscovery, OpenAiModelsApi,
    TokenProvider, VendorError, VendorId, VendorResult,
};
use latte::vendor_status::HealthReply;
use latte::vendor_toml::{
    default_protocol, registry_from_toml, DiscoveryField, HealthCheck, HealthCheckToml,
    ModelDescriptorToml, VendorAuth, VendorAuthToml, VendorConfig, VendorConfigFile,
    VendorConfigToml, VendorDiscovery, VendorDiscoveryToml, VendorFeature, VendorRegistry,
};
use serde_json::Value;

const SEC: u128 = 1_000_000_000;

fn json(text: &str) -> Value {
    serde_json::from_str(text).unwrap()
}

fn no_env() -> Table<String> {
    Table::new()
}

fn env(name: &str, value: &str) -> Table<String> {
    let mut env = Table::new();
    env.insert(name.to_string(), value.to_string());
    env
}

fn fixed(token: &'static str) -> impl Fn() -> VendorResult<String> {
    move || Ok(token.to_string())
}

#[test]
fn vendor_id_display() {
    let v = VendorId::new("openai");
    assert_eq!(v.text(), "openai");
    assert_eq!(v.as_str(), "openai");
}

#[test]
fn api_key_provider_returns_resolved_key() {
    let mut p = ApiKeyProvider::new("anthropic", "${LATTE_TEST_KEY}");
    let env = env("LATTE_TEST_KEY", "sk-test-123");
    assert_eq!(p.token(0, &env).unwrap(), "sk-test-123");
}

#[test]
fn api_key_provider_passes_through_plain_key() {
    let mut p = ApiKeyProvider::new("anthropic", "sk-plain");
    assert_eq!(p.token(0, &no_env()).unwrap(), "sk-plain");
}

#[test]
fn api_key_provider_never_expired() {
    let p = ApiKeyProvider::new("anthropic", "k");
    assert!(!p.is_expired(u128::MAX));
    assert_eq!(p.kind(), "api_key");
    assert_eq!(p.vendor_id().0, "anthropic");
}

#[test]
fn variables_stand_for_their_values() {
    let env = env("KEY", "v");
    assert_eq!(resolve_env("${KEY}", &env), "v");
    assert_eq!(resolve_env("KEY", &env), "KEY");
    assert_eq!(resolve_env("x${KEY}", &env), "x${KEY}");
    assert_eq!(resolve_env("${OTHER}", &env), "${OTHER}");
}

#[test]
fn bearer_provider_returns_initial_token_when_not_expired() {
    let refresher = FixedIntervalRefresher::new(0, 3600 * SEC, fixed("new-token"));
    let mut p = BearerProvider::new("anthropic", "initial", 0, 3600 * SEC, refresher);
    assert_eq!(p.token(1, &no_env()).unwrap(), "initial");
    assert!(!p.is_expired(1));
    assert_eq!(p.kind(), "bearer");
}

#[test]
fn bearer_provider_refreshes_when_expired() {
    let now = 1000 * SEC;
    let started_at = now - 120 * SEC;
    let refresher = FixedIntervalRefresher::with_started_at(started_at, 60 * SEC, fixed("new-token"));
    let mut p =
        BearerProvider::with_started_at("anthropic", "old", started_at, 60 * SEC, refresher);
    assert!(p.is_expired(now));
    let token = p.token(now, &no_env()).unwrap();
    assert_eq!(token, "new-token");
    assert!(!p.is_expired(now));
}

#[test]
fn bearer_provider_refresh_now_forces_refresh() {
    let refresher = FixedIntervalRefresher::new(0, 3600 * SEC, fixed("forced-new"));
    let mut p = BearerProvider::new("anthropic", "initial", 0, 3600 * SEC, refresher);
    assert!(!p.is_expired(0));
    let token = p.refresh_now(0, &no_env()).unwrap();
    assert_eq!(token, "forced-new");
}

#[test]
fn bearer_provider_refresh_failure_propagates() {
    let refresher = FixedIntervalRefresher::new(0, 0, || {
        Err(VendorError::RefreshFailed("token endpoint 503".to_string()))
    });
    let mut p = BearerProvider::new("anthropic", "stale", 0, 0, refresher);
    let result = p.token(1, &no_env());
    assert!(matches!(result, Err(VendorError::RefreshFailed(_))));
    assert_eq!(p.token, "stale");
}

#[test]
fn bearer_provider_remaining_seconds() {
    let refresher = FixedIntervalRefresher::new(0, 3600 * SEC, fixed("t"));
    let p = BearerProvider::new("anthropic", "t", 0, 3600 * SEC, refresher);
    let remaining = p.remaining(1);
    assert!(remaining > 3599 * SEC);
    assert!(remaining <= 3600 * SEC);
    assert_eq!(p.remaining(4000 * SEC), 0);
}

#[test]
fn a_new_token_is_good_for_its_span() {
    let refresher = FixedIntervalRefresher::new(0, 60 * SEC, fixed("new"));
    let mut p = BearerProvider::new("x", "old", 0, 60 * SEC, refresher);
    let now = 100 * SEC;
    assert_eq!(p.token(now, &no_env()).unwrap(), "new");
    assert!(!p.is_expired(now + 60 * SEC));
    assert!(p.is_expired(now + 60 * SEC + 1));
    assert!(p.good_token(now + 60 * SEC).is_some());
    assert!(p.good_token(now + 60 * SEC + 1).is_none());
}

#[test]
fn tokens_are_shown_in_part() {
    let refresher = EnvRefresher { variable: None };
    let p = BearerProvider::new("x", "abcdefghijklmnop", 0, 1, refresher);
    assert!(!p.preview().contains("abcdefghijklmnop"), "{}", p.preview());
}

#[test]
fn variables_give_new_tokens() {
    let refresher = EnvRefresher { variable: Some("TOKEN".to_string()) };
    assert_eq!(refresher.refresh(&env("TOKEN", "t")).unwrap(), "t");
    assert_eq!(refresher.refresh(&no_env()).unwrap(), "");
    assert_eq!(EnvRefresher { variable: None }.refresh(&no_env()).unwrap(), "");
}

#[test]
fn model_descriptor_new_works() {
    let d = ModelDescriptor::new("gpt-4o", "GPT-4o");
    assert_eq!(d.id, "gpt-4o");
    assert_eq!(d.display_name, "GPT-4o");
    assert!(d.context_window.is_none());
    assert_eq!(d.vendor_specific.len(), 0);
}

#[test]
fn manual_discover_returns_preset_models() {
    let models =
        vec![ModelDescriptor::new("gpt-4o", "GPT-4o"), ModelDescriptor::new("gpt-4o-mini", "GPT-4o Mini")];
    let discover = Manual(models.clone());
    let result = discover.discover(&DiscoveryReply::NotSent("ignored".to_string())).unwrap();
    assert_eq!(result.len(), 2);
    for (found, set) in result.iter().zip(models.iter()) {
        assert_eq!(found.id, set.id);
        assert_eq!(found.display_name, set.display_name);
        assert_eq!(found.context_window, set.context_window);
        assert_eq!(found.vendor_specific.len(), 0);
    }
    assert_eq!(discover.protocol(), "manual");
}

#[test]
fn discovery_protocols() {
    assert_eq!(AnthropicModelsApi.protocol(), "anthropic");
    assert_eq!(OpenAiModelsApi.protocol(), "openai");
    assert_eq!(Manual(vec![]).protocol(), "manual");
}

#[test]
fn models_are_asked_for_where_they_are() {
    assert_eq!(AnthropicModelsApi.url("http://h/").as_deref(), Some("http://h/v1/models?limit=100"));
    assert_eq!(OpenAiModelsApi.url("http://h").as_deref(), Some("http://h/v1/models"));
    assert_eq!(Manual(vec![]).url("http://h"), None);
}

#[test]
fn anthropic_discover_parses_response() {
    let reply = DiscoveryReply::Body(json(
        r#"{
            "data": [
                {"id": "sonnet-4-20250514", "display_name": "Sonnet 4", "type": "model"},
                {"id": "opus-4-20250514",  "display_name": "Opus 4",   "type": "model"}
            ]
        }"#,
    ));
    let models = AnthropicModelsApi.discover(&reply).unwrap();
    assert_eq!(models.len(), 2);
    assert_eq!(models[0].id, "sonnet-4-20250514");
    assert_eq!(models[0].display_name, "Sonnet 4");
    assert_eq!(models[0].vendor_specific.get("type").map(|s| s.as_str()), Some("model"));
    assert_eq!(models[1].id, "opus-4-20250514");
}

#[test]
fn anthropic_discover_uses_display_name_fallback() {
    let reply = DiscoveryReply::Body(json(r#"{"data": [{"id": "fallback"}]}"#));
    let models = AnthropicModelsApi.discover(&reply).unwrap();
    assert_eq!(models[0].id, "fallback");
    assert_eq!(models[0].display_name, "fallback");
}

#[test]
fn anthropic_discover_handles_401() {
    let reply = DiscoveryReply::Refused("401 Unauthorized".to_string());
    let result = AnthropicModelsApi.discover(&reply);
    assert!(matches!(result, Err(VendorError::Network(_))));
}

#[test]
fn anthropic_discover_handles_invalid_json() {
    let reply = DiscoveryReply::from_bytes(b"not json");
    let result = AnthropicModelsApi.discover(&reply);
    assert!(matches!(result, Err(VendorError::RefreshFailed(_))));
    assert_eq!(
        result.unwrap_err().message(),
        "token refresh failed: json parse: error decoding response body"
    );
}

#[test]
fn openai_discover_parses_response() {
    let reply = DiscoveryReply::Body(json(
        r#"{
            "data": [
                {"id": "gpt-4o", "owned_by": "openai"},
                {"id": "gpt-4o-mini", "owned_by": "openai"}
            ]
        }"#,
    ));
    let models = OpenAiModelsApi.discover(&reply).unwrap();
    assert_eq!(models.len(), 2);
    assert_eq!(models[0].id, "gpt-4o");
    assert_eq!(models[0].display_name, "gpt-4o");
    assert_eq!(
        models[0].vendor_specific.get("owned_by").map(|s| s.as_str()),
        Some("openai")
    );
    assert_eq!(models[1].id, "gpt-4o-mini");
}

#[test]
fn openai_discover_handles_404() {
    let reply = DiscoveryReply::Refused("404 Not Found".to_string());
    let result = OpenAiModelsApi.discover(&reply);
    assert!(matches!(result, Err(VendorError::Network(_))));
}

#[test]
fn odd_lists_of_models_are_refused() {
    let find = |body: &str| OpenAiModelsApi.discover(&DiscoveryReply::Body(json(body)));
    assert!(matches!(find(r#"{"models": []}"#), Err(VendorError::RefreshFailed(_))));
    assert!(matches!(find(r#"{"data": [{"name": "x"}]}"#), Err(VendorError::RefreshFailed(_))));
    let reply = DiscoveryReply::NotSent("down".to_string());
    assert!(matches!(OpenAiModelsApi.discover(&reply), Err(VendorError::Network(_))));
}

fn key(key: &str) -> VendorAuthToml {
    VendorAuthToml::ApiKey { key: key.to_string() }
}

fn vendor(id: &str, base_url: &str, auth: VendorAuthToml) -> VendorConfigToml {
    VendorConfigToml {
        id: id.to_string(),
        base_url: base_url.to_string(),
        protocol: default_protocol(),
        auth,
        discovery: None,
        health_check: None,
        disabled_features: vec![],
    }
}

fn registry(vendors: Vec<VendorConfigToml>) -> VendorRegistry {
    match registry_from_toml(Ok(VendorConfigFile { vendors }), 0) {
        Ok(registry) => registry,
        Err(e) => panic!("{}", e.message()),
    }
}

#[test]
fn parse_minimal_api_key_vendor() {
    let reg = registry(vec![vendor("anthropic", "https://api.anthropic.com", key("sk-test"))]);
    assert_eq!(reg.list().len(), 1);
    let v = reg.get(&VendorId::new("anthropic")).unwrap();
    assert_eq!(v.base_url, "https://api.anthropic.com");
    assert!(v.disabled_features.is_empty());
    assert!(v.health_check.is_none());
}

#[test]
fn parse_default_protocol_is_openai() {
    assert_eq!(default_protocol(), "openai");
    let reg = registry(vec![vendor("x", "https://x", key("k"))]);
    assert_eq!(reg.list().len(), 1);
}

#[test]
fn parse_bearer_with_refresh_env() {
    let auth = VendorAuthToml::Bearer {
        token: "initial".to_string(),
        interval_secs: 1,
        refresh_env: Some("LATTE_TEST_REFRESH".to_string()),
    };
    let mut reg = registry(vec![vendor("x", "https://x", auth)]);
    let env = env("LATTE_TEST_REFRESH", "refreshed-from-env");
    let id = VendorId::new("x");
    assert_eq!(reg.get_token(&id, SEC, &env).unwrap().unwrap(), "initial");
    let token = reg.get_token(&id, 1_100_000_000, &env).expect("vendor").expect("token");
    assert_eq!(token, "refreshed-from-env");
}

#[test]
fn parse_manual_discovery() {
    let mut v = vendor("internal", "http://localhost", key("k"));
    v.discovery = Some(DiscoveryField::Full(VendorDiscoveryToml::Manual {
        models: vec![
            ModelDescriptorToml {
                id: "custom-1".to_string(),
                display_name: "Custom 1".to_string(),
                context_window: Some(8192),
            },
            ModelDescriptorToml {
                id: "custom-2".to_string(),
                display_name: "Custom 2".to_string(),
                context_window: None,
            },
        ],
    }));
    let reg = registry(vec![v]);
    let models = reg
        .discover_models(
            &VendorId::new("internal"),
            &DiscoveryReply::NotSent(String::new()),
        )
        .expect("vendor")
        .expect("discover");
    assert_eq!(models.len(), 2);
    assert_eq!(models[0].id, "custom-1");
    assert_eq!(models[0].display_name, "Custom 1");
    assert_eq!(models[0].context_window, Some(8192));
    assert_eq!(models[1].id, "custom-2");
    assert_eq!(models[1].context_window, None);
}

#[test]
fn parse_discover_string_shortcuts() {
    let protocol_of = |word: &str| {
        let mut v = vendor("x", "https://x", key("k"));
        v.discovery = Some(DiscoveryField::Shortcut(word.to_string()));
        let reg = registry(vec![v]);
        assert_eq!(reg.list().len(), 1);
        reg.get(&VendorId::new("x")).unwrap().discovery.protocol()
    };
    assert_eq!(protocol_of("openai"), "openai");
    assert_eq!(protocol_of("anthropic"), "anthropic");
}

#[test]
fn parse_disabled_features_string_array() {
    let mut v = vendor("anthropic", "https://x", key("k"));
    v.disabled_features = vec![VendorFeature::PromptCaching, VendorFeature::ExtendedCacheTtl];
    let reg = registry(vec![v]);
    let v = reg.get(&VendorId::new("anthropic")).unwrap();
    assert!(v.disabled_features.contains(&VendorFeature::PromptCaching));
    assert!(v.disabled_features.contains(&VendorFeature::ExtendedCacheTtl));
    assert!(!v.disabled_features.contains(&VendorFeature::ToolUse));
    assert!(v.disables(VendorFeature::PromptCaching));
    assert!(!v.disables(VendorFeature::ToolUse));
}

#[test]
fn parse_health_check_http() {
    let mut v = vendor("x", "https://x", key("k"));
    v.health_check = Some(HealthCheckToml::Http { path: "/health".to_string() });
    let reg = registry(vec![v]);
    match &reg.get(&VendorId::new("x")).unwrap().health_check {
        Some(HealthCheck::Http { path }) => assert_eq!(path, "/health"),
        other => panic!("expected Http health check, got {other:?}"),
    }
}

#[test]
fn parse_multiple_vendors() {
    let reg = registry(vec![
        vendor("anthropic", "https://api.anthropic.com", key("sk-1")),
        vendor("deepseek", "https://api.deepseek.com", key("sk-2")),
    ]);
    assert_eq!(reg.list().len(), 2);
    assert!(reg.get(&VendorId::new("anthropic")).is_some());
    assert!(reg.get(&VendorId::new("deepseek")).is_some());
    assert!(reg.get(&VendorId::new("other")).is_none());
}

#[test]
fn the_last_settings_of_a_name_count() {
    let reg = registry(vec![vendor("x", "https://a", key("1")), vendor("x", "https://b", key("2"))]);
    assert_eq!(reg.list().len(), 1);
    assert_eq!(reg.get(&VendorId::new("x")).unwrap().base_url, "https://b");
}

#[test]
fn parse_invalid_toml_errors() {
    let result = registry_from_toml(Err("expected `.`, `=`".to_string()), 0);
    match result {
        Err(VendorError::RefreshFailed(message)) => {
            assert_eq!(message, "TOML parse error: expected `.`, `=`")
        }
        _ => panic!("expected a failure"),
    }
}

#[test]
fn registry_discover_models_uses_authorization_header() {
    let auth = VendorAuth::Bearer(BearerProvider::new(
        "test",
        "secret-bearer-xyz",
        0,
        3600 * SEC,
        EnvRefresher { variable: None },
    ));
    let v = VendorConfig::new("test", "http://h", auth, VendorDiscovery::OpenAi(OpenAiModelsApi));
    assert_eq!(v.discovery.url(&v.base_url).as_deref(), Some("http://h/v1/models"));
    let shown = ("authorization".to_string(), "Bearer secret-bearer-xyz".to_string());
    assert_eq!(v.discovery.headers("secret-bearer-xyz"), vec![shown]);
    let mut reg = VendorRegistry::new(vec![v]);
    let id = VendorId::new("test");
    assert_eq!(reg.get_token(&id, 1, &no_env()).unwrap().unwrap(), "secret-bearer-xyz");
    let reply = DiscoveryReply::from_bytes(br#"{"data": [{"id": "model-a"}, {"id": "model-b"}]}"#);
    let models = reg.discover_models(&id, &reply).unwrap().unwrap();
    assert_eq!(models.len(), 2);
    assert_eq!(models[0].id, "model-a");
    assert_eq!(models[1].id, "model-b");
    assert!(reg.discover_models(&VendorId::new("other"), &reply).is_none());
}

fn checked_vendor() -> VendorConfig {
    let auth = VendorAuth::ApiKey(ApiKeyProvider::new("anthropic", "k"));
    VendorConfig::new(
        "anthropic",
        "http://h/",
        auth,
        VendorDiscovery::Anthropic(AnthropicModelsApi),
    )
    .with_health_check(HealthCheck::Http { path: "/health".to_string() })
}

#[test]
fn registry_status_pings_health_check_endpoint() {
    let v = checked_vendor();
    assert_eq!(v.health_url().as_deref(), Some("http://h/health"));
    assert_eq!(
        v.discovery.headers("k"),
        vec![
            ("x-api-key".to_string(), "k".to_string()),
            ("anthropic-version".to_string(), "2023-06-01".to_string()),
        ]
    );
    let reg = VendorRegistry::new(vec![v]);
    let reply = HealthReply::Status { status: 200, latency_ms: 243 };
    let s = reg.status(&VendorId::new("anthropic"), 0, Some(reply)).unwrap();
    assert!(s.auth_valid);
    assert!(s.health_ok);
    assert!(s.health_latency_ms.is_some());
    assert_eq!(s.token_remaining_secs, None);
    assert_eq!(s.vendor.as_str(), "anthropic");
    assert_eq!(s.auth_kind, "api_key");
    assert!(reg.status(&VendorId::new("other"), 0, Some(reply)).is_none());
}

#[test]
fn registry_status_reports_failed_health_check() {
    let reg = VendorRegistry::new(vec![checked_vendor()]);
    let reply = HealthReply::Status { status: 503, latency_ms: 7 };
    let s = reg.status(&VendorId::new("anthropic"), 0, Some(reply)).unwrap();
    assert!(!s.health_ok);
    assert!(s.health_latency_ms.is_some());
    assert_eq!(s.health_latency_ms, Some(7));
    let s = reg.status(&VendorId::new("anthropic"), 0, Some(HealthReply::Silent)).unwrap();
    assert!(!s.health_ok);
    assert_eq!(s.health_latency_ms, None);
    let s = reg.status(&VendorId::new("anthropic"), 0, None).unwrap();
    assert!(!s.health_ok);
}

#[test]
fn status_tells_the_time_that_is_left() {
    let auth = VendorAuth::Bearer(BearerProvider::new(
        "b",
        "t",
        0,
        60 * SEC,
        EnvRefresher { variable: None },
    ));
    let manual = VendorDiscovery::Manual(Manual(Vec::new()));
    assert!(manual.headers("t").is_empty());
    let v = VendorConfig::new("b", "http://h", auth, manual);
    assert_eq!(v.health_url(), None);
    let s = v.status(SEC / 2, None);
    assert_eq!((s.auth_kind, s.auth_valid, s.token_remaining_secs), ("bearer", true, Some(59)));
    assert!(s.health_ok);
    let s = v.status(61 * SEC, Some(HealthReply::Connected { latency_ms: 1 }));
    assert_eq!((s.auth_valid, s.token_remaining_secs), (false, Some(0)));
    assert_eq!((s.health_ok, s.health_latency_ms), (true, Some(1)));
}

#[test]
fn disabled_features_in_words() {
    let v = checked_vendor();
    assert_eq!(v.disabled_text(), "-");
    let v = v.disable_feature(VendorFeature::ExtendedCacheTtl);
    assert_eq!(v.disabled_text(), "extendedcachettl");
    let v = v.disable_feature(VendorFeature::ToolUse);
    assert_eq!(v.disabled_text(), "extendedcachettl,tooluse");
}

#[test]
fn registry_get_token_uses_api_key_provider() {
    let auth = VendorAuth::ApiKey(ApiKeyProvider::new("test", "test-static-key"));
    let v =
        VendorConfig::new("test", "https://api.x", auth, VendorDiscovery::OpenAi(OpenAiModelsApi));
    let mut reg = VendorRegistry::new(vec![v]);
    let token = reg.get_token(&VendorId::new("test"), 0, &no_env()).unwrap().unwrap();
    assert_eq!(token, "test-static-key");
    assert!(reg.get_token(&VendorId::new("other"), 0, &no_env()).is_none());
}

#[test]
fn registry_refresh_now_returns_new_token() {
    let auth = VendorAuth::Bearer(BearerProvider::new(
        "test",
        "initial",
        0,
        3600 * SEC,
        EnvRefresher { variable: Some("TOKEN".to_string()) },
    ));
    let v =
        VendorConfig::new("test", "https://api.x", auth, VendorDiscovery::OpenAi(OpenAiModelsApi));
    let mut reg = VendorRegistry::new(vec![v]);
    let id = VendorId::new("test");
    let env = env("TOKEN", "refreshed-token");
    let token = reg.refresh_now(&id, 1, &env).unwrap().unwrap();
    assert_eq!(token, "refreshed-token");
    assert_eq!(reg.get_token(&id, 2, &no_env()).unwrap().unwrap(), "refreshed-token");
    assert!(reg.refresh_now(&VendorId::new("other"), 1, &env).is_none());
}

#[test]
fn vendors_are_built_step_by_step() {
    let auth = VendorAuth::ApiKey(ApiKeyProvider::new("a", "k"));
    let v = VendorConfig::new(
        "a",
        "https://a",
        auth,
        VendorDiscovery::Anthropic(AnthropicModelsApi),
    )
    .with_health_check(HealthCheck::Tcp)
    .disable_feature(VendorFeature::Vision);
    assert!(matches!(v.health_check, Some(HealthCheck::Tcp)));
    assert!(v.disables(VendorFeature::Vision));
    assert!(!v.disables(VendorFeature::Stream));
}

#[test]
fn vendor_errors_in_words() {
    assert_eq!(VendorError::RefreshFailed("x".to_string()).message(), "token refresh failed: x");
    assert_eq!(VendorError::Network("x".to_string()).message(), "network error: x");
    assert_eq!(VendorError::EnvMissing("x".to_string()).message(), "env var not set: x");
    assert_eq!(VendorError::NotImplemented("x".to_string()).message(), "not implemented: x");
}
