//! The proxy: what it answers, and where it sends requests.
use latte::clock::{SystemClock, Timestamp};
use latte::config::{ModelEntry, RouterError};
use latte::models::ApiType;
use latte::router::Router;
use latte::server::{
    api_to_protocol_str, authorized, body_read_error, error_body, join_url, network_error,
    ollama_chat, ollama_show, ollama_tags, openai_list_models, parse_retry_after_header,
    ErrorReply, Forward, Next, Outgoing, Server, ServerRuntime, Step,
};
use serde_json::Value;

fn json(text: &str) -> Value {
    serde_json::from_str(text).unwrap()
}

fn at(secs: i64) -> Timestamp {
    Timestamp { secs, nanos: 0 }
}

fn make_entry(id: &str, api: ApiType, base_url: &str) -> ModelEntry {
    ModelEntry {
        id: id.to_string(),
        name: None,
        api,
        provider: "test".to_string(),
        base_url: base_url.to_string(),
        api_key: "sk-test".to_string(),
        context_window: 65536,
        max_tokens: 4096,
        rate_limit_refresh_anchor: at(0),
        rate_limit_refresh_interval_secs: 60,
        retry_count_5xx: 5,
        cooldown_5xx_secs: 600,
        retry_on: vec![403],
        retry_on_count: 10,
        retry_on_cooldown_secs: 600,
        supports_vision: false,
    }
}

fn make_openai_entry(id: &str, base_url: &str) -> ModelEntry {
    make_entry(id, ApiType::OpenAiCompletions, base_url)
}

fn make_anthropic_entry(id: &str, base_url: &str) -> ModelEntry {
    make_entry(id, ApiType::AnthropicMessages, base_url)
}

fn openai_vision(id: &str, base_url: &str) -> ModelEntry {
    let mut entry = make_openai_entry(id, base_url);
    entry.supports_vision = true;
    entry.rate_limit_refresh_interval_secs = 3600;
    entry
}

fn server_for(
    entries: Vec<ModelEntry>,
    pool: &[&str],
    api_key: Option<&str>,
) -> Server<SystemClock> {
    Server::new(ServerRuntime {
        router: Router::with_system_clock(entries),
        version: "test".to_string(),
        api_key: api_key.map(|k| k.to_string()),
        proxy_default_model: "proxy-default".to_string(),
        pool: pool.iter().map(|s| s.to_string()).collect(),
    })
}

fn sent(step: Step) -> Outgoing {
    match step {
        Step::Send(out) => out,
        Step::Reply(reply) => panic!("refused with {}: {}", reply.status, reply.message),
    }
}

fn refused(step: Step) -> ErrorReply {
    match step {
        Step::Send(out) => panic!("sent to {}", out.model_id),
        Step::Reply(reply) => reply,
    }
}

fn refusal<T>(r: Result<T, ErrorReply>) -> ErrorReply {
    match r {
        Ok(_) => panic!("expected a refusal"),
        Err(reply) => reply,
    }
}

fn now() -> Timestamp {
    at(1_700_000_000)
}

fn forward(server: &mut Server<SystemClock>, body: &str, api: ApiType) -> (Forward, Step) {
    let mut forward = match server.open(body, api) {
        Ok(forward) => forward,
        Err(reply) => panic!("refused with {}: {}", reply.status, reply.message),
    };
    let step = forward.start(&mut server.runtime.router, now());
    (forward, step)
}

fn chat(server: &mut Server<SystemClock>, body: &str) -> (Forward, Step) {
    forward(server, body, ApiType::OpenAiCompletions)
}

const PICTURE: &str = r#"{
    "model": "proxy-default",
    "messages": [{
        "role": "user",
        "content": [
            {"type": "image_url", "image_url": {"url": "data:image/png;base64,AAAA"}}
        ]
    }]
}"#;

const WORDS: &str =
    r#"{"model": "proxy-default", "messages": [{"role": "user", "content": "hi"}]}"#;

#[test]
fn image_request_via_proxy_default_picks_highest_priority_vision_model() {
    let mut server = server_for(
        vec![
            make_openai_entry("text-a", "http://text"),
            openai_vision("vision-b", "http://vision-b"),
            openai_vision("vision-c", "http://vision-c"),
        ],
        &["text-a", "vision-b", "vision-c"],
        None,
    );
    let body = r#"{
        "model": "proxy-default",
        "messages": [{
            "role": "user",
            "content": [
                {"type": "text", "text": "describe"},
                {"type": "image_url", "image_url": {"url": "data:image/png;base64,AAAA"}}
            ]
        }]
    }"#;
    let (forward, step) = chat(&mut server, body);
    let out = sent(step);
    assert_eq!(out.model_id, "vision-b");
    assert_eq!(out.url, "http://vision-b/chat/completions");
    assert_eq!(forward.body["model"], "vision-b");
}

#[test]
fn text_only_request_via_proxy_default_is_unaffected_by_vision_filter() {
    let mut server = server_for(
        vec![
            make_openai_entry("text-a", "http://text"),
            openai_vision("vision-b", "http://vision-b"),
        ],
        &["text-a", "vision-b"],
        None,
    );
    let (forward, step) = chat(&mut server, WORDS);
    let out = sent(step);
    assert_eq!(out.model_id, "text-a");
    assert_eq!(out.url, "http://text/chat/completions");
    assert_eq!(forward.body["model"], "text-a");
}

#[test]
fn image_request_returns_503_when_no_vision_model_in_pool() {
    let server = server_for(vec![make_openai_entry("text-a", "http://text")], &["text-a"], None);
    let reply = refusal(server.open(PICTURE, ApiType::OpenAiCompletions));
    assert_eq!(reply.status, 503);
    assert_eq!(
        reply.body().get("error").and_then(|v| v.as_str()),
        Some("no vision-capable model available in priority pool")
    );
}

#[test]
fn explicit_model_with_image_is_forwarded_as_is() {
    let mut server = server_for(
        vec![
            make_openai_entry("text-a", "http://text"),
            openai_vision("vision-b", "http://vision-b"),
        ],
        &["text-a", "vision-b"],
        None,
    );
    let body = PICTURE.replace("proxy-default", "text-a");
    let (forward, step) = chat(&mut server, &body);
    let out = sent(step);
    assert_eq!(out.model_id, "text-a");
    assert_eq!(out.url, "http://text/chat/completions");
    assert_eq!(forward.body, json(&body));
}

#[test]
fn image_request_returns_503_when_only_vision_model_is_pulled_out() {
    let mut server =
        server_for(vec![openai_vision("vision-b", "http://vision-b")], &["vision-b"], None);
    let (mut first, step) = chat(&mut server, PICTURE);
    let out = sent(step);
    assert!(server.runtime.router.can_record_at("vision-b", 429, now()));
    let retry_after = parse_retry_after_header(Some("3600"));
    let next = first.on_reply(&mut server.runtime.router, &out, 429, retry_after, now());
    assert!(matches!(next, Next::Pass { .. }));

    let (_, step) = chat(&mut server, PICTURE);
    let reply = refused(step);
    assert_eq!(reply.status, 503);
    assert_eq!(
        reply.body().get("error").and_then(|v| v.as_str()),
        Some("all upstream models in cooldown")
    );
    assert_eq!(reply.retry_after_secs, Some(3600));
}

#[test]
fn post_v1_chat_completions_forwards_to_vendor_and_returns_translated_json() {
    let entry = make_openai_entry("deepseek-chat", "http://x");
    let mut server = Server::with_entries(vec![entry], "test".to_string());
    let body = r#"{"model": "deepseek-chat", "messages": [{"role": "user", "content": "hi"}]}"#;
    let (mut forward, step) = chat(&mut server, body);
    let out = sent(step);
    assert_eq!(out.url, "http://x/chat/completions");
    assert_eq!(
        out.headers,
        vec![("authorization".to_string(), "Bearer sk-test".to_string())]
    );
    assert_eq!(forward.body, json(body));
    let next = forward.on_reply(&mut server.runtime.router, &out, 200, None, now());
    assert!(matches!(next, Next::Pass { retry_after_secs: None }));
}

#[test]
fn post_v1_chat_completions_returns_404_for_unknown_model() {
    let mut server = Server::with_entries(Vec::new(), "test".to_string());
    let body = r#"{"model": "missing", "messages": [{"role": "user", "content": "hi"}]}"#;
    let reply = refused(chat(&mut server, body).1);
    assert_eq!(reply.status, 404);
    assert_eq!(reply.message, "model 'missing' not served");
}

#[test]
fn post_v1_chat_completions_stream_passes_through_sse_unchanged() {
    let entry = make_openai_entry("deepseek-chat", "http://x");
    let mut server = Server::with_entries(vec![entry], "test".to_string());
    let body = r#"{
        "model": "deepseek-chat",
        "messages": [{"role": "user", "content": "hi"}],
        "stream": true
    }"#;
    let (mut forward, step) = chat(&mut server, body);
    let out = sent(step);
    assert!(out.stream);
    assert_eq!(
        out.headers,
        vec![("authorization".to_string(), "Bearer sk-test".to_string())]
    );
    let next = forward.on_reply(&mut server.runtime.router, &out, 200, None, now());
    assert!(matches!(next, Next::Pass { retry_after_secs: None }));
}

#[test]
fn stream_with_proxy_default_replaces_model_field_in_body() {
    let mut server =
        server_for(vec![make_openai_entry("glm-5.2", "http://x")], &["glm-5.2"], None);
    let body = r#"{
        "model": "proxy-default",
        "messages": [{"role": "user", "content": "hi"}],
        "stream": true
    }"#;
    let (forward, step) = chat(&mut server, body);
    assert!(sent(step).stream);
    assert_eq!(forward.body, json(&body.replace("proxy-default", "glm-5.2")));
}

#[test]
fn post_v1_messages_forwards_to_anthropic_vendor() {
    let entry = make_anthropic_entry("sonnet-4-20250514", "http://x");
    let mut server = Server::with_entries(vec![entry], "test".to_string());
    let body = r#"{
        "model": "sonnet-4-20250514",
        "max_tokens": 1024,
        "messages": [{"role": "user", "content": "hi"}]
    }"#;
    let (forward, step) = forward(&mut server, body, ApiType::AnthropicMessages);
    let out = sent(step);
    assert_eq!(out.url, "http://x/v1/messages");
    assert_eq!(
        out.headers,
        vec![
            ("x-api-key".to_string(), "sk-test".to_string()),
            ("anthropic-version".to_string(), "2023-06-01".to_string()),
        ]
    );
    assert_eq!(forward.body, json(body));
}

#[test]
fn post_v1_messages_returns_400_when_openai_model_called() {
    let entry = make_openai_entry("deepseek-chat", "http://x");
    let mut server = Server::with_entries(vec![entry], "test".to_string());
    let body = r#"{
        "model": "deepseek-chat",
        "max_tokens": 1024,
        "messages": [{"role": "user", "content": "hi"}]
    }"#;
    let reply = refused(forward(&mut server, body, ApiType::AnthropicMessages).1);
    assert_eq!(reply.status, 400);
    assert_eq!(
        reply.message,
        "model 'deepseek-chat' is served via OpenAiCompletions, not the requested API shape"
    );
}

#[test]
fn broken_bodies_are_refused() {
    let server = Server::with_entries(Vec::new(), "test".to_string());
    let reply = refusal(server.open("not json", ApiType::OpenAiCompletions));
    assert_eq!(reply.status, 400);
    assert!(reply.message.starts_with("invalid JSON: "), "{}", reply.message);
    assert!(reply.message.len() > "invalid JSON: ".len());
    let reply = refusal(server.open(r#"{"messages": []}"#, ApiType::OpenAiCompletions));
    assert_eq!((reply.status, reply.message.as_str()), (400, "missing 'model' field"));
    let reply = refusal(server.open(r#"{"model": 7}"#, ApiType::OpenAiCompletions));
    assert_eq!((reply.status, reply.message.as_str()), (400, "missing 'model' field"));
}

#[test]
fn the_default_model_without_a_pool_is_busy() {
    let entry = make_openai_entry("only", "http://x");
    let mut server = Server::with_entries(vec![entry], "test".to_string());
    let reply = refused(chat(&mut server, WORDS).1);
    assert_eq!(reply.status, 503);
    assert_eq!(reply.message, "all upstream models in cooldown");
}

#[test]
fn quota_refusals_go_on_to_the_next_model() {
    let mut server = server_for(
        vec![make_openai_entry("a", "http://a"), make_openai_entry("b", "http://b")],
        &["a", "b"],
        None,
    );
    let (mut forward, step) = chat(&mut server, WORDS);
    let first = sent(step);
    assert_eq!(first.model_id, "a");
    let second = match forward.on_reply(&mut server.runtime.router, &first, 403, None, now()) {
        Next::Again(step) => sent(step),
        Next::Pass { .. } => panic!("expected another try"),
    };
    assert_eq!(second.model_id, "b");
    assert_eq!(second.url, "http://b/chat/completions");
    assert_eq!(forward.body["model"], "b");
    match forward.on_reply(&mut server.runtime.router, &second, 403, None, now()) {
        Next::Again(step) => {
            let reply = refused(step);
            assert_eq!(reply.status, 503);
            assert_eq!(reply.message, "all upstream models exhausted after quota error");
        }
        Next::Pass { .. } => panic!("expected a refusal"),
    }
}

#[test]
fn every_listed_code_goes_on_to_the_next_model() {
    let mut a = make_openai_entry("a", "http://a");
    a.retry_on = vec![402, 408];
    let b = make_openai_entry("b", "http://b");
    let mut server = server_for(vec![a, b], &["a", "b"], None);
    assert!(server.runtime.router.gives_way("a", 402));
    assert!(!server.runtime.router.gives_way("a", 403));
    assert!(!server.runtime.router.gives_way("c", 402));
    let (mut forward, step) = chat(&mut server, WORDS);
    let first = sent(step);
    match forward.on_reply(&mut server.runtime.router, &first, 402, None, now()) {
        Next::Again(step) => assert_eq!(sent(step).model_id, "b"),
        Next::Pass { .. } => panic!("expected another try"),
    }
    let (mut forward, step) = chat(&mut server, WORDS);
    let first = sent(step);
    assert_eq!(first.model_id, "a");
    assert!(matches!(
        forward.on_reply(&mut server.runtime.router, &first, 403, None, now()),
        Next::Pass { retry_after_secs: None }
    ));
}

#[test]
fn no_route_after_a_reply_names_its_status() {
    let mut server = server_for(vec![make_openai_entry("a", "http://a")], &["a"], None);
    let (mut forward, _) = chat(&mut server, WORDS);
    let lost = Err(RouterError::UnknownModel("z".to_string()));
    let reply = refused(forward.on_other_route(403, lost));
    assert_eq!(reply.status, 500);
    assert_eq!(reply.message, "router retry after 403: model 'z' not in pool");
}

#[test]
fn other_replies_go_to_the_client() {
    let mut server = server_for(
        vec![make_openai_entry("a", "http://a"), make_openai_entry("b", "http://b")],
        &["a", "b"],
        None,
    );
    let (mut forward, step) = chat(&mut server, WORDS);
    let out = sent(step);
    assert!(matches!(
        forward.on_reply(&mut server.runtime.router, &out, 500, Some(3), now()),
        Next::Pass { retry_after_secs: None }
    ));
    let (mut forward, step) = chat(&mut server, r#"{"model": "a", "stream": true}"#);
    let out = sent(step);
    assert!(matches!(
        forward.on_reply(&mut server.runtime.router, &out, 429, Some(3), now()),
        Next::Pass { retry_after_secs: Some(3) }
    ));
    let (mut forward, step) = chat(&mut server, r#"{"model": "b"}"#);
    let out = sent(step);
    assert!(matches!(
        forward.on_reply(&mut server.runtime.router, &out, 403, None, now()),
        Next::Pass { retry_after_secs: None }
    ));
}

fn keyed(api_key: Option<&str>) -> Server<SystemClock> {
    server_for(vec![make_openai_entry("stub", "http://stub.invalid")], &["stub"], api_key)
}

#[test]
fn no_api_key_configured_means_no_auth_required() {
    assert!(keyed(None).admits("/v1/chat/completions", None));
}

#[test]
fn api_key_configured_and_no_header_returns_401() {
    assert!(!keyed(Some("secret-key")).admits("/v1/chat/completions", None));
}

#[test]
fn api_key_configured_and_wrong_key_returns_401() {
    let server = keyed(Some("secret-key"));
    assert!(!server.admits("/v1/chat/completions", Some("Bearer wrong-key")));
}

#[test]
fn api_key_configured_and_correct_key_passes_auth() {
    let server = keyed(Some("secret-key"));
    assert!(server.admits("/v1/chat/completions", Some("Bearer secret-key")));
    assert!(server.admits("/v1/chat/completions", Some("Bearer  secret-key ")));
}

#[test]
fn api_key_does_not_apply_to_health_or_ready_or_models() {
    let server = keyed(Some("secret-key"));
    assert!(server.admits("/health", None));
    assert!(server.admits("/ready", None));
    assert_eq!(server.ready(), (200, "ready\n"));
    assert!(server.admits("/v1/models", None));
}

#[test]
fn auth_header_without_bearer_prefix_returns_401() {
    let server = keyed(Some("secret-key"));
    assert!(!server.admits("/v1/chat/completions", Some("secret-key")));
}

#[test]
fn every_chat_endpoint_asks_for_the_key() {
    for path in ["/v1/chat/completions", "/v1/messages", "/api/chat"] {
        assert!(!authorized(path, Some("k"), None), "{path}");
        assert!(authorized(path, Some("k"), Some("Bearer k")), "{path}");
    }
}

fn three_models() -> Vec<ModelEntry> {
    vec![
        make_openai_entry("deepseek-chat", "http://x"),
        make_openai_entry("deepseek-reasoner", "http://x"),
        make_anthropic_entry("sonnet-4-20250514", "http://x"),
    ]
}

#[test]
fn get_v1_models_returns_pool_in_openai_shape() {
    let server = Server::with_entries(three_models(), "test".to_string());
    let value = openai_list_models(server.router().pool());
    assert_eq!(value.get("object").and_then(|v| v.as_str()), Some("list"));
    let data = value.get("data").and_then(|v| v.as_array()).expect("data array");
    assert_eq!(data.len(), 3);
    let ids: Vec<&str> = data.iter().filter_map(|m| m.get("id").and_then(|v| v.as_str())).collect();
    assert!(ids.contains(&"deepseek-chat"));
    assert!(ids.contains(&"deepseek-reasoner"));
    assert!(ids.contains(&"sonnet-4-20250514"));
    for entry in data {
        assert_eq!(entry.get("object").and_then(|v| v.as_str()), Some("model"));
    }
    assert_eq!(
        data[2],
        json(
            r#"{
                "id": "sonnet-4-20250514", "object": "model", "owned_by": "test",
                "vendor": "test", "protocol": "anthropic", "base_url": "http://x"
            }"#
        )
    );
}

#[test]
fn get_v1_models_with_empty_pool_returns_empty_list() {
    let server = Server::with_entries(Vec::new(), "test".to_string());
    let value = openai_list_models(server.router().pool());
    let data = value.get("data").and_then(|v| v.as_array()).expect("data array");
    assert!(data.is_empty());
}

#[test]
fn get_api_tags_lists_every_pool_model() {
    let server = Server::with_entries(three_models(), "test".to_string());
    let value = ollama_tags(server.router().pool());
    let models = value.get("models").and_then(|v| v.as_array()).expect("models array");
    assert_eq!(models.len(), 3);
    let names: Vec<&str> =
        models.iter().filter_map(|m| m.get("name").and_then(|v| v.as_str())).collect();
    assert!(names.contains(&"deepseek-chat"));
    assert!(names.contains(&"deepseek-reasoner"));
    assert!(names.contains(&"sonnet-4-20250514"));
}

#[test]
fn post_api_show_returns_detail_for_known_model() {
    let server =
        Server::with_entries(vec![make_openai_entry("deepseek-chat", "http://x")], "test".to_string());
    let value = ollama_show(server.router().pool(), r#"{"name":"deepseek-chat"}"#).unwrap();
    assert_eq!(value.get("name").and_then(|v| v.as_str()), Some("deepseek-chat"));
    assert_eq!(
        value,
        json(
            r#"{
                "name": "deepseek-chat", "model": "deepseek-chat",
                "modified_at": "1970-01-01T00:00:00Z", "size": 0,
                "details": {"family": "test", "parameter_size": ""},
                "vendor": "test", "protocol": "openai"
            }"#
        )
    );
}

#[test]
fn post_api_show_returns_404_for_unknown_model() {
    let server = Server::with_entries(Vec::new(), "test".to_string());
    let reply = refusal(ollama_show(server.router().pool(), r#"{"name":"missing"}"#));
    assert_eq!(reply.status, 404);
    let reply = refusal(ollama_show(server.router().pool(), "{}"));
    assert_eq!((reply.status, reply.message.as_str()), (400, "missing 'name' field"));
    assert_eq!(refusal(ollama_show(server.router().pool(), "{")).status, 400);
}

#[test]
fn post_api_chat_translates_ollama_shape_to_openai_vendor() {
    let entry = make_openai_entry("deepseek-chat", "http://x");
    let mut server = Server::with_entries(vec![entry], "test".to_string());
    let body = r#"{
        "model": "deepseek-chat",
        "messages": [{"role": "user", "content": "hi"}],
        "stream": false
    }"#;
    let out = sent(chat(&mut server, body).1);
    assert_eq!(out.url, "http://x/chat/completions");
    assert_eq!(
        out.headers,
        vec![("authorization".to_string(), "Bearer sk-test".to_string())]
    );
    let upstream = r#"{
        "id": "chatcmpl-1",
        "object": "chat.completion",
        "model": "deepseek-chat",
        "choices": [{
            "index": 0,
            "message": {"role": "assistant", "content": "hello"},
            "finish_reason": "stop"
        }]
    }"#;
    let value = ollama_chat(upstream.as_bytes()).unwrap();
    assert_eq!(value.get("model").and_then(|v| v.as_str()), Some("deepseek-chat"));
    let content = value.get("message").and_then(|m| m.get("content")).and_then(|v| v.as_str());
    assert_eq!(content, Some("hello"));
}

#[test]
fn an_upstream_without_an_answer_comes_out_empty() {
    assert_eq!(
        ollama_chat(b"{}").unwrap(),
        json(
            r#"{
                "model": "", "created_at": "1970-01-01T00:00:00Z",
                "message": {"role": "assistant", "content": ""},
                "done": true, "done_reason": "stop"
            }"#
        )
    );
    let reply = refusal(ollama_chat(b"oops"));
    assert_eq!(reply.status, 502);
    assert!(reply.message.starts_with("upstream JSON parse: "), "{}", reply.message);
}

#[test]
fn get_root_returns_health_banner() {
    let server = Server::with_entries(Vec::new(), "0.1.0".to_string());
    let text = server.root_text();
    assert!(text.contains("latte-model-proxy"), "{text}");
    assert_eq!(
        text,
        "latte-model-proxy 0.1.0 is running\n  proxy_default_model: proxy-default\n  pool: \n  api_key: none\n"
    );
    assert_eq!(server.ready(), (503, "not ready: no models in pool\n"));
}

#[test]
fn get_api_version_returns_version_json() {
    let server = Server::with_entries(Vec::new(), "0.1.0".to_string());
    let value = server.version_info();
    let version = value.get("version").and_then(|v| v.as_str()).expect("version");
    assert_eq!(version, "0.1.0");
    assert_eq!(
        keyed(None).version_info(),
        json(r#"{"version":"test","proxy_default_model":"proxy-default","pool":["stub"]}"#)
    );
}

#[test]
fn server_with_one_entry_selects_that_model() {
    let mut entry = make_openai_entry("stub", "http://stub.invalid");
    entry.api_key = "k".to_string();
    let mut server = Server::with_entries(vec![entry], "test".to_string());
    match server.runtime.router.select("stub") {
        Ok(route) => assert_eq!(route.model_id, "stub"),
        Err(e) => panic!("expected stub to be selectable: {}", e.message()),
    }
    match server.runtime.router.select("missing") {
        Err(RouterError::UnknownModel(name)) => assert_eq!(name, "missing"),
        other => panic!("expected UnknownModel, got {other:?}"),
    }
}

#[test]
fn small_things_around_requests() {
    assert_eq!(join_url("http://h/", "/x"), "http://h/x");
    assert_eq!(join_url("http://h//", "//x"), "http://h/x");
    assert_eq!(parse_retry_after_header(Some("30")), Some(30));
    assert_eq!(parse_retry_after_header(Some("soon")), None);
    assert_eq!(parse_retry_after_header(Some("")), None);
    assert_eq!(parse_retry_after_header(Some("18446744073709551616")), None);
    assert_eq!(parse_retry_after_header(None), None);
    assert_eq!(api_to_protocol_str(ApiType::OpenAiCompletions), "openai");
    assert_eq!(error_body("no"), json(r#"{"error":"no"}"#));
    let reply = network_error("down");
    assert_eq!((reply.status, reply.message.as_str()), (502, "upstream network error: down"));
    let reply = body_read_error("cut");
    assert_eq!((reply.status, reply.message.as_str()), (502, "upstream body read: cut"));
}
