//! Requests that a client sends.
use latte::client::AiClient;
use latte::decimal::Decimal;
use latte::error::AiError;
use latte::models::{ApiType, MaxTokensField, Message, Model, Tool, ToolCall, ToolChoice};
use latte::params::{GenerateParams, ThinkingBudget};
use latte::text::trim;
use serde_json::Value;

fn json(text: &str) -> Value {
    serde_json::from_str(text).unwrap()
}

fn free() -> Decimal {
    Decimal { units: 0, scale: 0 }
}

fn model_with_key(api: ApiType, key: &str) -> Model {
    Model {
        id: "test-model".to_string(),
        name: "Test Model".to_string(),
        api,
        provider: "test".to_string(),
        base_url: "http://127.0.0.1:1".to_string(),
        api_key: key.to_string(),
        context_window: 1024,
        max_tokens: 256,
        omit_max_tokens: false,
        max_tokens_field: MaxTokensField::default(),
        prompt_cache: false,
        supports_thinking: false,
        supports_vision: false,
        cost_per_million_input: free(),
        cost_per_million_output: free(),
        timeout_secs: None,
    }
}

fn model_caps(context_window: u32, max_tokens: u32) -> Model {
    let mut m = model_with_key(ApiType::OpenAiCompletions, "k");
    m.context_window = context_window;
    m.max_tokens = max_tokens;
    m
}

fn openai() -> AiClient {
    AiClient::new(model_with_key(ApiType::OpenAiCompletions, "sk-test"))
}

fn anthropic() -> AiClient {
    AiClient::new(model_with_key(ApiType::AnthropicMessages, "sk-test"))
}

fn tool(name: &str, description: Option<&str>, parameters: &str) -> Tool {
    Tool {
        name: name.to_string(),
        description: description.map(|d| d.to_string()),
        parameters: json(parameters),
        strict: None,
    }
}

fn call(id: &str, name: &str, arguments: &str) -> ToolCall {
    ToolCall {
        id: id.to_string(),
        name: name.to_string(),
        arguments: json(arguments),
        arguments_raw: Some(arguments.to_string()),
        arguments_parse_error: None,
    }
}

fn openai_json(client: &AiClient, messages: &[Message], params: &GenerateParams) -> Value {
    client.build_openai_request(messages, params, false, true).to_json()
}

fn anthropic_json(client: &AiClient, messages: &[Message], params: &GenerateParams) -> Value {
    client.build_anthropic_request(messages, params).to_json()
}

fn count_marks(v: &Value) -> usize {
    match v {
        Value::Object(map) => {
            let own = if map.contains_key("cache_control") && !map["cache_control"].is_null() {
                1
            } else {
                0
            };
            own + map.values().map(count_marks).sum::<usize>()
        }
        Value::Array(items) => items.iter().map(count_marks).sum(),
        _ => 0,
    }
}

#[test]
fn chat_openai_blank_api_key_fails_fast() {
    let client = AiClient::new(model_with_key(ApiType::OpenAiCompletions, ""));
    match client.check_api_key().unwrap_err() {
        AiError::Config(m) => assert!(m.contains("test-model"), "got: {m}"),
        other => panic!("expected Config, got {other:?}"),
    }
}

#[test]
fn chat_anthropic_blank_api_key_fails_fast() {
    let client = AiClient::new(model_with_key(ApiType::AnthropicMessages, ""));
    match client.check_api_key().unwrap_err() {
        AiError::Config(m) => assert!(m.contains("test-model"), "got: {m}"),
        other => panic!("expected Config, got {other:?}"),
    }
}

#[test]
fn chat_whitespace_only_api_key_fails_fast() {
    let client = AiClient::new(model_with_key(ApiType::OpenAiCompletions, "   "));
    assert!(matches!(client.check_api_key(), Err(AiError::Config(_))));
}

#[test]
fn a_key_lets_requests_through() {
    assert!(openai().check_api_key().is_ok());
    let client = AiClient::new(model_with_key(ApiType::OpenAiCompletions, ""));
    assert_eq!(
        client.check_api_key().unwrap_err().message(),
        "Configuration error: model 'test-model' has no api_key configured; set it in your \
         global config (~/.latte/models.yaml), project config (config/models.toml), --api-key \
         flag, or the corresponding ${ENV_VAR} in api_key"
    );
}

#[test]
fn requests_go_to_the_address_of_the_api() {
    let mut model = model_with_key(ApiType::OpenAiCompletions, "k");
    model.base_url = "http://host/v1//".to_string();
    assert_eq!(AiClient::new(model).url(), "http://host/v1/chat/completions");
    assert_eq!(anthropic().url(), "http://127.0.0.1:1/v1/messages");
}

#[test]
fn openai_request_with_tools_serializes_function_definitions() {
    let client = openai();
    let mut params = GenerateParams::default();
    params.tools.push(tool(
        "get_weather",
        Some("查天气"),
        r#"{"type":"object","properties":{"city":{"type":"string"}}}"#,
    ));
    let j = openai_json(&client, &[Message::user("北京天气?")], &params);
    assert_eq!(j["tools"][0]["type"], "function");
    assert_eq!(j["tools"][0]["function"]["name"], "get_weather");
    assert_eq!(j["tools"][0]["function"]["parameters"]["type"], "object");
    assert_eq!(j["tool_choice"], "auto");
}

#[test]
fn openai_request_without_tools_omits_tools_field() {
    let j = openai_json(&openai(), &[Message::user("hi")], &GenerateParams::default());
    assert!(j.get("tools").is_none());
    assert!(j.get("tool_choice").is_none());
}

#[test]
fn openai_request_role_tool_serializes_as_string_content() {
    let msgs = vec![Message::user("北京天气?"), Message::tool_result("call_abc", "晴，25°C")];
    let j = openai_json(&openai(), &msgs, &GenerateParams::default());
    let tool_msg = &j["messages"][1];
    assert_eq!(tool_msg["role"], "tool");
    assert_eq!(tool_msg["content"], "晴，25°C");
    assert_eq!(tool_msg["tool_call_id"], "call_abc");
}

#[test]
fn openai_request_assistant_carries_its_own_tool_calls() {
    let assistant = Message::assistant_with_tool_calls(
        "",
        vec![call("call_1", "get_weather", r#"{"city":"上海"}"#)],
    );
    let j = openai_json(&openai(), &[assistant], &GenerateParams::default());
    assert_eq!(j["messages"][0]["role"], "assistant");
    assert_eq!(j["messages"][0]["tool_calls"][0]["id"], "call_1");
    assert_eq!(j["messages"][0]["tool_calls"][0]["type"], "function");
    assert_eq!(j["messages"][0]["tool_calls"][0]["function"]["name"], "get_weather");
    assert_eq!(
        j["messages"][0]["tool_calls"][0]["function"]["arguments"],
        r#"{"city":"上海"}"#
    );
}

#[test]
fn arguments_without_a_text_of_their_own_are_written_out() {
    let mut made = call("call_1", "get_weather", r#"{ "city" : "上海" }"#);
    made.arguments_raw = None;
    let assistant = Message::assistant_with_tool_calls("", vec![made]);
    let j = openai_json(&openai(), &[assistant], &GenerateParams::default());
    assert_eq!(
        j["messages"][0]["tool_calls"][0]["function"]["arguments"],
        r#"{"city":"上海"}"#
    );
}

#[test]
fn openai_request_filters_empty_text_parts() {
    let client = openai();
    let params = GenerateParams::default();
    let assistant = Message::assistant_with_tool_calls(
        "",
        vec![call("call_1", "bash", r#"{"command":"ls"}"#)],
    );
    let j = openai_json(&client, &[assistant], &params);
    assert_eq!(j["messages"][0]["content"], json("[]"));
    assert_eq!(j["messages"][0]["tool_calls"][0]["id"], "call_1");

    let j = openai_json(&client, &[Message::user("")], &params);
    assert_eq!(j["messages"][0]["content"], json(r#"[{"type": "text", "text": " "}]"#));

    let j = openai_json(&client, &[Message::user("hi")], &params);
    assert_eq!(j["messages"][0]["content"], json(r#"[{"type": "text", "text": "hi"}]"#));
}

#[test]
fn anthropic_request_with_tools_serializes_input_schema() {
    let mut params = GenerateParams::default();
    params.tools.push(tool("get_weather", Some("查天气"), r#"{"type":"object"}"#));
    let j = anthropic_json(&anthropic(), &[Message::user("hi")], &params);
    assert_eq!(j["tools"][0]["name"], "get_weather");
    assert_eq!(j["tools"][0]["description"], "查天气");
    assert!(j["tools"][0].get("parameters").is_none());
    assert_eq!(j["tools"][0]["input_schema"]["type"], "object");
}

#[test]
fn anthropic_request_role_tool_becomes_tool_result_block() {
    let msgs = vec![Message::user("北京天气?"), Message::tool_result("toolu_abc", "晴，25°C")];
    let j = anthropic_json(&anthropic(), &msgs, &GenerateParams::default());
    let second = &j["messages"][1];
    assert_eq!(second["role"], "user");
    assert_eq!(second["content"][0]["type"], "tool_result");
    assert_eq!(second["content"][0]["tool_use_id"], "toolu_abc");
    assert_eq!(second["content"][0]["content"], "晴，25°C");
    assert!(second["content"][0].get("is_error").is_none());
}

#[test]
fn anthropic_request_hoists_system_to_top_level() {
    let msgs = vec![Message::system("you are helpful"), Message::user("hi")];
    let j = anthropic_json(&anthropic(), &msgs, &GenerateParams::default());
    assert_eq!(j["system"][0]["type"], "text");
    assert_eq!(j["system"][0]["text"], "you are helpful");
    assert_eq!(j["messages"].as_array().unwrap().len(), 1);
    assert_eq!(j["messages"][0]["role"], "user");
    assert_eq!(j["messages"][0]["content"][0]["text"], "hi");
}

#[test]
fn system_messages_are_hoisted_from_anywhere() {
    let msgs = vec![
        Message::system("one"),
        Message::user("hi"),
        Message::system(""),
        Message::system("two"),
        Message::assistant(""),
    ];
    let j = anthropic_json(&anthropic(), &msgs, &GenerateParams::default());
    let system = j["system"].as_array().unwrap();
    assert_eq!(system.len(), 2);
    assert_eq!(system[0]["text"], "one");
    assert_eq!(system[1]["text"], "two");
    assert_eq!(j["messages"][1]["role"], "assistant");
    assert_eq!(j["messages"][1]["content"][0]["text"], " ");
}

#[test]
fn anthropic_request_places_four_cache_breakpoints() {
    let mut params = GenerateParams::default();
    params.tools = vec![
        tool("a", Some("first"), r#"{"type":"object"}"#),
        tool("b", Some("last"), r#"{"type":"object"}"#),
    ];
    let msgs = vec![
        Message::system("sys one"),
        Message::system("sys two"),
        Message::user("turn 1"),
        Message::assistant("reply 1"),
        Message::user("turn 2"),
    ];
    let j = anthropic_json(&anthropic(), &msgs, &params);
    assert!(j["tools"][0].get("cache_control").is_none());
    assert_eq!(j["tools"][1]["cache_control"]["type"], "ephemeral");
    assert!(j["system"][0].get("cache_control").is_none());
    assert_eq!(j["system"][1]["cache_control"]["type"], "ephemeral");
    let sent = j["messages"].as_array().unwrap();
    assert_eq!(sent.len(), 3);
    assert_eq!(count_marks(&sent[0]), 0);
    assert_eq!(count_marks(&sent[1]), 1);
    assert_eq!(count_marks(&sent[2]), 1);
    assert_eq!(count_marks(&j), 4, "{j}");
}

#[test]
fn anthropic_cache_breakpoints_degrade_without_head() {
    let j = anthropic_json(
        &anthropic(),
        &[Message::user("only one turn")],
        &GenerateParams::default(),
    );
    assert!(j.get("system").is_none());
    assert!(j.get("tools").is_none());
    assert_eq!(j["messages"][0]["content"][0]["cache_control"]["type"], "ephemeral");
}

#[test]
fn marks_skip_what_cannot_carry_them() {
    let pictures_only = Message::user("").with_image("image/png", vec![1]);
    let msgs = vec![
        Message::user("one"),
        Message::user("two"),
        Message::user("three").with_image("image/png", vec![1]),
        pictures_only,
    ];
    let j = anthropic_json(&anthropic(), &msgs, &GenerateParams::default());
    let sent = j["messages"].as_array().unwrap();
    assert_eq!(count_marks(&sent[0]), 0);
    assert_eq!(count_marks(&sent[1]), 1);
    assert_eq!(sent[2]["content"][0]["cache_control"]["type"], "ephemeral");
    assert_eq!(count_marks(&sent[3]), 0);
}

#[test]
fn openai_cache_breakpoints_are_off_by_default() {
    let msgs = vec![Message::system("sys"), Message::user("hi")];
    let j = openai_json(&openai(), &msgs, &GenerateParams::default());
    let s = serde_json::to_string(&j).unwrap();
    assert!(!s.contains("cache_control"), "{s}");
}

#[test]
fn openai_cache_breakpoints_apply_when_enabled() {
    let mut model = model_with_key(ApiType::OpenAiCompletions, "sk-test");
    model.prompt_cache = true;
    let client = AiClient::new(model);
    let msgs = vec![
        Message::system("sys one"),
        Message::system("sys two"),
        Message::user("turn 1"),
        Message::assistant("reply 1"),
        Message::user("turn 2"),
    ];
    let j = openai_json(&client, &msgs, &GenerateParams::default());
    let n = serde_json::to_string(&j).unwrap().matches("cache_control").count();
    assert!(n > 0);
    assert!(n <= 4);
    let marks: Vec<usize> = j["messages"].as_array().unwrap().iter().map(count_marks).collect();
    assert_eq!(marks, vec![1, 1, 0, 1, 1]);
}

#[test]
fn marking_twice_is_marking_once() {
    let mut model = model_with_key(ApiType::OpenAiCompletions, "sk-test");
    model.prompt_cache = true;
    let client = AiClient::new(model);
    let msgs = vec![Message::system("s"), Message::user("a"), Message::user("b")];
    let mut req = client.build_openai_request(&msgs, &GenerateParams::default(), false, true);
    let once = req.to_json();
    latte::cache::apply_openai_cache_breakpoints(&mut req);
    assert_eq!(req.to_json(), once);
    let mut req = anthropic().build_anthropic_request(&msgs, &GenerateParams::default());
    let once = req.to_json();
    latte::cache::apply_anthropic_cache_breakpoints(&mut req);
    assert_eq!(req.to_json(), once);
}

#[test]
fn openai_tool_choice_auto_with_tools_emits_string_auto() {
    let mut params = GenerateParams::default();
    params.tools.push(tool("x", None, "{}"));
    let j = openai_json(&openai(), &[Message::user("hi")], &params);
    assert_eq!(j["tool_choice"], "auto");
}

#[test]
fn openai_tool_choice_required_emits_string_required() {
    let mut params = GenerateParams::default();
    params.tools.push(tool("x", None, "{}"));
    params.tool_choice = ToolChoice::Required;
    let j = openai_json(&openai(), &[Message::user("hi")], &params);
    assert_eq!(j["tool_choice"], "required");
}

#[test]
fn openai_tool_choice_specific_emits_function_object() {
    let mut params = GenerateParams::default();
    params.tools.push(tool("get_weather", None, "{}"));
    params.tool_choice = ToolChoice::Specific("get_weather".to_string());
    let j = openai_json(&openai(), &[Message::user("hi")], &params);
    assert_eq!(j["tool_choice"]["type"], "function");
    assert_eq!(j["tool_choice"]["function"]["name"], "get_weather");
}

#[test]
fn openai_tool_choice_none_emits_string_none() {
    let mut params = GenerateParams::default();
    params.tools.push(tool("x", None, "{}"));
    params.tool_choice = ToolChoice::Never;
    let j = openai_json(&openai(), &[Message::user("hi")], &params);
    assert_eq!(j["tool_choice"], "none");
}

#[test]
fn openai_tool_choice_default_with_no_tools_omits_field() {
    let j = openai_json(&openai(), &[Message::user("hi")], &GenerateParams::default());
    assert!(j.get("tool_choice").is_none());
}

#[test]
fn anthropic_tool_choice_required_emits_type_any() {
    let mut params = GenerateParams::default();
    params.tools.push(tool("x", None, "{}"));
    params.tool_choice = ToolChoice::Required;
    let j = anthropic_json(&anthropic(), &[Message::user("hi")], &params);
    assert_eq!(j["tool_choice"]["type"], "any");
}

#[test]
fn anthropic_tool_choice_specific_emits_type_tool_with_name() {
    let mut params = GenerateParams::default();
    params.tools.push(tool("get_weather", None, "{}"));
    params.tool_choice = ToolChoice::Specific("get_weather".to_string());
    let j = anthropic_json(&anthropic(), &[Message::user("hi")], &params);
    assert_eq!(j["tool_choice"]["type"], "tool");
    assert_eq!(j["tool_choice"]["name"], "get_weather");
}

#[test]
fn anthropic_tool_choice_none_is_dropped() {
    let mut params = GenerateParams::default();
    params.tools.push(tool("x", None, "{}"));
    params.tool_choice = ToolChoice::Never;
    let j = anthropic_json(&anthropic(), &[Message::user("hi")], &params);
    assert!(j.get("tool_choice").is_none());
}

#[test]
fn effective_max_tokens_falls_back_to_catalog_value() {
    let m = model_caps(100_000, 8_192);
    assert_eq!(AiClient::effective_max_tokens(None, &m), Some(8_192));
}

#[test]
fn effective_max_tokens_prefers_explicit_over_catalog() {
    let m = model_caps(100_000, 8_192);
    assert_eq!(AiClient::effective_max_tokens(Some(2_048), &m), Some(2_048));
}

#[test]
fn oversized_catalog_value_is_sent_verbatim_not_clamped_to_window() {
    let m = model_caps(10_000, 999_999);
    assert_eq!(AiClient::effective_max_tokens(None, &m), Some(999_999));
}

#[test]
fn configured_value_is_sent_verbatim_with_no_absolute_ceiling() {
    let m = model_caps(1_000_000, 384_000);
    assert_eq!(AiClient::effective_max_tokens(None, &m), Some(384_000));
    assert_eq!(AiClient::effective_max_tokens(Some(500_000), &m), Some(500_000));
    assert_eq!(AiClient::effective_max_tokens(Some(16_384), &m), Some(16_384));
    let params = GenerateParams::default();
    let client = AiClient::new(model_caps(1_000_000, 384_000));
    let body = openai_json(&client, &[Message::user("hi")], &params);
    assert_eq!(body.get("max_tokens").and_then(|v| v.as_u64()), Some(384_000), "{body}");
    let a = AiClient::new(model_caps(1_000_000, 384_000));
    let abody = anthropic_json(&a, &[Message::user("hi")], &params);
    assert_eq!(abody.get("max_tokens").and_then(|v| v.as_u64()), Some(384_000), "{abody}");
}

#[test]
fn omit_max_tokens_suppresses_the_wire_field() {
    let mut m = model_caps(1_000_000, 8_192);
    m.omit_max_tokens = true;
    assert_eq!(AiClient::effective_max_tokens(None, &m), None);
    assert_eq!(AiClient::effective_max_tokens(Some(4_096), &m), None);
    let body = openai_json(&AiClient::new(m), &[Message::user("hi")], &GenerateParams::default());
    assert!(body.get("max_tokens").is_none(), "{body}");
    assert!(body.get("max_completion_tokens").is_none(), "{body}");
}

#[test]
fn max_tokens_field_selects_the_wire_name() {
    let msgs = vec![Message::user("hi")];
    let params = GenerateParams::default();
    let m1 = model_caps(1_000_000, 8_192);
    assert_eq!(m1.max_tokens_field, MaxTokensField::MaxTokens);
    let b1 = openai_json(&AiClient::new(m1), &msgs, &params);
    assert_eq!(b1.get("max_tokens").and_then(|v| v.as_u64()), Some(8_192));
    assert!(b1.get("max_completion_tokens").is_none(), "{b1}");
    let mut m2 = model_caps(1_000_000, 8_192);
    m2.max_tokens_field = MaxTokensField::MaxCompletionTokens;
    let b2 = openai_json(&AiClient::new(m2), &msgs, &params);
    assert_eq!(b2.get("max_completion_tokens").and_then(|v| v.as_u64()), Some(8_192));
    assert!(b2.get("max_tokens").is_none(), "{b2}");
}

#[test]
fn max_tokens_field_deserializes_from_snake_case() {
    assert_eq!(MaxTokensField::from_name("max_tokens"), Some(MaxTokensField::MaxTokens));
    assert_eq!(
        MaxTokensField::from_name("max_completion_tokens"),
        Some(MaxTokensField::MaxCompletionTokens)
    );
    assert_eq!(MaxTokensField::from_name("maxTokens"), None);
    assert_eq!(MaxTokensField::default(), MaxTokensField::MaxTokens);
}

#[test]
fn effective_max_tokens_treats_zero_as_unset() {
    let m = model_caps(10_000, 0);
    assert_eq!(AiClient::effective_max_tokens(None, &m), None);
    let client = AiClient::new(model_caps(10_000, 77));
    assert_eq!(client.resolved_max_tokens(), Some(77));
    assert_eq!(AiClient::effective_max_tokens(Some(0), client.model()), None);
}

#[test]
fn openai_request_body_carries_max_tokens() {
    let msgs = vec![Message::user("hi")];
    let params = GenerateParams::default();
    let body = openai_json(&AiClient::new(model_caps(100_000, 8_192)), &msgs, &params);
    assert_eq!(body.get("max_tokens").and_then(|v| v.as_u64()), Some(8_192), "{body}");
    let body2 = openai_json(&AiClient::new(model_caps(100_000, 0)), &msgs, &params);
    assert!(body2.get("max_tokens").is_none(), "{body2}");
}

#[test]
fn both_wires_agree_on_the_catalog_cap() {
    let msgs = vec![Message::user("hi")];
    let params = GenerateParams::default();
    let oai_body = openai_json(&AiClient::new(model_caps(100_000, 8_192)), &msgs, &params);
    let mut am = model_caps(100_000, 8_192);
    am.api = ApiType::AnthropicMessages;
    let ant_body = anthropic_json(&AiClient::new(am), &msgs, &params);
    assert_eq!(
        oai_body.get("max_tokens").and_then(|v| v.as_u64()),
        ant_body.get("max_tokens").and_then(|v| v.as_u64())
    );
}

#[test]
fn anthropic_gets_a_limit_where_none_is_set() {
    let mut model = model_caps(100_000, 0);
    model.api = ApiType::AnthropicMessages;
    let j = anthropic_json(&AiClient::new(model), &[Message::user("hi")], &GenerateParams::default());
    assert_eq!(j["max_tokens"], 4096);
}

#[test]
fn settings_go_out_as_they_are() {
    let mut params = GenerateParams::code_defaults();
    params.stop_sequences = vec!["END".to_string()];
    params.seed = Some(7);
    params.prompt_cache_key = Some("session-1".to_string());
    params.parallel_tool_calls = Some(false);
    params.thinking_budget = Some(ThinkingBudget::Medium);
    let j = openai_json(&openai(), &[Message::user("hi")], &params);
    assert_eq!(j["temperature"].as_f64(), Some(0.1));
    assert_eq!(j["top_p"].as_f64(), Some(0.9));
    assert_eq!(j["top_k"], 40);
    assert_eq!(j["min_p"].as_f64(), Some(0.05));
    assert_eq!(j["stop"], json(r#"["END"]"#));
    assert_eq!(j["seed"], 7);
    assert_eq!(j["prompt_cache_key"], "session-1");
    assert!(j.get("parallel_tool_calls").is_none());
    assert_eq!(j["stream"], false);
    assert!(j.get("stream_options").is_none());
    params.tools.push(tool("x", None, "{}"));
    let streamed = openai().build_openai_request(&[Message::user("hi")], &params, true, true);
    let j = streamed.to_json();
    assert_eq!(j["parallel_tool_calls"], false);
    assert_eq!(j["stream_options"], json(r#"{"include_usage": true}"#));
    let without = openai().build_openai_request(&[Message::user("hi")], &params, true, false);
    assert!(without.to_json().get("stream_options").is_none());
    let j = anthropic_json(&anthropic(), &[Message::user("hi")], &params);
    assert_eq!(j["thinking"], json(r#"{"type": "enabled", "budget_tokens": 8192}"#));
    assert_eq!(j["stop_sequences"], json(r#"["END"]"#));
}

#[test]
fn a_streamed_request_says_so() {
    let params = GenerateParams::code_defaults();
    let request = anthropic().build_anthropic_request(&[Message::user("hi")], &params);
    let mut streamed = request.to_stream_json();
    assert_eq!(streamed["stream"], true);
    assert!(request.to_json().get("stream").is_none());
    streamed.as_object_mut().unwrap().remove("stream");
    assert_eq!(streamed, request.to_json());
    let mut request = openai().build_openai_request(&[Message::user("hi")], &params, true, true);
    let mut before = request.to_json();
    assert_eq!(before["stream"], true);
    request.ask_whole();
    before["stream"] = Value::Bool(false);
    assert_eq!(request.to_json(), before);
}

#[test]
fn white_space_is_what_unicode_says() {
    let white = "\u{9}\u{a}\u{b}\u{c}\u{d} \u{85}\u{a0}\u{1680}\u{2000}\u{2001}\u{2002}\u{2003}\
                 \u{2004}\u{2005}\u{2006}\u{2007}\u{2008}\u{2009}\u{200a}\u{2028}\u{2029}\u{202f}\
                 \u{205f}\u{3000}";
    for c in '\0'..=char::MAX {
        assert_eq!(trim(&c.to_string()).is_empty(), white.contains(c), "{c:?}");
    }
    assert_eq!(trim(" a b\n"), "a b");
}

#[test]
fn requests_show_the_key() {
    let pair = |name: &str, value: &str| (name.to_string(), value.to_string());
    let client = AiClient::new(model_with_key(ApiType::OpenAiCompletions, "sk"));
    assert_eq!(client.headers(), vec![pair("authorization", "Bearer sk")]);
    let client = AiClient::new(model_with_key(ApiType::AnthropicMessages, "sk"));
    assert_eq!(
        client.headers(),
        vec![pair("x-api-key", "sk"), pair("anthropic-version", "2023-06-01")]
    );
}
