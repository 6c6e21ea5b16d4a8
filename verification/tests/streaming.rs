//! Answers that come piece by piece, and the wait for them.
use latte::anthropic_stream::{
    open_failed, stream_failed, AnthropicStream, AnthropicStreamDelta, AnthropicStreamEvent,
};
use latte::client::{
    debug_http_enabled, first_event_timeout_secs, idle_timeout_secs, stream_include_usage, AiClient,
    AnswerWait, Arrival,
};
use latte::decimal::Decimal;
use latte::error::AiError;
use latte::models::{
    ApiType, Completion, ContentPart, MaxTokensField, Message, Model, StreamEvent, ToolCall,
};
use latte::openai_stream::{
    asks_again, broken_events, refused_events, second_try_events, whole_answer_events,
    OpenAiStream, OpenAiStreamChoice, OpenAiStreamChunk, OpenAiToolCallDelta, WholeReply,
};
use latte::params::GenerateParams;
use latte::reply::{
    AnthropicUsage, OpenAiChatResponse, OpenAiChoice, OpenAiResponseContent, OpenAiResponseMessage,
    OpenAiUsage,
};
use latte::sse::SseBuffer;
use latte::wire::AnthropicContentBlock;
use serde_json::Value;

fn model_with_key(api: ApiType, key: &str) -> Model {
    Model {
        id: "test-model".to_string(),
        name: "Test".to_string(),
        api,
        provider: "test".to_string(),
        base_url: "http://127.0.0.1:1".to_string(),
        api_key: key.to_string(),
        context_window: 1024,
        max_tokens: 256,
        omit_max_tokens: false,
        max_tokens_field: MaxTokensField::default(),
        prompt_cache: false,
        supports_thinking: false,
        supports_vision: false,
        cost_per_million_input: Decimal { units: 0, scale: 0 },
        cost_per_million_output: Decimal { units: 0, scale: 0 },
        timeout_secs: None,
    }
}

fn text_of(v: &Value, name: &str) -> Option<String> {
    v.get(name).and_then(|t| t.as_str()).map(|t| t.to_string())
}

fn chunk_of(data: &str) -> Option<OpenAiStreamChunk> {
    let v: Value = serde_json::from_str(data).ok()?;
    let mut choices = Vec::new();
    for choice in v.get("choices")?.as_array()? {
        let delta = &choice["delta"];
        let mut tool_calls = Vec::new();
        for call in delta["tool_calls"].as_array().unwrap_or(&Vec::new()) {
            tool_calls.push(OpenAiToolCallDelta {
                index: call["index"].as_u64()? as u32,
                id: text_of(call, "id"),
                name: text_of(&call["function"], "name"),
                arguments: text_of(&call["function"], "arguments"),
            });
        }
        choices.push(OpenAiStreamChoice {
            content: text_of(delta, "content"),
            tool_calls,
            finish_reason: text_of(choice, "finish_reason"),
        });
    }
    let usage = v.get("usage").map(|u| OpenAiUsage {
        prompt_tokens: u["prompt_tokens"].as_u64().unwrap() as u32,
        completion_tokens: u["completion_tokens"].as_u64().unwrap() as u32,
    });
    Some(OpenAiStreamChunk { choices, usage })
}

fn events_from(stream: &mut OpenAiStream, bytes: &[u8]) -> Vec<StreamEvent> {
    let mut events = Vec::new();
    for payload in stream.on_bytes(bytes) {
        events.extend(stream.on_payload(&payload, chunk_of(&payload)));
    }
    events
}

fn sse(data: &str) -> String {
    format!("data: {data}\n\n")
}

fn told(events: &[StreamEvent]) -> String {
    let mut text = String::new();
    for event in events {
        if let StreamEvent::Delta { content, .. } = event {
            for part in content {
                if let ContentPart::Text { text: t } = part {
                    text.push_str(t);
                }
            }
        }
    }
    text
}

fn wait_for(wait: &mut AnswerWait, events: Vec<StreamEvent>) -> Option<Result<Completion, AiError>> {
    for event in events {
        let end = wait.on_arrival(Arrival::Event(event));
        if end.is_some() {
            return end;
        }
    }
    None
}

fn stream_error(end: Option<Result<Completion, AiError>>) -> String {
    match end {
        Some(Err(AiError::Stream(message))) => message,
        other => panic!("expected AiError::Stream, got {other:?}"),
    }
}

#[test]
fn model_timeout_overrides_exactly_not_just_widens() {
    assert_eq!(first_event_timeout_secs(Some(20), None), 20);
    assert_eq!(idle_timeout_secs(Some(15), None), 15);
    assert_eq!(first_event_timeout_secs(Some(600), None), 600);
    assert_eq!(idle_timeout_secs(Some(600), None), 600);
    assert_eq!(first_event_timeout_secs(None, None), 100);
    assert_eq!(idle_timeout_secs(None, None), 120);
    assert_eq!(first_event_timeout_secs(Some(0), None), 100);
    assert_eq!(idle_timeout_secs(Some(0), None), 120);
}

#[test]
fn settings_of_the_environment_count_after_those_of_the_model() {
    assert_eq!(first_event_timeout_secs(None, Some("5")), 5);
    assert_eq!(first_event_timeout_secs(Some(20), Some("5")), 20);
    assert_eq!(idle_timeout_secs(None, Some("0")), 0);
    assert_eq!(idle_timeout_secs(None, Some("soon")), 120);
    assert!(!debug_http_enabled(None));
    assert!(debug_http_enabled(Some("1")));
    assert!(debug_http_enabled(Some("TRUE")));
    assert!(!debug_http_enabled(Some("yes")));
    assert!(stream_include_usage(None));
    assert!(!stream_include_usage(Some("0")));
    assert!(!stream_include_usage(Some("False")));
    assert!(stream_include_usage(Some("1")));
}

#[test]
fn chat_stream_blank_api_key_fails_fast() {
    let client = AiClient::new(model_with_key(ApiType::AnthropicMessages, ""));
    assert!(matches!(client.check_api_key(), Err(AiError::Config(_))));
}

#[test]
fn stream_requests_usage_and_parses_usage_only_chunk() {
    let mut stream = OpenAiStream::new();
    let mut wait = AnswerWait::new(None, None, None);
    let mut end = None;
    for data in [
        r#"{"choices":[{"delta":{"content":"hi"}}]}"#,
        r#"{"choices":[{"delta":{},"finish_reason":"stop"}]}"#,
        r#"{"choices":[],"usage":{"prompt_tokens":123,"completion_tokens":45}}"#,
        "[DONE]",
    ] {
        assert!(end.is_none());
        end = wait_for(&mut wait, events_from(&mut stream, sse(data).as_bytes()));
    }
    let c = end.unwrap().unwrap();
    assert_eq!(c.usage.input_tokens, 123);
    assert_eq!(c.usage.output_tokens, 45);
    assert_eq!(c.content, "hi");
    assert_eq!(c.stop_reason, "stop");

    let client = AiClient::new(model_with_key(ApiType::OpenAiCompletions, "sk-test"));
    let messages = [Message::user("hi")];
    let params = GenerateParams::default();
    let body = client.build_openai_request(&messages, &params, true, stream_include_usage(None));
    let body = body.to_json().to_string();
    assert!(body.contains("\"stream_options\":{\"include_usage\":true}"), "{body}");
    let body = client.build_openai_request(&messages, &params, true, false).to_json().to_string();
    assert!(!body.contains("stream_options"), "{body}");
}

#[test]
fn chat_idle_timeout_triggers_stream_error() {
    let mut stream = OpenAiStream::new();
    let mut wait = AnswerWait::new(None, Some("5"), Some("1"));
    assert_eq!(wait.limit(), Some(5));
    let first = sse(r#"{"choices":[{"delta":{"content":"hello"}}]}"#);
    assert!(wait_for(&mut wait, events_from(&mut stream, first.as_bytes())).is_none());
    assert_eq!(wait.limit(), Some(1));
    let msg = stream_error(wait.on_arrival(Arrival::TimedOut));
    assert!(msg.contains("空闲超时"), "got: {msg}");
    assert_eq!(msg, "流式响应空闲超时（1s 无新数据）");
}

#[test]
fn chat_long_output_does_not_timeout() {
    let mut stream = OpenAiStream::new();
    let mut wait = AnswerWait::new(None, Some("5"), Some("2"));
    for i in 0..10u32 {
        let data = format!(r#"{{"choices":[{{"delta":{{"content":"chunk{i}"}}}}]}}"#);
        assert!(wait_for(&mut wait, events_from(&mut stream, sse(&data).as_bytes())).is_none());
        assert_eq!(wait.limit(), Some(2));
    }
    let end = wait_for(&mut wait, events_from(&mut stream, sse("[DONE]").as_bytes()));
    let completion = end.unwrap().unwrap();
    assert!(completion.content.contains("chunk0"), "content: {}", completion.content);
    assert!(completion.content.contains("chunk9"), "content: {}", completion.content);
    assert_eq!(completion.stop_reason, "");
}

#[test]
fn a_wait_ends_in_one_of_its_ways() {
    let mut wait = AnswerWait::new(Some(7), None, None);
    assert_eq!(wait.limit(), Some(7));
    assert_eq!(
        stream_error(wait.on_arrival(Arrival::TimedOut)),
        "等待首个事件超时（7s 无响应）"
    );
    let mut wait = AnswerWait::new(None, Some("0"), Some("0"));
    assert_eq!(wait.limit(), None);
    assert_eq!(stream_error(wait.on_arrival(Arrival::Closed)), "stream 在发送任何事件前关闭");
    assert_eq!(wait.limit(), None);
    assert_eq!(stream_error(wait.on_arrival(Arrival::Closed)), "stream 在 Done 之前关闭");
    let failed = wait.on_arrival(Arrival::Event(StreamEvent::Error("broken".to_string())));
    assert_eq!(stream_error(failed), "broken");
    match wait.on_arrival(Arrival::Event(StreamEvent::HttpError {
        status: 400,
        message: "no".to_string(),
    })) {
        Some(Err(AiError::Api { status, message })) => {
            assert_eq!((status, message.as_str()), (400, "no"))
        }
        other => panic!("expected AiError::Api, got {other:?}"),
    }
}

#[test]
fn provider_rejecting_max_tokens_surfaces_the_error() {
    let body = r#"{"error":{"message":"max_tokens is too large: maximum is 8192"}}"#;
    let mut m = model_with_key(ApiType::OpenAiCompletions, "k");
    m.context_window = 1_000_000;
    m.max_tokens = 90_000;
    let client = AiClient::new(m);
    let messages = [Message::user("hi")];
    for stream in [true, false] {
        let sent = client
            .build_openai_request(&messages, &GenerateParams::default(), stream, true)
            .to_json();
        assert_eq!(sent.get("max_tokens").and_then(|v| v.as_u64()), Some(90_000));
    }
    assert!(asks_again(400));
    let events = second_try_events(400, body, WholeReply::Refused(body.to_string()));
    let mut wait = AnswerWait::new(None, None, None);
    let msg = wait_for(&mut wait, events).unwrap().unwrap_err().message();
    assert!(msg.contains("max_tokens") || msg.contains("8192"), "{msg}");
}

#[test]
fn unrelated_4xx_keeps_max_tokens_on_retry() {
    let mut m = model_with_key(ApiType::OpenAiCompletions, "k");
    m.context_window = 100_000;
    m.max_tokens = 8_192;
    let client = AiClient::new(m);
    assert!(asks_again(400));
    let again = client
        .build_openai_request(&[Message::user("hi")], &GenerateParams::default(), false, true)
        .to_json();
    assert_eq!(again.get("max_tokens").and_then(|v| v.as_u64()), Some(8_192));
    let events = second_try_events(
        400,
        r#"{"error":{"message":"unknown field 'foo'"}}"#,
        WholeReply::Answer(whole("ok")),
    );
    let mut wait = AnswerWait::new(None, None, None);
    assert_eq!(wait_for(&mut wait, events).unwrap().unwrap().content, "ok");
}

fn whole(text: &str) -> OpenAiChatResponse {
    OpenAiChatResponse {
        choices: vec![OpenAiChoice {
            message: OpenAiResponseMessage {
                content: Some(OpenAiResponseContent::Plain(text.to_string())),
                tool_calls: None,
            },
            finish_reason: Some("stop".to_string()),
        }],
        usage: Some(OpenAiUsage { prompt_tokens: 1, completion_tokens: 1 }),
    }
}

fn one_error(events: Vec<StreamEvent>) -> String {
    match events.as_slice() {
        [StreamEvent::Error(message)] => message.clone(),
        other => panic!("expected one error, got {other:?}"),
    }
}

fn one_http_error(events: Vec<StreamEvent>) -> (u16, String) {
    match events.as_slice() {
        [StreamEvent::HttpError { status, message }] => (*status, message.clone()),
        other => panic!("expected one refusal, got {other:?}"),
    }
}

#[test]
fn a_stream_that_is_refused_is_asked_for_whole() {
    assert!(!asks_again(401));
    assert!(!asks_again(403));
    assert!(asks_again(500));
    assert_eq!(one_http_error(refused_events(401, "no".to_string())), (401, "no".to_string()));
    assert_eq!(
        one_http_error(second_try_events(500, "no", WholeReply::Refused("nor that".to_string()))),
        (500, "no; non-stream also failed: nor that".to_string())
    );
    assert_eq!(
        one_http_error(second_try_events(500, "no", WholeReply::NotSent("down".to_string()))),
        (500, "no; fallback failed: down".to_string())
    );
    assert_eq!(
        one_error(second_try_events(500, "no", WholeReply::Unreadable("odd".to_string()))),
        "Parse error: odd"
    );
    assert_eq!(
        one_error(broken_events("cut", WholeReply::NotSent("down".to_string()))),
        "Stream broken: cut"
    );
    assert_eq!(told(&broken_events("cut", WholeReply::Answer(whole("all")))), "all");
}

#[test]
fn an_answer_in_one_piece_is_told_and_done() {
    let events = whole_answer_events(whole("all"));
    assert_eq!(told(&events), "all");
    match events.last() {
        Some(StreamEvent::Done { stop_reason, usage, .. }) => {
            assert_eq!(stop_reason, "");
            assert_eq!(usage.input_tokens, 1);
        }
        other => panic!("expected the end, got {other:?}"),
    }
    let none = OpenAiChatResponse { choices: vec![], usage: None };
    assert!(!whole_answer_events(none).is_empty());
}

fn done(events: &[StreamEvent]) -> (String, Vec<ToolCall>, String) {
    match events.last() {
        Some(StreamEvent::Done { content, tool_calls, stop_reason, .. }) => {
            let mut text = String::new();
            for part in content {
                if let ContentPart::Text { text: t } = part {
                    text.push_str(t);
                }
            }
            (text, tool_calls.clone(), stop_reason.clone())
        }
        other => panic!("expected the end, got {other:?}"),
    }
}

#[test]
fn tool_calls_are_put_together_from_their_pieces() {
    let mut stream = OpenAiStream::new();
    let mut all = String::new();
    for data in [
        r#"{"choices":[{"delta":{"content":"so: ","tool_calls":[{"index":1,"id":"c1","function":{"name":"f","arguments":"{\"a\""}}]}}]}"#,
        r#"{"choices":[{"delta":{"tool_calls":[{"index":0,"id":"c0","function":{"name":"g","arguments":"oops"}}]}}]}"#,
        r#"{"choices":[{"delta":{"content":"there","tool_calls":[{"index":1,"function":{"arguments":":1}"}}]},"finish_reason":"tool_calls"}]}"#,
        "[DONE]",
    ] {
        all.push_str(&sse(data));
    }
    let events = events_from(&mut stream, all.as_bytes());
    let (text, calls, reason) = done(&events);
    assert_eq!(text, "so: there");
    assert_eq!(told(&events), text);
    assert_eq!(reason, "tool_calls");
    assert_eq!(calls.len(), 2);
    assert_eq!((calls[0].id.as_str(), calls[0].name.as_str()), ("c0", "g"));
    assert_eq!(calls[0].arguments, Value::Null);
    assert_eq!(calls[0].arguments_raw.as_deref(), Some("oops"));
    assert!(calls[0].arguments_parse_error.is_some());
    assert_eq!((calls[1].id.as_str(), calls[1].name.as_str()), ("c1", "f"));
    assert_eq!(calls[1].arguments["a"], 1);
    assert!(calls[1].arguments_parse_error.is_none());
    assert!(events_from(&mut stream, sse("[DONE]").as_bytes()).is_empty());
}

#[test]
fn cuts_in_the_stream_do_not_matter() {
    let whole = "data: one\r\n\r\n: comment\n\ndata:two\ndata: three\n\ndata: fo";
    let mut buffer = SseBuffer::new();
    buffer.push(whole.as_bytes());
    let at_once = buffer.take_payloads();
    let mut pieces = SseBuffer::new();
    let mut one_by_one = Vec::new();
    for byte in whole.as_bytes() {
        pieces.push(&[*byte]);
        one_by_one.extend(pieces.take_payloads());
    }
    assert_eq!(at_once, one_by_one);
    assert_eq!(buffer.text, pieces.text);
    let mut plain = SseBuffer::new();
    plain.push(b"data: one\n\nevent: x\ndata: two\n\ndata: th");
    assert_eq!(plain.take_payloads(), vec!["one".to_string(), "two".to_string()]);
    assert_eq!(plain.text, "data: th");
}

#[test]
fn a_stream_without_an_end_still_ends() {
    let mut stream = OpenAiStream::new();
    let data = sse(r#"{"choices":[{"delta":{"content":"half"}}]}"#);
    events_from(&mut stream, data.as_bytes());
    assert!(stream.maybe_whole().is_none());
    assert_eq!(done(&stream.on_end(None)).0, "half");

    let mut stream = OpenAiStream::new();
    assert!(events_from(&mut stream, b"{\"choices\": []}").is_empty());
    assert_eq!(stream.maybe_whole(), Some("{\"choices\": []}"));
    let events = stream.on_end(Some(whole("in one piece")));
    assert_eq!(told(&events), "in one piece");
    assert_eq!(done(&events).2, "stop");
    assert_eq!(done(&stream.on_end(None)).0, "");
}

fn event(type_: &str, index: Option<u32>) -> AnthropicStreamEvent {
    AnthropicStreamEvent {
        type_: type_.to_string(),
        index,
        delta: None,
        content_block: None,
        usage: None,
    }
}

fn delta(text: Option<&str>, json: Option<&str>, stop: Option<&str>) -> Option<AnthropicStreamDelta> {
    Some(AnthropicStreamDelta {
        text: text.map(|t| t.to_string()),
        partial_json: json.map(|t| t.to_string()),
        stop_reason: stop.map(|t| t.to_string()),
    })
}

#[test]
fn anthropic_answers_are_put_together_from_their_events() {
    let mut stream = AnthropicStream::new();
    let mut events = Vec::new();
    let mut e = event("content_block_delta", Some(0));
    e.delta = delta(Some("hel"), None, None);
    events.extend(stream.on_event(&e));
    e.delta = delta(Some("lo"), None, None);
    events.extend(stream.on_event(&e));
    for (index, id) in [(2, "b"), (1, "a")] {
        let mut start = event("content_block_start", Some(index));
        start.content_block = Some(AnthropicContentBlock::ToolUse {
            id: id.to_string(),
            name: "f".to_string(),
            input: Value::Null,
        });
        assert!(stream.on_event(&start).is_empty());
    }
    for piece in ["{\"x\"", ":2}"] {
        let mut more = event("content_block_delta", Some(1));
        more.delta = delta(None, Some(piece), None);
        assert!(stream.on_event(&more).is_empty());
    }
    let mut summary = event("message_delta", None);
    summary.delta = delta(None, None, Some("tool_use"));
    summary.usage = Some(AnthropicUsage { input_tokens: 3, output_tokens: 4 });
    assert!(stream.on_event(&summary).is_empty());
    assert!(!stream.done);
    assert!(stream.on_event(&event("message_stop", None)).is_empty());
    assert!(stream.done);
    e.delta = delta(Some("too late"), None, None);
    assert!(stream.on_event(&e).is_empty());

    assert_eq!(told(&events), "hello");
    let end = [stream.on_end()];
    let (text, calls, reason) = done(&end);
    assert_eq!(text, "hello");
    assert_eq!(reason, "tool_use");
    assert_eq!(calls.len(), 2);
    assert_eq!(calls[0].id, "a");
    assert_eq!(calls[0].arguments["x"], 2);
    assert_eq!(calls[1].id, "b");
    assert!(calls[1].arguments_raw.is_none());
    let mut wait = AnswerWait::new(None, None, None);
    let c = wait_for(&mut wait, end.to_vec()).unwrap().unwrap();
    assert_eq!((c.usage.input_tokens, c.usage.output_tokens), (3, 4));
}

#[test]
fn anthropic_failures_are_told() {
    assert_eq!(one_error(vec![open_failed("down")]), "Failed to open stream: down");
    assert_eq!(one_error(vec![stream_failed("cut")]), "Stream error: cut");
}
