//! Messages, and what is made of the answers of models.
use latte::decimal::Decimal;
use latte::error::{
    is_transport_failure, send_failed, stream_send_failed, AiError, SendFailure,
    TRANSPORT_FAILURE_MARKER,
};
use latte::models::{ContentPart, Message, Role, TokenUsage};
use latte::params::{GenerateParams, ThinkingBudget};
use latte::reply::{
    anthropic_status_error, completion_from_anthropic, completion_from_openai,
    extract_openai_response, merge_anthropic_text, merge_openai_text, openai_status_error,
    AnthropicResponse, AnthropicUsage, OpenAiChatResponse, OpenAiChoice, OpenAiResponseContent,
    OpenAiResponseContentPart, OpenAiResponseMessage, OpenAiUsage,
};
use latte::wire::{
    to_anthropic_content_block, to_openai_content_part, AnthropicContentBlock, OpenAiFunctionCall,
    OpenAiToolCall,
};
use base64::engine::general_purpose::STANDARD;
use base64::Engine;
use serde_json::Value;

fn json(text: &str) -> Value {
    serde_json::from_str(text).unwrap()
}

fn text_of(part: &ContentPart) -> &str {
    match part {
        ContentPart::Text { text } => text,
        ContentPart::Image { .. } => panic!("expected text part"),
    }
}

fn wire_call(id: &str, name: &str, arguments: &str) -> OpenAiToolCall {
    OpenAiToolCall {
        id: id.to_string(),
        type_: Some("function".to_string()),
        function: OpenAiFunctionCall { name: name.to_string(), arguments: arguments.to_string() },
    }
}

#[test]
fn message_user_helper_is_single_text_part() {
    let m = Message::user("hi");
    assert_eq!(m.role, Role::User);
    assert_eq!(m.content.len(), 1);
    assert_eq!(text_of(&m.content[0]), "hi");
}

#[test]
fn message_with_image_appends_after_text() {
    let m = Message::user("describe").with_image("image/png", vec![0x89, 0x50, 0x4e, 0x47]);
    assert_eq!(m.content.len(), 2);
    assert!(matches!(m.content[0], ContentPart::Text { .. }));
    match &m.content[1] {
        ContentPart::Image { media_type, data } => {
            assert_eq!(media_type, "image/png");
            assert_eq!(data, &vec![0x89, 0x50, 0x4e, 0x47]);
        }
        _ => panic!("expected image part"),
    }
    assert!(m.has_image());
    assert!(!Message::user("x").has_image());
}

#[test]
fn joined_text_concatenates_text_parts() {
    let m = Message::user("").with_image("image/png", vec![1, 2, 3]);
    assert_eq!(m.joined_text().as_deref(), Some(""));
    let mut m = Message::user("a");
    m.content.push(ContentPart::image("image/png", vec![1]));
    m.content.push(ContentPart::text("b"));
    assert_eq!(m.joined_text().as_deref(), Some("ab"));
    m.content = vec![ContentPart::image("image/png", vec![1])];
    assert_eq!(m.joined_text(), None);
}

#[test]
fn to_openai_content_part_wraps_image_as_data_url() {
    let p = ContentPart::image("image/png", b"abc".to_vec());
    let j = to_openai_content_part(&p).to_json();
    let expected = format!("data:image/png;base64,{}", STANDARD.encode(b"abc"));
    assert_eq!(expected, "data:image/png;base64,YWJj");
    assert_eq!(
        j,
        json(&format!(r#"{{"type": "image_url", "image_url": {{"url": "{expected}"}}}}"#))
    );
}

#[test]
fn to_openai_content_part_passes_text_through() {
    let j = to_openai_content_part(&ContentPart::text("hi")).to_json();
    assert_eq!(j, json(r#"{"type": "text", "text": "hi"}"#));
}

#[test]
fn to_anthropic_content_block_image_uses_base64_source() {
    let p = ContentPart::image("image/jpeg", b"\xff\xd8".to_vec());
    let j = to_anthropic_content_block(&p).to_json();
    let expected = STANDARD.encode(b"\xff\xd8");
    assert_eq!(
        j,
        json(&format!(
            r#"{{
                "type": "image",
                "source": {{"type": "base64", "media_type": "image/jpeg", "data": "{expected}"}}
            }}"#
        ))
    );
}

#[test]
fn to_anthropic_content_block_passes_text_through() {
    let j = to_anthropic_content_block(&ContentPart::text("hi")).to_json();
    assert_eq!(j, json(r#"{"type": "text", "text": "hi"}"#));
}

#[test]
fn a_picture_comes_back_as_it_was_sent() {
    let sent = ContentPart::image("image/png", vec![0, 1, 2, 250]);
    let response = AnthropicResponse {
        content: vec![to_anthropic_content_block(&sent)],
        stop_reason: None,
        usage: AnthropicUsage { input_tokens: 1, output_tokens: 2 },
    };
    let c = completion_from_anthropic(response);
    match &c.content_parts[0] {
        ContentPart::Image { media_type, data } => {
            assert_eq!(media_type, "image/png");
            assert_eq!(data, &vec![0, 1, 2, 250]);
        }
        other => panic!("expected image, got {other:?}"),
    }
    assert_eq!(c.stop_reason, "");
    assert_eq!(c.usage.output_tokens, 2);
}

#[test]
fn a_broken_picture_becomes_a_text() {
    let response = AnthropicResponse {
        content: vec![
            AnthropicContentBlock::Image {
                media_type: "image/png".to_string(),
                data: "not base64!".to_string(),
            },
            AnthropicContentBlock::Text { text: "seen".to_string(), cache_control: None },
            AnthropicContentBlock::ToolUse {
                id: "t1".to_string(),
                name: "look".to_string(),
                input: json(r#"{"a":1}"#),
            },
        ],
        stop_reason: Some("tool_use".to_string()),
        usage: AnthropicUsage { input_tokens: 0, output_tokens: 0 },
    };
    assert_eq!(merge_anthropic_text(&response.content).len(), 1);
    let c = completion_from_anthropic(response);
    assert_eq!(c.content_parts.len(), 2);
    assert!(text_of(&c.content_parts[0]).contains("image/png"));
    assert_eq!(text_of(&c.content_parts[1]), "seen");
    assert_eq!(c.tool_calls.len(), 1);
    assert_eq!(c.tool_calls[0].name, "look");
    assert_eq!(c.tool_calls[0].arguments["a"], 1);
    assert_eq!(c.stop_reason, "tool_use");
}

#[test]
fn extract_openai_response_marks_malformed_arguments() {
    let calls = vec![wire_call("call_bad", "get_weather", r#"{"city":"北京"#)];
    let (_parts, calls) = extract_openai_response(None, Some(calls));
    assert_eq!(calls.len(), 1);
    assert_eq!(calls[0].arguments, Value::Null);
    assert_eq!(calls[0].arguments_raw.as_deref(), Some("{\"city\":\"北京"));
    let err = calls[0].arguments_parse_error.as_ref().expect("an error");
    assert!(err.contains("EOF") || err.contains("expected"), "{err}");
}

#[test]
fn extract_openai_response_clears_parse_error_on_success() {
    let calls = vec![wire_call("call_ok", "x", r#"{"k":"v"}"#)];
    let (_parts, calls) = extract_openai_response(None, Some(calls));
    assert!(calls[0].arguments_parse_error.is_none());
    assert_eq!(calls[0].arguments["k"], "v");
}

#[test]
fn answers_come_as_text_or_in_parts() {
    let content = OpenAiResponseContent::Plain("<think>..</think>\n\nMiniMax-M3".to_string());
    let (parts, _) = extract_openai_response(Some(content), None);
    assert_eq!(parts.len(), 1);
    assert!(text_of(&parts[0]).contains("MiniMax-M3"));
    let (parts, _) =
        extract_openai_response(Some(OpenAiResponseContent::Plain(String::new())), None);
    assert!(parts.is_empty());
    let both = vec![
        OpenAiResponseContentPart::Text { text: "hi".to_string() },
        OpenAiResponseContentPart::Other,
    ];
    let (parts, _) = extract_openai_response(Some(OpenAiResponseContent::Parts(both)), None);
    assert_eq!(parts.len(), 2);
    assert_eq!(text_of(&parts[1]), "");
    let both = vec![
        OpenAiResponseContentPart::Text { text: "hi".to_string() },
        OpenAiResponseContentPart::Other,
    ];
    let merged = merge_openai_text(Some(OpenAiResponseContent::Parts(both)));
    assert_eq!(merged.len(), 1);
    assert!(merge_openai_text(None).is_empty());
}

#[test]
fn an_answer_is_that_of_the_first_choice() {
    let choice = |text: &str| OpenAiChoice {
        message: OpenAiResponseMessage {
            content: Some(OpenAiResponseContent::Plain(text.to_string())),
            tool_calls: Some(vec![wire_call("c", "f", "{}")]),
        },
        finish_reason: Some("stop".to_string()),
    };
    let response = OpenAiChatResponse {
        choices: vec![choice("first"), choice("second")],
        usage: Some(OpenAiUsage { prompt_tokens: 180, completion_tokens: 75 }),
    };
    let c = completion_from_openai(response).unwrap();
    assert_eq!(c.as_text(), "first");
    assert_eq!(c.tool_calls.len(), 1);
    assert_eq!(c.usage.input_tokens, 180);
    let none = OpenAiChatResponse { choices: vec![], usage: None };
    match completion_from_openai(none).unwrap_err() {
        AiError::Other(text) => assert_eq!(text, "No choices in response"),
        other => panic!("got {other:?}"),
    }
}

#[test]
fn refusals_of_the_apis_become_errors() {
    assert!(matches!(
        openai_status_error(429, "slow".to_string()),
        AiError::RateLimited { retry_after: 10, .. }
    ));
    assert!(matches!(openai_status_error(401, "no".to_string()), AiError::Auth(_)));
    assert!(matches!(
        openai_status_error(500, "x".to_string()),
        AiError::Api { status: 500, .. }
    ));
    assert!(matches!(
        anthropic_status_error(429, "slow".to_string()),
        AiError::RateLimited { retry_after: 30, .. }
    ));
    assert!(matches!(
        anthropic_status_error(401, "no".to_string()),
        AiError::Api { status: 401, .. }
    ));
}

#[test]
fn failures_to_send_are_marked() {
    let failure = |timeout, connect, request| SendFailure {
        is_timeout: timeout,
        is_connect: connect,
        is_request: request,
        message: "boom".to_string(),
    };
    let connect = failure(false, true, false);
    assert!(is_transport_failure(&connect));
    match send_failed(&connect) {
        AiError::Other(text) => {
            assert_eq!(text, format!("{} Connection failed: boom", TRANSPORT_FAILURE_MARKER))
        }
        other => panic!("got {other:?}"),
    }
    assert_eq!(
        stream_send_failed(&connect),
        format!("{} Request failed: boom", TRANSPORT_FAILURE_MARKER)
    );
    let other = failure(false, false, false);
    assert!(!is_transport_failure(&other));
    assert!(matches!(send_failed(&other), AiError::Http(_)));
    assert_eq!(stream_send_failed(&other), "Request failed: boom");
}

#[test]
fn budgets_and_labels() {
    assert_eq!(ThinkingBudget::Minimal.token_budget(), 1024);
    assert_eq!(ThinkingBudget::XHigh.token_budget(), 32768);
    assert_eq!(ThinkingBudget::Custom(5).token_budget(), 5);
    let label = GenerateParams::code_defaults().label();
    assert!(label.contains("0.1"), "{label}");
    let usage = TokenUsage { input_tokens: 3, output_tokens: 40, thinking_tokens: 0 };
    assert_eq!(usage.text(), "↑3 ↓40");
    let usage = TokenUsage { input_tokens: 3, output_tokens: 40, thinking_tokens: 5 };
    assert_eq!(usage.text(), "↑3 ↓40 (5 thinking)");
}

#[test]
fn decimals_read_and_write_themselves() {
    assert_eq!(Decimal { units: 10, scale: 2 }.text(), "0.1");
    assert_eq!(Decimal { units: -125, scale: 2 }.text(), "-1.25");
    assert_eq!(Decimal { units: 300, scale: 2 }.text(), "3");
    assert!(Decimal::parse("x").is_none());
    assert_eq!(Decimal::parse("0.27").unwrap().text(), "0.27");
}
