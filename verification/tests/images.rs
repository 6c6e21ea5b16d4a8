//! Pictures in the bodies of requests.
use latte::image_detect::body_contains_image;
use serde_json::Value;

fn json(text: &str) -> Value {
    serde_json::from_str(text).unwrap()
}

#[test]
fn detects_openai_image_url_part() {
    let body = json(
        r#"{
            "model": "x",
            "messages": [{
                "role": "user",
                "content": [
                    {"type": "text", "text": "what is this"},
                    {"type": "image_url", "image_url": {"url": "data:image/png;base64,AAAA"}}
                ]
            }]
        }"#,
    );
    assert!(body_contains_image(&body));
}

#[test]
fn detects_anthropic_image_block() {
    let body = json(
        r#"{
            "model": "x",
            "max_tokens": 1024,
            "messages": [{
                "role": "user",
                "content": [
                    {"type": "image", "source": {"type": "base64", "media_type": "image/png", "data": "AAAA"}},
                    {"type": "text", "text": "describe"}
                ]
            }]
        }"#,
    );
    assert!(body_contains_image(&body));
}

#[test]
fn detects_ollama_legacy_images_array() {
    let body = json(
        r#"{
            "model": "x",
            "messages": [{"role": "user", "content": "what is this", "images": ["base64-png"]}]
        }"#,
    );
    assert!(body_contains_image(&body));
}

#[test]
fn ollama_empty_images_array_does_not_trigger() {
    let body = json(
        r#"{"model": "x", "messages": [{"role": "user", "content": "hi", "images": []}]}"#,
    );
    assert!(!body_contains_image(&body));
}

#[test]
fn text_only_body_returns_false() {
    let body_openai =
        json(r#"{"model": "x", "messages": [{"role": "user", "content": "hi"}]}"#);
    let body_anthropic = json(
        r#"{
            "model": "x",
            "max_tokens": 1024,
            "messages": [{"role": "user", "content": [{"type": "text", "text": "hi"}]}]
        }"#,
    );
    assert!(!body_contains_image(&body_openai));
    assert!(!body_contains_image(&body_anthropic));
}

#[test]
fn malformed_messages_does_not_panic() {
    assert!(!body_contains_image(&json(r#"{ "model": "x" }"#)));
}

#[test]
fn input_image_marker_recognised() {
    let body = json(
        r#"{
            "model": "x",
            "messages": [{
                "role": "user",
                "content": [{"type": "input_image", "image_url": "data:image/png;base64,AAAA"}]
            }]
        }"#,
    );
    assert!(body_contains_image(&body));
}
