use doubao_translator::build_wire_body;
use doubao_translator::classify_failure;
use doubao_translator::classify_response;
use doubao_translator::TranslationError;
use doubao_translator::TranslationRequest;

#[test]
fn wire_body_shape() {
    let request = TranslationRequest::new("Hello, world!".to_string(), "zh".to_string())
        .with_source_lang("en".to_string());
    let body = build_wire_body(&request, "model-1");
    assert_eq!(
        body,
        "{\"model\":\"model-1\",\"input\":[{\"role\":\"user\",\"content\":[{\"type\":\"input_text\",\"text\":\"Hello, world!\",\"translation_options\":{\"target_language\":\"zh\",\"source_language\":\"en\"}}]}]}"
    );
    // the body is valid JSON with the fields where the upstream reads them
    let v: serde_json::Value = serde_json::from_str(&body).unwrap();
    assert_eq!(v["model"], "model-1");
    assert_eq!(v["input"][0]["content"][0]["text"], "Hello, world!");
    assert_eq!(
        v["input"][0]["content"][0]["translation_options"]["target_language"],
        "zh"
    );
}

#[test]
fn wire_body_without_source_lang() {
    let request = TranslationRequest::new("hi".to_string(), "fr".to_string());
    let body = build_wire_body(&request, "m");
    let v: serde_json::Value = serde_json::from_str(&body).unwrap();
    let opts = &v["input"][0]["content"][0]["translation_options"];
    assert_eq!(opts["target_language"], "fr");
    assert!(opts.get("source_language").is_none());
}

#[test]
fn wire_body_escapes_the_text() {
    let request = TranslationRequest::new("a \"b\"\n\tc\\d".to_string(), "zh".to_string());
    let body = build_wire_body(&request, "m");
    let v: serde_json::Value = serde_json::from_str(&body).unwrap();
    assert_eq!(v["input"][0]["content"][0]["text"], "a \"b\"\n\tc\\d");
}

#[test]
fn wire_body_escapes_control_characters() {
    let request = TranslationRequest::new("a\u{1}b\u{1f}c".to_string(), "zh".to_string());
    let body = build_wire_body(&request, "m");
    assert!(body.contains("\\u0001"));
    assert!(body.contains("\\u001f"));
    let v: serde_json::Value = serde_json::from_str(&body).unwrap();
    assert_eq!(v["input"][0]["content"][0]["text"], "a\u{1}b\u{1f}c");
}

#[test]
fn failure_classification() {
    assert_eq!(
        classify_failure(429, "slow down".to_string()),
        TranslationError::RateLimitError { retry_after: None }
    );
    assert_eq!(
        classify_failure(403, "daily quota reached".to_string()),
        TranslationError::QuotaExceededError
    );
    assert_eq!(
        classify_failure(403, "rate limit reached".to_string()),
        TranslationError::QuotaExceededError
    );
    assert_eq!(
        classify_failure(500, "boom".to_string()),
        TranslationError::ApiError { status: 500, message: "boom".to_string() }
    );
}

#[test]
fn success_response_is_parsed() {
    let body = "{\"id\":\"req-9\",\"output\":{\"choices\":[{\"message\":{\"content\":\"bonjour\",\"detected_source_language\":\"en\"}}]},\"usage\":{\"total_tokens\":5}}";
    let result = classify_response(200, body.to_string(), "m1").unwrap();
    assert_eq!(result.translation, "bonjour");
    assert_eq!(result.detected_source_lang, Some("en".to_string()));
    assert_eq!(result.tokens_used, 5);
    assert_eq!(result.model_used, "m1");
    assert_eq!(result.request_id, Some("req-9".to_string()));
}

#[test]
fn missing_translation_is_invalid() {
    let body = "{\"output\":{\"choices\":[]},\"usage\":{\"total_tokens\":5}}";
    match classify_response(200, body.to_string(), "m1") {
        Err(TranslationError::InvalidResponseError { message }) => {
            assert_eq!(message, "No translation in response");
        }
        other => panic!("unexpected: {:?}", other),
    }
}

#[test]
fn unparsable_body_is_invalid() {
    match classify_response(204, "not json".to_string(), "m1") {
        Err(TranslationError::InvalidResponseError { .. }) => {}
        other => panic!("unexpected: {:?}", other),
    }
}

#[test]
fn missing_token_count_defaults_to_zero() {
    let body = "{\"output\":{\"choices\":[{\"message\":{\"content\":\"x\"}}]}}";
    let result = classify_response(200, body.to_string(), "m1").unwrap();
    assert_eq!(result.tokens_used, 0);
    assert_eq!(result.detected_source_lang, None);
    assert_eq!(result.request_id, None);
}

#[test]
fn non_success_statuses_become_errors() {
    match classify_response(429, String::new(), "m") {
        Err(TranslationError::RateLimitError { retry_after: None }) => {}
        other => panic!("unexpected: {:?}", other),
    }
    match classify_response(500, "server error".to_string(), "m") {
        Err(TranslationError::ApiError { status: 500, message }) => {
            assert_eq!(message, "server error");
        }
        other => panic!("unexpected: {:?}", other),
    }
}
