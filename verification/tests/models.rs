use doubao_translator::should_retry;
use doubao_translator::LaneType;
use doubao_translator::Model;
use doubao_translator::TokenUsage;
use doubao_translator::TranslationError;
use doubao_translator::TranslationRequest;

#[test]
fn request_builders_fill_the_fields() {
    let request = TranslationRequest::new("text".to_string(), "zh".to_string());
    assert_eq!(request.text, "text");
    assert_eq!(request.target_lang, "zh");
    assert_eq!(request.source_lang, None);
    assert_eq!(request.context, None);

    let request = request
        .with_source_lang("en".to_string())
        .with_context("greeting".to_string());
    assert_eq!(request.source_lang, Some("en".to_string()));
    assert_eq!(request.context, Some("greeting".to_string()));
    assert_eq!(request.text, "text");
}

#[test]
fn model_compatibility() {
    let mut model = Model {
        id: "m".to_string(),
        lane: LaneType::Slow,
        rpm: 10,
        max_concurrent: 2,
        enabled: true,
    };
    assert!(model.is_compatible(LaneType::Slow));
    assert!(!model.is_compatible(LaneType::Fast));
    model.enabled = false;
    assert!(!model.is_compatible(LaneType::Slow));
}

#[test]
fn token_usage_saturates_at_zero() {
    let mut usage = TokenUsage::new(100, 5);
    assert_eq!(usage.remaining(), 100);
    assert!(usage.can_use(100));
    assert!(!usage.can_use(101));

    assert!(usage.use_tokens(60).is_ok());
    assert_eq!(usage.remaining(), 40);
    assert!(matches!(usage.use_tokens(41), Err(TranslationError::QuotaExceededError)));
    assert_eq!(usage.used_today, 60);

    usage.reset_if_needed(5);
    assert_eq!(usage.used_today, 60);
    usage.reset_if_needed(6);
    assert_eq!(usage.used_today, 0);
    assert_eq!(usage.last_reset_day, 6);
}

#[test]
fn retry_policy_by_error_class() {
    assert!(!should_retry(&TranslationError::QuotaExceededError));
    assert!(should_retry(&TranslationError::InvalidResponseError {
        message: "bad".to_string()
    }));
    assert!(should_retry(&TranslationError::NetworkError { message: "down".to_string() }));
    assert!(should_retry(&TranslationError::TimeoutError));
    assert!(should_retry(&TranslationError::RateLimitError { retry_after: Some(3) }));
    assert!(should_retry(&TranslationError::ApiError { status: 500, message: "e".to_string() }));
}
