use doubao_translator::backoff_delay;
use doubao_translator::LaneType;
use doubao_translator::Model;
use doubao_translator::TranslateFlow;
use doubao_translator::TranslationError;
use doubao_translator::TranslationResult;

fn model(id: &str, lane: LaneType) -> Model {
    Model { id: id.to_string(), lane, rpm: 100, max_concurrent: 10, enabled: true }
}

fn net_err() -> TranslationError {
    TranslationError::NetworkError { message: "connection refused".to_string() }
}

fn ok_result(model_id: &str, translation: &str, tokens: usize) -> TranslationResult {
    TranslationResult {
        translation: translation.to_string(),
        detected_source_lang: None,
        tokens_used: tokens,
        model_used: model_id.to_string(),
        request_id: None,
    }
}

/// Drive a flow with responses chosen by the model id; record every call.
fn run(
    mut flow: TranslateFlow,
    mut respond: impl FnMut(&str) -> Result<TranslationResult, TranslationError>,
) -> (Vec<String>, Result<TranslationResult, TranslationError>) {
    let mut calls = Vec::new();
    while !flow.is_finished() {
        let (model_id, _delay) = flow.next_call();
        calls.push(model_id.clone());
        flow.on_response(respond(&model_id));
    }
    (calls, flow.into_outcome())
}

#[test]
fn lane_fallback_ordering() {
    // the slow lane always fails, the fast lane always succeeds: the result
    // is the fast lane's, and every slow model is attempted before fast
    let flow = TranslateFlow::new(
        vec![model("s1", LaneType::Slow), model("s2", LaneType::Slow)],
        vec![model("f1", LaneType::Fast)],
        1,
        0,
    );
    let (calls, outcome) = run(flow, |id| {
        if id.starts_with('s') {
            Err(net_err())
        } else {
            Ok(ok_result(id, "done", 7))
        }
    });
    assert_eq!(calls, vec!["s1", "s1", "s2", "s2", "f1"]);
    let result = outcome.unwrap();
    assert_eq!(result.model_used, "f1");
    let first_fast = calls.iter().position(|c| c.starts_with('f')).unwrap();
    assert!(calls[..first_fast].iter().all(|c| c.starts_with('s')));
}

#[test]
fn retry_bound_exactly_three_attempts() {
    // max_retries = 2 and a model that always fails with a retryable error:
    // the model is attempted exactly 3 times before the lane moves on
    let flow = TranslateFlow::new(
        vec![model("first", LaneType::Slow), model("second", LaneType::Slow)],
        vec![],
        2,
        0,
    );
    let (calls, outcome) = run(flow, |id| {
        if id == "first" {
            Err(net_err())
        } else {
            Ok(ok_result(id, "done", 1))
        }
    });
    assert_eq!(calls.iter().filter(|c| *c == "first").count(), 3);
    assert_eq!(calls, vec!["first", "first", "first", "second"]);
    assert!(outcome.is_ok());
}

#[test]
fn quota_error_stops_retrying_but_next_model_is_tried() {
    let flow = TranslateFlow::new(
        vec![model("a", LaneType::Slow), model("b", LaneType::Slow)],
        vec![],
        5,
        0,
    );
    let (calls, outcome) = run(flow, |id| {
        if id == "a" {
            Err(TranslationError::QuotaExceededError)
        } else {
            Ok(ok_result(id, "done", 1))
        }
    });
    // no retry on the quota failure: one attempt at `a`, then `b`
    assert_eq!(calls, vec!["a", "b"]);
    assert!(outcome.is_ok());
}

#[test]
fn both_lanes_failing_surfaces_the_slow_lane_error() {
    let flow = TranslateFlow::new(
        vec![model("s1", LaneType::Slow)],
        vec![model("f1", LaneType::Fast)],
        0,
        0,
    );
    let (calls, outcome) = run(flow, |_| Err(net_err()));
    assert_eq!(calls, vec!["s1", "f1"]);
    match outcome {
        Err(TranslationError::ConfigError { message }) => {
            assert_eq!(message, "All models in lane slow failed");
        }
        other => panic!("unexpected outcome: {:?}", other),
    }
}

#[test]
fn empty_lanes_fail_before_any_call() {
    let flow = TranslateFlow::new(vec![], vec![], 3, 100);
    assert!(flow.is_finished());
    match flow.into_outcome() {
        Err(TranslationError::ConfigError { message }) => {
            assert_eq!(message, "No models available for lane: slow");
        }
        other => panic!("unexpected outcome: {:?}", other),
    }
}

#[test]
fn empty_slow_lane_falls_back_to_fast() {
    let flow = TranslateFlow::new(vec![], vec![model("f1", LaneType::Fast)], 0, 0);
    let (calls, outcome) = run(flow, |id| Ok(ok_result(id, "done", 2)));
    assert_eq!(calls, vec!["f1"]);
    assert_eq!(outcome.unwrap().model_used, "f1");
}

#[test]
fn exponential_backoff_values() {
    assert_eq!(backoff_delay(1000, 0), 0);
    assert_eq!(backoff_delay(1000, 1), 1000);
    assert_eq!(backoff_delay(1000, 2), 2000);
    assert_eq!(backoff_delay(1000, 3), 4000);
    assert_eq!(backoff_delay(0, 5), 0);
    assert_eq!(backoff_delay(u64::MAX, 2), u64::MAX);
    assert_eq!(backoff_delay(1, 64), 9223372036854775808);
    assert_eq!(backoff_delay(1, 66), u64::MAX);
}

#[test]
fn recovered_retry_returns_success() {
    let mut failures = 2;
    let flow = TranslateFlow::new(vec![model("m", LaneType::Slow)], vec![], 2, 0);
    let (calls, outcome) = run(flow, move |id| {
        if failures > 0 {
            failures -= 1;
            Err(TranslationError::InvalidResponseError { message: "bad".to_string() })
        } else {
            Ok(ok_result(id, "done", 3))
        }
    });
    assert_eq!(calls, vec!["m", "m", "m"]);
    assert_eq!(outcome.unwrap().translation, "done");
}
