use doubao_translator::classify_response;
use doubao_translator::BeginOutcome;
use doubao_translator::LaneType;
use doubao_translator::Model;
use doubao_translator::TranslationError;
use doubao_translator::TranslationRequest;
use doubao_translator::TranslatorCore;

const DAY: u32 = 738000;

fn config_with(models: Vec<Model>, max_concurrent: usize) -> doubao_translator::TranslatorConfig {
    let mut config = doubao_translator::TranslatorConfig::default();
    config.api_key = "test_key".to_string();
    config.max_concurrent = max_concurrent;
    config.models = models;
    config
}

fn slow_model(id: &str) -> Model {
    Model { id: id.to_string(), lane: LaneType::Slow, rpm: 5000, max_concurrent: 80, enabled: true }
}

#[test]
fn invalid_config_is_refused() {
    let mut config = doubao_translator::TranslatorConfig::default();
    config.api_key = String::new();
    assert!(TranslatorCore::new(config, 1000, DAY).is_err());
}

#[test]
fn quota_short_circuit_issues_no_wire_call() {
    // quota pre-exhausted: translate fails with QuotaExceeded before any
    // permit is taken and before any wire call could be made
    let config = config_with(vec![slow_model("m")], 4);
    let mut core = TranslatorCore::new(config, 100, DAY).unwrap();
    core.tracker.use_tokens_on(100, DAY).unwrap();

    let request = TranslationRequest::new("a".repeat(400), "zh".to_string());
    match core.try_begin(&request, DAY) {
        BeginOutcome::Refused(TranslationError::QuotaExceededError) => {}
        _ => panic!("expected a quota refusal"),
    }
    // only an admitted flow can drive the transport, so no wire call happened
    assert_eq!(core.in_flight, 0);
}

#[test]
fn admission_ceiling_two_permits() {
    // max_concurrent = 2 and 5 concurrent calls: at most 2 are ever admitted
    let config = config_with(vec![slow_model("m")], 2);
    let mut core = TranslatorCore::new(config, 1_000_000, DAY).unwrap();
    let request = TranslationRequest::new("hello".to_string(), "zh".to_string());

    let mut admitted = Vec::new();
    let mut busy = 0;
    for _ in 0..5 {
        match core.try_begin(&request, DAY) {
            BeginOutcome::Start(flow) => admitted.push(flow),
            BeginOutcome::Busy => busy += 1,
            BeginOutcome::Refused(e) => panic!("unexpected refusal: {:?}", e),
        }
        assert!(core.in_flight <= 2);
    }
    assert_eq!(admitted.len(), 2);
    assert_eq!(busy, 3);

    // a finished call frees its permit for a waiter
    core.finish(Err(TranslationError::TimeoutError), DAY).unwrap_err();
    match core.try_begin(&request, DAY) {
        BeginOutcome::Start(_) => {}
        _ => panic!("a permit should be free again"),
    }
    assert_eq!(core.in_flight, 2);
}

#[test]
fn end_to_end_scenario() {
    // {text:"Hello, world!", target_lang:"zh", source_lang:"en"} against a
    // stub slow-lane model answering {translation:"你好，世界！", tokens:12}
    let config = config_with(vec![slow_model("slow-model-1")], 2);
    let mut core = TranslatorCore::new(config, 10000, DAY).unwrap();
    let request = TranslationRequest::new("Hello, world!".to_string(), "zh".to_string())
        .with_source_lang("en".to_string());

    let mut flow = match core.try_begin(&request, DAY) {
        BeginOutcome::Start(flow) => flow,
        other => panic!("expected admission, got {:?}", outcome_name(&other)),
    };
    let mut stub_calls = 0;
    while !flow.is_finished() {
        let (model_id, delay) = flow.next_call();
        assert_eq!(model_id, "slow-model-1");
        assert_eq!(delay, 0);
        stub_calls += 1;
        let body = "{\"output\":{\"choices\":[{\"message\":{\"content\":\"你好，世界！\"}}]},\"usage\":{\"total_tokens\":12}}";
        flow.on_response(classify_response(200, body.to_string(), &model_id));
    }
    assert_eq!(stub_calls, 1);
    let result = core.finish(flow.into_outcome(), DAY).unwrap();

    assert_eq!(result.translation, "你好，世界！");
    assert_eq!(result.tokens_used, 12);
    assert_eq!(result.model_used, "slow-model-1");
    assert_eq!(core.get_token_usage().used_today, 12);
    assert_eq!(core.get_current_model(), "slow-model-1");
    assert_eq!(core.in_flight, 0);
}

fn outcome_name(o: &BeginOutcome) -> &'static str {
    match o {
        BeginOutcome::Start(_) => "Start",
        BeginOutcome::Busy => "Busy",
        BeginOutcome::Refused(_) => "Refused",
    }
}

#[test]
fn introspection_follows_the_registry() {
    let config = config_with(
        vec![slow_model("one"), Model {
            id: "two".to_string(),
            lane: LaneType::Fast,
            rpm: 1,
            max_concurrent: 1,
            enabled: false,
        }],
        2,
    );
    let core = TranslatorCore::new(config, 10, DAY).unwrap();
    assert_eq!(core.get_current_model(), "one");
    let available: Vec<String> = core.get_available_models().into_iter().map(|m| m.id).collect();
    assert_eq!(available, vec!["one".to_string()]);
    assert!(core.get_model("two").is_some());
    assert!(core.get_model("three").is_none());
}
