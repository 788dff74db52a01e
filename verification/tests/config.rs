use doubao_translator::LaneType;
use doubao_translator::Model;
use doubao_translator::TranslatorConfig;

fn model(id: &str, lane: LaneType, rpm: u32, max_concurrent: usize, enabled: bool) -> Model {
    Model { id: id.to_string(), lane, rpm, max_concurrent, enabled }
}

#[test]
fn test_config_validation() {
    let mut config = TranslatorConfig::default();
    config.api_key = "test_key".to_string();
    config.api_endpoint = "https://test.com".to_string();
    config.models = vec![model("test", LaneType::Slow, 5000, 80, true)];

    assert!(config.validate().is_ok());
}

#[test]
fn test_config_validation_missing_key() {
    let config = TranslatorConfig {
        api_key: "".to_string(),
        api_endpoint: "https://test.com".to_string(),
        models: vec![],
        ..Default::default()
    };

    assert!(config.validate().is_err());
}

#[test]
fn test_get_models_by_lane() {
    let config = TranslatorConfig::default().with_default_models();
    let slow_models = config.get_models_by_lane(LaneType::Slow);
    let fast_models = config.get_models_by_lane(LaneType::Fast);

    assert!(!slow_models.is_empty());
    assert!(!fast_models.is_empty());
}

#[test]
fn lanes_filter_disabled_and_keep_order() {
    let mut config = TranslatorConfig::default();
    config.models = vec![
        model("a", LaneType::Slow, 1, 1, true),
        model("b", LaneType::Fast, 1, 1, true),
        model("c", LaneType::Slow, 1, 1, false),
        model("d", LaneType::Slow, 1, 1, true),
    ];
    let slow: Vec<String> = config
        .get_models_by_lane(LaneType::Slow)
        .into_iter()
        .map(|m| m.id)
        .collect();
    assert_eq!(slow, vec!["a".to_string(), "d".to_string()]);
    let enabled: Vec<String> = config.get_enabled_models().into_iter().map(|m| m.id).collect();
    assert_eq!(enabled, vec!["a".to_string(), "b".to_string(), "d".to_string()]);
}

#[test]
fn find_model_returns_first_match() {
    let mut config = TranslatorConfig::default();
    config.models = vec![
        model("x", LaneType::Slow, 1, 1, true),
        model("y", LaneType::Fast, 9, 9, true),
    ];
    assert_eq!(config.find_model("y").unwrap().rpm, 9);
    assert!(config.find_model("z").is_none());
    assert_eq!(config.get_model_for_lane(LaneType::Fast).unwrap().id, "y");
    assert_eq!(config.get_model_ids(), vec!["x".to_string(), "y".to_string()]);
}

#[test]
fn validation_rules_and_messages() {
    let mut config = TranslatorConfig::default();
    assert!(config.validate().is_err());

    config.api_key = "k".to_string();
    config.api_endpoint = String::new();
    assert!(config.validate().is_err());

    config.api_endpoint = "https://test.com".to_string();
    config.max_concurrent = 0;
    assert!(config.validate().is_err());

    config.max_concurrent = 1;
    config.max_rps = 0;
    assert!(config.validate().is_err());

    config.max_rps = 1;
    assert!(config.validate().is_ok());
}

#[test]
fn default_catalog_shape() {
    let models = doubao_translator::default_models();
    assert_eq!(models.len(), 5);
    assert_eq!(models[0].id, "doubao-seed-translation-250915");
    assert_eq!(models[0].lane, LaneType::Slow);
    assert_eq!(models[0].rpm, 5000);
    assert_eq!(models[0].max_concurrent, 80);
    for m in &models[1..] {
        assert_eq!(m.lane, LaneType::Fast);
        assert_eq!(m.rpm, 30000);
        assert_eq!(m.max_concurrent, 500);
    }
    assert!(models.iter().all(|m| m.enabled));

    // a configured catalog is kept as it is
    let mut config = TranslatorConfig::default();
    config.models = vec![model("mine", LaneType::Slow, 1, 1, true)];
    let config = config.with_default_models();
    assert_eq!(config.get_model_ids(), vec!["mine".to_string()]);
}
