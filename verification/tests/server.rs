use doubao_translator::build_openai_response;
use doubao_translator::join_user_contents;
use doubao_translator::normalize_source_lang;
use doubao_translator::normalize_target_lang;
use doubao_translator::OpenAIMessage;
use doubao_translator::TranslationResult;

fn msg(role: &str, content: &str) -> OpenAIMessage {
    OpenAIMessage { role: role.to_string(), content: content.to_string() }
}

#[test]
fn user_contents_are_joined_with_spaces() {
    let messages = vec![
        msg("system", "be brief"),
        msg("user", "Hello"),
        msg("assistant", "Hi"),
        msg("user", "world"),
    ];
    assert_eq!(join_user_contents(&messages), "Hello world");
    assert_eq!(join_user_contents(&vec![]), "");
    assert_eq!(join_user_contents(&vec![msg("assistant", "x")]), "");
    assert_eq!(join_user_contents(&vec![msg("user", "only")]), "only");
}

#[test]
fn target_language_codes_are_normalized() {
    assert_eq!(normalize_target_lang("zh-CN"), "zh");
    assert_eq!(normalize_target_lang("zh-TW"), "zh-Hant");
    assert_eq!(normalize_target_lang("auto"), "");
    assert_eq!(normalize_target_lang("no"), "nb");
    assert_eq!(normalize_target_lang("fr"), "fr");
}

#[test]
fn source_language_codes_are_normalized() {
    assert_eq!(normalize_source_lang(&Some("zh-CN".to_string())), Some("zh".to_string()));
    assert_eq!(normalize_source_lang(&Some("zh-TW".to_string())), Some("zh-Hant".to_string()));
    assert_eq!(normalize_source_lang(&Some("auto".to_string())), None);
    assert_eq!(normalize_source_lang(&Some("no".to_string())), Some("nb".to_string()));
    assert_eq!(normalize_source_lang(&Some("en".to_string())), Some("en".to_string()));
    assert_eq!(normalize_source_lang(&None), None);
}

#[test]
fn openai_response_is_assembled() {
    let result = TranslationResult {
        translation: "salut".to_string(),
        detected_source_lang: Some("en".to_string()),
        tokens_used: 9,
        model_used: "m1".to_string(),
        request_id: None,
    };
    let response = build_openai_response(result, "chatcmpl-7".to_string(), 1705324800);
    assert_eq!(response.id, "chatcmpl-7");
    assert_eq!(response.object, "chat.completion");
    assert_eq!(response.created, 1705324800);
    assert_eq!(response.model, "m1");
    assert_eq!(response.choices.len(), 1);
    assert_eq!(response.choices[0].index, 0);
    assert_eq!(response.choices[0].message.role, "assistant");
    assert_eq!(response.choices[0].message.content, "salut");
    assert_eq!(response.choices[0].finish_reason, "stop");
    assert_eq!(response.usage.prompt_tokens, 4);
    assert_eq!(response.usage.completion_tokens, 4);
    assert_eq!(response.usage.total_tokens, 9);
}
