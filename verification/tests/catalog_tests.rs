use mini_ai_1c::catalog::{
    connection_test_result, model_ids_from_body, models_request_headers, models_url, sort_texts,
};
use mini_ai_1c::profiles::LLMProvider;

#[test]
fn models_url_adds_v1_for_local_servers() {
    assert_eq!(models_url(LLMProvider::Ollama, "http://localhost:11434/"), "http://localhost:11434/v1/models");
    assert_eq!(models_url(LLMProvider::LMStudio, "http://localhost:1234/v1"), "http://localhost:1234/v1/models");
    assert_eq!(models_url(LLMProvider::OpenAI, "https://api.openai.com/v1//"), "https://api.openai.com/v1/models");
}

#[test]
fn models_url_replaces_chat_completions_path() {
    assert_eq!(
        models_url(LLMProvider::Custom, "https://host/api/chat/completions"),
        "https://host/api/models"
    );
    assert_eq!(
        models_url(LLMProvider::OllamaCloud, "https://ollama.com/v1/chat/completions/"),
        "https://ollama.com/v1/models"
    );
}

#[test]
fn models_headers_include_key_and_openrouter_attribution() {
    let h = models_request_headers(LLMProvider::OpenRouter, "k");
    assert_eq!(h.len(), 4);
    assert_eq!(h[1], ("Authorization".to_string(), "Bearer k".to_string()));
    assert_eq!(h[2], ("HTTP-Referer".to_string(), "https://mini-ai-1c.local".to_string()));
    let h = models_request_headers(LLMProvider::OpenAI, "");
    assert_eq!(h, vec![("Content-Type".to_string(), "application/json".to_string())]);
}

#[test]
fn model_ids_are_read_and_sorted() {
    let body = r#"{"data":[{"id":"gpt-4o"},{"id":"Zeta"},{"name":"no-id"},{"id":5},{"id":"alpha"}]}"#;
    assert_eq!(model_ids_from_body(body), vec!["Zeta".to_string(), "alpha".to_string(), "gpt-4o".to_string()]);
    assert!(model_ids_from_body(r#"{"models":[]}"#).is_empty());
    assert!(model_ids_from_body("not json").is_empty());
}

#[test]
fn sort_texts_orders_by_code_point() {
    let v = vec!["б".to_string(), "a".to_string(), "B".to_string(), "a".to_string()];
    assert_eq!(sort_texts(v), vec!["B".to_string(), "a".to_string(), "a".to_string(), "б".to_string()]);
}

#[test]
fn connection_test_reports_model_count_or_failure() {
    assert_eq!(
        connection_test_result(Ok(vec!["a".to_string(), "b".to_string()])),
        Ok("Success! Found 2 models.".to_string())
    );
    assert_eq!(
        connection_test_result(Err("timeout".to_string())),
        Err("Connection failed: timeout".to_string())
    );
}
