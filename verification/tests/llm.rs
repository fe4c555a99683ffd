use az::llm::{check_embedding, generation_format, generation_prompt, LlmError, OllamaClient, DEFAULT_URL};

#[test]
fn ollama_urls_trim_trailing_slashes() {
    let c = OllamaClient::new("http://h:1//".to_string());
    assert_eq!(c.generate_url(), "http://h:1/api/generate");
    assert_eq!(c.embeddings_url(), "http://h:1/api/embeddings");
    let d = OllamaClient::new(DEFAULT_URL.to_string());
    assert_eq!(d.generate_url(), "http://localhost:11434/api/generate");
}

#[test]
fn generation_prompt_joins_system_and_user() {
    assert_eq!(generation_prompt("", "usr"), "usr");
    assert_eq!(generation_prompt("sys", "usr"), "sys\n\nusr");
}

#[test]
fn generation_format_only_in_json_mode() {
    assert_eq!(generation_format(true), Some("json"));
    assert_eq!(generation_format(false), None);
}

#[test]
fn ollama_embed_rejects_empty_response() {
    match check_embedding("m", 0) {
        Err(LlmError::Backend(msg)) => {
            assert_eq!(msg, "ollama a renvoyé un embedding vide pour le modèle 'm'")
        }
        other => panic!("unexpected {other:?}"),
    }
    assert!(check_embedding("m", 3).is_ok());
}
