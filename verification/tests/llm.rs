use sovereign::llm::{LlmBackend, LlmConfig, LlmEnv};

#[test]
fn from_env_has_safe_defaults() {
    // Without env vars set, no keys but Ollama defaults are present.
    let cfg = LlmConfig::from_env_values(LlmEnv::default());
    assert!(cfg.ollama_host.starts_with("http"));
    assert!(!cfg.gemini_model.is_empty());
    // build_primary always yields *some* backend (falls back to Ollama).
    assert!(matches!(cfg.build_primary(), LlmBackend::Ollama { .. }));
}

#[test]
fn gemini_keys_from_csv_win_over_single_key() {
    let env = LlmEnv {
        gemini_api_keys: Some(" k1, k2 ,".to_string()),
        gemini_api_key: Some("single".to_string()),
        grok_api_key: Some("   ".to_string()),
        xai_api_key: Some("xai".to_string()),
        gemini_model: Some("gemini-pro".to_string()),
        ..LlmEnv::default()
    };
    let cfg = LlmConfig::from_env_values(env);
    assert_eq!(cfg.gemini_keys, vec!["k1".to_string(), "k2".to_string()]);
    assert_eq!(cfg.grok_key.as_deref(), Some("xai"));
    assert!(cfg.has_gemini());
    assert!(cfg.has_grok());
    match cfg.build_primary() {
        LlmBackend::Gemini { api_key, model } => {
            assert_eq!(api_key, "k1");
            assert_eq!(model, "gemini-pro");
        }
        other => panic!("unexpected {other:?}"),
    }
    let mut pool = cfg.gemini_pool();
    assert_eq!(pool.available(), 2);
    assert_eq!(pool.next_key().as_deref(), Some("k1"));
}

#[test]
fn grok_is_second_choice() {
    let env = LlmEnv {
        gemini_api_key: Some(" \t".to_string()),
        grok_api_key: Some("g".to_string()),
        ..LlmEnv::default()
    };
    let cfg = LlmConfig::from_env_values(env);
    assert!(!cfg.has_gemini());
    match cfg.build_primary() {
        LlmBackend::Grok { api_key, model } => {
            assert_eq!(api_key, "g");
            assert_eq!(model, "grok-2");
        }
        other => panic!("unexpected {other:?}"),
    }
    let defaults = LlmConfig::from_env_values(LlmEnv::default());
    assert_eq!(defaults.ollama_host, "http://localhost:11434");
    assert_eq!(defaults.gemini_model, "gemini-2.5-flash");
    assert_eq!(defaults.ollama_model, "llama3.1");
}
