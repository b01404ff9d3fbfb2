use esprit::config::{Config, WorkspaceConfig};

#[test]
fn defaults_come_from_the_environment() {
    let c = Config::with_environment(None, None, "/w".to_string(), None);
    assert_eq!(c.ai_model, "qwen3:1.7b");
    assert_eq!(c.ollama_url, "http://127.0.0.1:11434");
    assert_eq!(c.workspace, "/w");
    assert_eq!(c.threads, 4);
    assert!(c.color);
    assert_eq!((c.context_chars_per_file, c.max_context_files), (3_500, 8));
    let d = Config::with_environment(Some("m".to_string()), Some("http://x".to_string()), "/w".to_string(), Some(12));
    assert_eq!((d.ai_model.as_str(), d.ollama_url.as_str(), d.threads), ("m", "http://x", 12));
}

#[test]
fn environment_overrides_stored_values() {
    let mut c = Config::with_environment(None, None, "/w".to_string(), Some(2));
    c.apply_environment(Some("qwen3:0.6b".to_string()), None);
    assert_eq!(c.ai_model, "qwen3:0.6b");
    assert_eq!(c.ollama_url, "http://127.0.0.1:11434");
    c.set_model("other".to_string());
    assert_eq!(c.ai_model, "other");
    assert_eq!(c.threads, 2);
}

#[test]
fn workspace_settings_use_the_default_model() {
    let w = WorkspaceConfig::for_workspace("/p".to_string());
    assert_eq!((w.workspace.as_str(), w.model.as_str()), ("/p", "qwen3:1.7b"));
}

#[test]
fn runtime_settings_default_to_zero() {
    let r = esprit::config::load().ok().unwrap();
    assert_eq!((r.workers, r.cache_mb), (0, 0));
}
