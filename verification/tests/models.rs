use esprit::models::{
    accepts_status, active_embed_path, active_llm_entry, default_embed, default_llm, download_complete, is_available,
    list_status, lookup, model_path, range_header, registry, require, resume_header, ModelError, ModelKind,
};

#[test]
fn registry_lists_three_models() {
    let r = registry();
    let ids: Vec<&str> = r.iter().map(|e| e.id).collect();
    assert_eq!(ids, vec!["qwen3:0.6b", "qwen3:1.7b", "nomic-embed"]);
    assert!(r[2].kind == ModelKind::Embedding);
}

#[test]
fn every_registry_entry_is_found_by_id() {
    for e in registry() {
        assert_eq!(lookup(e.id).map(|f| f.filename), Some(e.filename));
    }
    assert!(lookup("gpt-4").is_none());
}

#[test]
fn defaults_are_the_small_llm_and_the_embedder() {
    assert_eq!(default_llm().id, "qwen3:0.6b");
    assert_eq!(default_embed().id, "nomic-embed");
    assert_eq!(active_llm_entry(Some("qwen3:1.7b")).id, "qwen3:1.7b");
    assert_eq!(active_llm_entry(Some("unknown")).id, "qwen3:0.6b");
    assert_eq!(active_llm_entry(None).id, "qwen3:0.6b");
}

#[test]
fn model_files_live_in_the_models_directory() {
    assert_eq!(model_path("/m", "x.gguf"), "/m/x.gguf");
    let e = default_embed();
    match require(&e, "/m", true) {
        Ok(p) => assert_eq!(p, "/m/nomic-embed-text-v1.5.Q4_K_M.gguf"),
        Err(_) => panic!("installed model refused"),
    }
}

#[test]
fn missing_model_is_reported() {
    match require(&default_llm(), "/m", false) {
        Err(ModelError::NotInstalled(msg)) => assert_eq!(
            msg,
            "Model \"Qwen3 0.6B (default, fast)\" is not installed.\nRun:  esprit model pull qwen3:0.6b\nOr:   esprit init          (to install defaults)"
        ),
        Ok(_) => panic!("missing model accepted"),
    }
    assert!(active_embed_path("/m", false).is_err());
    assert!(!is_available("/m", false));
    assert!(is_available("/m", true));
}

#[test]
fn status_pairs_entries_with_presence() {
    let s = list_status(&[true, false, true]);
    let v: Vec<(&str, bool)> = s.iter().map(|(e, p)| (e.id, *p)).collect();
    assert_eq!(v, vec![("qwen3:0.6b", true), ("qwen3:1.7b", false), ("nomic-embed", true)]);
}

#[test]
fn downloads_resume_and_complete() {
    assert!(download_complete(409_000_000, 409_000_000));
    assert!(download_complete(408_000_000, 409_000_000));
    assert!(!download_complete(407_999_999, 409_000_000));
    assert!(download_complete(0, 500));
    assert_eq!(range_header(1024), "bytes=1024-");
    assert_eq!(resume_header(Some(10)), Some("bytes=10-".to_string()));
    assert_eq!(resume_header(Some(0)), None);
    assert_eq!(resume_header(None), None);
    assert!(accepts_status(200) && accepts_status(206));
    assert!(!accepts_status(404) && !accepts_status(301));
}
