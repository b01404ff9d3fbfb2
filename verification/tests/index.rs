use esprit::index::{
    decode_text, detect_language, embedding_excerpt, get_workspace_hash, index_step, indexed_file, is_excluded_path,
    is_text_candidate, search_all_workspaces, to_ascii_lowercase, IndexEngine, IndexHealth, IndexStep, MAX_TEXT_SIZE,
};

fn strings(v: &[&str]) -> Vec<String> {
    v.iter().map(|s| s.to_string()).collect()
}

#[test]
fn languages_come_from_extensions() {
    assert_eq!(detect_language("main.rs"), "Rust");
    assert_eq!(detect_language("app.tsx"), "TypeScript");
    assert_eq!(detect_language("lib.hpp"), "C++");
    assert_eq!(detect_language("Makefile"), "Unknown");
    assert_eq!(detect_language("MAIN.RS"), "Unknown");
}

#[test]
fn text_candidates_need_size_and_extension() {
    assert!(is_text_candidate(10, "notes.MD"));
    assert!(is_text_candidate(MAX_TEXT_SIZE, "a.rs"));
    assert!(!is_text_candidate(MAX_TEXT_SIZE + 1, "a.rs"));
    assert!(!is_text_candidate(10, "photo.png"));
    assert!(!is_text_candidate(10, "README"));
    assert_eq!(to_ascii_lowercase("TxT"), "txt");
}

#[test]
fn decoding_rejects_binary() {
    assert_eq!(decode_text("héllo".as_bytes()), "héllo");
    assert_eq!(decode_text(&[0x61, 0x00, 0x62]), "");
    assert_eq!(decode_text(&[0xff, 0xfe]), "");
}

#[test]
fn workspace_results_merge_sorted_without_repeats() {
    let merged = search_all_workspaces(&[strings(&["/b", "/a"]), strings(&["/a", "/c"]), vec![]]);
    assert_eq!(merged, strings(&["/a", "/b", "/c"]));
}

#[test]
fn workspace_hash_is_sixteen_hex_digits() {
    assert_eq!(get_workspace_hash("/tmp/ws"), "b011ea26cc731e1a");
    assert_eq!(get_workspace_hash("/tmp/ws"), get_workspace_hash("/tmp/ws"));
    assert_ne!(get_workspace_hash("/tmp/ws"), get_workspace_hash("/tmp/other"));
}

#[test]
fn git_and_target_trees_are_not_indexed() {
    assert!(is_excluded_path(&strings(&["/", "repo", ".git", "HEAD"])));
    assert!(is_excluded_path(&strings(&["repo", "target", "debug", "x"])));
    assert!(!is_excluded_path(&strings(&["repo", "src", "targets.rs"])));
    assert!(!is_excluded_path(&vec![]));
}

#[test]
fn unchanged_files_are_kept() {
    assert!(index_step(Some(5), 5, 10, true) == IndexStep::Unchanged);
    assert!(index_step(Some(4), 5, 10, true) == IndexStep::Store { embed: true });
    assert!(index_step(None, 5, 10, false) == IndexStep::Store { embed: false });
    assert!(index_step(None, 5, 500_000, true) == IndexStep::Store { embed: false });
    assert!(index_step(None, 5, 499_999, true) == IndexStep::Store { embed: true });
}

#[test]
fn excerpt_keeps_the_first_thousand_bytes() {
    let long = "a".repeat(1500);
    assert_eq!(embedding_excerpt(&long).len(), 1000);
    assert_eq!(embedding_excerpt("short"), "short");
}

#[test]
fn records_and_engine_defaults() {
    let f = indexed_file("/a".to_string(), 3, 7);
    assert_eq!((f.path.as_str(), f.size, f.modified), ("/a", 3, 7));
    let h = IndexHealth::default();
    assert!(!h.healthy && h.indexed_files == 0);
    let e = IndexEngine::default();
    assert!(e.build("/x").is_ok() && e.update("/x").is_ok() && e.remove("/x").is_ok() && e.optimize().is_ok());
}
