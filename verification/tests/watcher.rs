use esprit::watcher::{git_status_step, needs_reindex, reindex_due, REINDEX_DEBOUNCE_NANOS};

fn names(v: &[&str]) -> Vec<String> {
    v.iter().map(|s| s.to_string()).collect()
}

#[test]
fn source_changes_call_for_reindex() {
    assert!(needs_reindex(&names(&["image.png", "main.rs"])));
    assert!(needs_reindex(&names(&["Cargo.toml"])));
    assert!(!needs_reindex(&names(&["image.png", "notes", ".md"])));
    assert!(!needs_reindex(&names(&["MAIN.RS"])));
}

#[test]
fn reindex_waits_for_the_quiet_period() {
    let n = names(&["lib.rs"]);
    assert!(!reindex_due(true, &n, REINDEX_DEBOUNCE_NANOS));
    assert!(reindex_due(true, &n, REINDEX_DEBOUNCE_NANOS + 1));
    assert!(!reindex_due(false, &n, REINDEX_DEBOUNCE_NANOS * 2));
    assert!(!reindex_due(true, &names(&["a.png"]), REINDEX_DEBOUNCE_NANOS * 2));
}

#[test]
fn git_status_changes_are_announced_once() {
    let mut last = String::new();
    assert!(git_status_step(&mut last, Some(" M src/lib.rs".to_string())));
    assert_eq!(last, " M src/lib.rs");
    assert!(!git_status_step(&mut last, Some(" M src/lib.rs".to_string())));
    assert!(!git_status_step(&mut last, None));
    assert_eq!(last, " M src/lib.rs");
    assert!(!git_status_step(&mut last, Some(String::new())));
    assert_eq!(last, "");
}
