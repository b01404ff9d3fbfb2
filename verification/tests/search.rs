use esprit::index::IndexError;
use esprit::search::{ranked_search, stored_paths};

#[test]
fn empty_search_is_safe() {
    let result = ranked_search("", 100).unwrap();

    assert!(result.is_empty());
}

#[test]
fn excessive_search_limit_is_bounded() {
    let result = ranked_search("nonexistent", usize::MAX).unwrap();

    assert!(result.len() <= 1000);
}

#[test]
fn whitespace_query_finds_nothing() {
    let result = ranked_search("   \t\n", 10).unwrap();
    assert!(result.is_empty());
}

#[test]
fn zero_limit_returns_nothing() {
    let result = ranked_search("anything", 0).unwrap();
    assert!(result.is_empty());
}

#[test]
fn workspace_indexes_live_under_the_data_directory() {
    assert_eq!(esprit::search::index_dir("/data", "abc"), "/data/workspaces/abc/tantivy");
}

#[test]
fn workspace_search_is_bounded() {
    if let Ok(v) = esprit::search::search("/no/such/workspace", "token") {
        assert!(v.paths.len() <= esprit::search::WORKSPACE_SEARCH_LIMIT);
    }
}

#[test]
fn stored_paths_keep_order_and_skip_missing() {
    let texts = vec![Ok(Some("/w/a.rs".to_string())), Ok(None), Ok(Some("/w/b.rs".to_string()))];
    assert_eq!(stored_paths(texts).unwrap(), vec!["/w/a.rs".to_string(), "/w/b.rs".to_string()]);
    assert!(stored_paths(Vec::new()).unwrap().is_empty());
}

#[test]
fn a_failed_read_fails_the_search() {
    match stored_paths(vec![Ok(Some("/w/a.rs".to_string())), Err(())]) {
        Err(IndexError::Message(m)) => assert_eq!(m, "cannot read a stored document"),
        Ok(_) => panic!("read error ignored"),
    }
}

#[test]
fn zero_limit_reads_no_index() {
    let v = esprit::search::search_in_dir("/no/such/index", "anything", 0).unwrap();
    assert!(v.paths.is_empty());
}

#[test]
fn searches_read_the_index_fields() {
    let names = esprit::search::index_field_names();
    assert_eq!(names.path, "path");
    assert_eq!(names.name, "name");
    assert_eq!(names.content, "content");
}
