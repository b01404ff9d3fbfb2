use esprit::doctor::{final_word, git_version, ollama_version, rust_version, word_of};

#[test]
fn versions_are_read_from_tool_output() {
    assert_eq!(rust_version(&Some("rustc 1.80.0 (051478957 2024-07-21)".to_string())), Some("1.80.0".to_string()));
    assert_eq!(git_version(&Some("git version 2.43.0".to_string())), Some("2.43.0".to_string()));
    assert_eq!(ollama_version(&Some("ollama version is 0.3.12".to_string())), Some("0.3.12".to_string()));
}

#[test]
fn missing_output_gives_no_version() {
    assert_eq!(rust_version(&None), None);
    assert_eq!(git_version(&Some("git".to_string())), None);
    assert_eq!(ollama_version(&Some("   ".to_string())), None);
    assert_eq!(word_of(&Some("a b".to_string()), 5), None);
    assert_eq!(final_word(&Some("a  b\n".to_string())), Some("b".to_string()));
}
