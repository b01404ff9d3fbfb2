use esprit::cli::{
    clean_command, diary_branch, env_example, env_vars, is_safe_command, onboarding_guide, test_gaps, wrap_chunk,
};

#[test]
fn proposed_commands_are_cleaned() {
    assert_eq!(clean_command("  `ls -la`\n"), "ls -la");
    assert_eq!(clean_command("```find . -name x```"), "find . -name x");
    assert_eq!(clean_command("` rm -rf / `"), "rm -rf /");
}

#[test]
fn only_read_only_commands_run_unasked() {
    assert!(is_safe_command("ls -la"));
    assert!(is_safe_command("mdfind kind:pdf"));
    assert!(is_safe_command("lsblk"));
    assert!(!is_safe_command("rm -rf /tmp/x"));
    assert!(!is_safe_command(" ls"));
    assert!(!is_safe_command(""));
}

#[test]
fn streamed_answers_wrap_at_whitespace() {
    let (out, col) = wrap_chunk(2, "ab\ncd");
    assert_eq!(out, "ab\n  cd");
    assert_eq!(col, 4);
    let (out, col) = wrap_chunk(72, "x y z");
    assert_eq!(out, "x \n  y z");
    assert_eq!(col, 5);
    let (out, col) = wrap_chunk(usize::MAX, "a");
    assert_eq!((out.as_str(), col), ("a", usize::MAX));
}

#[test]
fn environment_variables_are_collected_once() {
    let hits = "a.js:process.env.HOME\nweb/app.js:process.env.API_KEY\nsrc/lib.rs:std::env::var(\"HOME\")\nc.js:process.env.HOME\nconfig.json:\"env\": \"DB_URL\nnoise:.\n";
    let vars = env_vars(hits);
    assert_eq!(vars, vec!["HOME".to_string(), "API_KEY".to_string(), "DB_URL".to_string()]);
    assert_eq!(env_example(&vars), "HOME=\nAPI_KEY=\nDB_URL=\n");
    assert!(env_vars("").is_empty());
    assert!(env_vars("x:process.env.123\n").is_empty());
}

#[test]
fn sources_without_tests_are_reported() {
    let files = vec![
        ("src/parser.rs".to_string(), "parser".to_string()),
        ("src/lexer.rs".to_string(), "lexer".to_string()),
        ("tests/parser_test.rs".to_string(), "parser_test".to_string()),
        ("README.md".to_string(), "README".to_string()),
        ("web/app.spec.ts".to_string(), "app.spec".to_string()),
    ];
    assert_eq!(test_gaps(&files), vec!["src/lexer.rs".to_string()]);
}

#[test]
fn onboarding_lists_indexed_files() {
    assert_eq!(
        onboarding_guide(&vec!["a.rs".to_string(), "b/c.md".to_string()]),
        "# Project Onboarding Guide\n\n## Indexed Files\n\n- a.rs\n- b/c.md\n"
    );
}

#[test]
fn diary_uses_the_current_branch() {
    assert_eq!(diary_branch(Some(" feature/x \n".to_string())), "feature/x");
    assert_eq!(diary_branch(None), "main");
}
