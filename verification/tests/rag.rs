use esprit::rag::{answer_key, build_context, build_history, build_prompt, source_files, CONTEXT_CHARS, MAX_CONTEXT_FILES};

fn strings(v: &[&str]) -> Vec<String> {
    v.iter().map(|s| s.to_string()).collect()
}

#[test]
fn semantic_hits_come_first_without_repeats() {
    let got = source_files(strings(&["a", "b"]), &strings(&["b", "c", "a", "d"]));
    assert_eq!(got, strings(&["a", "b", "c", "d"]));
}

#[test]
fn at_most_eight_sources() {
    let kw: Vec<String> = (0..20).map(|i| format!("f{i}")).collect();
    let got = source_files(vec![], &kw);
    assert_eq!(got.len(), MAX_CONTEXT_FILES);
    assert_eq!(got[7], "f7");
}

#[test]
fn context_cuts_each_file() {
    let long = "y".repeat(CONTEXT_CHARS + 10);
    let c = build_context(&[("a.rs".to_string(), Some("fn a".to_string())), ("b.rs".to_string(), None), ("c.rs".to_string(), Some(long))]);
    let expected = format!("\n===== a.rs =====\nfn a\n===== b.rs =====\n\n===== c.rs =====\n{}", "y".repeat(CONTEXT_CHARS));
    assert_eq!(c, expected);
}

#[test]
fn history_is_oldest_first() {
    let h = build_history(&[("q2".to_string(), "a2".to_string()), ("q1".to_string(), "a1".to_string())]);
    assert_eq!(h, "User: q1\nAssistant: a1\n\nUser: q2\nAssistant: a2");
    assert_eq!(build_history(&[]), "");
}

#[test]
fn prompt_sections_appear_when_present() {
    let p = build_prompt("Why?", "", "");
    assert!(p.contains("No relevant project files were found for this query."));
    assert!(!p.contains("# Conversation History"));
    assert!(p.ends_with("\n\n# Question\n\nWhy?\n\nAnswer:"));
    let q = build_prompt("Why?", "ctx", "User: a\nAssistant: b");
    assert!(q.contains("# Conversation History\n\nUser: a\nAssistant: b\n\n# Project Context\nctx"));
}

#[test]
fn answers_are_keyed_by_question_hash() {
    assert_eq!(answer_key("hi"), "answer:8f434346648f6b96df89dda901c5176b10a6d83961dd3c1ac88b59b2dc327aa4");
}
