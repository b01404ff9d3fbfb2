use esprit::prompts::{compress_prompt, confirmed, os_command_prompt, os_summary_prompt, score_prompt, trace_prompt};

#[test]
fn command_prompts_quote_the_request() {
    let p = os_command_prompt("list pdfs");
    assert!(p.starts_with("You are an expert macOS systems assistant. The user wants to: 'list pdfs'. Write a single"));
    assert!(p.ends_with("3. Be precise."));
}

#[test]
fn summaries_quote_bounded_output() {
    let out = "o".repeat(5000);
    let err = "e".repeat(1500);
    let p = os_summary_prompt("q", "ls", &out, &err);
    assert_eq!(
        p,
        format!(
            "The user asked: 'q'. The macOS command `ls` output:\nSTDOUT:\n{}\nSTDERR:\n{}\n\nSummarize this output clearly and concisely in natural English for the user.",
            "o".repeat(3000),
            "e".repeat(1000)
        )
    );
}

#[test]
fn traces_and_scores_quote_at_most_four_thousand_characters() {
    let hits = "é".repeat(4100);
    assert!(trace_prompt("run", &hits).ends_with(&format!("Code context:\n{}", "é".repeat(4000))));
    assert!(trace_prompt("run", "x").contains("`run`.\n                     Identify"));
    assert!(score_prompt("fn a() {}").ends_with("\n\nCode:\nfn a() {}"));
    assert_eq!(score_prompt(&hits).chars().filter(|c| *c == 'é').count(), 4000);
}

#[test]
fn history_is_compressed_line_by_line() {
    let rows = vec![("q1".to_string(), "a1".to_string()), ("q2".to_string(), "a2".to_string())];
    assert_eq!(compress_prompt(&rows), "Summarize this chat history into a dense knowledge summary:\n\nq1: a1\nq2: a2\n");
}

#[test]
fn only_yes_confirms() {
    assert!(confirmed("y\n"));
    assert!(confirmed("  Y "));
    assert!(!confirmed("yes"));
    assert!(!confirmed(""));
}
