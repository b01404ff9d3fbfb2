use esprit::api::{check_prompt, reply_for, MAX_PROMPT_BYTES};

#[test]
fn prompts_are_trimmed() {
    match check_prompt("  What is Esprit?\n") {
        Ok(p) => assert_eq!(p, "What is Esprit?"),
        Err(r) => panic!("refused: {}", r.answer),
    }
}

#[test]
fn empty_prompts_are_refused() {
    match check_prompt(" \t ") {
        Err(r) => assert_eq!(r.answer, "Prompt cannot be empty."),
        Ok(_) => panic!("accepted an empty prompt"),
    }
}

#[test]
fn oversized_prompts_are_refused() {
    let big = "x".repeat(MAX_PROMPT_BYTES + 1);
    match check_prompt(&big) {
        Err(r) => assert_eq!(r.answer, "Prompt exceeds maximum allowed size."),
        Ok(_) => panic!("accepted an oversized prompt"),
    }
    let exact = "é".repeat(MAX_PROMPT_BYTES / 2);
    assert!(check_prompt(&exact).is_ok());
}

#[test]
fn accepted_prompts_are_accepted_again_unchanged() {
    let once = check_prompt("  hello  ").ok().unwrap();
    let twice = check_prompt(&once).ok().unwrap();
    assert_eq!(once, twice);
}

#[test]
fn failed_answers_get_a_notice() {
    assert_eq!(reply_for(Some("42".to_string())).answer, "42");
    assert_eq!(reply_for(None).answer, "AI request failed.");
}
