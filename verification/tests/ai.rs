use esprit::ai::{next_step, Step};

#[test]
fn generation_stops_at_end_token_or_budget() {
    assert!(matches!(next_step(true, 0, 10), Step::Stop));
    assert!(matches!(next_step(false, 10, 10), Step::Stop));
    assert!(matches!(next_step(false, 9, 10), Step::Emit));
    assert!(matches!(next_step(false, 0, 0), Step::Stop));
}

use esprit::ai::{batch_capacity, prefill_logits};

#[test]
fn empty_prompts_cannot_be_generated_from() {
    assert_eq!(batch_capacity(0, 1024), Err("Prompt produced zero tokens".to_string()));
    assert_eq!(batch_capacity(12, 1024), Ok(1036));
}

#[test]
fn only_the_last_prompt_token_asks_for_logits() {
    assert_eq!(prefill_logits(3), vec![false, false, true]);
    assert!(prefill_logits(0).is_empty());
}
