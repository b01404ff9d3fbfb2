//! Text generation bookkeeping: metadata and the stopping rule.

use vstd::prelude::*;

verus! {

/// Metadata returned alongside a generation response.
pub struct AiMeta {
    /// Number of tokens generated.
    pub tokens: u64,
    /// Wall-clock time for generation in milliseconds.
    pub duration_ms: u64,
}

/// What the generation loop does with the token just sampled.
pub enum Step {
    /// Stop: end of generation, or the token budget is spent.
    Stop,
    /// Keep the token and generate another one.
    Emit,
}

/// The stopping rule: stop at an end-of-generation token, or once
/// `generated` tokens have been produced and the budget is `max_tokens`;
/// keep going otherwise.
pub fn next_step(is_end_token: bool, generated: u64, max_tokens: usize) -> (s: Step)
    ensures
        (is_end_token || generated as usize >= max_tokens) <==> s is Stop,
{
    if is_end_token {
        Step::Stop
    } else if generated as usize >= max_tokens {
        Step::Stop
    } else {
        Step::Emit
    }
}

} // verus!

verus! {

/// The room a generation needs in its batch: a prompt without tokens is
/// refused; otherwise the prompt's tokens plus the token budget.
pub fn batch_capacity(prompt_tokens: usize, max_tokens: usize) -> (r: Result<usize, String>)
    requires
        prompt_tokens + max_tokens <= usize::MAX,
    ensures
        prompt_tokens == 0 ==> (r matches Err(m) && m@ == "Prompt produced zero tokens"@),
        prompt_tokens > 0 ==> r == Ok::<usize, String>((prompt_tokens + max_tokens) as usize),
{
    if prompt_tokens == 0 {
        Err("Prompt produced zero tokens".to_string())
    } else {
        Ok(prompt_tokens + max_tokens)
    }
}

/// Which prompt tokens ask for logits when the prompt is first decoded: the
/// last one only.
pub fn prefill_logits(prompt_tokens: usize) -> (v: Vec<bool>)
    ensures
        v@.len() == prompt_tokens,
        forall|i: int| 0 <= i < prompt_tokens ==> v@[i] == (i == prompt_tokens - 1),
{
    let mut v: Vec<bool> = Vec::new();
    let mut i: usize = 0;
    while i < prompt_tokens
        invariant
            i <= prompt_tokens,
            v@.len() == i,
            forall|j: int| 0 <= j < i ==> v@[j] == (j == prompt_tokens - 1),
        decreases prompt_tokens - i,
    {
        v.push(i + 1 == prompt_tokens);
        i = i + 1;
    }
    v
}

} // verus!
