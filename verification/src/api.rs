//! The HTTP question-answering endpoint: request validation and replies.

use vstd::prelude::*;
use crate::text::{trim, trimmed, trim_is_idempotent};

verus! {

/// A question sent to the service.
pub struct Ask {
    pub prompt: String,
}

/// The service's answer.
pub struct Reply {
    pub answer: String,
}

/// Prompts longer than this many bytes (after trimming) are refused.
pub const MAX_PROMPT_BYTES: usize = 10000;

/// Validates a prompt: trims surrounding whitespace, refuses an empty
/// prompt and one of more than [`MAX_PROMPT_BYTES`] UTF-8 bytes with the
/// reply sent back, and otherwise yields the trimmed prompt.
pub fn check_prompt(prompt: &str) -> (r: Result<String, Reply>)
    ensures
        trimmed(prompt@).len() == 0 ==> (r matches Err(rep) && rep.answer@ == "Prompt cannot be empty."@),
        trimmed(prompt@).len() > 0 && (vstd::utf8::encode_utf8(trimmed(prompt@)).len() as usize) > MAX_PROMPT_BYTES
            ==> (r matches Err(rep) && rep.answer@ == "Prompt exceeds maximum allowed size."@),
        trimmed(prompt@).len() > 0 && (vstd::utf8::encode_utf8(trimmed(prompt@)).len() as usize) <= MAX_PROMPT_BYTES
            ==> (r matches Ok(p) && p@ == trimmed(prompt@)),
{
    let p = trim(prompt);
    if p.as_str().is_empty() {
        return Err(Reply { answer: "Prompt cannot be empty.".to_string() });
    }
    if p.as_str().len() > MAX_PROMPT_BYTES {
        return Err(Reply { answer: "Prompt exceeds maximum allowed size.".to_string() });
    }
    Ok(p)
}

/// The reply for an answering attempt: the answer, or a fixed notice when
/// answering failed.
pub fn reply_for(answer: Option<String>) -> (r: Reply)
    ensures
        match answer {
            Some(a) => r.answer == a,
            None => r.answer@ == "AI request failed."@,
        },
{
    match answer {
        Some(a) => Reply { answer: a },
        None => Reply { answer: "AI request failed.".to_string() },
    }
}

/// The prompt that a validation accepts is accepted again, unchanged: it is
/// already trimmed, not empty and within the size limit.
pub proof fn accepted_prompt_is_stable(prompt: Seq<char>)
    requires
        trimmed(prompt).len() > 0,
        (vstd::utf8::encode_utf8(trimmed(prompt)).len() as usize) <= MAX_PROMPT_BYTES,
    ensures
        trimmed(trimmed(prompt)) == trimmed(prompt),
        trimmed(trimmed(prompt)).len() > 0,
        (vstd::utf8::encode_utf8(trimmed(trimmed(prompt))).len() as usize) <= MAX_PROMPT_BYTES,
{
    trim_is_idempotent(prompt);
}

} // verus!
