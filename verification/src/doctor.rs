//! Reading tool versions out of the `--version` output of `rustc`, `git`
//! and `ollama`.

use vstd::prelude::*;
use crate::text::{split_words, views, words};

verus! {

/// The `n`-th word (from 0) of `s`, if it has that many.
pub open spec fn nth_word(s: Seq<char>, n: nat) -> Option<Seq<char>> {
    if n < words(s).len() { Some(words(s)[n as int]) } else { None }
}

/// The last word of `s`, if it has any.
pub open spec fn last_word(s: Seq<char>) -> Option<Seq<char>> {
    if words(s).len() > 0 { Some(words(s).last()) } else { None }
}

pub open spec fn opt_view(o: Option<String>) -> Option<Seq<char>> {
    match o {
        Some(s) => Some(s@),
        None => None,
    }
}

/// The `n`-th word of the captured output, when there is output and it
/// has that many words.
pub fn word_of(output: &Option<String>, n: usize) -> (r: Option<String>)
    ensures
        opt_view(r) == match output {
            Some(s) => nth_word(s@, n as nat),
            None => None,
        },
{
    match output {
        Some(s) => {
            let ws = split_words(s.as_str());
            if n < ws.len() {
                assert(views(ws@)[n as int] == ws@[n as int]@);
                Some(ws[n].clone())
            } else {
                None
            }
        },
        None => None,
    }
}

/// The last word of the captured output, when there is output and it has
/// any word.
pub fn final_word(output: &Option<String>) -> (r: Option<String>)
    ensures
        opt_view(r) == match output {
            Some(s) => last_word(s@),
            None => None,
        },
{
    match output {
        Some(s) => {
            let ws = split_words(s.as_str());
            if ws.len() > 0 {
                assert(views(ws@)[ws@.len() - 1] == ws@[ws@.len() - 1]@);
                Some(ws[ws.len() - 1].clone())
            } else {
                None
            }
        },
        None => None,
    }
}

/// The Rust version in `rustc --version` output (`rustc 1.80.0 (...)`):
/// its second word.
pub fn rust_version(output: &Option<String>) -> (r: Option<String>)
    ensures
        opt_view(r) == match output {
            Some(s) => nth_word(s@, 1),
            None => None,
        },
{
    word_of(output, 1)
}

/// The git version in `git --version` output (`git version 2.43.0`): its
/// third word.
pub fn git_version(output: &Option<String>) -> (r: Option<String>)
    ensures
        opt_view(r) == match output {
            Some(s) => nth_word(s@, 2),
            None => None,
        },
{
    word_of(output, 2)
}

/// The Ollama version in `ollama --version` output: its last word.
pub fn ollama_version(output: &Option<String>) -> (r: Option<String>)
    ensures
        opt_view(r) == match output {
            Some(s) => last_word(s@),
            None => None,
        },
{
    final_word(output)
}

} // verus!
