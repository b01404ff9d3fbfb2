//! The prompts the command line sends to the local model, with the cuts it
//! makes to what it quotes, and the reading of a yes/no answer.

use vstd::prelude::*;
use crate::filesystem::{to_lowercase, unicode_lowercase};
use crate::rag::take_chars;
use crate::text::{chars_of, push_char, push_str, str_eq, trim, trimmed};

verus! {

fn push_prefix(out: &mut String, s: &str, n: usize)
    ensures
        final(out)@ == old(out)@ + take_chars(s@, n as nat),
{
    let cs = chars_of(s);
    let mut i: usize = 0;
    while i < cs.len() && i < n
        invariant
            cs@ == s@,
            i <= cs.len(),
            i <= n,
            out@ == old(out)@ + cs@.take(i as int),
        decreases cs.len() - i,
    {
        push_char(out, cs[i]);
        assert(cs@.take(i + 1) =~= cs@.take(i as int).push(cs@[i as int]));
        i = i + 1;
    }
    assert(take_chars(s@, n as nat) =~= cs@.take(i as int));
}

/// The request for a shell command that does what the user asked.
pub open spec fn os_command_text(request: Seq<char>) -> Seq<char> {
    "You are an expert macOS systems assistant. The user wants to: '"@ + request
        + "'. Write a single valid bash command to achieve this on macOS (using mdfind, osascript, find, etc.). Rules: 1. Only output the raw command. 2. No markdown, no backticks, no explanations. 3. Be precise."@
}

/// Exec counterpart of [`os_command_text`].
pub fn os_command_prompt(request: &str) -> (p: String)
    ensures
        p@ == os_command_text(request@),
{
    let mut p = "You are an expert macOS systems assistant. The user wants to: '".to_string();
    push_str(&mut p, request);
    push_str(&mut p, "'. Write a single valid bash command to achieve this on macOS (using mdfind, osascript, find, etc.). Rules: 1. Only output the raw command. 2. No markdown, no backticks, no explanations. 3. Be precise.");
    p
}

/// The request to explain a command's output: the first 3000 characters of
/// its standard output and the first 1000 of its error output are quoted.
pub open spec fn os_summary_text(request: Seq<char>, command: Seq<char>, stdout: Seq<char>, stderr: Seq<char>) -> Seq<char> {
    "The user asked: '"@ + request + "'. The macOS command `"@ + command + "` output:\nSTDOUT:\n"@
        + take_chars(stdout, 3000) + "\nSTDERR:\n"@ + take_chars(stderr, 1000)
        + "\n\nSummarize this output clearly and concisely in natural English for the user."@
}

/// Exec counterpart of [`os_summary_text`].
pub fn os_summary_prompt(request: &str, command: &str, stdout: &str, stderr: &str) -> (p: String)
    ensures
        p@ == os_summary_text(request@, command@, stdout@, stderr@),
{
    let mut p = "The user asked: '".to_string();
    push_str(&mut p, request);
    push_str(&mut p, "'. The macOS command `");
    push_str(&mut p, command);
    push_str(&mut p, "` output:\nSTDOUT:\n");
    push_prefix(&mut p, stdout, 3000);
    push_str(&mut p, "\nSTDERR:\n");
    push_prefix(&mut p, stderr, 1000);
    push_str(&mut p, "\n\nSummarize this output clearly and concisely in natural English for the user.");
    p
}

/// The request to trace a function from code-search hits: the first 4000
/// characters of the hits are quoted.
pub open spec fn trace_text(function: Seq<char>, hits: Seq<char>) -> Seq<char> {
    "Analyze the following code search results for the function `"@ + function
        + "`.\n                     Identify what this function does, what other internal functions it calls, and what external dependencies it relies on.\n                     Draw a textual call graph.\n\nCode context:\n"@
        + take_chars(hits, 4000)
}

/// Exec counterpart of [`trace_text`].
pub fn trace_prompt(function: &str, hits: &str) -> (p: String)
    ensures
        p@ == trace_text(function@, hits@),
{
    let mut p = "Analyze the following code search results for the function `".to_string();
    push_str(&mut p, function);
    push_str(&mut p, "`.\n                     Identify what this function does, what other internal functions it calls, and what external dependencies it relies on.\n                     Draw a textual call graph.\n\nCode context:\n");
    push_prefix(&mut p, hits, 4000);
    p
}

/// The request to grade code for cognitive load: the first 4000 characters
/// of the code are quoted.
pub open spec fn score_text(code: Seq<char>) -> Seq<char> {
    "Grade this code based on Human Cognitive Load (readability, variable names, abstraction complexity) out of 100. Be ruthless. Suggest 3 improvements.\n\nCode:\n"@
        + take_chars(code, 4000)
}

/// Exec counterpart of [`score_text`].
pub fn score_prompt(code: &str) -> (p: String)
    ensures
        p@ == score_text(code@),
{
    let mut p = "Grade this code based on Human Cognitive Load (readability, variable names, abstraction complexity) out of 100. Be ruthless. Suggest 3 improvements.\n\nCode:\n".to_string();
    push_prefix(&mut p, code, 4000);
    p
}

/// The history to compress, one `question: answer` line per exchange.
pub open spec fn memory_lines(rows: Seq<(Seq<char>, Seq<char>)>) -> Seq<char>
    decreases rows.len(),
{
    if rows.len() == 0 { seq![] } else { memory_lines(rows.drop_last()) + rows.last().0 + ": "@ + rows.last().1 + "\n"@ }
}

/// The request to compress the recalled conversation `rows`.
pub fn compress_prompt(rows: &Vec<(String, String)>) -> (p: String)
    ensures
        p@ == "Summarize this chat history into a dense knowledge summary:\n\n"@
            + memory_lines(crate::memory::pair_views(rows@)),
{
    let ghost rv = crate::memory::pair_views(rows@);
    let mut ctx = String::new();
    let mut i: usize = 0;
    assert(rv.subrange(0, 0) =~= Seq::<(Seq<char>, Seq<char>)>::empty());
    while i < rows.len()
        invariant
            i <= rows.len(),
            rv == crate::memory::pair_views(rows@),
            ctx@ == memory_lines(rv.subrange(0, i as int)),
        decreases rows.len() - i,
    {
        push_str(&mut ctx, rows[i].0.as_str());
        push_str(&mut ctx, ": ");
        push_str(&mut ctx, rows[i].1.as_str());
        push_str(&mut ctx, "\n");
        proof {
            let sub = rv.subrange(0, i + 1);
            assert(sub.drop_last() =~= rv.subrange(0, i as int));
            assert(sub.last() == (rows@[i as int].0@, rows@[i as int].1@));
        }
        i = i + 1;
    }
    assert(rv.subrange(0, rows.len() as int) =~= rv);
    let mut p = "Summarize this chat history into a dense knowledge summary:\n\n".to_string();
    push_str(&mut p, ctx.as_str());
    p
}

/// A confirmation is an answer that reads `y` once trimmed and lowercased.
pub fn confirmed(answer: &str) -> (b: bool)
    ensures
        b == (unicode_lowercase(trimmed(answer@)) == "y"@),
{
    let t = trim(answer);
    let l = to_lowercase(t.as_str());
    str_eq(l.as_str(), "y")
}

} // verus!
