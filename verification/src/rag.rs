//! Retrieval-augmented answering: choosing context files, building the
//! prompt from context and conversation history.

use vstd::prelude::*;
use crate::text::{chars_of, push_char, push_str, str_eq, views};
use crate::filesystem::{content_hash, hex_of, sha256_spec};

verus! {

/// At most this many files are used as context.
pub const MAX_CONTEXT_FILES: usize = 8;

/// At most this many characters of each context file are used.
pub const CONTEXT_CHARS: usize = 3_500;

/// The semantic hits followed by the keyword hits not already present, in order.
pub open spec fn merged(semantic: Seq<Seq<char>>, keyword: Seq<Seq<char>>) -> Seq<Seq<char>>
    decreases keyword.len(),
{
    if keyword.len() == 0 {
        semantic
    } else {
        let m = merged(semantic, keyword.drop_last());
        if m.contains(keyword.last()) { m } else { m.push(keyword.last()) }
    }
}

/// The context files for a question: semantic hits first, then keyword
/// hits that are not already listed, cut to [`MAX_CONTEXT_FILES`].
pub open spec fn sources_spec(semantic: Seq<Seq<char>>, keyword: Seq<Seq<char>>) -> Seq<Seq<char>> {
    let m = merged(semantic, keyword);
    if m.len() <= MAX_CONTEXT_FILES { m } else { m.take(MAX_CONTEXT_FILES as int) }
}

fn contains_str(v: &Vec<String>, x: &str) -> (b: bool)
    ensures
        b == views(v@).contains(x@),
{
    let mut i: usize = 0;
    while i < v.len()
        invariant
            i <= v.len(),
            forall|j: int| 0 <= j < i ==> views(v@)[j] != x@,
        decreases v.len() - i,
    {
        assert(views(v@)[i as int] == v@[i as int]@);
        if str_eq(v[i].as_str(), x) {
            assert(views(v@)[i as int] == x@);
            return true;
        }
        i = i + 1;
    }
    false
}

/// The source files that answer a question would draw on (see [`sources_spec`]).
pub fn source_files(semantic: Vec<String>, keyword: &[String]) -> (paths: Vec<String>)
    ensures
        views(paths@) == sources_spec(views(semantic@), views(keyword@)),
{
    let ghost sem = views(semantic@);
    let mut paths = semantic;
    let mut k: usize = 0;
    assert(views(keyword@).subrange(0, 0) =~= Seq::<Seq<char>>::empty());
    while k < keyword.len()
        invariant
            k <= keyword.len(),
            views(paths@) == merged(sem, views(keyword@).subrange(0, k as int)),
        decreases keyword.len() - k,
    {
        let ghost sub = views(keyword@).subrange(0, k + 1);
        assert(sub.drop_last() =~= views(keyword@).subrange(0, k as int));
        assert(sub.last() == keyword@[k as int]@);
        if !contains_str(&paths, keyword[k].as_str()) {
            paths.push(keyword[k].clone());
            assert(views(paths@) =~= merged(sem, sub));
        }
        k = k + 1;
    }
    assert(views(keyword@).subrange(0, keyword.len() as int) =~= views(keyword@));
    if paths.len() > MAX_CONTEXT_FILES {
        paths.truncate(MAX_CONTEXT_FILES);
        assert(views(paths@) =~= sources_spec(sem, views(keyword@)));
    }
    paths
}

/// The first `n` characters of `s` (all of them when it is shorter).
pub open spec fn take_chars(s: Seq<char>, n: nat) -> Seq<char> {
    if s.len() <= n { s } else { s.take(n as int) }
}

/// The context block for the chosen files: for each file a header line with
/// its path, followed by the first [`CONTEXT_CHARS`] characters of its text
/// when it could be read.
pub open spec fn context_spec(files: Seq<(Seq<char>, Option<Seq<char>>)>) -> Seq<char>
    decreases files.len(),
{
    if files.len() == 0 {
        seq![]
    } else {
        let f = files.last();
        context_spec(files.drop_last()) + "\n===== "@ + f.0 + " =====\n"@ + match f.1 {
            Some(t) => take_chars(t, CONTEXT_CHARS as nat),
            None => seq![],
        }
    }
}

pub open spec fn file_views(v: Seq<(String, Option<String>)>) -> Seq<(Seq<char>, Option<Seq<char>>)> {
    v.map_values(|f: (String, Option<String>)| (f.0@, match f.1 { Some(t) => Some(t@), None => None }))
}

/// Builds the context block (see [`context_spec`]); each file comes with its
/// text, or `None` when it could not be read.
pub fn build_context(files: &[(String, Option<String>)]) -> (c: String)
    ensures
        c@ == context_spec(file_views(files@)),
{
    let mut c = String::new();
    let mut i: usize = 0;
    assert(file_views(files@).subrange(0, 0) =~= Seq::<(Seq<char>, Option<Seq<char>>)>::empty());
    while i < files.len()
        invariant
            i <= files.len(),
            c@ == context_spec(file_views(files@).subrange(0, i as int)),
        decreases files.len() - i,
    {
        let ghost sub = file_views(files@).subrange(0, i + 1);
        assert(sub.drop_last() =~= file_views(files@).subrange(0, i as int));
        push_str(&mut c, "\n===== ");
        push_str(&mut c, files[i].0.as_str());
        push_str(&mut c, " =====\n");
        match &files[i].1 {
            Some(t) => {
                let cs = chars_of(t.as_str());
                let mut j: usize = 0;
                let ghost base = c@;
                while j < cs.len() && j < CONTEXT_CHARS
                    invariant
                        j <= cs.len(),
                        j <= CONTEXT_CHARS,
                        c@ == base + cs@.take(j as int),
                    decreases cs.len() - j,
                {
                    push_char(&mut c, cs[j]);
                    assert(cs@.take(j + 1) =~= cs@.take(j as int).push(cs@[j as int]));
                    j = j + 1;
                }
                assert(cs@.take(j as int) =~= take_chars(t@, CONTEXT_CHARS as nat));
            },
            None => {},
        }
        assert(c@ =~= context_spec(sub));
        i = i + 1;
    }
    assert(file_views(files@).subrange(0, files.len() as int) =~= file_views(files@));
    c
}

/// One exchange as shown to the model.
pub open spec fn exchange_text(q: Seq<char>, a: Seq<char>) -> Seq<char> {
    "User: "@ + q + "\nAssistant: "@ + a
}

/// The conversation history, oldest exchange first, exchanges separated by
/// a blank line; `newest_first` lists the recalled exchanges newest first.
pub open spec fn history_spec(newest_first: Seq<(Seq<char>, Seq<char>)>) -> Seq<char>
    decreases newest_first.len(),
{
    if newest_first.len() == 0 {
        seq![]
    } else if newest_first.len() == 1 {
        exchange_text(newest_first[0].0, newest_first[0].1)
    } else {
        history_spec(newest_first.drop_first()) + "\n\n"@
            + exchange_text(newest_first[0].0, newest_first[0].1)
    }
}

pub open spec fn pair_views(v: Seq<(String, String)>) -> Seq<(Seq<char>, Seq<char>)> {
    v.map_values(|p: (String, String)| (p.0@, p.1@))
}

/// Builds the history text (see [`history_spec`]).
pub fn build_history(newest_first: &[(String, String)]) -> (h: String)
    ensures
        h@ == history_spec(pair_views(newest_first@)),
{
    let mut h = String::new();
    let n = newest_first.len();
    let mut i: usize = n;
    let ghost all = pair_views(newest_first@);
    assert(all.skip(n as int) =~= Seq::<(Seq<char>, Seq<char>)>::empty());
    while i > 0
        invariant
            n == newest_first.len(),
            all == pair_views(newest_first@),
            i <= n,
            h@ == history_spec(all.skip(i as int)),
        decreases i,
    {
        let k = i - 1;
        let ghost rest = all.skip(k as int);
        assert(rest.drop_first() =~= all.skip(i as int));
        assert(rest[0] == (newest_first@[k as int].0@, newest_first@[k as int].1@));
        if i < n {
            push_str(&mut h, "\n\n");
        }
        push_str(&mut h, "User: ");
        push_str(&mut h, newest_first[k].0.as_str());
        push_str(&mut h, "\nAssistant: ");
        push_str(&mut h, newest_first[k].1.as_str());
        assert(h@ =~= history_spec(rest));
        i = k;
    }
    assert(all.skip(0) =~= all);
    h
}

/// The prompt sent to the model for a question.
pub open spec fn prompt_spec(question: Seq<char>, context: Seq<char>, history: Seq<char>) -> Seq<char> {
    let history_section = if history.len() == 0 { seq![] } else { "# Conversation History\n\n"@ + history + "\n\n"@ };
    let context_section = if context.len() == 0 {
        "No relevant project files were found for this query."@
    } else {
        "# Project Context\n"@ + context
    };
    "You are Esprit AI, an expert assistant with access to the user's indexed project.\n\nAnswer ONLY from the supplied context. If the answer is absent, say:\n\"I couldn't find that in the indexed project.\"\n\n"@
        + history_section + context_section + "\n\n# Question\n\n"@ + question + "\n\nAnswer:"@
}

/// Builds the prompt (see [`prompt_spec`]).
pub fn build_prompt(question: &str, context: &str, history: &str) -> (p: String)
    ensures
        p@ == prompt_spec(question@, context@, history@),
{
    let mut p = String::new();
    push_str(&mut p, "You are Esprit AI, an expert assistant with access to the user's indexed project.\n\nAnswer ONLY from the supplied context. If the answer is absent, say:\n\"I couldn't find that in the indexed project.\"\n\n");
    let ghost head = p@;
    if !history.is_empty() {
        push_str(&mut p, "# Conversation History\n\n");
        push_str(&mut p, history);
        push_str(&mut p, "\n\n");
    }
    if context.is_empty() {
        push_str(&mut p, "No relevant project files were found for this query.");
    } else {
        push_str(&mut p, "# Project Context\n");
        push_str(&mut p, context);
    }
    push_str(&mut p, "\n\n# Question\n\n");
    push_str(&mut p, question);
    push_str(&mut p, "\n\nAnswer:");
    assert(p@ =~= prompt_spec(question@, context@, history@));
    p
}

/// The key under which the embedding of an answer is stored:
/// `answer:` followed by the hex SHA-256 of the question.
pub fn answer_key(question: &str) -> (k: String)
    ensures
        k@ == "answer:"@ + hex_of(sha256_spec(vstd::utf8::encode_utf8(question@))),
{
    let mut k = String::new();
    push_str(&mut k, "answer:");
    let h = content_hash(question.as_bytes());
    push_str(&mut k, h.as_str());
    k
}

proof fn merged_props(semantic: Seq<Seq<char>>, keyword: Seq<Seq<char>>)
    ensures
        merged(semantic, keyword).len() >= semantic.len(),
        merged(semantic, keyword).take(semantic.len() as int) == semantic,
        forall|x: Seq<char>| #[trigger] merged(semantic, keyword).contains(x) ==> semantic.contains(x) || keyword.contains(x),
        semantic.no_duplicates() ==> merged(semantic, keyword).no_duplicates(),
    decreases keyword.len(),
{
    if keyword.len() == 0 {
        assert(semantic.take(semantic.len() as int) =~= semantic);
    } else {
        let kw = keyword.drop_last();
        merged_props(semantic, kw);
        let m = merged(semantic, kw);
        let x = keyword.last();
        assert forall|y: Seq<char>| kw.contains(y) implies keyword.contains(y) by {
            let j = choose|j: int| 0 <= j < kw.len() && kw[j] == y;
            assert(keyword[j] == y);
        }
        assert(keyword.contains(x)) by { assert(keyword[keyword.len() - 1] == x); }
        if !m.contains(x) {
            let n = m.push(x);
            assert(n.take(semantic.len() as int) =~= m.take(semantic.len() as int));
            assert forall|y: Seq<char>| #[trigger] n.contains(y) implies semantic.contains(y) || keyword.contains(y) by {
                let j = choose|j: int| 0 <= j < n.len() && n[j] == y;
                if j < m.len() { assert(m[j] == y); assert(m.contains(y)); }
            }
            if semantic.no_duplicates() {
                assert forall|a: int, b: int| 0 <= a < n.len() && 0 <= b < n.len() && a != b implies n[a] != n[b] by {
                    if a == m.len() { assert(n[b] == m[b]); assert(m.contains(m[b])); }
                    else if b == m.len() { assert(n[a] == m[a]); assert(m.contains(m[a])); }
                    else { assert(n[a] == m[a] && n[b] == m[b]); }
                }
            }
        }
    }
}

/// The context files of a question are at most [`MAX_CONTEXT_FILES`],
/// each one a semantic or a keyword hit; the semantic hits come first, in
/// their order, and no file is listed twice when the semantic hits hold no
/// repetition.
pub proof fn sources_are_bounded_and_deduplicated(semantic: Seq<Seq<char>>, keyword: Seq<Seq<char>>)
    ensures
        sources_spec(semantic, keyword).len() <= MAX_CONTEXT_FILES,
        forall|x: Seq<char>| #[trigger] sources_spec(semantic, keyword).contains(x) ==> semantic.contains(x) || keyword.contains(x),
        semantic.len() <= MAX_CONTEXT_FILES ==> sources_spec(semantic, keyword).take(semantic.len() as int) == semantic,
        semantic.no_duplicates() ==> sources_spec(semantic, keyword).no_duplicates(),
{
    merged_props(semantic, keyword);
    let m = merged(semantic, keyword);
    let s = sources_spec(semantic, keyword);
    if m.len() > MAX_CONTEXT_FILES {
        assert forall|x: Seq<char>| #[trigger] s.contains(x) implies semantic.contains(x) || keyword.contains(x) by {
            let j = choose|j: int| 0 <= j < s.len() && s[j] == x;
            assert(m[j] == x);
            assert(m.contains(x));
        }
        if semantic.len() <= MAX_CONTEXT_FILES {
            assert(s.take(semantic.len() as int) =~= m.take(semantic.len() as int));
        }
        if semantic.no_duplicates() {
            assert forall|a: int, b: int| 0 <= a < s.len() && 0 <= b < s.len() && a != b implies s[a] != s[b] by {
                assert(s[a] == m[a] && s[b] == m[b]);
            }
        }
    }
}

} // verus!
