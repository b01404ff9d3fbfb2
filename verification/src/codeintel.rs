//! Code intelligence: the symbols that source files declare, and how often
//! each of them is referred to.

use vstd::prelude::*;
use crate::text::{lines_of, text_lines, views};

verus! {

#[verifier::external_type_specification]
#[verifier::external_body]
pub struct ExRegex(regex::Regex);

/// Whether `pattern` is a regular expression that the `regex` crate accepts.
pub uninterp spec fn regex_compiles(pattern: Seq<char>) -> bool;

/// The capture groups of the leftmost-first match of `pattern` in `text`
/// (group 0 the whole match; a group that took no part is `None`), or
/// `None` when nothing matches.
pub uninterp spec fn regex_captures(pattern: Seq<char>, text: Seq<char>) -> Option<Seq<Option<Seq<char>>>>;

/// The number of successive non-overlapping matches of `pattern` in `text`.
pub uninterp spec fn regex_match_count(pattern: Seq<char>, text: Seq<char>) -> nat;

/// The characters with a meaning in a regular expression (`regex_syntax::is_meta_character`).
pub open spec fn is_meta_character(c: char) -> bool {
    c == '\\' || c == '.' || c == '+' || c == '*' || c == '?' || c == '(' || c == ')'
        || c == '|' || c == '[' || c == ']' || c == '{' || c == '}' || c == '^' || c == '$'
        || c == '#' || c == '&' || c == '-' || c == '~'
}

/// `text` with a backslash before every regular-expression meta character,
/// every character kept, so that it matches itself literally.
pub open spec fn regex_escaped(text: Seq<char>) -> Seq<char>
    decreases text.len(),
{
    if text.len() == 0 {
        Seq::empty()
    } else {
        regex_escaped(text.drop_last()) + if is_meta_character(text.last()) {
            seq!['\\', text.last()]
        } else {
            seq![text.last()]
        }
    }
}

/// A compiled regular expression, with the pattern it was compiled from.
pub struct CompiledPattern {
    re: regex::Regex,
    pattern: Ghost<Seq<char>>,
}

impl CompiledPattern {
    /// The pattern this was compiled from.
    pub closed spec fn source(&self) -> Seq<char> {
        self.pattern@
    }
}

/// `Regex::new`: compiles `pattern`; on failure, the error's message.
#[verifier::external_body]
pub(crate) fn compile(pattern: &str) -> (r: Result<CompiledPattern, String>)
    ensures
        r is Ok <==> regex_compiles(pattern@),
        r matches Ok(p) ==> p.source() == pattern@,
{
    match regex::Regex::new(pattern) {
        Ok(re) => Ok(CompiledPattern { re, pattern: Ghost(pattern@) }),
        Err(e) => Err(e.to_string()),
    }
}

/// `Regex::captures`, each group taken as an owned string.
#[verifier::external_body]
fn captures(p: &CompiledPattern, text: &str) -> (r: Option<Vec<Option<String>>>)
    ensures
        match r {
            Some(groups) => regex_captures(p.source(), text@) == Some(
                groups@.map_values(|g: Option<String>| match g { Some(s) => Some(s@), None => None })),
            None => regex_captures(p.source(), text@) is None,
        },
{
    p.re.captures(text).map(|c| c.iter().map(|m| m.map(|m| m.as_str().to_string())).collect())
}

/// `Regex::find_iter(text).count()`.
#[verifier::external_body]
pub(crate) fn match_count(p: &CompiledPattern, text: &str) -> (n: usize)
    ensures
        n == regex_match_count(p.source(), text@),
{
    p.re.find_iter(text).count()
}

/// `regex::escape`: a backslash before each meta character, every
/// character kept (see [`regex_escaped`]).
#[verifier::external_body]
pub(crate) fn escape(text: &str) -> (r: String)
    ensures
        r@ == regex_escaped(text@),
{
    regex::escape(text)
}

/// Why code intelligence failed.
pub enum CodeIntelError {
    /// A pattern did not compile; the message says why.
    Pattern(String),
}

/// A declaration found in a source file.
pub struct Symbol {
    pub name: String,
    pub kind: String,
    pub file: String,
    pub line: usize,
}

/// A symbol as plain values: name, kind, file and line number.
pub open spec fn symbol_view(s: Symbol) -> (Seq<char>, Seq<char>, Seq<char>, int) {
    (s.name@, s.kind@, s.file@, s.line as int)
}

pub open spec fn symbol_views(v: Seq<Symbol>) -> Seq<(Seq<char>, Seq<char>, Seq<char>, int)> {
    v.map_values(|s: Symbol| symbol_view(s))
}

/// The pattern of a declaration: a keyword, whitespace, then the declared
/// name.
pub const SYMBOL_PATTERN: &'static str = "(fn|struct|enum|trait|impl)\\s+([A-Za-z0-9_]+)";

/// The (kind, name) that a line's captures declare: groups 1 and 2 of a
/// match. A match without both groups declares nothing.
pub open spec fn declared(caps: Option<Seq<Option<Seq<char>>>>) -> Option<(Seq<char>, Seq<char>)> {
    match caps {
        Some(groups) => if groups.len() > 2 && groups[1] is Some && groups[2] is Some {
            Some((groups[1]->0, groups[2]->0))
        } else {
            None
        },
        None => None,
    }
}

/// The symbols declared by `lines` of `file`, one per line whose first match
/// of `pattern` declares one, numbered from 1.
pub open spec fn file_symbols(pattern: Seq<char>, file: Seq<char>, lines: Seq<Seq<char>>) -> Seq<(Seq<char>, Seq<char>, Seq<char>, int)>
    decreases lines.len(),
{
    if lines.len() == 0 {
        seq![]
    } else {
        let earlier = file_symbols(pattern, file, lines.drop_last());
        match declared(regex_captures(pattern, lines.last())) {
            Some((kind, name)) => earlier.push((name, kind, file, lines.len() as int)),
            None => earlier,
        }
    }
}

/// The symbols declared by `files`, given as (path, text), in file order.
pub open spec fn all_symbols(pattern: Seq<char>, files: Seq<(Seq<char>, Seq<char>)>) -> Seq<(Seq<char>, Seq<char>, Seq<char>, int)>
    decreases files.len(),
{
    if files.len() == 0 {
        seq![]
    } else {
        all_symbols(pattern, files.drop_last()) + file_symbols(pattern, files.last().0, text_lines(files.last().1))
    }
}

pub open spec fn file_views(v: Seq<(String, String)>) -> Seq<(Seq<char>, Seq<char>)> {
    v.map_values(|f: (String, String)| (f.0@, f.1@))
}

fn group_text(g: &Option<String>) -> (r: String)
    requires
        g is Some,
    ensures
        r@ == g->0@,
{
    match g {
        Some(s) => s.clone(),
        None => String::new(),
    }
}

/// Appends the symbols that the text of `file` declares (see [`file_symbols`]).
fn push_file_symbols(p: &CompiledPattern, file: &str, text: &str, out: &mut Vec<Symbol>)
    ensures
        symbol_views(final(out)@) == symbol_views(old(out)@) + file_symbols(p.source(), file@, text_lines(text@)),
{
    let lines = lines_of(text);
    let ghost ls = views(lines@);
    let ghost start = symbol_views(out@);
    let mut i: usize = 0;
    assert(ls.subrange(0, 0) =~= Seq::<Seq<char>>::empty());
    while i < lines.len()
        invariant
            i <= lines.len(),
            ls == views(lines@),
            ls == text_lines(text@),
            symbol_views(out@) == start + file_symbols(p.source(), file@, ls.subrange(0, i as int)),
        decreases lines.len() - i,
    {
        let caps = captures(p, lines[i].as_str());
        let ghost upto = ls.subrange(0, i + 1);
        proof {
            assert(upto.drop_last() =~= ls.subrange(0, i as int));
            assert(upto.last() == lines@[i as int]@);
        }
        match caps {
            Some(groups) => {
                if groups.len() > 2 && groups[1].is_some() && groups[2].is_some() {
                    let kind = group_text(&groups[1]);
                    let name = group_text(&groups[2]);
                    let ghost before = out@;
                    out.push(Symbol { name, kind, file: file.to_string(), line: i + 1 });
                    assert(symbol_views(out@) =~= symbol_views(before).push(symbol_view(out@[out@.len() - 1])));
                } else {
                }
            },
            None => {},
        }
        i = i + 1;
    }
    assert(ls.subrange(0, lines.len() as int) =~= ls);
}

/// The symbols declared in `files`, given as (path, text) (see
/// [`all_symbols`]); an error when the declaration pattern does not compile.
pub fn index(files: &Vec<(String, String)>) -> (r: Result<Vec<Symbol>, CodeIntelError>)
    ensures
        r is Ok <==> regex_compiles(SYMBOL_PATTERN@),
        r matches Ok(v) ==> symbol_views(v@) == all_symbols(SYMBOL_PATTERN@, file_views(files@)),
{
    let p = match compile(SYMBOL_PATTERN) {
        Ok(p) => p,
        Err(msg) => return Err(CodeIntelError::Pattern(msg)),
    };
    let ghost fv = file_views(files@);
    let mut out: Vec<Symbol> = Vec::new();
    let mut k: usize = 0;
    assert(fv.subrange(0, 0) =~= Seq::<(Seq<char>, Seq<char>)>::empty());
    assert(symbol_views(out@) =~= Seq::<(Seq<char>, Seq<char>, Seq<char>, int)>::empty());
    while k < files.len()
        invariant
            k <= files.len(),
            fv == file_views(files@),
            p.source() == SYMBOL_PATTERN@,
            symbol_views(out@) == all_symbols(SYMBOL_PATTERN@, fv.subrange(0, k as int)),
        decreases files.len() - k,
    {
        push_file_symbols(&p, files[k].0.as_str(), files[k].1.as_str(), &mut out);
        proof {
            let upto = fv.subrange(0, k + 1);
            assert(upto.drop_last() =~= fv.subrange(0, k as int));
            assert(upto.last() == (files@[k as int].0@, files@[k as int].1@));
        }
        k = k + 1;
    }
    assert(fv.subrange(0, files.len() as int) =~= fv);
    Ok(out)
}

/// Every symbol found in a file names that file and one of its lines, and
/// that line declares it; symbols come in line order.
pub proof fn symbols_point_at_their_lines(pattern: Seq<char>, file: Seq<char>, lines: Seq<Seq<char>>)
    ensures
        forall|i: int| 0 <= i < file_symbols(pattern, file, lines).len() ==> {
            let s = #[trigger] file_symbols(pattern, file, lines)[i];
            &&& s.2 == file
            &&& 1 <= s.3 <= lines.len()
            &&& declared(regex_captures(pattern, lines[s.3 - 1])) == Some((s.1, s.0))
        },
        forall|i: int, j: int| 0 <= i < j < file_symbols(pattern, file, lines).len()
            ==> (#[trigger] file_symbols(pattern, file, lines)[i]).3 < (#[trigger] file_symbols(pattern, file, lines)[j]).3,
    decreases lines.len(),
{
    if lines.len() > 0 {
        let prev = lines.drop_last();
        symbols_point_at_their_lines(pattern, file, prev);
        let earlier = file_symbols(pattern, file, prev);
        let all = file_symbols(pattern, file, lines);
        assert forall|i: int| 0 <= i < earlier.len() implies (#[trigger] earlier[i]).3 <= prev.len()
            && lines[earlier[i].3 - 1] == prev[earlier[i].3 - 1] by {}
        match declared(regex_captures(pattern, lines.last())) {
            Some((kind, name)) => {
                assert forall|i: int| 0 <= i < all.len() implies {
                    let s = #[trigger] all[i];
                    &&& s.2 == file
                    &&& 1 <= s.3 <= lines.len()
                    &&& declared(regex_captures(pattern, lines[s.3 - 1])) == Some((s.1, s.0))
                } by {
                    if i < earlier.len() { assert(all[i] == earlier[i]); }
                    else { assert(lines[lines.len() - 1] == lines.last()); }
                }
                assert forall|i: int, j: int| 0 <= i < j < all.len() implies (#[trigger] all[i]).3 < (#[trigger] all[j]).3 by {
                    assert(all[i] == earlier[i]);
                    if j < earlier.len() { assert(all[j] == earlier[j]); }
                }
            },
            None => {
                assert forall|i: int| 0 <= i < all.len() implies {
                    let s = #[trigger] all[i];
                    &&& s.2 == file
                    &&& 1 <= s.3 <= lines.len()
                    &&& declared(regex_captures(pattern, lines[s.3 - 1])) == Some((s.1, s.0))
                } by {
                    assert(all[i] == earlier[i]);
                }
            },
        }
    }
}

/// The symbol for the (kind, name) declaration `d` in `file` at `line`.
pub open spec fn declared_symbol(d: (Seq<char>, Seq<char>), file: Seq<char>, line: int) -> (Seq<char>, Seq<char>, Seq<char>, int) {
    (d.1, d.0, file, line)
}

/// Every declaration is found: each line of the file whose first match of
/// the pattern declares a (kind, name) gives a symbol with that name and
/// kind, in that file, at that line (numbered from 1). Together with
/// [`symbols_point_at_their_lines`], the symbols of a file are exactly its
/// declaring lines, in order.
pub proof fn every_declaration_is_a_symbol(pattern: Seq<char>, file: Seq<char>, lines: Seq<Seq<char>>)
    ensures
        forall|j: int| 0 <= j < lines.len() && (#[trigger] declared(regex_captures(pattern, lines[j]))) is Some
            ==> file_symbols(pattern, file, lines).contains(declared_symbol(declared(regex_captures(pattern, lines[j]))->0, file, j + 1)),
    decreases lines.len(),
{
    if lines.len() > 0 {
        let prev = lines.drop_last();
        every_declaration_is_a_symbol(pattern, file, prev);
        let earlier = file_symbols(pattern, file, prev);
        let all = file_symbols(pattern, file, lines);
        assert forall|x: (Seq<char>, Seq<char>, Seq<char>, int)| earlier.contains(x) implies all.contains(x) by {
            let i = choose|i: int| 0 <= i < earlier.len() && earlier[i] == x;
            match declared(regex_captures(pattern, lines.last())) {
                Some((k, n)) => { assert(all[i] == earlier[i]); },
                None => {},
            }
        }
        assert forall|j: int| 0 <= j < lines.len() && (#[trigger] declared(regex_captures(pattern, lines[j]))) is Some
            implies all.contains(declared_symbol(declared(regex_captures(pattern, lines[j]))->0, file, j + 1)) by {
            let d = declared(regex_captures(pattern, lines[j]))->0;
            if j < prev.len() {
                assert(prev[j] == lines[j]);
                assert(declared(regex_captures(pattern, prev[j])) is Some);
                assert(earlier.contains(declared_symbol(d, file, j + 1)));
            } else {
                assert(lines[j] == lines.last());
                assert(all[all.len() - 1] == declared_symbol(d, file, j + 1));
            }
        }
    }
}

} // verus!
