//! Decisions and text of the command-line front end: which proposed shell
//! commands run without asking, how streamed answers are wrapped, and the
//! small reports the commands print.

use vstd::prelude::*;
use crate::text::{chars_of, is_whitespace, is_ws, push_char, push_str, str_contains, contains_seq, trim, trimmed, views};

verus! {

/// `s` without leading backticks.
pub open spec fn drop_ticks_start(s: Seq<char>) -> Seq<char>
    decreases s.len(),
{
    if s.len() > 0 && s[0] == '`' { drop_ticks_start(s.drop_first()) } else { s }
}

/// `s` without trailing backticks.
pub open spec fn drop_ticks_end(s: Seq<char>) -> Seq<char>
    decreases s.len(),
{
    if s.len() > 0 && s.last() == '`' { drop_ticks_end(s.drop_last()) } else { s }
}

/// A command proposed by the model, cleaned: trimmed, stripped of the
/// backticks around it (`trim_matches('`')`), and trimmed again.
pub open spec fn cleaned_command(raw: Seq<char>) -> Seq<char> {
    trimmed(drop_ticks_end(drop_ticks_start(trimmed(raw))))
}

fn drop_ticks(s: &str) -> (r: String)
    ensures
        r@ == drop_ticks_end(drop_ticks_start(s@)),
{
    let cs = chars_of(s);
    let mut lo: usize = 0;
    assert(cs@.skip(0) =~= cs@);
    while lo < cs.len() && cs[lo] == '`'
        invariant
            cs@ == s@,
            lo <= cs.len(),
            drop_ticks_start(s@) == drop_ticks_start(cs@.skip(lo as int)),
        decreases cs.len() - lo,
    {
        assert(cs@.skip(lo as int).drop_first() =~= cs@.skip(lo + 1));
        lo = lo + 1;
    }
    assert(drop_ticks_start(s@) == cs@.skip(lo as int)) by {
        if lo < cs.len() { assert(cs@.skip(lo as int)[0] == cs@[lo as int]); }
    }
    let mut hi: usize = cs.len();
    while hi > lo && cs[hi - 1] == '`'
        invariant
            cs@ == s@,
            lo <= hi <= cs.len(),
            drop_ticks_end(cs@.skip(lo as int)) == drop_ticks_end(cs@.subrange(lo as int, hi as int)),
        decreases hi - lo,
    {
        assert(cs@.subrange(lo as int, hi as int).drop_last() =~= cs@.subrange(lo as int, hi - 1));
        hi = hi - 1;
    }
    assert(cs@.skip(lo as int) =~= cs@.subrange(lo as int, cs.len() as int)) by {}
    assert(drop_ticks_end(cs@.subrange(lo as int, hi as int)) == cs@.subrange(lo as int, hi as int)) by {
        if hi > lo { assert(cs@.subrange(lo as int, hi as int).last() == cs@[hi - 1]); }
    }
    let mut r = String::new();
    let mut i = lo;
    while i < hi
        invariant
            cs@ == s@,
            lo <= i <= hi <= cs.len(),
            r@ == cs@.subrange(lo as int, i as int),
        decreases hi - i,
    {
        push_char(&mut r, cs[i]);
        assert(cs@.subrange(lo as int, i + 1) =~= cs@.subrange(lo as int, i as int).push(cs@[i as int]));
        i = i + 1;
    }
    r
}

/// Exec counterpart of [`cleaned_command`].
pub fn clean_command(raw: &str) -> (r: String)
    ensures
        r@ == cleaned_command(raw@),
{
    let t = trim(raw);
    let d = drop_ticks(t.as_str());
    trim(d.as_str())
}

/// `s` begins with `p`.
pub open spec fn starts_with(s: Seq<char>, p: Seq<char>) -> bool {
    p.len() <= s.len() && s.take(p.len() as int) == p
}

fn str_starts_with(s: &str, p: &str) -> (b: bool)
    ensures
        b == starts_with(s@, p@),
{
    let cs = chars_of(s);
    let ps = chars_of(p);
    if ps.len() > cs.len() {
        return false;
    }
    let mut i: usize = 0;
    while i < ps.len()
        invariant
            cs@ == s@,
            ps@ == p@,
            ps.len() <= cs.len(),
            i <= ps.len(),
            forall|j: int| 0 <= j < i ==> cs@[j] == ps@[j],
        decreases ps.len() - i,
    {
        if cs[i] != ps[i] {
            assert(s@.take(p@.len() as int)[i as int] != p@[i as int]);
            return false;
        }
        i = i + 1;
    }
    assert(s@.take(p@.len() as int) =~= p@);
    true
}

/// The commands that only read, which run without confirmation.
pub open spec fn read_only_prefixes() -> Seq<Seq<char>> {
    seq!["mdfind"@, "find"@, "ls"@, "cat"@, "echo"@, "pwd"@, "date"@, "whoami"@, "grep"@, "rg"@]
}

/// A proposed command runs without confirmation when it starts with one of
/// the read-only commands (by text, as the command line reads).
pub open spec fn safe_command(cmd: Seq<char>) -> bool {
    exists|i: int| 0 <= i < read_only_prefixes().len() && starts_with(cmd, #[trigger] read_only_prefixes()[i])
}

/// Exec counterpart of [`safe_command`].
pub fn is_safe_command(cmd: &str) -> (b: bool)
    ensures
        b == safe_command(cmd@),
{
    let prefixes = ["mdfind", "find", "ls", "cat", "echo", "pwd", "date", "whoami", "grep", "rg"];
    let ghost ps = read_only_prefixes();
    let mut i: usize = 0;
    while i < 10
        invariant
            i <= 10,
            ps == read_only_prefixes(),
            forall|k: int| 0 <= k < 10 ==> (#[trigger] prefixes@[k])@ == ps[k],
            forall|j: int| 0 <= j < i ==> !starts_with(cmd@, #[trigger] ps[j]),
        decreases 10 - i,
    {
        if str_starts_with(cmd, prefixes[i]) {
            return true;
        }
        i = i + 1;
    }
    false
}

/// The column at which a streamed answer wraps at the next whitespace.
pub const WRAP_COLUMN: usize = 74;

/// One streamed character: a line feed starts a new indented line; any
/// other character is shown, and whitespace at or past the wrap column
/// also starts a new indented line. Returns what is shown and the new
/// column (counting stops at `usize::MAX`).
pub open spec fn wrap_step(col: usize, c: char) -> (Seq<char>, usize) {
    if c == '\n' {
        ("\n  "@, 2)
    } else {
        let next: usize = if col == usize::MAX { col } else { (col + 1) as usize };
        if next >= WRAP_COLUMN && is_ws(c) { (seq![c] + "\n  "@, 2) } else { (seq![c], next) }
    }
}

/// A streamed chunk shown from column `col`: what is printed, and the
/// column after it.
pub open spec fn wrap_text(col: usize, s: Seq<char>) -> (Seq<char>, usize)
    decreases s.len(),
{
    if s.len() == 0 {
        (seq![], col)
    } else {
        let (shown, next) = wrap_step(col, s[0]);
        let (rest, last) = wrap_text(next, s.drop_first());
        (shown + rest, last)
    }
}

/// Exec counterpart of [`wrap_text`].
pub fn wrap_chunk(col: usize, chunk: &str) -> (r: (String, usize))
    ensures
        (r.0@, r.1) == wrap_text(col, chunk@),
{
    let cs = chars_of(chunk);
    let mut out = String::new();
    let mut c = col;
    let mut i: usize = 0;
    assert(chunk@.skip(0) =~= chunk@);
    while i < cs.len()
        invariant
            cs@ == chunk@,
            i <= cs.len(),
            wrap_text(col, chunk@) == (out@ + wrap_text(c, chunk@.skip(i as int)).0, wrap_text(c, chunk@.skip(i as int)).1),
        decreases cs.len() - i,
    {
        let ch = cs[i];
        let ghost rest = chunk@.skip(i as int);
        let ghost c0 = c;
        assert(rest[0] == ch);
        assert(rest.drop_first() =~= chunk@.skip(i + 1));
        let ghost before = out@;
        if ch == '\n' {
            push_str(&mut out, "\n  ");
            c = 2;
        } else {
            push_char(&mut out, ch);
            c = if c == usize::MAX { c } else { c + 1 };
            if c >= WRAP_COLUMN && is_whitespace(ch) {
                push_str(&mut out, "\n  ");
                c = 2;
            }
        }
        proof {
            let st = wrap_step(c0, ch);
            assert(out@ =~= before + st.0);
            assert(c == st.1);
            assert(wrap_text(c0, rest).0 =~= st.0 + wrap_text(c, chunk@.skip(i + 1)).0);
            assert(before + wrap_text(c0, rest).0 =~= out@ + wrap_text(c, chunk@.skip(i + 1)).0);
        }
        i = i + 1;
    }
    assert(chunk@.skip(cs.len() as int) =~= Seq::<char>::empty());
    assert(out@ + Seq::<char>::empty() =~= out@);
    (out, c)
}

} // verus!

verus! {

/// Whether `c` is alphabetic in Unicode (`char::is_alphabetic`).
pub uninterp spec fn unicode_alphabetic(c: char) -> bool;

/// Whether `c` is alphabetic or numeric in Unicode (`char::is_alphanumeric`).
pub uninterp spec fn unicode_alphanumeric(c: char) -> bool;

/// `char::is_alphabetic`, named by [`unicode_alphabetic`].
#[verifier::external_body]
fn is_alphabetic(c: char) -> (b: bool)
    ensures
        b == unicode_alphabetic(c),
{
    c.is_alphabetic()
}

/// `char::is_alphanumeric`, named by [`unicode_alphanumeric`].
#[verifier::external_body]
fn is_alphanumeric(c: char) -> (b: bool)
    ensures
        b == unicode_alphanumeric(c),
{
    c.is_alphanumeric()
}

/// The characters that separate an environment variable's name from what
/// precedes it in a search hit.
pub open spec fn separator(c: char) -> bool {
    c == '"' || c == '(' || c == ')' || c == '.'
}

/// The part of `s` after its last separator; all of `s` when it has none.
pub open spec fn last_piece(s: Seq<char>) -> Seq<char>
    decreases s.len(),
{
    if s.len() == 0 {
        s
    } else if separator(s.last()) {
        seq![]
    } else {
        last_piece(s.drop_last()).push(s.last())
    }
}

/// Characters trimmed from the ends of a name: neither alphanumeric nor `_`.
pub open spec fn junk(c: char) -> bool {
    !unicode_alphanumeric(c) && c != '_'
}

pub open spec fn trim_junk_start(s: Seq<char>) -> Seq<char>
    decreases s.len(),
{
    if s.len() > 0 && junk(s[0]) { trim_junk_start(s.drop_first()) } else { s }
}

pub open spec fn trim_junk_end(s: Seq<char>) -> Seq<char>
    decreases s.len(),
{
    if s.len() > 0 && junk(s.last()) { trim_junk_end(s.drop_last()) } else { s }
}

/// The variable name a search hit names: its last piece without junk at
/// either end.
pub open spec fn hit_name(line: Seq<char>) -> Seq<char> {
    trim_junk_end(trim_junk_start(last_piece(line)))
}

/// A name counts when it is not empty and has an alphabetic character.
pub open spec fn plausible_name(name: Seq<char>) -> bool {
    name.len() > 0 && exists|i: int| 0 <= i < name.len() && unicode_alphabetic(#[trigger] name[i])
}

/// The names found on `lines`, one per line that names a plausible one.
pub open spec fn hit_names(lines: Seq<Seq<char>>) -> Seq<Seq<char>>
    decreases lines.len(),
{
    if lines.len() == 0 {
        seq![]
    } else {
        let earlier = hit_names(lines.drop_last());
        let n = hit_name(lines.last());
        if plausible_name(n) { earlier.push(n) } else { earlier }
    }
}

/// `s` without repetitions, each element kept where it first occurs.
pub open spec fn first_occurrences(s: Seq<Seq<char>>) -> Seq<Seq<char>>
    decreases s.len(),
{
    if s.len() == 0 {
        seq![]
    } else {
        let d = first_occurrences(s.drop_last());
        if d.contains(s.last()) { d } else { d.push(s.last()) }
    }
}

fn name_of_hit(line: &str) -> (r: String)
    ensures
        r@ == hit_name(line@),
{
    let cs = chars_of(line);
    // Start of the last piece.
    let mut start: usize = cs.len();
    while start > 0 && !(cs[start - 1] == '"' || cs[start - 1] == '(' || cs[start - 1] == ')' || cs[start - 1] == '.')
        invariant
            cs@ == line@,
            start <= cs.len(),
            forall|k: int| start <= k < cs.len() ==> !separator(#[trigger] cs@[k]),
        decreases start,
    {
        start = start - 1;
    }
    proof { last_piece_from(line@, start as int); }
    let mut lo = start;
    while lo < cs.len() && !is_alphanumeric(cs[lo]) && cs[lo] != '_'
        invariant
            cs@ == line@,
            start <= lo <= cs.len(),
            trim_junk_start(cs@.subrange(start as int, cs.len() as int)) == trim_junk_start(cs@.subrange(lo as int, cs.len() as int)),
        decreases cs.len() - lo,
    {
        assert(cs@.subrange(lo as int, cs.len() as int).drop_first() =~= cs@.subrange(lo + 1, cs.len() as int));
        lo = lo + 1;
    }
    assert(trim_junk_start(cs@.subrange(lo as int, cs.len() as int)) == cs@.subrange(lo as int, cs.len() as int)) by {
        if lo < cs.len() { assert(cs@.subrange(lo as int, cs.len() as int)[0] == cs@[lo as int]); }
    }
    let mut hi = cs.len();
    while hi > lo && !is_alphanumeric(cs[hi - 1]) && cs[hi - 1] != '_'
        invariant
            cs@ == line@,
            lo <= hi <= cs.len(),
            trim_junk_end(cs@.subrange(lo as int, cs.len() as int)) == trim_junk_end(cs@.subrange(lo as int, hi as int)),
        decreases hi - lo,
    {
        assert(cs@.subrange(lo as int, hi as int).drop_last() =~= cs@.subrange(lo as int, hi - 1));
        hi = hi - 1;
    }
    assert(trim_junk_end(cs@.subrange(lo as int, hi as int)) == cs@.subrange(lo as int, hi as int)) by {
        if hi > lo { assert(cs@.subrange(lo as int, hi as int).last() == cs@[hi - 1]); }
    }
    let mut r = String::new();
    let mut i = lo;
    while i < hi
        invariant
            cs@ == line@,
            lo <= i <= hi <= cs.len(),
            r@ == cs@.subrange(lo as int, i as int),
        decreases hi - i,
    {
        push_char(&mut r, cs[i]);
        assert(cs@.subrange(lo as int, i + 1) =~= cs@.subrange(lo as int, i as int).push(cs@[i as int]));
        i = i + 1;
    }
    r
}

proof fn last_piece_from(s: Seq<char>, start: int)
    requires
        0 <= start <= s.len(),
        forall|k: int| start <= k < s.len() ==> !separator(#[trigger] s[k]),
        start == 0 || separator(s[start - 1]),
    ensures
        last_piece(s) == s.subrange(start, s.len() as int),
    decreases s.len(),
{
    if s.len() > start {
        assert(!separator(s[s.len() - 1]));
        let t = s.drop_last();
        assert forall|k: int| start <= k < t.len() implies !separator(#[trigger] t[k]) by {
            assert(t[k] == s[k]);
        }
        if start > 0 { assert(t[start - 1] == s[start - 1]); }
        last_piece_from(t, start);
        assert(t.subrange(start, t.len() as int).push(s.last()) =~= s.subrange(start, s.len() as int));
    } else {
        if s.len() > 0 {
            assert(separator(s.last()));
        }
        assert(s.subrange(start, s.len() as int) =~= Seq::<char>::empty());
    }
}

fn has_alphabetic(s: &str) -> (b: bool)
    ensures
        b == (exists|i: int| 0 <= i < s@.len() && unicode_alphabetic(#[trigger] s@[i])),
{
    let cs = chars_of(s);
    let mut i: usize = 0;
    while i < cs.len()
        invariant
            cs@ == s@,
            i <= cs.len(),
            forall|j: int| 0 <= j < i ==> !unicode_alphabetic(#[trigger] s@[j]),
        decreases cs.len() - i,
    {
        if is_alphabetic(cs[i]) {
            return true;
        }
        i = i + 1;
    }
    false
}

fn contains_string(v: &Vec<String>, x: &str) -> (b: bool)
    ensures
        b == views(v@).contains(x@),
{
    let mut i: usize = 0;
    while i < v.len()
        invariant
            i <= v.len(),
            forall|j: int| 0 <= j < i ==> views(v@)[j] != x@,
        decreases v.len() - i,
    {
        assert(views(v@)[i as int] == v@[i as int]@);
        if crate::text::str_eq(v[i].as_str(), x) {
            return true;
        }
        i = i + 1;
    }
    false
}

/// The environment variables named in the output of a code search, each
/// once, in order of first mention (see [`hit_names`]).
pub fn env_vars(search_output: &str) -> (v: Vec<String>)
    ensures
        views(v@) == first_occurrences(hit_names(crate::text::text_lines(search_output@))),
{
    let lines = crate::text::lines_of(search_output);
    let ghost ls = views(lines@);
    let mut out: Vec<String> = Vec::new();
    let mut k: usize = 0;
    assert(ls.subrange(0, 0) =~= Seq::<Seq<char>>::empty());
    while k < lines.len()
        invariant
            k <= lines.len(),
            ls == views(lines@),
            ls == crate::text::text_lines(search_output@),
            views(out@) == first_occurrences(hit_names(ls.subrange(0, k as int))),
        decreases lines.len() - k,
    {
        let ghost upto = ls.subrange(0, k + 1);
        assert(upto.drop_last() =~= ls.subrange(0, k as int));
        assert(upto.last() == lines@[k as int]@);
        let name = name_of_hit(lines[k].as_str());
        proof {
            let earlier = hit_names(ls.subrange(0, k as int));
            let n = hit_name(lines@[k as int]@);
            assert(hit_names(upto) == if plausible_name(n) { earlier.push(n) } else { earlier });
            assert(earlier.push(n).drop_last() =~= earlier);
            assert(earlier.push(n).last() == n);
        }
        if !name.as_str().is_empty() && has_alphabetic(name.as_str()) {
            if !contains_string(&out, name.as_str()) {
                let ghost before = views(out@);
                out.push(name);
                assert(views(out@) =~= before.push(hit_name(lines@[k as int]@)));
            }
        }
        k = k + 1;
    }
    assert(ls.subrange(0, lines.len() as int) =~= ls);
    out
}

/// The text of an `.env.example` file: one `NAME=` line per variable.
pub open spec fn env_example_text(vars: Seq<Seq<char>>) -> Seq<char>
    decreases vars.len(),
{
    if vars.len() == 0 { seq![] } else { env_example_text(vars.drop_last()) + vars.last() + "=\n"@ }
}

/// Exec counterpart of [`env_example_text`].
pub fn env_example(vars: &Vec<String>) -> (s: String)
    ensures
        s@ == env_example_text(views(vars@)),
{
    let mut s = String::new();
    let mut i: usize = 0;
    assert(views(vars@).subrange(0, 0) =~= Seq::<Seq<char>>::empty());
    while i < vars.len()
        invariant
            i <= vars.len(),
            s@ == env_example_text(views(vars@).subrange(0, i as int)),
        decreases vars.len() - i,
    {
        push_str(&mut s, vars[i].as_str());
        push_str(&mut s, "=\n");
        assert(views(vars@).subrange(0, i + 1).drop_last() =~= views(vars@).subrange(0, i as int));
        i = i + 1;
    }
    assert(views(vars@).subrange(0, vars.len() as int) =~= views(vars@));
    s
}

} // verus!

verus! {

/// `s` ends with `p`.
pub open spec fn ends_with(s: Seq<char>, p: Seq<char>) -> bool {
    p.len() <= s.len() && s.skip(s.len() - p.len()) == p
}

fn str_ends_with(s: &str, p: &str) -> (b: bool)
    ensures
        b == ends_with(s@, p@),
{
    let cs = chars_of(s);
    let ps = chars_of(p);
    if ps.len() > cs.len() {
        return false;
    }
    let off = cs.len() - ps.len();
    let mut i: usize = 0;
    while i < ps.len()
        invariant
            cs@ == s@,
            ps@ == p@,
            off + ps.len() == cs.len(),
            i <= ps.len(),
            forall|j: int| 0 <= j < i ==> cs@[off + j] == ps@[j],
        decreases ps.len() - i,
    {
        if cs[off + i] != ps[i] {
            assert(s@.skip(off as int)[i as int] != p@[i as int]);
            return false;
        }
        i = i + 1;
    }
    assert(s@.skip(off as int) =~= p@);
    true
}

/// A test file by its path: the path mentions `test` or `spec`.
pub open spec fn test_path(p: Seq<char>) -> bool {
    contains_seq(p, "test"@) || contains_seq(p, "spec"@)
}

/// A source file by its path: a Rust, JavaScript, TypeScript or Python file.
pub open spec fn source_path(p: Seq<char>) -> bool {
    ends_with(p, ".rs"@) || ends_with(p, ".js"@) || ends_with(p, ".ts"@) || ends_with(p, ".py"@)
}

/// Some test path mentions `stem`.
pub open spec fn covered(paths: Seq<Seq<char>>, stem: Seq<char>) -> bool {
    exists|i: int| 0 <= i < paths.len() && test_path(#[trigger] paths[i]) && contains_seq(paths[i], stem)
}

/// The source files without a test: each indexed (path, file stem) whose
/// path is a source path, not a test path, and whose stem no test path
/// mentions, in index order.
pub open spec fn gaps_of(files: Seq<(Seq<char>, Seq<char>)>, all: Seq<Seq<char>>) -> Seq<Seq<char>>
    decreases files.len(),
{
    if files.len() == 0 {
        seq![]
    } else {
        let earlier = gaps_of(files.drop_last(), all);
        let (p, stem) = files.last();
        if !test_path(p) && source_path(p) && !covered(all, stem) { earlier.push(p) } else { earlier }
    }
}

pub open spec fn pair_views(v: Seq<(String, String)>) -> Seq<(Seq<char>, Seq<char>)> {
    v.map_values(|f: (String, String)| (f.0@, f.1@))
}

pub open spec fn paths_of(v: Seq<(Seq<char>, Seq<char>)>) -> Seq<Seq<char>> {
    v.map_values(|f: (Seq<char>, Seq<char>)| f.0)
}

fn is_test_path(p: &str) -> (b: bool)
    ensures
        b == test_path(p@),
{
    str_contains(p, "test") || str_contains(p, "spec")
}

fn is_source_path(p: &str) -> (b: bool)
    ensures
        b == source_path(p@),
{
    str_ends_with(p, ".rs") || str_ends_with(p, ".js") || str_ends_with(p, ".ts") || str_ends_with(p, ".py")
}

fn is_covered(files: &Vec<(String, String)>, stem: &str) -> (b: bool)
    ensures
        b == covered(paths_of(pair_views(files@)), stem@),
{
    let ghost all = paths_of(pair_views(files@));
    let mut i: usize = 0;
    while i < files.len()
        invariant
            i <= files.len(),
            all == paths_of(pair_views(files@)),
            forall|j: int| 0 <= j < i ==> !(test_path(#[trigger] all[j]) && contains_seq(all[j], stem@)),
        decreases files.len() - i,
    {
        assert(all[i as int] == files@[i as int].0@);
        if is_test_path(files[i].0.as_str()) && str_contains(files[i].0.as_str(), stem) {
            return true;
        }
        i = i + 1;
    }
    false
}

/// The source files that no test mentions (see [`gaps_of`]); `files` pairs
/// each indexed path with its file stem.
pub fn test_gaps(files: &Vec<(String, String)>) -> (v: Vec<String>)
    ensures
        views(v@) == gaps_of(pair_views(files@), paths_of(pair_views(files@))),
{
    let ghost fv = pair_views(files@);
    let ghost all = paths_of(fv);
    let mut out: Vec<String> = Vec::new();
    let mut k: usize = 0;
    assert(fv.subrange(0, 0) =~= Seq::<(Seq<char>, Seq<char>)>::empty());
    while k < files.len()
        invariant
            k <= files.len(),
            fv == pair_views(files@),
            all == paths_of(fv),
            views(out@) == gaps_of(fv.subrange(0, k as int), all),
        decreases files.len() - k,
    {
        let ghost upto = fv.subrange(0, k + 1);
        assert(upto.drop_last() =~= fv.subrange(0, k as int));
        assert(upto.last() == (files@[k as int].0@, files@[k as int].1@));
        let p = files[k].0.as_str();
        if !is_test_path(p) && is_source_path(p) && !is_covered(files, files[k].1.as_str()) {
            let ghost before = views(out@);
            out.push(files[k].0.clone());
            assert(views(out@) =~= before.push(files@[k as int].0@));
        }
        k = k + 1;
    }
    assert(fv.subrange(0, files.len() as int) =~= fv);
    out
}

/// The onboarding guide: a heading, then one list item per indexed path.
pub open spec fn onboarding_text(paths: Seq<Seq<char>>) -> Seq<char>
    decreases paths.len(),
{
    if paths.len() == 0 {
        "# Project Onboarding Guide\n\n## Indexed Files\n\n"@
    } else {
        onboarding_text(paths.drop_last()) + "- "@ + paths.last() + "\n"@
    }
}

/// Exec counterpart of [`onboarding_text`].
pub fn onboarding_guide(paths: &Vec<String>) -> (s: String)
    ensures
        s@ == onboarding_text(views(paths@)),
{
    let mut s = "# Project Onboarding Guide\n\n## Indexed Files\n\n".to_string();
    let mut i: usize = 0;
    assert(views(paths@).subrange(0, 0) =~= Seq::<Seq<char>>::empty());
    while i < paths.len()
        invariant
            i <= paths.len(),
            s@ == onboarding_text(views(paths@).subrange(0, i as int)),
        decreases paths.len() - i,
    {
        push_str(&mut s, "- ");
        push_str(&mut s, paths[i].as_str());
        push_str(&mut s, "\n");
        assert(views(paths@).subrange(0, i + 1).drop_last() =~= views(paths@).subrange(0, i as int));
        i = i + 1;
    }
    assert(views(paths@).subrange(0, paths.len() as int) =~= views(paths@));
    s
}

/// The branch the diary files notes under: what `git branch
/// --show-current` printed, trimmed, or `main` when git gave nothing.
pub fn diary_branch(captured: Option<String>) -> (b: String)
    ensures
        b@ == trimmed(match captured { Some(s) => s@, None => "main"@ }),
{
    match captured {
        Some(s) => trim(s.as_str()),
        None => trim("main"),
    }
}

} // verus!
