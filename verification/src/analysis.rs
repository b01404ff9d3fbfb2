//! Reference counting: how often each declared symbol is named across a
//! set of source files.

use vstd::prelude::*;
use crate::codeintel::{
    CodeIntelError, CompiledPattern, SYMBOL_PATTERN, all_symbols, compile, escape, file_views, index, match_count,
    regex_compiles, regex_escaped, regex_match_count, symbol_views,
};
use crate::text::{push_str, str_eq, views};

verus! {

/// The pattern that finds whole-word uses of `name`.
pub open spec fn reference_pattern(name: Seq<char>) -> Seq<char> {
    "\\b"@ + regex_escaped(name) + "\\b"@
}

/// The matches of `pattern` summed over `texts`.
pub open spec fn total_matches(pattern: Seq<char>, texts: Seq<Seq<char>>) -> nat
    decreases texts.len(),
{
    if texts.len() == 0 {
        0
    } else {
        total_matches(pattern, texts.drop_last()) + regex_match_count(pattern, texts.last())
    }
}

/// `n`, or `usize::MAX` when `n` does not fit.
pub open spec fn capped(n: nat) -> usize {
    if n > usize::MAX { usize::MAX } else { n as usize }
}

/// Some symbol in `symbols` is named `x`.
pub open spec fn names_symbol(symbols: Seq<(Seq<char>, Seq<char>, Seq<char>, int)>, x: Seq<char>) -> bool {
    exists|i: int| 0 <= i < symbols.len() && (#[trigger] symbols[i]).0 == x
}

pub open spec fn file_texts(files: Seq<(Seq<char>, Seq<char>)>) -> Seq<Seq<char>> {
    files.map_values(|f: (Seq<char>, Seq<char>)| f.1)
}

/// The references of `files`, given as (path, text), are exact: one entry
/// per distinct symbol name that the files declare, counting the whole-word
/// uses of that name over all the texts.
pub open spec fn references_spec(files: Seq<(Seq<char>, Seq<char>)>, out: Seq<(Seq<char>, usize)>) -> bool {
    let symbols = all_symbols(SYMBOL_PATTERN@, files);
    &&& out.map_values(|e: (Seq<char>, usize)| e.0).no_duplicates()
    &&& forall|x: Seq<char>| (exists|i: int| 0 <= i < out.len() && (#[trigger] out[i]).0 == x) <==> names_symbol(symbols, x)
    &&& forall|i: int| 0 <= i < out.len() ==> (#[trigger] out[i]).1 == capped(total_matches(reference_pattern(out[i].0), file_texts(files)))
}

/// Every declared name gives a pattern that compiles.
pub open spec fn patterns_compile(files: Seq<(Seq<char>, Seq<char>)>) -> bool {
    forall|x: Seq<char>| names_symbol(all_symbols(SYMBOL_PATTERN@, files), x) ==> regex_compiles(reference_pattern(x))
}

fn count_over(p: &CompiledPattern, files: &Vec<(String, String)>) -> (n: usize)
    ensures
        n == capped(total_matches(p.source(), file_texts(file_views(files@)))),
{
    let ghost texts = file_texts(file_views(files@));
    let mut total: usize = 0;
    let mut k: usize = 0;
    assert(texts.subrange(0, 0) =~= Seq::<Seq<char>>::empty());
    while k < files.len()
        invariant
            k <= files.len(),
            texts == file_texts(file_views(files@)),
            total == capped(total_matches(p.source(), texts.subrange(0, k as int))),
        decreases files.len() - k,
    {
        let c = match_count(p, files[k].1.as_str());
        proof {
            let upto = texts.subrange(0, k + 1);
            assert(upto.drop_last() =~= texts.subrange(0, k as int));
            assert(upto.last() == files@[k as int].1@);
        }
        total = total.saturating_add(c);
        k = k + 1;
    }
    assert(texts.subrange(0, files.len() as int) =~= texts);
    total
}

fn contains_name(names: &Vec<String>, x: &str) -> (b: bool)
    ensures
        b == views(names@).contains(x@),
{
    let mut i: usize = 0;
    while i < names.len()
        invariant
            i <= names.len(),
            forall|j: int| 0 <= j < i ==> names@[j]@ != x@,
        decreases names.len() - i,
    {
        if str_eq(names[i].as_str(), x) {
            assert(views(names@)[i as int] == x@);
            return true;
        }
        i = i + 1;
    }
    proof {
        if views(names@).contains(x@) {
            let j = choose|j: int| 0 <= j < views(names@).len() && views(names@)[j] == x@;
            assert(names@[j]@ == x@);
        }
    }
    false
}

/// How often each symbol that `files` declare is named in them (see
/// [`references_spec`]); an error when a pattern does not compile.
pub fn references(files: &Vec<(String, String)>) -> (r: Result<Vec<(String, usize)>, CodeIntelError>)
    ensures
        r is Ok <==> (regex_compiles(SYMBOL_PATTERN@) && patterns_compile(file_views(files@))),
        r matches Ok(v) ==> references_spec(file_views(files@), v@.map_values(|e: (String, usize)| (e.0@, e.1))),
{
    let symbols = match index(files) {
        Ok(s) => s,
        Err(e) => return Err(e),
    };
    let ghost fv = file_views(files@);
    let ghost syms = all_symbols(SYMBOL_PATTERN@, fv);
    assert(syms.len() == symbols@.len());
    // The distinct names, in order of first declaration.
    let mut names: Vec<String> = Vec::new();
    let mut i: usize = 0;
    while i < symbols.len()
        invariant
            i <= symbols.len(),
            symbol_views(symbols@) == syms,
            views(names@).no_duplicates(),
            forall|x: Seq<char>| views(names@).contains(x) <==> (exists|j: int| 0 <= j < i && (#[trigger] syms[j]).0 == x),
        decreases symbols.len() - i,
    {
        assert(syms[i as int].0 == symbols@[i as int].name@);
        if !contains_name(&names, symbols[i].name.as_str()) {
            let ghost before = views(names@);
            names.push(symbols[i].name.clone());
            proof {
                assert(views(names@) =~= before.push(symbols@[i as int].name@));
                assert forall|a: int, b: int| 0 <= a < views(names@).len() && 0 <= b < views(names@).len() && a != b
                    implies views(names@)[a] != views(names@)[b] by {
                    if a == before.len() { assert(views(names@)[b] == before[b]); }
                    if b == before.len() { assert(views(names@)[a] == before[a]); }
                }
                assert forall|x: Seq<char>| views(names@).contains(x) <==> (exists|j: int| 0 <= j < i + 1 && (#[trigger] syms[j]).0 == x) by {
                    if views(names@).contains(x) {
                        let a = choose|a: int| 0 <= a < views(names@).len() && views(names@)[a] == x;
                        if a < before.len() { assert(before[a] == x); assert(before.contains(x)); }
                    }
                    if exists|j: int| 0 <= j < i + 1 && (#[trigger] syms[j]).0 == x {
                        let j = choose|j: int| 0 <= j < i + 1 && (#[trigger] syms[j]).0 == x;
                        if j < i { assert(before.contains(x)); let a = choose|a: int| 0 <= a < before.len() && before[a] == x; assert(views(names@)[a] == x); }
                        else { assert(views(names@)[before.len() as int] == x); }
                    }
                }
            }
        } else {
            proof {
                assert forall|x: Seq<char>| views(names@).contains(x) <==> (exists|j: int| 0 <= j < i + 1 && (#[trigger] syms[j]).0 == x) by {
                    if exists|j: int| 0 <= j < i + 1 && (#[trigger] syms[j]).0 == x {
                        let j = choose|j: int| 0 <= j < i + 1 && (#[trigger] syms[j]).0 == x;
                        if j == i { assert(views(names@).contains(symbols@[i as int].name@)); }
                    }
                }
            }
        }
        i = i + 1;
    }
    assert forall|x: Seq<char>| views(names@).contains(x) <==> names_symbol(syms, x) by {
        if names_symbol(syms, x) {
            let j = choose|j: int| 0 <= j < syms.len() && (#[trigger] syms[j]).0 == x;
            assert(0 <= j < symbols.len());
        }
    }
    let mut out: Vec<(String, usize)> = Vec::new();
    let mut n: usize = 0;
    while n < names.len()
        invariant
            n <= names.len(),
            fv == file_views(files@),
            syms == all_symbols(SYMBOL_PATTERN@, fv),
            forall|x: Seq<char>| views(names@).contains(x) <==> names_symbol(syms, x),
            views(names@).no_duplicates(),
            out@.len() == n,
            forall|j: int| 0 <= j < n ==> (#[trigger] out@[j]).0@ == names@[j]@
                && out@[j].1 == capped(total_matches(reference_pattern(names@[j]@), file_texts(fv))),
            forall|j: int| 0 <= j < n ==> regex_compiles(reference_pattern(#[trigger] names@[j]@)),
        decreases names.len() - n,
    {
        let mut pattern = String::new();
        push_str(&mut pattern, "\\b");
        let escaped = escape(names[n].as_str());
        push_str(&mut pattern, escaped.as_str());
        push_str(&mut pattern, "\\b");
        assert(pattern@ =~= reference_pattern(names@[n as int]@));
        let p = match compile(pattern.as_str()) {
            Ok(p) => p,
            Err(msg) => {
                proof {
                    assert(views(names@)[n as int] == names@[n as int]@);
                    assert(views(names@).contains(names@[n as int]@));
                    assert(names_symbol(syms, names@[n as int]@));
                    assert(!regex_compiles(reference_pattern(names@[n as int]@)));
                    assert(!patterns_compile(file_views(files@)));
                }
                return Err(CodeIntelError::Pattern(msg));
            },
        };
        let c = count_over(&p, files);
        out.push((names[n].clone(), c));
        n = n + 1;
    }
    proof {
        let ov = out@.map_values(|e: (String, usize)| (e.0@, e.1));
        assert(ov.map_values(|e: (Seq<char>, usize)| e.0) =~= views(names@));
        assert forall|x: Seq<char>| (exists|j: int| 0 <= j < ov.len() && (#[trigger] ov[j]).0 == x) <==> names_symbol(syms, x) by {
            if exists|j: int| 0 <= j < ov.len() && (#[trigger] ov[j]).0 == x {
                let j = choose|j: int| 0 <= j < ov.len() && (#[trigger] ov[j]).0 == x;
                assert(views(names@)[j] == x);
            }
            if names_symbol(syms, x) {
                let j = choose|j: int| 0 <= j < syms.len() && (#[trigger] syms[j]).0 == x;
                assert(views(names@).contains(x));
                let a = choose|a: int| 0 <= a < views(names@).len() && views(names@)[a] == x;
                assert(ov[a].0 == x);
            }
        }
        assert forall|x: Seq<char>| names_symbol(syms, x) implies regex_compiles(reference_pattern(x)) by {
            let j = choose|j: int| 0 <= j < syms.len() && (#[trigger] syms[j]).0 == x;
            assert(views(names@).contains(x));
            let a = choose|a: int| 0 <= a < views(names@).len() && views(names@)[a] == x;
            assert(names@[a]@ == x);
        }
    }
    Ok(out)
}

} // verus!
