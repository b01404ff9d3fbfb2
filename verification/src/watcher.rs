//! Decisions of the workspace watcher: when a file change calls for a
//! re-index, and when a new git status is worth announcing.

use vstd::prelude::*;
use crate::filesystem::{extension, file_extension};
use crate::text::str_eq;

verus! {

/// The quiet period between two re-indexes, in nanoseconds (thirty seconds).
pub const REINDEX_DEBOUNCE_NANOS: u128 = 30_000_000_000;

/// Extensions of the files whose changes call for a re-index.
pub open spec fn watched_extension(e: Seq<char>) -> bool {
    e == "rs"@ || e == "js"@ || e == "ts"@ || e == "py"@ || e == "md"@ || e == "toml"@ || e == "json"@
}

/// Some file among `names` has a watched extension.
pub open spec fn touches_watched(names: Seq<Seq<char>>) -> bool {
    exists|i: int| 0 <= i < names.len() && match extension(#[trigger] names[i]) {
        Some(e) => watched_extension(e),
        None => false,
    }
}

/// A re-index is due after a change (a creation, modification or removal)
/// that touches a watched file, once the quiet period since the last
/// re-index is over.
pub open spec fn reindex_due_spec(is_change: bool, names: Seq<Seq<char>>, nanos_since_reindex: u128) -> bool {
    is_change && touches_watched(names) && nanos_since_reindex > REINDEX_DEBOUNCE_NANOS
}

fn is_watched_extension(e: &str) -> (b: bool)
    ensures
        b == watched_extension(e@),
{
    str_eq(e, "rs") || str_eq(e, "js") || str_eq(e, "ts") || str_eq(e, "py") || str_eq(e, "md")
        || str_eq(e, "toml") || str_eq(e, "json")
}

/// Whether a change to the files named `names` calls for a re-index
/// (see [`touches_watched`]).
pub fn needs_reindex(names: &Vec<String>) -> (b: bool)
    ensures
        b == touches_watched(crate::text::views(names@)),
{
    let ghost vs = crate::text::views(names@);
    let mut i: usize = 0;
    while i < names.len()
        invariant
            i <= names.len(),
            vs == crate::text::views(names@),
            forall|j: int| 0 <= j < i ==> match extension(#[trigger] vs[j]) {
                Some(e) => !watched_extension(e),
                None => true,
            },
        decreases names.len() - i,
    {
        match file_extension(names[i].as_str()) {
            Some(e) => {
                if is_watched_extension(e.as_str()) {
                    assert(vs[i as int] == names@[i as int]@);
                    return true;
                }
            },
            None => {},
        }
        assert(vs[i as int] == names@[i as int]@);
        i = i + 1;
    }
    false
}

/// Whether to re-index now (see [`reindex_due_spec`]).
pub fn reindex_due(is_change: bool, names: &Vec<String>, nanos_since_reindex: u128) -> (b: bool)
    ensures
        b == reindex_due_spec(is_change, crate::text::views(names@), nanos_since_reindex),
{
    is_change && needs_reindex(names) && nanos_since_reindex > REINDEX_DEBOUNCE_NANOS
}

/// Takes in the latest `git status` output, when it could be read. A status
/// that differs from the last one replaces it, and is announced when it is
/// not empty; an equal status, or none, changes nothing.
pub fn git_status_step(last: &mut String, status: Option<String>) -> (announce: bool)
    ensures
        match status {
            Some(s) => if s@ != old(last)@ {
                final(last)@ == s@ && announce == (s@.len() > 0)
            } else {
                final(last)@ == old(last)@ && !announce
            },
            None => final(last)@ == old(last)@ && !announce,
        },
{
    match status {
        Some(s) => {
            if str_eq(s.as_str(), last.as_str()) {
                false
            } else {
                let announce = !s.as_str().is_empty();
                *last = s;
                announce
            }
        },
        None => false,
    }
}

/// No re-index happens within the quiet period, nor for anything but a
/// change to a watched file.
pub proof fn reindex_waits_out_the_quiet_period(is_change: bool, names: Seq<Seq<char>>, nanos_since_reindex: u128)
    ensures
        nanos_since_reindex <= REINDEX_DEBOUNCE_NANOS ==> !reindex_due_spec(is_change, names, nanos_since_reindex),
        !is_change ==> !reindex_due_spec(is_change, names, nanos_since_reindex),
        !touches_watched(names) ==> !reindex_due_spec(is_change, names, nanos_since_reindex),
{
}

} // verus!
