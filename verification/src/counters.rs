//! Named event counters.

use vstd::prelude::*;
use crate::text::str_eq;

verus! {

/// The counts held by a list of (name, count) entries.
pub open spec fn to_map(s: Seq<(Seq<char>, u64)>) -> Map<Seq<char>, u64>
    decreases s.len(),
{
    if s.len() == 0 {
        Map::empty()
    } else {
        to_map(s.drop_last()).insert(s.last().0, s.last().1)
    }
}

/// Every entry has been counted at least once.
pub open spec fn all_counted(s: Seq<(Seq<char>, u64)>) -> bool {
    forall|i: int| 0 <= i < s.len() ==> (#[trigger] s[i]).1 > 0
}

pub open spec fn distinct_names(s: Seq<(Seq<char>, u64)>) -> bool {
    forall|i: int, j: int| 0 <= i < j < s.len() ==> (#[trigger] s[i]).0 != (#[trigger] s[j]).0
}

proof fn to_map_contains(s: Seq<(Seq<char>, u64)>, k: Seq<char>)
    ensures
        to_map(s).contains_key(k) <==> exists|i: int| 0 <= i < s.len() && (#[trigger] s[i]).0 == k,
    decreases s.len(),
{
    if s.len() > 0 {
        to_map_contains(s.drop_last(), k);
        if exists|i: int| 0 <= i < s.len() && (#[trigger] s[i]).0 == k {
            let i = choose|i: int| 0 <= i < s.len() && (#[trigger] s[i]).0 == k;
            if i < s.len() - 1 {
                assert(s.drop_last()[i].0 == k);
            }
        }
        if exists|i: int| 0 <= i < s.drop_last().len() && (#[trigger] s.drop_last()[i]).0 == k {
            let i = choose|i: int| 0 <= i < s.drop_last().len() && (#[trigger] s.drop_last()[i]).0 == k;
            assert(s[i].0 == k);
        }
    }
}

proof fn to_map_update(s: Seq<(Seq<char>, u64)>, i: int, v: u64)
    requires
        0 <= i < s.len(),
        distinct_names(s),
    ensures
        to_map(s.update(i, (s[i].0, v))) == to_map(s).insert(s[i].0, v),
        to_map(s)[s[i].0] == s[i].1,
    decreases s.len(),
{
    let t = s.update(i, (s[i].0, v));
    if i == s.len() - 1 {
        assert(t.drop_last() =~= s.drop_last());
        to_map_contains(s.drop_last(), s[i].0);
        assert(to_map(t) =~= to_map(s).insert(s[i].0, v));
    } else {
        assert(t.drop_last() =~= s.drop_last().update(i, (s[i].0, v)));
        assert(s.drop_last()[i] == s[i]);
        to_map_update(s.drop_last(), i, v);
        assert(s.last().0 != s[i].0);
        assert(to_map(t) =~= to_map(s).insert(s[i].0, v));
    }
}

/// Counters keyed by name.
pub struct Counters {
    entries: Vec<(String, u64)>,
}

pub open spec fn entry_views(v: Seq<(String, u64)>) -> Seq<(Seq<char>, u64)> {
    v.map_values(|e: (String, u64)| (e.0@, e.1))
}

impl Counters {
    pub closed spec fn wf(&self) -> bool {
        &&& distinct_names(entry_views(self.entries@))
        &&& all_counted(entry_views(self.entries@))
    }

    /// The count of each name that has been counted at least once.
    pub closed spec fn counts(&self) -> Map<Seq<char>, u64> {
        to_map(entry_views(self.entries@))
    }

    /// No counts yet.
    pub fn new() -> (c: Self)
        ensures
            c.wf(),
            c.counts() == Map::<Seq<char>, u64>::empty(),
    {
        let c = Counters { entries: Vec::new() };
        assert(entry_views(c.entries@) =~= Seq::<(Seq<char>, u64)>::empty());
        c
    }
}

/// `m` after one more count of `name` (a name not counted before starts at one).
pub open spec fn bumped(m: Map<Seq<char>, u64>, name: Seq<char>) -> Map<Seq<char>, u64> {
    m.insert(name, if m.contains_key(name) { (m[name] + 1) as u64 } else { 1 })
}

/// The counts after counting `names` in order, starting from none.
pub open spec fn counts_after(names: Seq<Seq<char>>) -> Map<Seq<char>, u64>
    decreases names.len(),
{
    if names.len() == 0 {
        Map::empty()
    } else {
        bumped(counts_after(names.drop_last()), names.last())
    }
}

/// How many times `k` occurs in `names`.
pub open spec fn occurrences(names: Seq<Seq<char>>, k: Seq<char>) -> nat
    decreases names.len(),
{
    if names.len() == 0 {
        0
    } else {
        occurrences(names.drop_last(), k) + if names.last() == k { 1nat } else { 0nat }
    }
}

/// Counting is tallying: after counting `names` from a fresh set of counters
/// ([`Counters::new`], then [`incr`] for each name), the counted names are
/// exactly those in `names`, and each count is the number of times its name
/// was counted.
pub proof fn counts_are_tallies(names: Seq<Seq<char>>, k: Seq<char>)
    requires
        names.len() <= u64::MAX,
    ensures
        counts_after(names).contains_key(k) <==> occurrences(names, k) > 0,
        counts_after(names).contains_key(k) ==> counts_after(names)[k] == occurrences(names, k),
    decreases names.len(),
{
    if names.len() > 0 {
        counts_are_tallies(names.drop_last(), k);
        occurrences_bounded(names.drop_last(), k);
    }
}

/// Counting one more name extends the sequence counted: counters that hold
/// `counts_after(names)` hold `counts_after(names.push(n))` after
/// [`incr`] with `n`, and fresh counters hold `counts_after` of nothing.
pub proof fn counting_extends(names: Seq<Seq<char>>, n: Seq<char>)
    ensures
        bumped(counts_after(names), n) == counts_after(names.push(n)),
        counts_after(Seq::empty()) == Map::<Seq<char>, u64>::empty(),
{
    assert(names.push(n).drop_last() =~= names);
}

proof fn occurrences_bounded(names: Seq<Seq<char>>, k: Seq<char>)
    ensures
        occurrences(names, k) <= names.len(),
    decreases names.len(),
{
    if names.len() > 0 {
        occurrences_bounded(names.drop_last(), k);
    }
}

/// Adds one to the count of `name` (a name not counted before starts at one).
pub fn incr(counters: &mut Counters, name: &str)
    requires
        old(counters).wf(),
        old(counters).counts().contains_key(name@) ==> old(counters).counts()[name@] < u64::MAX,
    ensures
        final(counters).wf(),
        final(counters).counts() == bumped(old(counters).counts(), name@),
{
    let ghost s = entry_views(counters.entries@);
    let mut i: usize = 0;
    while i < counters.entries.len()
        invariant
            s == entry_views(counters.entries@),
            counters.entries@ == old(counters).entries@,
            distinct_names(s),
            all_counted(s),
            to_map(s).contains_key(name@) ==> to_map(s)[name@] < u64::MAX,
            i <= counters.entries.len(),
            forall|j: int| 0 <= j < i ==> s[j].0 != name@,
        decreases counters.entries.len() - i,
    {
        if str_eq(counters.entries[i].0.as_str(), name) {
            assert(s[i as int].0 == name@);
            proof {
                to_map_update(s, i as int, 0);
                to_map_contains(s, name@);
            }
            let n = counters.entries[i].1 + 1;
            proof {
                to_map_update(s, i as int, n);
            }
            let key = counters.entries[i].0.clone();
            counters.entries.set(i, (key, n));
            assert(entry_views(counters.entries@) =~= s.update(i as int, (s[i as int].0, n)));
            assert(all_counted(entry_views(counters.entries@))) by {
                let t = entry_views(counters.entries@);
                assert forall|j: int| 0 <= j < t.len() implies (#[trigger] t[j]).1 > 0 by {
                    if j != i { assert(t[j] == s[j]); }
                }
            }
            return;
        }
        i = i + 1;
    }
    proof { to_map_contains(s, name@); }
    counters.entries.push((name.to_string(), 1));
    proof {
        let t = entry_views(counters.entries@);
        assert forall|a: int, b: int| 0 <= a < b < t.len() implies (#[trigger] t[a]).0 != (#[trigger] t[b]).0 by {
            if b == t.len() - 1 {
                assert(t[a] == s[a]);
            } else {
                assert(t[a] == s[a] && t[b] == s[b]);
            }
        }
    }
    assert(entry_views(counters.entries@) =~= s.push((name@, 1u64)));
    assert(entry_views(counters.entries@).drop_last() =~= s);
    assert(all_counted(entry_views(counters.entries@))) by {
        let t = entry_views(counters.entries@);
        assert forall|j: int| 0 <= j < t.len() implies (#[trigger] t[j]).1 > 0 by {
            if j < s.len() { assert(t[j] == s[j]); }
        }
    }
}

/// A copy of all counts, as (name, count) pairs with distinct names.
pub fn snapshot(counters: &Counters) -> (out: Vec<(String, u64)>)
    requires
        counters.wf(),
    ensures
        distinct_names(entry_views(out@)),
        all_counted(entry_views(out@)),
        to_map(entry_views(out@)) == counters.counts(),
{
    let mut out: Vec<(String, u64)> = Vec::new();
    let mut i: usize = 0;
    while i < counters.entries.len()
        invariant
            counters.wf(),
            i <= counters.entries.len(),
            entry_views(out@) == entry_views(counters.entries@).subrange(0, i as int),
        decreases counters.entries.len() - i,
    {
        let k = counters.entries[i].0.clone();
        let n = counters.entries[i].1;
        let ghost before = out@;
        assert(k@ == counters.entries@[i as int].0@);
        out.push((k, n));
        assert(out@ == before.push((k, n)));
        assert(entry_views(out@) =~= entry_views(before).push((k@, n)));
        assert(entry_views(out@) =~= entry_views(counters.entries@).subrange(0, i + 1));
        i = i + 1;
    }
    assert(entry_views(counters.entries@).subrange(0, i as int) =~= entry_views(counters.entries@));
    assert(distinct_names(entry_views(out@)));
    out
}

} // verus!
