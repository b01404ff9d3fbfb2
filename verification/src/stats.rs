//! Folder statistics: how many files and directories a tree holds, their
//! total size, and how many files carry each extension.

use vstd::prelude::*;
use crate::counters::{Counters, incr};
use crate::filesystem::{extension, file_extension, to_lowercase, unicode_lowercase};

verus! {

/// One entry met while walking a folder.
pub struct ScanEntry {
    pub is_dir: bool,
    /// The size in bytes (of a file; ignored for a directory).
    pub size: u64,
    pub file_name: String,
}

/// Totals over a folder tree.
pub struct FolderStats {
    pub files: u64,
    pub directories: u64,
    pub bytes: u64,
    /// Files per lowercased extension.
    pub extensions: Counters,
}

pub open spec fn directory_total(entries: Seq<ScanEntry>) -> nat
    decreases entries.len(),
{
    if entries.len() == 0 {
        0
    } else {
        directory_total(entries.drop_last()) + if entries.last().is_dir { 1nat } else { 0nat }
    }
}

pub open spec fn file_total(entries: Seq<ScanEntry>) -> nat
    decreases entries.len(),
{
    if entries.len() == 0 {
        0
    } else {
        file_total(entries.drop_last()) + if entries.last().is_dir { 0nat } else { 1nat }
    }
}

pub open spec fn byte_total(entries: Seq<ScanEntry>) -> nat
    decreases entries.len(),
{
    if entries.len() == 0 {
        0
    } else {
        byte_total(entries.drop_last()) + if entries.last().is_dir { 0nat } else { entries.last().size as nat }
    }
}

/// `m` with the count of `k` raised by one.
pub open spec fn bump(m: Map<Seq<char>, u64>, k: Seq<char>) -> Map<Seq<char>, u64> {
    m.insert(k, if m.contains_key(k) { (m[k] + 1) as u64 } else { 1 })
}

/// Files per lowercased extension; files without an extension are not counted.
pub open spec fn extension_tally(entries: Seq<ScanEntry>) -> Map<Seq<char>, u64>
    decreases entries.len(),
{
    if entries.len() == 0 {
        Map::empty()
    } else {
        let earlier = extension_tally(entries.drop_last());
        let e = entries.last();
        if e.is_dir {
            earlier
        } else {
            match extension(e.file_name@) {
                Some(x) => bump(earlier, unicode_lowercase(x)),
                None => earlier,
            }
        }
    }
}

proof fn tally_bounded(entries: Seq<ScanEntry>)
    requires
        entries.len() <= u64::MAX,
    ensures
        file_total(entries) <= entries.len(),
        forall|k: Seq<char>| #[trigger] extension_tally(entries).contains_key(k) ==> extension_tally(entries)[k] <= file_total(entries),
    decreases entries.len(),
{
    if entries.len() > 0 {
        let prev = entries.drop_last();
        tally_bounded(prev);
        let m = extension_tally(prev);
        let e = entries.last();
        assert forall|k: Seq<char>| #[trigger] extension_tally(entries).contains_key(k)
            implies extension_tally(entries)[k] <= file_total(entries) by {
            if !e.is_dir {
                match extension(e.file_name@) {
                    Some(x) => {
                        let key = unicode_lowercase(x);
                        if k == key && m.contains_key(key) {
                            assert(m[key] <= file_total(prev));
                            assert(m[key] + 1 <= u64::MAX);
                        }
                    },
                    None => {},
                }
            }
        }
    }
}

impl FolderStats {
    /// The totals over the walked `entries` (see [`file_total`],
    /// [`directory_total`], [`byte_total`] and [`extension_tally`]). The
    /// totals must fit in `u64`.
    pub fn scan(entries: &Vec<ScanEntry>) -> (s: FolderStats)
        requires
            entries@.len() <= u64::MAX,
            byte_total(entries@) <= u64::MAX,
        ensures
            s.files == file_total(entries@),
            s.directories == directory_total(entries@),
            s.bytes == byte_total(entries@),
            s.extensions.wf(),
            s.extensions.counts() == extension_tally(entries@),
    {
        let mut stats = FolderStats { files: 0, directories: 0, bytes: 0, extensions: Counters::new() };
        let mut i: usize = 0;
        assert(entries@.subrange(0, 0) =~= Seq::<ScanEntry>::empty());
        while i < entries.len()
            invariant
                i <= entries.len(),
                entries@.len() <= u64::MAX,
                byte_total(entries@) <= u64::MAX,
                stats.files == file_total(entries@.subrange(0, i as int)),
                stats.directories == directory_total(entries@.subrange(0, i as int)),
                stats.bytes == byte_total(entries@.subrange(0, i as int)),
                stats.extensions.wf(),
                stats.extensions.counts() == extension_tally(entries@.subrange(0, i as int)),
                file_total(entries@.subrange(0, i as int)) + directory_total(entries@.subrange(0, i as int)) == i,
            decreases entries.len() - i,
        {
            let ghost prefix = entries@.subrange(0, i as int);
            let ghost next = entries@.subrange(0, i + 1);
            proof {
                assert(next.drop_last() =~= prefix);
                assert(next.last() == entries@[i as int]);
                byte_total_prefix(entries@, i + 1);
                tally_bounded(prefix);
            }
            let e = &entries[i];
            if e.is_dir {
                stats.directories = stats.directories + 1;
            } else {
                stats.files = stats.files + 1;
                stats.bytes = stats.bytes + e.size;
                match file_extension(e.file_name.as_str()) {
                    Some(x) => {
                        let lower = to_lowercase(x.as_str());
                        incr(&mut stats.extensions, lower.as_str());
                    },
                    None => {},
                }
            }
            i = i + 1;
        }
        assert(entries@.subrange(0, entries.len() as int) =~= entries@);
        stats
    }
}

proof fn byte_total_prefix(entries: Seq<ScanEntry>, n: int)
    requires
        0 <= n <= entries.len(),
    ensures
        byte_total(entries.subrange(0, n)) <= byte_total(entries),
    decreases entries.len() - n,
{
    if n < entries.len() {
        byte_total_prefix(entries, n + 1);
        assert(entries.subrange(0, n + 1).drop_last() =~= entries.subrange(0, n));
    } else {
        assert(entries.subrange(0, n) =~= entries);
    }
}

/// Every walked entry is counted once, as a file or as a directory.
pub proof fn entries_are_files_or_directories(entries: Seq<ScanEntry>)
    ensures
        file_total(entries) + directory_total(entries) == entries.len(),
    decreases entries.len(),
{
    if entries.len() > 0 {
        entries_are_files_or_directories(entries.drop_last());
    }
}

} // verus!

verus! {

/// How many extensions the statistics report lists.
pub const TOP_EXTENSIONS: usize = 15;

/// The length of the bar of the most common extension.
pub const BAR_WIDTH: u128 = 20;

/// Counts that never grow along the sequence.
pub open spec fn non_increasing(s: Seq<(Seq<char>, u64)>) -> bool {
    forall|i: int, j: int| 0 <= i < j < s.len() ==> (#[trigger] s[i]).1 >= (#[trigger] s[j]).1
}

/// The bar of an extension seen `count` times when the most common one is
/// seen `top` times: `count * 20 / top` columns, at least one.
pub open spec fn bar_length(count: u64, top: u64) -> int {
    let b = (count * BAR_WIDTH) / (top as int);
    if b < 1 { 1 } else { b }
}

pub open spec fn count_views(v: Seq<(String, u64)>) -> Seq<(Seq<char>, u64)> {
    v.map_values(|e: (String, u64)| (e.0@, e.1))
}

fn insert_by_count(v: &mut Vec<(String, u64)>, x: (String, u64))
    requires
        non_increasing(count_views(old(v)@)),
    ensures
        non_increasing(count_views(final(v)@)),
        exists|i: int| 0 <= i <= old(v)@.len() && count_views(final(v)@) == count_views(old(v)@).insert(i, (x.0@, x.1)),
{
    let ghost old_v = count_views(v@);
    let ghost xv = (x.0@, x.1);
    let mut i: usize = 0;
    while i < v.len() && v[i].1 >= x.1
        invariant
            count_views(v@) == old_v,
            non_increasing(old_v),
            i <= v.len(),
            xv == (x.0@, x.1),
            forall|j: int| 0 <= j < i ==> (#[trigger] old_v[j]).1 >= xv.1,
        decreases v.len() - i,
    {
        assert(old_v[i as int] == (v@[i as int].0@, v@[i as int].1));
        i = i + 1;
    }
    proof {
        if i < v.len() { assert(old_v[i as int].1 == v@[i as int].1); }
    }
    v.insert(i, x);
    proof {
        let nv = count_views(v@);
        assert(nv =~= old_v.insert(i as int, xv));
        assert forall|a: int, b: int| 0 <= a < b < nv.len() implies (#[trigger] nv[a]).1 >= (#[trigger] nv[b]).1 by {
            if b < i {
                assert(nv[a] == old_v[a] && nv[b] == old_v[b]);
            } else if b == i {
                assert(nv[a] == old_v[a]);
            } else if a == i {
                assert(nv[b] == old_v[b - 1]);
                assert(old_v[b - 1].1 <= old_v[i as int].1);
            } else if a < i {
                assert(nv[a] == old_v[a] && nv[b] == old_v[b - 1]);
            } else {
                assert(nv[a] == old_v[a - 1] && nv[b] == old_v[b - 1]);
            }
        }
    }
}

/// The extension report of the statistics command: the extensions ordered
/// from most to least common (ties in any order), the first
/// [`TOP_EXTENSIONS`] of them, each with its count and bar length. Every
/// count must be positive, as the counts of a tally are.
pub fn rank_extensions(counts: &Vec<(String, u64)>) -> (r: Vec<(String, u64, usize)>)
    requires
        forall|i: int| 0 <= i < counts@.len() ==> (#[trigger] counts@[i]).1 > 0,
    ensures
        exists|s: Seq<(Seq<char>, u64)>| {
            &&& s.to_multiset() == count_views(counts@).to_multiset()
            &&& non_increasing(s)
            &&& r@.len() == if s.len() < TOP_EXTENSIONS { s.len() } else { TOP_EXTENSIONS as nat }
            &&& forall|i: int| 0 <= i < r@.len() ==> (#[trigger] r@[i]).0@ == s[i].0 && r@[i].1 == s[i].1
                && r@[i].2 == bar_length(s[i].1, s[0].1)
        },
{
    let mut sorted: Vec<(String, u64)> = Vec::new();
    let mut k: usize = 0;
    assert(count_views(counts@).subrange(0, 0) =~= Seq::<(Seq<char>, u64)>::empty());
    assert(count_views(sorted@) =~= Seq::<(Seq<char>, u64)>::empty());
    while k < counts.len()
        invariant
            k <= counts.len(),
            non_increasing(count_views(sorted@)),
            count_views(sorted@).to_multiset() == count_views(counts@).subrange(0, k as int).to_multiset(),
            forall|j: int| 0 <= j < sorted@.len() ==> (#[trigger] sorted@[j]).1 > 0,
            forall|i: int| 0 <= i < counts@.len() ==> (#[trigger] counts@[i]).1 > 0,
        decreases counts.len() - k,
    {
        let ghost before = count_views(sorted@);
        let ghost before_raw = sorted@;
        let x = (counts[k].0.clone(), counts[k].1);
        let ghost xv = (x.0@, x.1);
        insert_by_count(&mut sorted, x);
        proof {
            let cv = count_views(counts@);
            let at = choose|at: int| 0 <= at <= before.len() && count_views(sorted@) == before.insert(at, xv);
            vstd::seq_lib::to_multiset_insert(before, at, xv);
            assert(cv.subrange(0, k + 1) =~= cv.subrange(0, k as int).push(cv[k as int]));
            assert(cv[k as int] == xv);
            vstd::seq_lib::to_multiset_build(cv.subrange(0, k as int), xv);
            assert forall|j: int| 0 <= j < sorted@.len() implies (#[trigger] sorted@[j]).1 > 0 by {
                let sv = count_views(sorted@);
                assert(sv[j].1 == sorted@[j].1);
                if j < at {
                    assert(sv[j] == before[j]);
                    assert(before[j].1 == before_raw[j].1);
                } else if j > at {
                    assert(sv.len() == before.len() + 1);
                    assert(0 <= j - 1 < before.len());
                    assert(before.insert(at, xv)[j] == before[j - 1]);
                    assert(before_raw.len() == before.len());
                    assert(before[j - 1] == (before_raw[j - 1].0@, before_raw[j - 1].1));
                }
            }
        }
        k = k + 1;
    }
    assert(count_views(counts@).subrange(0, counts.len() as int) =~= count_views(counts@));
    let ghost s = count_views(sorted@);
    let n = if sorted.len() < TOP_EXTENSIONS { sorted.len() } else { TOP_EXTENSIONS };
    let mut r: Vec<(String, u64, usize)> = Vec::new();
    let mut i: usize = 0;
    while i < n
        invariant
            i <= n <= sorted.len(),
            s == count_views(sorted@),
            n > 0 ==> sorted@[0].1 > 0,
            non_increasing(s),
            r@.len() == i,
            forall|j: int| 0 <= j < i ==> (#[trigger] r@[j]).0@ == s[j].0 && r@[j].1 == s[j].1
                && r@[j].2 == bar_length(s[j].1, s[0].1),
        decreases n - i,
    {
        let count = sorted[i].1;
        let top = sorted[0].1;
        proof {
            assert(s[i as int].1 == count && s[0].1 == top);
            if i > 0 { assert(s[0].1 >= s[i as int].1); }
        }
        let scaled: u128 = (count as u128) * BAR_WIDTH / (top as u128);
        assert(scaled <= 20) by (nonlinear_arith)
            requires
                count <= top,
                top > 0,
                scaled as int == (count as int) * 20 / (top as int),
        {}
        let bar: usize = if scaled < 1 { 1 } else { scaled as usize };
        r.push((sorted[i].0.clone(), count, bar));
        i = i + 1;
    }
    r
}

} // verus!
