//! File organisation plans, duplicate detection and content hashing.

use vstd::prelude::*;
use sha2::Digest;
use crate::text::{chars_of, join, join_path, lex_lt, lex_lt_total, lex_lt_transitive, lex_lt_asymmetric, str_lt, str_eq};

verus! {

/// The full Unicode lowercase mapping of a string (`str::to_lowercase`).
/// It depends on the string alone.
pub uninterp spec fn unicode_lowercase(s: Seq<char>) -> Seq<char>;

/// `str::to_lowercase`: the Unicode lowercase form of `s`.
#[verifier::external_body]
pub(crate) fn to_lowercase(s: &str) -> (r: String)
    ensures
        r@ == unicode_lowercase(s@),
{
    s.to_lowercase()
}

/// The index of the last `.` in `s`, if any.
pub open spec fn last_dot(s: Seq<char>) -> Option<int>
    decreases s.len(),
{
    if s.len() == 0 {
        None
    } else if s.last() == '.' {
        Some(s.len() - 1)
    } else {
        last_dot(s.drop_last())
    }
}

/// The extension of a file name, as `Path::extension` defines it: the part
/// after the last `.`, unless there is no `.`, the only `.` is the first
/// character, or the name is `..`.
pub open spec fn extension(name: Seq<char>) -> Option<Seq<char>> {
    if name == seq!['.', '.'] {
        None
    } else {
        match last_dot(name) {
            None => None,
            Some(k) => if k == 0 { None } else { Some(name.subrange(k + 1, name.len() as int)) },
        }
    }
}

proof fn last_dot_bounds(s: Seq<char>)
    ensures
        match last_dot(s) {
            Some(k) => 0 <= k < s.len() && s[k] == '.' && forall|j: int| k < j < s.len() ==> s[j] != '.',
            None => forall|j: int| 0 <= j < s.len() ==> s[j] != '.',
        },
    decreases s.len(),
{
    if s.len() > 0 && s.last() != '.' {
        last_dot_bounds(s.drop_last());
        assert forall|j: int| 0 <= j < s.len() - 1 implies s.drop_last()[j] == s[j] by {}
    }
}

/// Exec counterpart of [`extension`].
pub fn file_extension(name: &str) -> (r: Option<String>)
    ensures
        match r {
            Some(e) => extension(name@) == Some(e@),
            None => extension(name@) is None,
        },
{
    let cs = chars_of(name);
    if cs.len() == 2 && cs[0] == '.' && cs[1] == '.' {
        assert(name@ =~= seq!['.', '.']);
        return None;
    }
    proof {
        if name@ == seq!['.', '.'] {
            assert(cs@[0] == '.' && cs@[1] == '.');
        }
        last_dot_bounds(name@);
    }
    let mut i: usize = cs.len();
    let mut found = false;
    while i > 0 && !found
        invariant
            cs@ == name@,
            i <= cs.len(),
            forall|j: int| i <= j < cs.len() && !(found && j == i) ==> cs@[j] != '.',
            found ==> i < cs.len() && cs@[i as int] == '.',
        decreases i + (if found { 0int } else { 1int }),
    {
        if cs[i - 1] == '.' {
            i = i - 1;
            found = true;
        } else {
            i = i - 1;
        }
    }
    proof {
        let ld = last_dot(name@);
        if found {
            assert(ld == Some(i as int)) by {
                match ld {
                    Some(k) => {
                        if k < i { assert(cs@[i as int] == '.'); }
                        if k > i { assert(cs@[k] != '.'); }
                    },
                    None => { assert(cs@[i as int] == '.'); },
                }
            }
        } else {
            assert(ld is None) by {
                match ld {
                    Some(k) => { assert(cs@[k] != '.'); },
                    None => {},
                }
            }
        }
    }
    if !found || i == 0 {
        return None;
    }
    let mut e = String::new();
    let mut j = i + 1;
    while j < cs.len()
        invariant
            cs@ == name@,
            i < cs.len(),
            i + 1 <= j <= cs.len(),
            e@ == cs@.subrange(i + 1, j as int),
        decreases cs.len() - j,
    {
        crate::text::push_char(&mut e, cs[j]);
        assert(cs@.subrange(i + 1, j + 1) =~= cs@.subrange(i + 1, j as int).push(cs@[j as int]));
        j = j + 1;
    }
    Some(e)
}

/// A planned move of one file.
pub struct MoveOp {
    pub from: String,
    pub to: String,
}

impl View for MoveOp {
    type V = (Seq<char>, Seq<char>);

    open spec fn view(&self) -> (Seq<char>, Seq<char>) {
        (self.from@, self.to@)
    }
}

/// The subdirectory a file is sorted into: its lowercased extension, or
/// `misc` when it has none.
pub open spec fn bucket(name: Seq<char>) -> Seq<char> {
    match extension(name) {
        Some(e) => unicode_lowercase(e),
        None => "misc"@,
    }
}

/// Where a file `name` directly under `root` goes: from `root/name` to
/// `root/bucket/name`.
pub open spec fn planned_move(root: Seq<char>, name: Seq<char>) -> (Seq<char>, Seq<char>) {
    (join_path(root, name), join_path(join_path(root, bucket(name)), name))
}

/// The moves for the files `names`, in the given order, leaving out files
/// that are already where they belong.
pub open spec fn planned_moves(root: Seq<char>, names: Seq<Seq<char>>) -> Seq<(Seq<char>, Seq<char>)>
    decreases names.len(),
{
    if names.len() == 0 {
        seq![]
    } else {
        let m = planned_move(root, names.last());
        planned_moves(root, names.drop_last()) + (if m.0 == m.1 { seq![] } else { seq![m] })
    }
}

/// Non-decreasing by source path.
pub open spec fn sorted_by_source(s: Seq<(Seq<char>, Seq<char>)>) -> bool {
    forall|i: int, j: int| 0 <= i < j < s.len() ==> !lex_lt(#[trigger] s[j].0, #[trigger] s[i].0)
}

pub open spec fn move_views(v: Seq<MoveOp>) -> Seq<(Seq<char>, Seq<char>)> {
    v.map_values(|m: MoveOp| m@)
}

pub open spec fn names_of(v: Seq<String>) -> Seq<Seq<char>> {
    v.map_values(|s: String| s@)
}

/// `s` with `x` inserted before the first move whose source comes after
/// `x`'s (after all moves when there is none).
pub open spec fn insert_by_source_spec(s: Seq<(Seq<char>, Seq<char>)>, x: (Seq<char>, Seq<char>)) -> Seq<(Seq<char>, Seq<char>)>
    decreases s.len(),
{
    if s.len() == 0 {
        seq![x]
    } else if lex_lt(x.0, s[0].0) {
        seq![x] + s
    } else {
        seq![s[0]] + insert_by_source_spec(s.drop_first(), x)
    }
}

/// The moves `s` sorted by source path, moves with equal sources kept in
/// their order: each inserted in turn by [`insert_by_source_spec`].
pub open spec fn insertion_sorted(s: Seq<(Seq<char>, Seq<char>)>) -> Seq<(Seq<char>, Seq<char>)>
    decreases s.len(),
{
    if s.len() == 0 {
        seq![]
    } else {
        insert_by_source_spec(insertion_sorted(s.drop_last()), s.last())
    }
}

proof fn insert_at_first_later(s: Seq<(Seq<char>, Seq<char>)>, x: (Seq<char>, Seq<char>), i: int)
    requires
        0 <= i <= s.len(),
        forall|j: int| 0 <= j < i ==> !lex_lt(x.0, #[trigger] s[j].0),
        i < s.len() ==> lex_lt(x.0, s[i].0),
    ensures
        insert_by_source_spec(s, x) == s.insert(i, x),
    decreases s.len(),
{
    if s.len() == 0 {
        assert(s.insert(i, x) =~= seq![x]);
    } else if i == 0 {
        assert(s.insert(0, x) =~= seq![x] + s);
    } else {
        let t = s.drop_first();
        assert forall|j: int| 0 <= j < i - 1 implies !lex_lt(x.0, #[trigger] t[j].0) by {
            assert(t[j] == s[j + 1]);
        }
        if i < s.len() {
            assert(t[i - 1] == s[i]);
        }
        insert_at_first_later(t, x, i - 1);
        assert(s.insert(i, x) =~= seq![s[0]] + t.insert(i - 1, x));
    }
}

fn insert_by_source(v: &mut Vec<MoveOp>, x: MoveOp)
    requires
        sorted_by_source(move_views(old(v)@)),
    ensures
        sorted_by_source(move_views(final(v)@)),
        move_views(final(v)@).to_multiset() == move_views(old(v)@).to_multiset().insert(x@),
        move_views(final(v)@) == insert_by_source_spec(move_views(old(v)@), x@),
{
    let ghost old_v = move_views(v@);
    let n = v.len();
    let mut i: usize = 0;
    let mut searching = true;
    while searching && i < n
        invariant
            n == v.len(),
            move_views(v@) == old_v,
            sorted_by_source(old_v),
            i <= n,
            forall|j: int| 0 <= j < i ==> !lex_lt(x@.0, #[trigger] old_v[j].0),
            !searching ==> i < n && lex_lt(x@.0, old_v[i as int].0),
        decreases n - i + (if searching { 1int } else { 0int }),
    {
        assert(old_v[i as int] == v@[i as int]@);
        if str_lt(x.from.as_str(), v[i].from.as_str()) {
            searching = false;
        } else {
            i = i + 1;
        }
    }
    let ghost xv = x@;
    v.insert(i, x);
    proof {
        let nv = move_views(v@);
        assert(nv =~= old_v.insert(i as int, xv));
        insert_at_first_later(old_v, xv, i as int);
        vstd::seq_lib::to_multiset_insert(old_v, i as int, xv);
        assert forall|a: int, b: int| 0 <= a < b < nv.len() implies !lex_lt(#[trigger] nv[b].0, #[trigger] nv[a].0) by {
            if b < i {
            } else if a < i && b == i {
            } else if a < i && b > i {
                // old_v[a] <= x < old_v[b-1] or old_v[a] <= old_v[b-1] directly
            } else if a == i {
                if lex_lt(old_v[b - 1].0, xv.0) {
                    if b - 1 == i {
                        lex_lt_asymmetric(xv.0, old_v[i as int].0);
                    } else {
                        if lex_lt(old_v[b - 1].0, old_v[i as int].0) {
                        } else if old_v[b - 1].0 == old_v[i as int].0 {
                            lex_lt_asymmetric(xv.0, old_v[i as int].0);
                        } else {
                            lex_lt_total(old_v[b - 1].0, old_v[i as int].0);
                            lex_lt_transitive(xv.0, old_v[i as int].0, old_v[b - 1].0);
                            lex_lt_asymmetric(xv.0, old_v[b - 1].0);
                        }
                    }
                }
            } else {
            }
        }
    }
}

/// The moves that organise the files `names` directly under `root`: the
/// planned moves (see [`planned_moves`]) sorted by source path.
pub open spec fn organized(root: Seq<char>, names: Seq<Seq<char>>) -> Seq<(Seq<char>, Seq<char>)> {
    insertion_sorted(planned_moves(root, names))
}

/// Where a file `name` directly under `root` goes when its folder is
/// `folder`: from `root/name` to `root/folder/name`.
pub open spec fn move_into(root: Seq<char>, name: Seq<char>, folder: Seq<char>) -> (Seq<char>, Seq<char>) {
    (join_path(root, name), join_path(join_path(root, folder), name))
}

/// The moves for the files of `files`, each a (file name, folder) pair, in
/// the given order, leaving out files that are already where they belong.
pub open spec fn moves_into(root: Seq<char>, files: Seq<(Seq<char>, Seq<char>)>) -> Seq<(Seq<char>, Seq<char>)>
    decreases files.len(),
{
    if files.len() == 0 {
        seq![]
    } else {
        let m = move_into(root, files.last().0, files.last().1);
        moves_into(root, files.drop_last()) + (if m.0 == m.1 { seq![] } else { seq![m] })
    }
}

/// Each file name with its folder (see [`bucket`]).
pub open spec fn with_buckets(names: Seq<Seq<char>>) -> Seq<(Seq<char>, Seq<char>)> {
    names.map_values(|n: Seq<char>| (n, bucket(n)))
}

pub open spec fn file_views(v: Seq<(String, String)>) -> Seq<(Seq<char>, Seq<char>)> {
    v.map_values(|f: (String, String)| (f.0@, f.1@))
}

/// Planning with each file's own folder is planning with its bucket.
proof fn planned_moves_are_moves_into(root: Seq<char>, names: Seq<Seq<char>>)
    ensures
        planned_moves(root, names) == moves_into(root, with_buckets(names)),
    decreases names.len(),
{
    if names.len() > 0 {
        planned_moves_are_moves_into(root, names.drop_last());
        assert(with_buckets(names).drop_last() =~= with_buckets(names.drop_last()));
    }
}

/// The moves that put each file of `files`, a (file name, folder) pair for
/// a file directly under `root`, into its folder, sorted by source path.
pub fn plan_moves(root: &str, files: &[(String, String)]) -> (ops: Vec<MoveOp>)
    ensures
        sorted_by_source(move_views(ops@)),
        move_views(ops@).to_multiset() == moves_into(root@, file_views(files@)).to_multiset(),
        move_views(ops@) == insertion_sorted(moves_into(root@, file_views(files@))),
{
    let mut ops: Vec<MoveOp> = Vec::new();
    let mut k: usize = 0;
    assert(file_views(files@.subrange(0, 0)) =~= Seq::<(Seq<char>, Seq<char>)>::empty());
    assert(move_views(ops@) =~= Seq::<(Seq<char>, Seq<char>)>::empty());
    while k < files.len()
        invariant
            k <= files.len(),
            sorted_by_source(move_views(ops@)),
            move_views(ops@).to_multiset() == moves_into(root@, file_views(files@.subrange(0, k as int))).to_multiset(),
            move_views(ops@) == insertion_sorted(moves_into(root@, file_views(files@.subrange(0, k as int)))),
        decreases files.len() - k,
    {
        let name = &files[k].0;
        let dir = &files[k].1;
        let from = join(root, name.as_str());
        let to = join(join(root, dir.as_str()).as_str(), name.as_str());
        proof {
            let sub = files@.subrange(0, k + 1);
            assert(file_views(sub).drop_last() =~= file_views(files@.subrange(0, k as int)));
            assert(file_views(sub).last() == (name@, dir@));
        }
        if !str_eq(from.as_str(), to.as_str()) {
            let op = MoveOp { from, to };
            let ghost opv = op@;
            insert_by_source(&mut ops, op);
            proof {
                let pm = moves_into(root@, file_views(files@.subrange(0, k as int)));
                vstd::seq_lib::to_multiset_build(pm, opv);
                assert(moves_into(root@, file_views(files@.subrange(0, k + 1))) =~= pm.push(opv));
                assert(pm.push(opv).drop_last() =~= pm);
            }
        } else {
            proof {
                let pm = moves_into(root@, file_views(files@.subrange(0, k as int)));
                assert(moves_into(root@, file_views(files@.subrange(0, k + 1))) =~= pm);
            }
        }
        k = k + 1;
    }
    assert(files@.subrange(0, files.len() as int) =~= files@);
    ops
}

/// The moves that organise the files `names` found directly under `root`
/// into extension-named subdirectories, sorted by source path: each file
/// goes into the folder named by its lowercased extension, or `misc`
/// (see [`bucket`] and [`plan_moves`]).
pub fn organize_plan(root: &str, names: &[String]) -> (ops: Vec<MoveOp>)
    ensures
        sorted_by_source(move_views(ops@)),
        move_views(ops@).to_multiset() == planned_moves(root@, names_of(names@)).to_multiset(),
        move_views(ops@) == organized(root@, names_of(names@)),
{
    let mut files: Vec<(String, String)> = Vec::new();
    let mut k: usize = 0;
    while k < names.len()
        invariant
            k <= names.len(),
            file_views(files@) == with_buckets(names_of(names@.subrange(0, k as int))),
        decreases names.len() - k,
    {
        let name = &names[k];
        let dir = match file_extension(name.as_str()) {
            Some(e) => to_lowercase(e.as_str()),
            None => "misc".to_string(),
        };
        proof {
            assert(dir@ == bucket(name@));
        }
        let ghost before = file_views(files@);
        files.push((name.clone(), dir));
        proof {
            assert(names_of(names@.subrange(0, k + 1)) =~= names_of(names@.subrange(0, k as int)).push(name@));
            assert(file_views(files@) =~= before.push((name@, bucket(name@))));
            assert(with_buckets(names_of(names@.subrange(0, k + 1))) =~= with_buckets(names_of(names@.subrange(0, k as int))).push((name@, bucket(name@))));
        }
        k = k + 1;
    }
    assert(names@.subrange(0, names.len() as int) =~= names@);
    proof {
        planned_moves_are_moves_into(root@, names_of(names@));
    }
    plan_moves(root, &files)
}

/// A dry run shows exactly the moves that organising makes: for the same
/// root and files, [`organize_dry_run`] and [`organize`] both give
/// [`organized`] of them, move for move, in the same order.
pub proof fn dry_run_shows_the_moves_made(root: Seq<char>, names: Seq<Seq<char>>, made: Seq<(Seq<char>, Seq<char>)>, shown: Seq<(Seq<char>, Seq<char>)>)
    requires
        made == organized(root, names),
        shown == organized(root, names),
    ensures
        made == shown,
{
}

/// Move files directly under `root` into extension-named subdirectories.
/// `names` are the regular files directly under `root`; the result lists
/// the moves to make, sorted by source path.
pub fn organize(root: &str, names: &[String]) -> (ops: Vec<MoveOp>)
    ensures
        sorted_by_source(move_views(ops@)),
        move_views(ops@).to_multiset() == planned_moves(root@, names_of(names@)).to_multiset(),
        move_views(ops@) == organized(root@, names_of(names@)),
{
    organize_plan(root, names)
}

/// Dry run: the same moves as [`organize`], to be shown and not performed.
pub fn organize_dry_run(root: &str, names: &[String]) -> (ops: Vec<MoveOp>)
    ensures
        sorted_by_source(move_views(ops@)),
        move_views(ops@).to_multiset() == planned_moves(root@, names_of(names@)).to_multiset(),
        move_views(ops@) == organized(root@, names_of(names@)),
{
    organize_plan(root, names)
}

} // verus!

verus! {

/// The SHA-256 digest of a byte string (FIPS 180-4), as computed by the
/// `sha2` crate. It depends on the bytes alone.
pub uninterp spec fn sha256_spec(data: Seq<u8>) -> Seq<u8>;

/// `sha2::Sha256::digest`: the 32-byte SHA-256 digest of `data`.
#[verifier::external_body]
fn sha256(data: &[u8]) -> (d: Vec<u8>)
    ensures
        d@ == sha256_spec(data@),
        d@.len() == 32,
{
    sha2::Sha256::digest(data).to_vec()
}

/// The lowercase hexadecimal digit for `n < 16`.
pub open spec fn hex_digit(n: nat) -> char {
    if n < 10 { crate::text::digit_char(n) }
    else if n == 10 { 'a' }
    else if n == 11 { 'b' }
    else if n == 12 { 'c' }
    else if n == 13 { 'd' }
    else if n == 14 { 'e' }
    else { 'f' }
}

/// Two lowercase hex digits per byte, most significant first (`{:02x}`).
pub open spec fn hex_of(b: Seq<u8>) -> Seq<char>
    decreases b.len(),
{
    if b.len() == 0 {
        seq![]
    } else {
        hex_of(b.drop_last()) + seq![hex_digit((b.last() / 16) as nat), hex_digit((b.last() % 16) as nat)]
    }
}

proof fn hex_of_len(b: Seq<u8>)
    ensures
        hex_of(b).len() == 2 * b.len(),
    decreases b.len(),
{
    if b.len() > 0 {
        hex_of_len(b.drop_last());
    }
}

fn hex_char(n: u8) -> (c: char)
    requires
        n < 16,
    ensures
        c == hex_digit(n as nat),
{
    if n < 10 {
        let d: u64 = n as u64;
        if d == 0 { '0' } else if d == 1 { '1' } else if d == 2 { '2' } else if d == 3 { '3' }
        else if d == 4 { '4' } else if d == 5 { '5' } else if d == 6 { '6' } else if d == 7 { '7' }
        else if d == 8 { '8' } else { '9' }
    } else if n == 10 { 'a' } else if n == 11 { 'b' } else if n == 12 { 'c' }
    else if n == 13 { 'd' } else if n == 14 { 'e' } else { 'f' }
}

/// Lowercase hexadecimal notation of `bytes`.
pub fn to_hex(bytes: &[u8]) -> (s: String)
    ensures
        s@ == hex_of(bytes@),
{
    let mut s = String::new();
    let mut i: usize = 0;
    assert(bytes@.subrange(0, 0) =~= Seq::<u8>::empty());
    while i < bytes.len()
        invariant
            i <= bytes.len(),
            s@ == hex_of(bytes@.subrange(0, i as int)),
        decreases bytes.len() - i,
    {
        let b = bytes[i];
        crate::text::push_char(&mut s, hex_char(b / 16));
        crate::text::push_char(&mut s, hex_char(b % 16));
        assert(bytes@.subrange(0, i + 1).drop_last() =~= bytes@.subrange(0, i as int));
        i = i + 1;
    }
    assert(bytes@.subrange(0, bytes.len() as int) =~= bytes@);
    s
}

/// The SHA-256 digest of `contents` in lowercase hex: 64 characters.
pub fn content_hash(contents: &[u8]) -> (h: String)
    ensures
        h@ == hex_of(sha256_spec(contents@)),
        h@.len() == 64,
{
    let d = sha256(contents);
    proof { hex_of_len(d@); }
    to_hex(d.as_slice())
}

/// The paths, in walk order, of the entries whose content hash is `h`.
pub open spec fn paths_with(entries: Seq<(Seq<char>, Seq<char>)>, h: Seq<char>) -> Seq<Seq<char>>
    decreases entries.len(),
{
    if entries.len() == 0 {
        seq![]
    } else {
        paths_with(entries.drop_last(), h) + (if entries.last().1 == h { seq![entries.last().0] } else { seq![] })
    }
}

/// The distinct hashes of `entries`, in order of first appearance.
pub open spec fn first_keys(entries: Seq<(Seq<char>, Seq<char>)>) -> Seq<Seq<char>>
    decreases entries.len(),
{
    if entries.len() == 0 {
        seq![]
    } else {
        let k = first_keys(entries.drop_last());
        if k.contains(entries.last().1) { k } else { k.push(entries.last().1) }
    }
}

pub open spec fn entry_views(v: Seq<(String, String)>) -> Seq<(Seq<char>, Seq<char>)> {
    v.map_values(|e: (String, String)| (e.0@, e.1@))
}

pub open spec fn group_views(v: Seq<Vec<String>>) -> Seq<Seq<Seq<char>>> {
    v.map_values(|g: Vec<String>| names_of(g@))
}

proof fn first_keys_props(e: Seq<(Seq<char>, Seq<char>)>)
    ensures
        first_keys(e).no_duplicates(),
        forall|h: Seq<char>| first_keys(e).contains(h) <==> paths_with(e, h).len() > 0,
    decreases e.len(),
{
    if e.len() > 0 {
        first_keys_props(e.drop_last());
        let k = first_keys(e.drop_last());
        assert forall|h: Seq<char>| first_keys(e).contains(h) <==> paths_with(e, h).len() > 0 by {
            if !k.contains(e.last().1) {
                if first_keys(e).contains(h) {
                    let j = choose|j: int| 0 <= j < k.push(e.last().1).len() && k.push(e.last().1)[j] == h;
                    if j < k.len() { assert(k[j] == h); }
                }
                if k.contains(h) {
                    let j = choose|j: int| 0 <= j < k.len() && k[j] == h;
                    assert(k.push(e.last().1)[j] == h);
                }
                if h == e.last().1 {
                    assert(k.push(e.last().1)[k.len() as int] == h);
                }
            }
        }
    }
}

/// The paths with content hash `h`, in walk order.
fn paths_with_hash(entries: &[(String, String)], h: &str) -> (ps: Vec<String>)
    ensures
        names_of(ps@) == paths_with(entry_views(entries@), h@),
{
    let mut ps: Vec<String> = Vec::new();
    let mut i: usize = 0;
    assert(entry_views(entries@).subrange(0, 0) =~= Seq::<(Seq<char>, Seq<char>)>::empty());
    assert(names_of(ps@) =~= Seq::<Seq<char>>::empty());
    while i < entries.len()
        invariant
            i <= entries.len(),
            names_of(ps@) == paths_with(entry_views(entries@).subrange(0, i as int), h@),
        decreases entries.len() - i,
    {
        let ghost sub = entry_views(entries@).subrange(0, i + 1);
        assert(sub.drop_last() =~= entry_views(entries@).subrange(0, i as int));
        assert(sub.last() == (entries@[i as int].0@, entries@[i as int].1@));
        if str_eq(entries[i].1.as_str(), h) {
            ps.push(entries[i].0.clone());
            assert(names_of(ps@) =~= paths_with(sub, h@));
        } else {
            assert(names_of(ps@) =~= paths_with(sub, h@));
        }
        i = i + 1;
    }
    assert(entry_views(entries@).subrange(0, entries.len() as int) =~= entry_views(entries@));
    ps
}

/// The distinct content hashes, in order of first appearance.
fn distinct_hashes(entries: &[(String, String)]) -> (ks: Vec<String>)
    ensures
        names_of(ks@) == first_keys(entry_views(entries@)),
{
    let mut ks: Vec<String> = Vec::new();
    let mut i: usize = 0;
    assert(entry_views(entries@).subrange(0, 0) =~= Seq::<(Seq<char>, Seq<char>)>::empty());
    assert(names_of(ks@) =~= Seq::<Seq<char>>::empty());
    while i < entries.len()
        invariant
            i <= entries.len(),
            names_of(ks@) == first_keys(entry_views(entries@).subrange(0, i as int)),
        decreases entries.len() - i,
    {
        let ghost sub = entry_views(entries@).subrange(0, i + 1);
        assert(sub.drop_last() =~= entry_views(entries@).subrange(0, i as int));
        let mut seen = false;
        let mut j: usize = 0;
        while j < ks.len()
            invariant
                i < entries.len(),
                j <= ks.len(),
                seen <==> exists|t: int| 0 <= t < j && names_of(ks@)[t] == entries@[i as int].1@,
            decreases ks.len() - j,
        {
            assert(names_of(ks@)[j as int] == ks@[j as int]@);
            if str_eq(ks[j].as_str(), entries[i].1.as_str()) {
                seen = true;
            }
            j = j + 1;
        }
        if !seen {
            ks.push(entries[i].1.clone());
            assert(names_of(ks@) =~= first_keys(sub));
        } else {
            assert(names_of(ks@) =~= first_keys(sub));
        }
        i = i + 1;
    }
    assert(entry_views(entries@).subrange(0, entries.len() as int) =~= entry_views(entries@));
    ks
}

/// Groups of files with identical content: `entries` pairs each file's path
/// with its content hash, in walk order. Every group lists, in walk order,
/// all paths that share one hash, and a group is reported exactly when at
/// least two files share that hash.
pub fn duplicates(entries: &[(String, String)]) -> (groups: Vec<Vec<String>>)
    ensures
        exists|keys: Seq<Seq<char>>| {
            &&& keys.len() == groups@.len()
            &&& keys.no_duplicates()
            &&& forall|i: int| 0 <= i < keys.len() ==> #[trigger] group_views(groups@)[i] == paths_with(entry_views(entries@), keys[i])
                && paths_with(entry_views(entries@), keys[i]).len() > 1
            &&& forall|h: Seq<char>| #[trigger] paths_with(entry_views(entries@), h).len() > 1 ==> keys.contains(h)
        },
{
    let ks = distinct_hashes(entries);
    let ghost e = entry_views(entries@);
    proof { first_keys_props(e); }
    let mut groups: Vec<Vec<String>> = Vec::new();
    let ghost mut keys: Seq<Seq<char>> = Seq::empty();
    let mut i: usize = 0;
    while i < ks.len()
        invariant
            e == entry_views(entries@),
            names_of(ks@) == first_keys(e),
            first_keys(e).no_duplicates(),
            forall|h: Seq<char>| first_keys(e).contains(h) <==> paths_with(e, h).len() > 0,
            i <= ks.len(),
            keys.len() == groups@.len(),
            forall|a: int| 0 <= a < keys.len() ==> exists|b: int| 0 <= b < i && first_keys(e)[b] == #[trigger] keys[a],
            keys.no_duplicates(),
            forall|a: int| 0 <= a < keys.len() ==> #[trigger] group_views(groups@)[a] == paths_with(e, keys[a])
                && paths_with(e, keys[a]).len() > 1,
            forall|b: int| 0 <= b < i && #[trigger] paths_with(e, first_keys(e)[b]).len() > 1 ==> keys.contains(first_keys(e)[b]),
        decreases ks.len() - i,
    {
        let g = paths_with_hash(entries, ks[i].as_str());
        assert(ks@[i as int]@ == first_keys(e)[i as int]);
        if g.len() > 1 {
            let ghost k = first_keys(e)[i as int];
            proof {
                if keys.contains(k) {
                    let a = choose|a: int| 0 <= a < keys.len() && keys[a] == k;
                    let b = choose|b: int| 0 <= b < i && first_keys(e)[b] == keys[a];
                    assert(first_keys(e)[b] == first_keys(e)[i as int]);
                }
            }
            let ghost old_groups = groups@;
            let ghost gv = names_of(g@);
            groups.push(g);
            proof {
                let old_keys = keys;
                assert(gv == paths_with(e, k));
                keys = keys.push(k);
                assert forall|a: int| 0 <= a < keys.len() implies #[trigger] group_views(groups@)[a] == paths_with(e, keys[a])
                    && paths_with(e, keys[a]).len() > 1 by {
                    assert(group_views(groups@)[a] == names_of(groups@[a]@));
                    if a < old_keys.len() {
                        assert(groups@[a] == old_groups[a]);
                        assert(group_views(old_groups)[a] == names_of(old_groups[a]@));
                    } else {
                        assert(groups@[a]@ == g@);
                    }
                }
                assert forall|a: int| 0 <= a < keys.len() implies exists|b: int| 0 <= b < i + 1 && first_keys(e)[b] == #[trigger] keys[a] by {
                    if a == old_keys.len() {
                        assert(first_keys(e)[i as int] == keys[a]);
                    }
                }
                assert forall|b: int| 0 <= b < i + 1 && #[trigger] paths_with(e, first_keys(e)[b]).len() > 1 implies keys.contains(first_keys(e)[b]) by {
                    if b == i {
                        assert(keys[old_keys.len() as int] == k);
                    } else {
                        assert(old_keys.contains(first_keys(e)[b]));
                        let a = choose|a: int| 0 <= a < old_keys.len() && old_keys[a] == first_keys(e)[b];
                        assert(keys[a] == first_keys(e)[b]);
                    }
                }
            }
        }
        i = i + 1;
    }
    proof {
        assert forall|h: Seq<char>| #[trigger] paths_with(e, h).len() > 1 implies keys.contains(h) by {
            assert(first_keys(e).contains(h));
            let b = choose|b: int| 0 <= b < first_keys(e).len() && first_keys(e)[b] == h;
            assert(paths_with(e, first_keys(e)[b]).len() > 1);
        }
    }
    groups
}

} // verus!
