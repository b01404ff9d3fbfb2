//! Update checks: how a cached check is trusted and how a remote commit is
//! compared with the local one.

use vstd::prelude::*;
use crate::text::{chars_of, push_char, push_str, str_eq, first_newline, first_newline_props, str_contains, contains_seq, trim, trimmed, join, join_path, views};

verus! {

/// The outcome of an update check.
pub struct UpdateInfo {
    pub current_commit: String,
    pub latest_commit: String,
    pub latest_message: String,
    pub has_update: bool,
    pub checked_at: u64,
}

/// A cached check is reused for this many seconds (one hour).
pub const CACHE_TTL_SECS: u64 = 3600;

/// A check made at `checked_at` is still fresh at `now` (seconds since the
/// epoch); a check dated in the future counts as fresh.
pub fn cache_is_fresh(now: u64, checked_at: u64) -> (b: bool)
    ensures
        b == (now < checked_at + CACHE_TTL_SECS),
{
    now.saturating_sub(checked_at) < CACHE_TTL_SECS
}

/// The first `n` characters of `s`.
pub open spec fn prefix(s: Seq<char>, n: nat) -> Seq<char> {
    if s.len() <= n { s } else { s.take(n as int) }
}

/// The short form of a commit id: its first seven characters.
pub fn short_sha(sha: &str) -> (r: String)
    ensures
        r@ == prefix(sha@, 7),
{
    let cs = chars_of(sha);
    let mut r = String::new();
    let mut i: usize = 0;
    while i < cs.len() && i < 7
        invariant
            cs@ == sha@,
            i <= cs.len(),
            i <= 7,
            r@ == cs@.take(i as int),
        decreases cs.len() - i,
    {
        push_char(&mut r, cs[i]);
        assert(cs@.take(i + 1) =~= cs@.take(i as int).push(cs@[i as int]));
        i = i + 1;
    }
    assert(cs@.take(i as int) =~= prefix(sha@, 7));
    r
}

/// The headline of a commit message, as `str::lines().next()` gives it: the
/// text before the first line feed, without a carriage return just before
/// it; the whole message when it has no line feed; "Latest commit" for an
/// empty message.
pub open spec fn headline(msg: Seq<char>) -> Seq<char> {
    if msg.len() == 0 {
        "Latest commit"@
    } else {
        match first_newline(msg) {
            None => msg,
            Some(k) => {
                let line = msg.take(k);
                if line.len() > 0 && line.last() == '\r' { line.drop_last() } else { line }
            },
        }
    }
}

/// Exec counterpart of [`headline`].
pub fn first_line(msg: &str) -> (r: String)
    ensures
        r@ == headline(msg@),
{
    let cs = chars_of(msg);
    if cs.len() == 0 {
        return "Latest commit".to_string();
    }
    proof { first_newline_props(msg@); }
    let mut i: usize = 0;
    while i < cs.len() && cs[i] != '\n'
        invariant
            cs@ == msg@,
            i <= cs.len(),
            forall|j: int| 0 <= j < i ==> cs@[j] != '\n',
        decreases cs.len() - i,
    {
        i = i + 1;
    }
    let ghost fnl = first_newline(msg@);
    proof {
        match fnl {
            Some(k) => {
                if k < i { assert(cs@[k] == '\n'); }
                if i < cs.len() && k > i { assert(cs@[i as int] != '\n'); }
                if i == cs.len() { assert(cs@[k] == '\n'); }
            },
            None => {
                if i < cs.len() { assert(cs@[i as int] == '\n'); }
            },
        }
    }
    let end = if i < cs.len() && i > 0 && cs[i - 1] == '\r' { i - 1 } else { i };
    let mut r = String::new();
    let mut j: usize = 0;
    while j < end
        invariant
            cs@ == msg@,
            end <= cs.len(),
            j <= end,
            r@ == cs@.take(j as int),
        decreases end - j,
    {
        push_char(&mut r, cs[j]);
        assert(cs@.take(j + 1) =~= cs@.take(j as int).push(cs@[j as int]));
        j = j + 1;
    }
    proof {
        if i == cs.len() {
            assert(fnl is None);
            assert(cs@.take(j as int) =~= msg@);
        } else {
            assert(fnl == Some(i as int));
            let line = msg@.take(i as int);
            if end < i {
                assert(line.drop_last() =~= cs@.take(end as int));
            } else {
                assert(line =~= cs@.take(end as int));
            }
        }
    }
    r
}

/// An update is available when both commit ids are known and they differ.
pub fn has_update(current: &str, latest: &str) -> (b: bool)
    ensures
        b == (current@.len() > 0 && latest@.len() > 0 && current@ != latest@),
{
    !current.is_empty() && !latest.is_empty() && !str_eq(current, latest)
}

/// The result of a remote check: the local commit, the first seven
/// characters of the remote commit, the headline of its message, whether
/// they differ, and when the check was made.
pub fn update_info(current: String, remote_sha: &str, remote_message: &str, now: u64) -> (u: UpdateInfo)
    ensures
        u.current_commit@ == current@,
        u.latest_commit@ == prefix(remote_sha@, 7),
        u.latest_message@ == headline(remote_message@),
        u.has_update == (current@.len() > 0 && prefix(remote_sha@, 7).len() > 0 && current@ != prefix(remote_sha@, 7)),
        u.checked_at == now,
{
    let latest = short_sha(remote_sha);
    let message = first_line(remote_message);
    let update = has_update(current.as_str(), latest.as_str());
    UpdateInfo { current_commit: current, latest_commit: latest, latest_message: message, has_update: update, checked_at: now }
}

/// Whether the update badge is shown for a (possibly failed) check.
pub fn should_notify(info: &Option<UpdateInfo>) -> (b: bool)
    ensures
        b == (info matches Some(u) && u.has_update),
{
    match info {
        Some(u) => u.has_update,
        None => false,
    }
}

/// Whether an update run rebuilds: always when forced, otherwise only when
/// the local commit differs from the latest one.
pub fn rebuild_needed(force: bool, current: &str, latest: &str) -> (b: bool)
    ensures
        b == (force || current@ != latest@),
{
    force || !str_eq(current, latest)
}

/// Whether a check may answer from the cache: only when not forced and a
/// cached check exists that is still fresh at `now`.
pub fn use_cached(force: bool, now: u64, cached: &Option<UpdateInfo>) -> (b: bool)
    ensures
        b == (!force && match cached {
            Some(c) => now < c.checked_at + CACHE_TTL_SECS,
            None => false,
        }),
{
    if force {
        return false;
    }
    match cached {
        Some(c) => cache_is_fresh(now, c.checked_at),
        None => false,
    }
}

/// What an update run aims at: the latest commit and headline of a
/// successful check, otherwise `origin/main` with a generic note.
pub fn update_target(info: &Option<UpdateInfo>) -> (r: (String, String))
    ensures
        match info {
            Some(u) => r.0@ == u.latest_commit@ && r.1@ == u.latest_message@,
            None => r.0@ == "origin/main"@ && r.1@ == "Latest changes"@,
        },
{
    match info {
        Some(u) => (u.latest_commit.clone(), u.latest_message.clone()),
        None => ("origin/main".to_string(), "Latest changes".to_string()),
    }
}

/// How pulling the repository went.
pub enum PullOutcome {
    /// The pull succeeded.
    Synced,
    /// The pull failed only because there was nothing to pull.
    UpToDate,
    /// The pull failed; git said this.
    Notice(String),
}

/// The outcome of a `git pull`: success; a failure whose error output is
/// empty or says "Already up to date"; any other failure, with its error
/// output trimmed.
pub fn pull_outcome(success: bool, stderr: &str) -> (r: PullOutcome)
    ensures
        success ==> r is Synced,
        !success && (stderr@.len() == 0 || contains_seq(stderr@, "Already up to date"@)) ==> r is UpToDate,
        !success && !(stderr@.len() == 0 || contains_seq(stderr@, "Already up to date"@))
            ==> (r matches PullOutcome::Notice(m) && m@ == trimmed(stderr@)),
{
    if success {
        PullOutcome::Synced
    } else if str_contains(stderr, "Already up to date") || stderr.is_empty() {
        PullOutcome::UpToDate
    } else {
        PullOutcome::Notice(trim(stderr))
    }
}

/// The outcome of building the new release: `ran` says whether cargo could
/// be started at all, `success` whether the build succeeded.
pub fn build_outcome(ran: bool, success: bool) -> (r: Result<(), String>)
    ensures
        ran && success ==> r is Ok,
        ran && !success ==> (r matches Err(m) && m@ == "Compilation failed during update"@),
        !ran ==> (r matches Err(m) && m@ == "Could not invoke cargo"@),
{
    if !ran {
        Err("Could not invoke cargo".to_string())
    } else if !success {
        Err("Compilation failed during update".to_string())
    } else {
        Ok(())
    }
}

/// The cache entry written after a successful update: the new commit is
/// both current and latest, so no update is pending.
pub fn refreshed_info(new_sha: String, message: String, now: u64) -> (u: UpdateInfo)
    ensures
        u.current_commit@ == new_sha@,
        u.latest_commit@ == new_sha@,
        u.latest_message@ == message@,
        !u.has_update,
        u.checked_at == now,
{
    let latest = new_sha.clone();
    UpdateInfo { current_commit: new_sha, latest_commit: latest, latest_message: message, has_update: false, checked_at: now }
}

/// The label of the local build: the short commit id that git printed,
/// trimmed, or `v` and the package version when git gave nothing.
pub fn local_commit_label(git_output: &Option<String>, version: &str) -> (r: String)
    ensures
        match git_output {
            Some(out) if trimmed(out@).len() > 0 => r@ == trimmed(out@),
            _ => r@ == "v"@ + version@,
        },
{
    match git_output {
        Some(out) => {
            let t = trim(out.as_str());
            if !t.as_str().is_empty() {
                return t;
            }
        },
        None => {},
    }
    let mut r = "v".to_string();
    push_str(&mut r, version);
    r
}

/// The file whose presence marks the root of the project's repository.
pub const REPO_MARKER: &'static str = "apps/esprit-cli/Cargo.toml";

/// The places searched for a local copy of the repository, in order: the
/// working directory and its ancestors (as given), then four places under
/// the home directory, when it is known.
pub open spec fn repo_candidates_spec(ancestors: Seq<Seq<char>>, home: Option<Seq<char>>) -> Seq<Seq<char>> {
    match home {
        Some(h) => ancestors + seq![
            join_path(h, ".gemini/antigravity/scratch/Esprit"@),
            join_path(h, "Projects/Esprit"@),
            join_path(h, "Esprit"@),
            join_path(h, ".esprit/source"@),
        ],
        None => ancestors,
    }
}

/// Exec counterpart of [`repo_candidates_spec`].
pub fn repo_candidates(ancestors: &Vec<String>, home: &Option<String>) -> (v: Vec<String>)
    ensures
        views(v@) == repo_candidates_spec(views(ancestors@), match home { Some(h) => Some(h@), None => None }),
{
    let mut v: Vec<String> = Vec::new();
    let mut i: usize = 0;
    while i < ancestors.len()
        invariant
            i <= ancestors.len(),
            views(v@) == views(ancestors@).subrange(0, i as int),
        decreases ancestors.len() - i,
    {
        let ghost before = v@;
        v.push(ancestors[i].clone());
        assert(views(v@) =~= views(before).push(ancestors@[i as int]@));
        assert(views(ancestors@).subrange(0, i + 1) =~= views(ancestors@).subrange(0, i as int).push(ancestors@[i as int]@));
        i = i + 1;
    }
    assert(views(ancestors@).subrange(0, ancestors.len() as int) =~= views(ancestors@));
    match home {
        Some(h) => {
            let ghost base = v@;
            v.push(join(h.as_str(), ".gemini/antigravity/scratch/Esprit"));
            v.push(join(h.as_str(), "Projects/Esprit"));
            v.push(join(h.as_str(), "Esprit"));
            v.push(join(h.as_str(), ".esprit/source"));
            assert(views(v@) =~= views(base) + seq![
                join_path(h@, ".gemini/antigravity/scratch/Esprit"@),
                join_path(h@, "Projects/Esprit"@),
                join_path(h@, "Esprit"@),
                join_path(h@, ".esprit/source"@),
            ]);
        },
        None => {},
    }
    v
}

} // verus!
