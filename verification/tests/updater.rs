use esprit::updater::{
    build_outcome, cache_is_fresh, first_line, has_update, local_commit_label, pull_outcome, rebuild_needed,
    refreshed_info, repo_candidates, short_sha, should_notify, update_info, update_target, use_cached, PullOutcome,
    UpdateInfo, CACHE_TTL_SECS,
};

fn info(current: &str, latest: &str, has: bool, at: u64) -> UpdateInfo {
    UpdateInfo {
        current_commit: current.to_string(),
        latest_commit: latest.to_string(),
        latest_message: "msg".to_string(),
        has_update: has,
        checked_at: at,
    }
}

#[test]
fn cache_is_trusted_for_an_hour() {
    assert_eq!(CACHE_TTL_SECS, 3600);
    assert!(cache_is_fresh(1000, 1000));
    assert!(cache_is_fresh(4599, 1000));
    assert!(!cache_is_fresh(4600, 1000));
    assert!(cache_is_fresh(10, 1000));
}

#[test]
fn forced_checks_skip_the_cache() {
    let c = Some(info("a", "b", true, 100));
    assert!(use_cached(false, 200, &c));
    assert!(!use_cached(true, 200, &c));
    assert!(!use_cached(false, 100 + 3600, &c));
    assert!(!use_cached(false, 200, &None));
}

#[test]
fn remote_commits_are_shortened_and_summarised() {
    assert_eq!(short_sha("0123456789abcdef"), "0123456");
    assert_eq!(short_sha("abc"), "abc");
    assert_eq!(first_line("Fix bug\r\n\nDetails"), "Fix bug");
    assert_eq!(first_line(""), "Latest commit");
    assert_eq!(first_line("one line"), "one line");
}

#[test]
fn a_commit_is_no_update_to_itself() {
    assert!(!has_update("abc1234", "abc1234"));
    assert!(has_update("abc1234", "def5678"));
    assert!(!has_update("", "def5678"));
    let u = update_info("abc1234".to_string(), "abc1234ffff", "Title\nbody", 7);
    assert!(!u.has_update);
    assert_eq!(u.latest_commit, "abc1234");
    assert_eq!(u.latest_message, "Title");
    assert_eq!(u.checked_at, 7);
    let v = update_info("v0.1.0".to_string(), "def5678aaaa", "", 8);
    assert!(v.has_update);
    assert!(should_notify(&Some(v)));
    assert!(!should_notify(&None));
}

#[test]
fn update_runs_aim_at_the_latest_commit() {
    assert_eq!(update_target(&Some(info("a", "b", true, 0))), ("b".to_string(), "msg".to_string()));
    assert_eq!(update_target(&None), ("origin/main".to_string(), "Latest changes".to_string()));
    assert!(!rebuild_needed(false, "b", "b"));
    assert!(rebuild_needed(true, "b", "b"));
    assert!(rebuild_needed(false, "a", "b"));
}

#[test]
fn pull_results_are_classified() {
    assert!(matches!(pull_outcome(true, "whatever"), PullOutcome::Synced));
    assert!(matches!(pull_outcome(false, ""), PullOutcome::UpToDate));
    assert!(matches!(pull_outcome(false, "Already up to date."), PullOutcome::UpToDate));
    match pull_outcome(false, "  fatal: not a git repository\n") {
        PullOutcome::Notice(m) => assert_eq!(m, "fatal: not a git repository"),
        _ => panic!("expected a notice"),
    }
}

#[test]
fn build_failures_become_errors() {
    assert_eq!(build_outcome(true, true), Ok(()));
    assert_eq!(build_outcome(true, false), Err("Compilation failed during update".to_string()));
    assert_eq!(build_outcome(false, false), Err("Could not invoke cargo".to_string()));
}

#[test]
fn after_an_update_nothing_is_pending() {
    let u = refreshed_info("abc1234".to_string(), "note".to_string(), 99);
    assert_eq!(u.current_commit, u.latest_commit);
    assert!(!u.has_update);
    assert_eq!(u.checked_at, 99);
}

#[test]
fn local_commit_falls_back_to_the_version() {
    assert_eq!(local_commit_label(&Some(" abc1234\n".to_string()), "0.1.0"), "abc1234");
    assert_eq!(local_commit_label(&Some("  ".to_string()), "0.1.0"), "v0.1.0");
    assert_eq!(local_commit_label(&None, "0.1.0"), "v0.1.0");
}

#[test]
fn repository_search_order() {
    let anc = vec!["/w/p".to_string(), "/w".to_string(), "/".to_string()];
    let c = repo_candidates(&anc, &Some("/home/u".to_string()));
    assert_eq!(
        c,
        vec![
            "/w/p", "/w", "/", "/home/u/.gemini/antigravity/scratch/Esprit", "/home/u/Projects/Esprit",
            "/home/u/Esprit", "/home/u/.esprit/source",
        ]
        .into_iter()
        .map(String::from)
        .collect::<Vec<String>>()
    );
    assert_eq!(repo_candidates(&anc, &None), anc);
}
