use esprit::counters::snapshot;
use esprit::stats::{FolderStats, ScanEntry};

fn entry(is_dir: bool, size: u64, name: &str) -> ScanEntry {
    ScanEntry { is_dir, size, file_name: name.to_string() }
}

#[test]
fn folder_stats_handles_large_empty_tree() {
    let stats = FolderStats::scan(&vec![entry(true, 0, "root"), entry(true, 0, "nested")]);
    assert!(stats.directories >= 1);
    assert_eq!(stats.files, 0);
    assert_eq!(stats.bytes, 0);
}

#[test]
fn folder_stats_tally_files_and_extensions() {
    let stats = FolderStats::scan(&vec![
        entry(true, 4096, "root"),
        entry(false, 10, "a.RS"),
        entry(false, 20, "b.rs"),
        entry(false, 5, "Makefile"),
        entry(false, 1, "c.md"),
    ]);
    assert_eq!((stats.files, stats.directories, stats.bytes), (4, 1, 36));
    let mut ext = snapshot(&stats.extensions);
    ext.sort();
    assert_eq!(ext, vec![("md".to_string(), 1), ("rs".to_string(), 2)]);
}

use esprit::stats::rank_extensions;

#[test]
fn extensions_are_ranked_with_bars() {
    let counts = vec![("md".to_string(), 2u64), ("rs".to_string(), 10), ("toml".to_string(), 1)];
    let r = rank_extensions(&counts);
    assert_eq!(
        r,
        vec![("rs".to_string(), 10, 20), ("md".to_string(), 2, 4), ("toml".to_string(), 1, 2)]
    );
}

#[test]
fn at_most_fifteen_extensions_are_listed() {
    let counts: Vec<(String, u64)> = (1..=20).map(|i| (format!("e{i}"), i as u64)).collect();
    let r = rank_extensions(&counts);
    assert_eq!(r.len(), 15);
    assert_eq!(r[0], ("e20".to_string(), 20, 20));
    assert_eq!(r[14], ("e6".to_string(), 6, 6));
    let rare = vec![("a".to_string(), 100u64), ("b".to_string(), 1)];
    assert_eq!(rank_extensions(&rare)[1].2, 1);
}
