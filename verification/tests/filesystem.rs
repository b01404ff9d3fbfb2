use esprit::filesystem::{content_hash, duplicates, file_extension, organize, organize_dry_run, plan_moves, to_hex};

fn names(v: &[&str]) -> Vec<String> {
    v.iter().map(|s| s.to_string()).collect()
}

#[test]
fn extensions_follow_path_rules() {
    assert_eq!(file_extension("a.txt"), Some("txt".to_string()));
    assert_eq!(file_extension("archive.tar.gz"), Some("gz".to_string()));
    assert_eq!(file_extension(".bashrc"), None);
    assert_eq!(file_extension("README"), None);
    assert_eq!(file_extension(".."), None);
    assert_eq!(file_extension("trailing."), Some("".to_string()));
}

#[test]
fn extension_folders_are_unicode_lowercase() {
    let ops = organize("/w", &names(&["x.JPG"]));
    assert_eq!(ops.len(), 1);
    assert_eq!(ops[0].to, "/w/jpg/x.JPG");
    let ops = organize("/w", &names(&["y.ÄB"]));
    assert_eq!(ops.len(), 1);
    assert_eq!(ops[0].to, "/w/äb/y.ÄB");
}

#[test]
fn organize_moves_files_into_extension_folders() {
    let ops = organize("/w", &names(&["b.PNG", "a.txt", "notes"]));
    let moves: Vec<(String, String)> = ops.iter().map(|m| (m.from.clone(), m.to.clone())).collect();
    assert_eq!(
        moves,
        vec![
            ("/w/a.txt".to_string(), "/w/txt/a.txt".to_string()),
            ("/w/b.PNG".to_string(), "/w/png/b.PNG".to_string()),
            ("/w/notes".to_string(), "/w/misc/notes".to_string()),
        ]
    );
}

#[test]
fn dry_run_plans_the_same_moves() {
    let n = names(&["z.rs", "y.md", "x"]);
    let a: Vec<(String, String)> = organize("/r", &n).iter().map(|m| (m.from.clone(), m.to.clone())).collect();
    let b: Vec<(String, String)> = organize_dry_run("/r", &n).iter().map(|m| (m.from.clone(), m.to.clone())).collect();
    assert_eq!(a, b);
}

#[test]
fn hashes_are_hex_sha256() {
    assert_eq!(content_hash(b"abc"), "ba7816bf8f01cfea414140de5dae2223b00361a396177a9cb410ff61f20015ad");
    assert_eq!(content_hash(b""), "e3b0c44298fc1c149afbf4c8996fb92427ae41e4649b934ca495991b7852b855");
    assert_eq!(to_hex(&[0x00, 0xff, 0x1a]), "00ff1a");
}

#[test]
fn duplicate_files_form_one_group() {
    let h = content_hash(b"same");
    let entries = vec![
        ("/d/a.txt".to_string(), h.clone()),
        ("/d/b.txt".to_string(), h.clone()),
        ("/d/c.txt".to_string(), content_hash(b"other")),
    ];
    let groups = duplicates(&entries);
    assert_eq!(groups.len(), 1);
    assert_eq!(groups[0], vec!["/d/a.txt".to_string(), "/d/b.txt".to_string()]);
}

#[test]
fn unique_files_have_no_duplicates() {
    let entries = vec![("/d/a".to_string(), content_hash(b"1")), ("/d/b".to_string(), content_hash(b"2"))];
    assert!(duplicates(&entries).is_empty());
}

#[test]
fn files_move_into_the_folders_given() {
    let files = vec![
        ("b.TXT".to_string(), "txt".to_string()),
        ("a.rs".to_string(), "rs".to_string()),
        ("notes".to_string(), "misc".to_string()),
    ];
    let moves: Vec<(String, String)> = plan_moves("/w", &files).iter().map(|m| (m.from.clone(), m.to.clone())).collect();
    assert_eq!(
        moves,
        vec![
            ("/w/a.rs".to_string(), "/w/rs/a.rs".to_string()),
            ("/w/b.TXT".to_string(), "/w/txt/b.TXT".to_string()),
            ("/w/notes".to_string(), "/w/misc/notes".to_string()),
        ]
    );
}

#[test]
fn dry_run_and_organize_agree() {
    let files = names(&["z.md", "a.MD", "c", "b.png"]);
    let run: Vec<(String, String)> = organize("/r", &files).iter().map(|m| (m.from.clone(), m.to.clone())).collect();
    let shown: Vec<(String, String)> = organize_dry_run("/r", &files).iter().map(|m| (m.from.clone(), m.to.clone())).collect();
    assert_eq!(run, shown);
}
