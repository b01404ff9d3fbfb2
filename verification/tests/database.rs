use esprit::database::{integrity_verdict, judge_integrity, verify_database_integrity, IntegrityInput};
use esprit::index::IndexError;

#[test]
fn database_integrity_survives_reopen() {
    verify_database_integrity().unwrap();
}

#[test]
fn integrity_reports_are_judged() {
    assert!(integrity_verdict(Ok("ok".to_string())).is_ok());
    match integrity_verdict(Ok("row 3 missing from index".to_string())) {
        Err(IndexError::Message(m)) => assert_eq!(m, "database integrity check failed: row 3 missing from index"),
        Ok(()) => panic!("damage accepted"),
    }
    match integrity_verdict(Err("disk I/O error".to_string())) {
        Err(IndexError::Message(m)) => assert_eq!(m, "disk I/O error"),
        Ok(()) => panic!("failure accepted"),
    }
}

#[test]
fn what_was_found_is_judged() {
    assert!(judge_integrity(IntegrityInput::Missing).is_ok());
    match judge_integrity(IntegrityInput::Failed("file is not a database".to_string())) {
        Err(IndexError::Message(m)) => assert_eq!(m, "file is not a database"),
        Ok(()) => panic!("open failure accepted"),
    }
    assert!(judge_integrity(IntegrityInput::Report(Ok("ok".to_string()))).is_ok());
    match judge_integrity(IntegrityInput::Report(Ok("page 4 corrupt".to_string()))) {
        Err(IndexError::Message(m)) => assert_eq!(m, "database integrity check failed: page 4 corrupt"),
        Ok(()) => panic!("damage accepted"),
    }
}
