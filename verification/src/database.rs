//! The index database: where it lives and how its integrity is judged.

use vstd::prelude::*;
use crate::index::IndexError;
use crate::text::{join, push_str, str_eq};
use crate::search::project_data_dir;

verus! {

#[verifier::external_type_specification]
#[verifier::external_body]
pub struct ExConnection(rusqlite::Connection);

/// The name of the index database file in the data directory.
pub const DATABASE_FILE: &'static str = "index.db";

/// An open database, with the path it was opened from.
pub struct OpenedDatabase {
    conn: rusqlite::Connection,
    /// The path the database was opened from.
    pub path: Ghost<Seq<char>>,
}

/// How opening an existing database went.
pub enum OpenOutcome {
    Opened(OpenedDatabase),
    /// There is no database file to open.
    Missing,
    /// Opening failed for another reason, given by SQLite's message.
    Failed(String),
}

/// `rusqlite::Connection::open_with_flags` with `SQLITE_OPEN_READ_WRITE`
/// alone, so that no file is created: a `CannotOpen` failure is reported as
/// a missing database. An opened database is kept with its path. Which
/// outcome comes depends on the files on disk.
#[verifier::external_body]
fn open_existing(path: &str) -> (r: OpenOutcome)
    ensures
        r matches OpenOutcome::Opened(db) ==> db.path@ == path@,
{
    match rusqlite::Connection::open_with_flags(path, rusqlite::OpenFlags::SQLITE_OPEN_READ_WRITE) {
        Ok(conn) => OpenOutcome::Opened(OpenedDatabase { conn, path: Ghost(path@) }),
        Err(e) => match e.sqlite_error_code() {
            Some(rusqlite::ErrorCode::CannotOpen) => OpenOutcome::Missing,
            _ => OpenOutcome::Failed(e.to_string()),
        },
    }
}

/// What a query gave, with the database path and the SQL it was run with.
pub struct QueryReply {
    pub reply: Result<String, String>,
    pub path: Ghost<Seq<char>>,
    pub sql: Ghost<Seq<char>>,
}

/// `Connection::query_row(sql, [], |r| r.get::<_, String>(0))`: the first
/// column of the first row as text, or SQLite's message, kept with the
/// database's path and `sql`. What it gives depends on the database.
#[verifier::external_body]
fn query_text(db: &OpenedDatabase, sql: &str) -> (r: QueryReply)
    ensures
        r.path@ == db.path@,
        r.sql@ == sql@,
{
    QueryReply {
        reply: db.conn.query_row(sql, [], |r| r.get::<_, String>(0)).map_err(|e| e.to_string()),
        path: Ghost(db.path@),
        sql: Ghost(sql@),
    }
}

/// What the verdict on `report` is (see [`integrity_verdict`]).
pub open spec fn verdict_of(report: Result<String, String>, r: Result<(), IndexError>) -> bool {
    match report {
        Ok(s) => if s@ == "ok"@ {
            r is Ok
        } else {
            r matches Err(IndexError::Message(m)) && m@ == "database integrity check failed: "@ + s@
        },
        Err(e) => r matches Err(IndexError::Message(m)) && m@ == e@,
    }
}

/// The verdict on an integrity report: SQLite answers `ok` for an intact
/// database and describes the damage otherwise; a failed query is passed on.
pub fn integrity_verdict(report: Result<String, String>) -> (r: Result<(), IndexError>)
    ensures
        verdict_of(report, r),
{
    match report {
        Ok(s) => {
            if str_eq(s.as_str(), "ok") {
                Ok(())
            } else {
                let mut m = "database integrity check failed: ".to_string();
                push_str(&mut m, s.as_str());
                Err(IndexError::Message(m))
            }
        },
        Err(e) => Err(IndexError::Message(e)),
    }
}

/// What was found when the database was looked at, as plain values.
pub enum IntegrityInput {
    /// There is no database file.
    Missing,
    /// The file could not be opened, for the reason given.
    Failed(String),
    /// The database was opened; this is what its integrity query gave.
    Report(Result<String, String>),
}

/// The outcome of the integrity check on `input`: a missing database passes,
/// a failure to open it is passed on, and an opened database is judged by
/// its report (see [`verdict_of`]).
pub open spec fn integrity_outcome(input: IntegrityInput, r: Result<(), IndexError>) -> bool {
    match input {
        IntegrityInput::Missing => r is Ok,
        IntegrityInput::Failed(e) => r matches Err(IndexError::Message(m)) && m@ == e@,
        IntegrityInput::Report(report) => verdict_of(report, r),
    }
}

/// Judges what was found (see [`integrity_outcome`]).
pub fn judge_integrity(input: IntegrityInput) -> (r: Result<(), IndexError>)
    ensures
        integrity_outcome(input, r),
{
    match input {
        IntegrityInput::Missing => Ok(()),
        IntegrityInput::Failed(e) => Err(IndexError::Message(e)),
        IntegrityInput::Report(report) => integrity_verdict(report),
    }
}

/// The SQL of SQLite's integrity check.
pub open spec fn integrity_sql() -> Seq<char> {
    "PRAGMA integrity_check"@
}

/// The record of an integrity check that passed.
pub struct IntegrityReport {
    /// The database file that was looked at.
    pub path: Ghost<Seq<char>>,
    /// The query that was run and what it answered; none when there was no
    /// database file.
    pub checked: Ghost<Option<(Seq<char>, Result<String, String>)>>,
}

/// Checks the index database `index.db` in the user's data directory with
/// SQLite's integrity check, judged by [`judge_integrity`]. A database that
/// was never created has nothing to check and passes; without a data
/// directory the check fails. What is found depends on the files on disk.
pub fn verify_database_integrity() -> (r: Result<IntegrityReport, IndexError>)
    ensures
        r matches Ok(rep) ==> {
            &&& exists|data: Seq<char>| rep.path@ == #[trigger] crate::text::join_path(data, "index.db"@)
            &&& match rep.checked@ {
                None => true,
                Some((sql, reply)) => sql == integrity_sql() && verdict_of(reply, Ok(())),
            }
        },
{
    let dir = match project_data_dir("dev", "esprit", "esprit") {
        Some(d) => d,
        None => return Err(IndexError::Message("unable to determine data directory".to_string())),
    };
    let path = join(dir.as_str(), DATABASE_FILE);
    proof {
        reveal_strlit("index.db");
        assert(path@ == crate::text::join_path(dir@, "index.db"@));
    }
    match open_existing(path.as_str()) {
        OpenOutcome::Missing => match judge_integrity(IntegrityInput::Missing) {
            Ok(()) => Ok(IntegrityReport { path: Ghost(path@), checked: Ghost(None) }),
            Err(e) => Err(e),
        },
        OpenOutcome::Failed(e) => match judge_integrity(IntegrityInput::Failed(e)) {
            Ok(()) => Ok(IntegrityReport { path: Ghost(path@), checked: Ghost(None) }),
            Err(e) => Err(e),
        },
        OpenOutcome::Opened(db) => {
            let q = query_text(&db, "PRAGMA integrity_check");
            let ghost answer = q.reply;
            match judge_integrity(IntegrityInput::Report(q.reply)) {
                Ok(()) => Ok(IntegrityReport { path: q.path, checked: Ghost(Some((q.sql@, answer))) }),
                Err(e) => Err(e),
            }
        },
    }
}

} // verus!
