//! Shared application types: errors, the application handle and timing.

use vstd::prelude::*;
use crate::pipeline::StageError;

verus! {

#[verifier::external_type_specification]
#[verifier::external_body]
pub struct ExIoError(std::io::Error);

/// Errors reported by Esprit components.
pub enum EspritError {
    /// A plain message.
    Message(String),
    /// An I/O failure.
    Io(std::io::Error),
    /// A failure reported by another component, with its description.
    Other(String),
}

/// The application handle.
pub struct App;

impl Default for App {
    fn default() -> (a: Self) {
        App
    }
}

/// The time taken by a named piece of work.
pub struct Bench {
    pub name: &'static str,
    pub elapsed_ms: u128,
}

/// Milliseconds elapsed since `start` (`Instant::elapsed` then
/// `Duration::as_millis`). Nothing is promised about the value: it depends on the clock.
#[verifier::external_body]
fn millis_since(start: &std::time::Instant) -> u128 {
    start.elapsed().as_millis()
}

/// Reads the monotonic clock (`std::time::Instant::now`).
#[verifier::external_body]
fn now() -> std::time::Instant {
    std::time::Instant::now()
}

/// Runs `f` once and times it: its failure is passed on; on success the
/// result carries `name` and the elapsed milliseconds.
pub fn measure<F: FnOnce() -> Result<(), StageError>>(name: &'static str, f: F) -> (r: Result<Bench, StageError>)
    requires
        f.requires(()),
    ensures
        exists|out: Result<(), StageError>| f.ensures((), out) && match out {
            Ok(_) => r matches Ok(b) && b.name == name,
            Err(e) => r == Err::<Bench, StageError>(e),
        },
{
    let start = now();
    let out = f();
    match out {
        Ok(()) => {
            let elapsed_ms = millis_since(&start);
            Ok(Bench { name, elapsed_ms })
        },
        Err(e) => Err(e),
    }
}

} // verus!
