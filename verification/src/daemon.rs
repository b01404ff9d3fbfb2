//! Daemon bookkeeping: counters, health reports, diagnostics and the
//! restart policy of the service supervisor.

use vstd::prelude::*;

verus! {

#[verifier::external_type_specification]
#[verifier::external_body]
pub struct ExInstant(std::time::Instant);

/// Reads the monotonic clock (`std::time::Instant::now`).
/// Nothing is promised about the value: it depends on when it is called.
#[verifier::external_body]
fn instant_now() -> std::time::Instant {
    std::time::Instant::now()
}

/// Whole seconds elapsed since `start` (`Instant::elapsed` then
/// `Duration::as_secs`). Nothing is promised about the value: it depends on the clock.
#[verifier::external_body]
fn whole_seconds_since(start: &std::time::Instant) -> u64 {
    start.elapsed().as_secs()
}

/// The successor of a counter value, wrapping to zero past `u64::MAX`
/// (the behaviour of an atomic `fetch_add(1)`).
pub open spec fn bumped(n: u64) -> u64 {
    if n == u64::MAX { 0 } else { (n + 1) as u64 }
}

/// `n` after `k` recordings, each adding one with wrap-around.
pub open spec fn bumped_times(n: u64, k: nat) -> u64
    decreases k,
{
    if k == 0 { n } else { bumped(bumped_times(n, (k - 1) as nat)) }
}

/// No recording is lost: after `k` recordings a count that stood at `n`
/// stands at `n` plus `k`, wrapping around at 2^64 as `u64::wrapping_add`
/// does. (Each of `record_request`, `record_restart` and `record_error`
/// applies [`bumped`] to its own count and leaves the other two.)
pub proof fn recordings_add_up(n: u64, k: nat)
    ensures
        bumped_times(n, k) == (n + k) % 0x1_0000_0000_0000_0000,
    decreases k,
{
    if k > 0 {
        recordings_add_up(n, (k - 1) as nat);
        let m: int = 0x1_0000_0000_0000_0000;
        let a: int = n + k - 1;
        vstd::arithmetic::div_mod::lemma_add_mod_noop(a, 1, m);
        assert(1int % m == 1);
        assert(a % m < m) by { vstd::arithmetic::div_mod::lemma_mod_pos_bound(a, m); }
    }
}

/// Process-wide daemon counters: restarts, requests and errors, plus the
/// moment the daemon started.
pub struct Metrics {
    started: std::time::Instant,
    restarts: u64,
    requests: u64,
    errors: u64,
}

impl Metrics {
    pub closed spec fn restarts_spec(&self) -> u64 {
        self.restarts
    }

    pub closed spec fn requests_spec(&self) -> u64 {
        self.requests
    }

    pub closed spec fn errors_spec(&self) -> u64 {
        self.errors
    }

    /// Fresh counters, all zero, started now.
    pub fn new() -> (m: Self)
        ensures
            m.restarts_spec() == 0,
            m.requests_spec() == 0,
            m.errors_spec() == 0,
    {
        Metrics { started: instant_now(), restarts: 0, requests: 0, errors: 0 }
    }

    /// Whole seconds since the counters were created.
    pub fn uptime(&self) -> u64 {
        whole_seconds_since(&self.started)
    }

    pub fn restart_count(&self) -> (n: u64)
        ensures
            n == self.restarts_spec(),
    {
        self.restarts
    }

    pub fn request_count(&self) -> (n: u64)
        ensures
            n == self.requests_spec(),
    {
        self.requests
    }

    pub fn error_count(&self) -> (n: u64)
        ensures
            n == self.errors_spec(),
    {
        self.errors
    }

    pub fn record_restart(&mut self)
        ensures
            final(self).restarts_spec() == bumped(old(self).restarts_spec()),
            final(self).requests_spec() == old(self).requests_spec(),
            final(self).errors_spec() == old(self).errors_spec(),
    {
        self.restarts = self.restarts.wrapping_add(1);
    }

    pub fn record_request(&mut self)
        ensures
            final(self).requests_spec() == bumped(old(self).requests_spec()),
            final(self).restarts_spec() == old(self).restarts_spec(),
            final(self).errors_spec() == old(self).errors_spec(),
    {
        self.requests = self.requests.wrapping_add(1);
    }

    pub fn record_error(&mut self)
        ensures
            final(self).errors_spec() == bumped(old(self).errors_spec()),
            final(self).restarts_spec() == old(self).restarts_spec(),
            final(self).requests_spec() == old(self).requests_spec(),
    {
        self.errors = self.errors.wrapping_add(1);
    }
}

/// A health report of the daemon.
pub struct Health {
    pub status: &'static str,
    pub uptime: u64,
    pub restarts: u64,
}

/// The health report for the given counters: always "healthy", with the
/// uptime and the number of restarts recorded so far.
pub fn status(metrics: &Metrics) -> (h: Health)
    ensures
        h.status@ == "healthy"@,
        h.restarts == metrics.restarts_spec(),
{
    let restarts = metrics.restart_count();
    let uptime = metrics.uptime();
    proof {
        reveal_strlit("healthy");
    }
    Health { status: "healthy", uptime, restarts }
}

/// Warning and error tallies of a diagnostic run.
pub struct Diagnostics {
    pub warnings: usize,
    pub errors: usize,
}

impl Diagnostics {
    /// Healthy exactly when no error was reported (warnings do not count).
    pub fn healthy(&self) -> (b: bool)
        ensures
            b == (self.errors == 0),
    {
        self.errors == 0
    }
}

/// How a supervised run of the service ended.
pub enum Outcome {
    Exited,
    Crashed,
}

/// What the supervisor does after a run.
pub enum Decision {
    /// The service exited normally: stop supervising.
    Finish,
    /// The restart limit was reached: stop supervising.
    GiveUp,
    /// Wait this many seconds, then run the service again.
    RestartAfter(u64),
}

/// Two to the power `e`.
pub open spec fn pow2(e: nat) -> nat
    decreases e,
{
    if e == 0 { 1 } else { 2 * pow2((e - 1) as nat) }
}

/// The back-off before the restart that follows the `attempts`-th crash:
/// `2^min(attempts, 5)` seconds.
pub open spec fn restart_delay(attempts: nat) -> nat {
    pow2(if attempts < 5 { attempts } else { 5 })
}

/// One step of supervision with restart limit `limit`, after `attempts`
/// crashes, when the latest run ended with `outcome`: the new crash count
/// and the decision.
pub open spec fn supervise_step(limit: nat, attempts: nat, outcome: Outcome) -> (nat, Decision) {
    match outcome {
        Outcome::Exited => (attempts, Decision::Finish),
        Outcome::Crashed => if attempts + 1 >= limit {
            ((attempts + 1) as nat, Decision::GiveUp)
        } else {
            ((attempts + 1) as nat, Decision::RestartAfter(restart_delay((attempts + 1) as nat) as u64))
        },
    }
}

/// The decisions of a supervision that starts after `attempts` crashes and
/// sees the run outcomes `outcomes` in turn, until it finishes or gives up.
pub open spec fn decisions(limit: nat, attempts: nat, outcomes: Seq<Outcome>) -> Seq<Decision>
    decreases outcomes.len(),
{
    if outcomes.len() == 0 {
        Seq::empty()
    } else {
        let (n, d) = supervise_step(limit, attempts, outcomes[0]);
        match d {
            Decision::RestartAfter(_) => seq![d] + decisions(limit, n, outcomes.drop_first()),
            _ => seq![d],
        }
    }
}

/// The decision on the crash that brings the count to `n`.
pub open spec fn crash_decision(limit: nat, n: nat) -> Decision {
    if n >= limit { Decision::GiveUp } else { Decision::RestartAfter(restart_delay(n) as u64) }
}

/// Back-off over repeated crashes: when every run crashes, the supervisor
/// restarts after the j-th crash following `restart_delay(j)` seconds, and
/// gives up at the crash that reaches the limit (the first one when the
/// limit is 0), so it makes no more than `max(limit, 1)` runs in all.
pub proof fn repeated_crashes(limit: nat, attempts: nat, k: nat)
    requires
        attempts < (if limit == 0 { 1 } else { limit }),
    ensures
        ({
            let runs: nat = ((if limit == 0 { 1 } else { limit }) - attempts) as nat;
            let len: nat = if k < runs { k } else { runs };
            decisions(limit, attempts, Seq::new(k, |_j: int| Outcome::Crashed))
                == Seq::new(len, |j: int| crash_decision(limit, (attempts + j + 1) as nat))
        }),
    decreases k,
{
    let outs = Seq::new(k, |_j: int| Outcome::Crashed);
    let runs: nat = ((if limit == 0 { 1 } else { limit }) - attempts) as nat;
    let len: nat = if k < runs { k } else { runs };
    let want = Seq::new(len, |j: int| crash_decision(limit, (attempts + j + 1) as nat));
    if k > 0 {
        let n: nat = (attempts + 1) as nat;
        assert(outs[0] == Outcome::Crashed);
        assert(outs.drop_first() =~= Seq::new((k - 1) as nat, |_j: int| Outcome::Crashed));
        if n >= limit {
            assert(decisions(limit, attempts, outs) == seq![Decision::GiveUp]);
            assert(len == 1);
            assert(want =~= seq![Decision::GiveUp]);
        } else {
            repeated_crashes(limit, n, (k - 1) as nat);
            let rest = decisions(limit, n, outs.drop_first());
            assert(decisions(limit, attempts, outs) == seq![crash_decision(limit, n)] + rest);
            assert(want =~= seq![crash_decision(limit, n)] + rest);
        }
    } else {
        assert(want =~= Seq::<Decision>::empty());
    }
}

/// Restarts a crashing service with exponential back-off, up to a limit.
pub struct Supervisor {
    max_restarts: u32,
}

impl Supervisor {
    pub closed spec fn limit(&self) -> u32 {
        self.max_restarts
    }

    pub fn new(max_restarts: u32) -> (s: Self)
        ensures
            s.limit() == max_restarts,
    {
        Supervisor { max_restarts }
    }

    /// One step of the supervision loop: given the number of crashes seen so
    /// far and how the latest run ended, the new crash count and the decision.
    pub fn on_outcome(&self, attempts: u32, outcome: Outcome) -> (r: (u32, Decision))
        requires
            attempts == 0 || attempts < self.limit(),
        ensures
            (r.0 as nat, r.1) == supervise_step(self.limit() as nat, attempts as nat, outcome),
            match outcome {
                Outcome::Exited => r.0 == attempts && r.1 is Finish,
                Outcome::Crashed => {
                    &&& r.0 == attempts + 1
                    &&& (r.0 >= self.limit() ==> r.1 is GiveUp)
                    &&& (r.0 < self.limit() ==> r.1 == Decision::RestartAfter(
                        restart_delay(r.0 as nat) as u64,
                    ))
                },
            },
    {
        match outcome {
            Outcome::Exited => (attempts, Decision::Finish),
            Outcome::Crashed => {
                let n = attempts + 1;
                if n >= self.max_restarts {
                    (n, Decision::GiveUp)
                } else {
                    let e: u32 = if n < 5 { n } else { 5 };
                    let mut delay: u64 = 1;
                    let mut i: u32 = 0;
                    while i < e
                        invariant
                            i <= e <= 5,
                            delay == pow2(i as nat),
                            delay <= 32,
                        decreases e - i,
                    {
                        delay = delay * 2;
                        i = i + 1;
                        assert(pow2(i as nat) == 2 * pow2((i - 1) as nat));
                        assert(i <= 5 ==> pow2(i as nat) <= 32) by {
                            reveal_with_fuel(pow2, 6);
                        }
                    }
                    (n, Decision::RestartAfter(delay))
                }
            },
        }
    }
}

/// The back-off never exceeds 32 seconds, never drops below one second, and
/// never shrinks as crashes accumulate.
pub proof fn restart_delay_bounded_and_monotone(a: nat, b: nat)
    requires
        a <= b,
    ensures
        1 <= restart_delay(a) <= restart_delay(b) <= 32,
{
    reveal_with_fuel(pow2, 6);
    let ea: nat = if a < 5 { a } else { 5 };
    let eb: nat = if b < 5 { b } else { 5 };
    assert(ea <= eb <= 5);
    assert(pow2(0) == 1 && pow2(1) == 2 && pow2(2) == 4 && pow2(3) == 8 && pow2(4) == 16 && pow2(5) == 32);
}

} // verus!

verus! {

/// What one poll of the filesystem watcher's channel gave.
pub enum PollResult {
    /// An event arrived.
    Event,
    /// The watcher reported an error, with its message.
    WatcherFailed(String),
    /// Nothing arrived in time; says whether the watched root still exists.
    TimedOut { root_exists: bool },
    /// The watcher's side of the channel is gone.
    Disconnected,
}

/// What a watch session does next.
pub enum PollAction {
    /// Stop watching: the session ends well.
    Stop,
    /// Hand the event to the handler, then poll again.
    Deliver,
    /// Poll again.
    Continue,
    /// The session ends with this error.
    Fail(String),
}

/// The next step of a watch session over `root`: a requested stop ends it;
/// otherwise an event is delivered, a timeout polls again while the root
/// exists, and a watcher error, a vanished root or a closed channel end the
/// session with an error saying so.
pub fn poll_action(stop_requested: bool, root: &str, poll: PollResult) -> (a: PollAction)
    ensures
        stop_requested ==> a is Stop,
        !stop_requested ==> match poll {
            PollResult::Event => a is Deliver,
            PollResult::WatcherFailed(e) => a matches PollAction::Fail(m)
                && m@ == "filesystem watcher reported an error: "@ + e@,
            PollResult::TimedOut { root_exists } => if root_exists {
                a is Continue
            } else {
                a matches PollAction::Fail(m) && m@ == "watched root disappeared: "@ + root@
            },
            PollResult::Disconnected => a matches PollAction::Fail(m)
                && m@ == "filesystem watcher channel disconnected"@,
        },
{
    if stop_requested {
        return PollAction::Stop;
    }
    match poll {
        PollResult::Event => PollAction::Deliver,
        PollResult::WatcherFailed(e) => {
            let mut m = "filesystem watcher reported an error: ".to_string();
            crate::text::push_str(&mut m, e.as_str());
            PollAction::Fail(m)
        },
        PollResult::TimedOut { root_exists } => {
            if root_exists {
                PollAction::Continue
            } else {
                let mut m = "watched root disappeared: ".to_string();
                crate::text::push_str(&mut m, root);
                PollAction::Fail(m)
            }
        },
        PollResult::Disconnected => PollAction::Fail("filesystem watcher channel disconnected".to_string()),
    }
}

/// Watching may start only on a root that exists.
pub fn watch_start(root: &str, root_exists: bool) -> (r: Result<(), String>)
    ensures
        root_exists ==> r is Ok,
        !root_exists ==> (r matches Err(m) && m@ == "watch root does not exist: "@ + root@),
{
    if root_exists {
        Ok(())
    } else {
        let mut m = "watch root does not exist: ".to_string();
        crate::text::push_str(&mut m, root);
        Err(m)
    }
}

/// What the supervising loop does after a watch session ended.
pub enum SessionAction {
    /// Return successfully.
    Finish,
    /// Wait until the root exists again (or a stop is requested), pause,
    /// and start a new session.
    Recover,
}

/// A session that ended well, or any session once a stop is requested,
/// finishes the watch; a failed session is recovered from.
pub fn after_session(session_ok: bool, stop_requested: bool) -> (a: SessionAction)
    ensures
        (session_ok || stop_requested) <==> a is Finish,
{
    if session_ok || stop_requested {
        SessionAction::Finish
    } else {
        SessionAction::Recover
    }
}

} // verus!
