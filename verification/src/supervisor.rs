//! Bounded-retry supervision of connection sessions.
//!
//! The supervisor owns the session lifecycle across failures: it counts
//! consecutive failed attempts since the last completed subscribe
//! handshake, waits a fixed backoff between attempts, stops cleanly on
//! a session that closes cleanly, and reports terminal exhaustion when
//! the ceiling is reached.  `run_policy` is the loop itself, driven by
//! a sequence of session outcomes; the shell runs the same loop with
//! real sessions through the step methods.

use crate::config::MAX_RECONNECT_ATTEMPTS;
use vstd::prelude::*;

verus! {

/// How one whole session attempt ended.
#[derive(PartialEq, Eq, Structural, Clone, Copy, Debug)]
pub enum SessionOutcome {
    /// The session completed its handshake and later closed cleanly.
    CleanClose,
    /// The session failed before completing the subscribe handshake.
    FailedEarly,
    /// The session completed its handshake, then failed.
    FailedAfterSubscribe,
}

/// Terminal result of a supervised run.
#[derive(PartialEq, Eq, Structural, Clone, Copy, Debug)]
pub enum RunResult {
    /// A session closed cleanly; the run ends without error.
    Clean,
    /// The retry ceiling was reached; the run ends as a process
    /// failure.
    Exhausted,
}

/// What a supervised run does over a sequence of session outcomes:
/// how many sessions it constructs, how many fixed backoffs it waits,
/// the counter it ends with, and its terminal result — `None` when the
/// outcome sequence ends before the run does.
pub ghost struct RunModel {
    pub sessions: nat,
    pub waits: nat,
    pub attempts_end: nat,
    pub result: Option<RunResult>,
}

/// The supervision loop over a sequence of session outcomes, starting
/// from a given failure count: stop cleanly on a clean close (the
/// counter was reset by that session's handshake); on a failure,
/// increment — after a reset if the handshake had completed — and
/// either wait one backoff and go on, or end exhausted at the ceiling.
pub open spec fn spec_run(outcomes: Seq<SessionOutcome>, attempts: nat) -> RunModel
    decreases outcomes.len(),
{
    if attempts >= MAX_RECONNECT_ATTEMPTS as nat {
        RunModel { sessions: 0, waits: 0, attempts_end: attempts, result: Some(RunResult::Exhausted) }
    } else if outcomes.len() == 0 {
        RunModel { sessions: 0, waits: 0, attempts_end: attempts, result: None }
    } else {
        match outcomes[0] {
            SessionOutcome::CleanClose => RunModel {
                sessions: 1,
                waits: 0,
                attempts_end: 0,
                result: Some(RunResult::Clean),
            },
            SessionOutcome::FailedEarly => {
                if attempts + 1 < MAX_RECONNECT_ATTEMPTS as nat {
                    let rec = spec_run(outcomes.skip(1), attempts + 1);
                    RunModel {
                        sessions: rec.sessions + 1,
                        waits: rec.waits + 1,
                        attempts_end: rec.attempts_end,
                        result: rec.result,
                    }
                } else {
                    RunModel {
                        sessions: 1,
                        waits: 0,
                        attempts_end: attempts + 1,
                        result: Some(RunResult::Exhausted),
                    }
                }
            },
            SessionOutcome::FailedAfterSubscribe => {
                let rec = spec_run(outcomes.skip(1), 1);
                RunModel {
                    sessions: rec.sessions + 1,
                    waits: rec.waits + 1,
                    attempts_end: rec.attempts_end,
                    result: rec.result,
                }
            },
        }
    }
}

/// Count of consecutive failed connection attempts since the last
/// completed subscribe handshake.
pub struct Supervisor {
    pub attempts: u32,
}

impl Supervisor {
    pub fn new() -> (r: Self)
        ensures
            r.attempts == 0,
    {
        Supervisor { attempts: 0 }
    }

    /// Whether another session should be constructed: the process is
    /// still running and the ceiling is not reached.
    pub fn should_attempt(&self, running: bool) -> (r: bool)
        ensures
            r == (running && self.attempts < MAX_RECONNECT_ATTEMPTS),
    {
        running && self.attempts < MAX_RECONNECT_ATTEMPTS
    }

    /// A session completed its subscribe handshake: the retry budget is
    /// fresh again.
    pub fn note_subscribed(&mut self)
        ensures
            final(self).attempts == 0,
    {
        self.attempts = 0;
    }

    /// A session failed.  True: wait the fixed backoff and try again.
    /// False: the ceiling is reached, the run ends exhausted.
    pub fn note_failure(&mut self) -> (retry: bool)
        requires
            old(self).attempts < MAX_RECONNECT_ATTEMPTS,
        ensures
            final(self).attempts == old(self).attempts + 1,
            retry == (final(self).attempts < MAX_RECONNECT_ATTEMPTS),
    {
        self.attempts = self.attempts + 1;
        self.attempts < MAX_RECONNECT_ATTEMPTS
    }

    /// Whether the ceiling is reached.
    pub fn exhausted(&self) -> (r: bool)
        ensures
            r == (self.attempts >= MAX_RECONNECT_ATTEMPTS),
    {
        self.attempts >= MAX_RECONNECT_ATTEMPTS
    }
}

/// The supervision loop, run against a sequence of session outcomes:
/// exactly what the shell's loop does, with the outcome of each
/// constructed session read from the sequence.  Returns sessions
/// constructed, backoffs waited, the final counter, and the terminal
/// result.
pub fn run_policy(outcomes: &Vec<SessionOutcome>) -> (r: (usize, usize, u32, Option<RunResult>))
    ensures
        ({
            let m = spec_run(outcomes@, 0);
            r.0 as nat == m.sessions && r.1 as nat == m.waits && r.2 as nat == m.attempts_end
                && r.3 == m.result
        }),
{
    let ghost m0 = spec_run(outcomes@, 0);
    let n = outcomes.len();
    let mut sup = Supervisor::new();
    let mut sessions: usize = 0;
    let mut waits: usize = 0;
    let mut idx: usize = 0;
    proof {
        assert(outcomes@.skip(0) =~= outcomes@);
    }
    while idx < n
        invariant
            idx <= n,
            n == outcomes@.len(),
            m0 == spec_run(outcomes@, 0),
            sessions <= idx,
            waits <= idx,
            sup.attempts < MAX_RECONNECT_ATTEMPTS,
            ({
                let mr = spec_run(outcomes@.skip(idx as int), sup.attempts as nat);
                m0.sessions == sessions + mr.sessions && m0.waits == waits + mr.waits
                    && m0.attempts_end == mr.attempts_end && m0.result == mr.result
            }),
        decreases n - idx,
    {
        let ghost rest = outcomes@.skip(idx as int);
        proof {
            assert(rest[0] == outcomes@[idx as int]);
            assert(rest.skip(1) =~= outcomes@.skip(idx as int + 1));
        }
        let out = outcomes[idx];
        match out {
            SessionOutcome::CleanClose => {
                sup.note_subscribed();
                sessions = sessions + 1;
                return (sessions, waits, sup.attempts, Some(RunResult::Clean));
            },
            SessionOutcome::FailedEarly => {
                sessions = sessions + 1;
                let retry = sup.note_failure();
                if !retry {
                    return (sessions, waits, sup.attempts, Some(RunResult::Exhausted));
                }
                waits = waits + 1;
            },
            SessionOutcome::FailedAfterSubscribe => {
                sessions = sessions + 1;
                sup.note_subscribed();
                let retry = sup.note_failure();
                if !retry {
                    return (sessions, waits, sup.attempts, Some(RunResult::Exhausted));
                }
                waits = waits + 1;
            },
        }
        idx = idx + 1;
    }
    proof {
        assert(outcomes@.skip(n as int) =~= Seq::<SessionOutcome>::empty());
    }
    (sessions, waits, sup.attempts, None)
}

/// Sessions that always fail make exactly the ceiling's number of
/// attempts — never one more — with one fixed backoff between
/// consecutive attempts, and the run ends exhausted.
pub proof fn lemma_exhaustion(outcomes: Seq<SessionOutcome>)
    requires
        outcomes.len() >= MAX_RECONNECT_ATTEMPTS,
        forall|i: int| 0 <= i < outcomes.len() ==> outcomes[i] == SessionOutcome::FailedEarly,
    ensures
        spec_run(outcomes, 0).sessions == MAX_RECONNECT_ATTEMPTS as nat,
        spec_run(outcomes, 0).waits == MAX_RECONNECT_ATTEMPTS as nat - 1,
        spec_run(outcomes, 0).result == Some(RunResult::Exhausted),
{
    lemma_exhaustion_from(outcomes, 0);
}

proof fn lemma_exhaustion_from(outcomes: Seq<SessionOutcome>, attempts: nat)
    requires
        attempts < MAX_RECONNECT_ATTEMPTS as nat,
        outcomes.len() + attempts >= MAX_RECONNECT_ATTEMPTS as nat,
        forall|i: int| 0 <= i < outcomes.len() ==> outcomes[i] == SessionOutcome::FailedEarly,
    ensures
        spec_run(outcomes, attempts).sessions == MAX_RECONNECT_ATTEMPTS as nat - attempts,
        spec_run(outcomes, attempts).waits == MAX_RECONNECT_ATTEMPTS as nat - attempts - 1,
        spec_run(outcomes, attempts).attempts_end == MAX_RECONNECT_ATTEMPTS as nat,
        spec_run(outcomes, attempts).result == Some(RunResult::Exhausted),
    decreases MAX_RECONNECT_ATTEMPTS as nat - attempts,
{
    assert(outcomes[0] == SessionOutcome::FailedEarly);
    if attempts + 1 < MAX_RECONNECT_ATTEMPTS as nat {
        assert(forall|i: int|
            0 <= i < outcomes.skip(1).len() ==> outcomes.skip(1)[i] == outcomes[i + 1]);
        lemma_exhaustion_from(outcomes.skip(1), attempts + 1);
    }
}

/// A run of failures under the ceiling followed by a session that
/// completes its handshake and closes cleanly ends the run cleanly,
/// with the counter reset to zero.
pub proof fn lemma_clean_after_failures(outcomes: Seq<SessionOutcome>, k: int)
    requires
        0 <= k < MAX_RECONNECT_ATTEMPTS,
        k < outcomes.len(),
        forall|i: int| 0 <= i < k ==> outcomes[i] == SessionOutcome::FailedEarly,
        outcomes[k] == SessionOutcome::CleanClose,
    ensures
        spec_run(outcomes, 0).sessions == k + 1,
        spec_run(outcomes, 0).waits == k,
        spec_run(outcomes, 0).attempts_end == 0,
        spec_run(outcomes, 0).result == Some(RunResult::Clean),
{
    lemma_clean_after_failures_from(outcomes, 0, k);
}

proof fn lemma_clean_after_failures_from(outcomes: Seq<SessionOutcome>, attempts: nat, k: int)
    requires
        0 <= k,
        attempts + k < MAX_RECONNECT_ATTEMPTS as nat,
        k < outcomes.len(),
        forall|i: int| 0 <= i < k ==> outcomes[i] == SessionOutcome::FailedEarly,
        outcomes[k] == SessionOutcome::CleanClose,
    ensures
        spec_run(outcomes, attempts).sessions == k + 1,
        spec_run(outcomes, attempts).waits == k,
        spec_run(outcomes, attempts).attempts_end == 0,
        spec_run(outcomes, attempts).result == Some(RunResult::Clean),
    decreases k,
{
    if k == 0 {
    } else {
        assert(outcomes[0] == SessionOutcome::FailedEarly);
        let rest = outcomes.skip(1);
        assert(forall|i: int| 0 <= i < rest.len() ==> rest[i] == outcomes[i + 1]);
        assert(rest[k - 1] == SessionOutcome::CleanClose);
        lemma_clean_after_failures_from(rest, attempts + 1, k - 1);
    }
}

/// A session that closes cleanly — a shutdown among them — ends the run
/// at once, without error and without further attempts.
pub proof fn lemma_clean_close_stops(outcomes: Seq<SessionOutcome>)
    requires
        outcomes.len() > 0,
        outcomes[0] == SessionOutcome::CleanClose,
    ensures
        spec_run(outcomes, 0).sessions == 1,
        spec_run(outcomes, 0).waits == 0,
        spec_run(outcomes, 0).attempts_end == 0,
        spec_run(outcomes, 0).result == Some(RunResult::Clean),
{
}

} // verus!
