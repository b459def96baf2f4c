//! Decisions of the backoff-retry executor that issues scrape requests.
//!
//! The executor issues the request, hands the outcome to `RetryState::next`,
//! and then returns, or sleeps `backoff` seconds for the attempt it is told
//! and issues the request again. A transport failure ends the run at once;
//! only an error status is retried.
use vstd::prelude::*;

verus! {

/// Attempts made when the caller names no limit.
pub const DEFAULT_MAX_RETRIES: u32 = 5;

/// The highest attempt limit a caller may set; higher requests are lowered to it.
pub const MAX_RETRIES_CAP: u32 = 10;

/// The attempt limit in force for a requested one.
pub open spec fn max_retries_for(requested: Option<u32>) -> u32 {
    match requested {
        None => DEFAULT_MAX_RETRIES,
        Some(n) => if n > MAX_RETRIES_CAP {
            MAX_RETRIES_CAP
        } else {
            n
        },
    }
}

/// The attempt limit in force: `requested`, at most 10, or 5 when none is named.
pub fn effective_max_retries(requested: Option<u32>) -> (r: u32)
    ensures
        r == max_retries_for(requested),
{
    match requested {
        None => DEFAULT_MAX_RETRIES,
        Some(n) => if n > MAX_RETRIES_CAP {
            MAX_RETRIES_CAP
        } else {
            n
        },
    }
}

pub open spec fn pow2(n: nat) -> nat
    decreases n,
{
    if n == 0 {
        1
    } else {
        2 * pow2((n - 1) as nat)
    }
}

/// The default backoff: `(2^attempt - 1) / 2` seconds.
pub open spec fn default_backoff_spec(attempt: nat) -> nat {
    ((pow2(attempt) - 1) / 2) as nat
}

proof fn lemma_pow2_positive(n: nat)
    ensures
        pow2(n) >= 1,
    decreases n,
{
    if n > 0 {
        lemma_pow2_positive((n - 1) as nat);
    }
}

proof fn lemma_pow2_mono(i: nat, j: nat)
    requires
        i <= j,
    ensures
        pow2(i) <= pow2(j),
    decreases j,
{
    if i < j {
        lemma_pow2_mono(i, (j - 1) as nat);
    }
}

/// Seconds to wait after failed attempt number `attempt` (counted from 1)
/// when the caller names no backoff.
pub fn default_backoff(attempt: u32) -> (r: u32)
    requires
        attempt < 32,
    ensures
        r == default_backoff_spec(attempt as nat),
{
    proof {
        lemma_pow2_mono(attempt as nat, 31);
        assert(pow2(31) == 0x8000_0000) by {
            reveal_with_fuel(pow2, 32);
        }
        lemma_pow2_positive(attempt as nat);
    }
    let mut p: u32 = 1;
    let mut k: u32 = 0;
    while k < attempt
        invariant
            k <= attempt < 32,
            p == pow2(k as nat),
            pow2(attempt as nat) <= 0x8000_0000,
        decreases attempt - k,
    {
        proof {
            lemma_pow2_mono((k + 1) as nat, attempt as nat);
        }
        p = p * 2;
        k = k + 1;
    }
    (p - 1) / 2
}

/// What one issued request came to.
#[derive(Debug, Clone, Copy, PartialEq, Eq, Structural)]
pub enum AttemptOutcome {
    /// A response with a success status.
    Success,
    /// A response with an error status.
    StatusError,
    /// No response: the connection, name lookup or TLS failed.
    TransportError,
}

/// The outcome of an attempt from the response status it got, `None` where
/// no response came: 4xx and 5xx are error statuses.
pub fn attempt_outcome(status: Option<u16>) -> (r: AttemptOutcome)
    ensures
        r == match status {
            None => AttemptOutcome::TransportError,
            Some(code) => if 400 <= code <= 599 {
                AttemptOutcome::StatusError
            } else {
                AttemptOutcome::Success
            },
        },
{
    match status {
        None => AttemptOutcome::TransportError,
        Some(code) => if 400 <= code && code <= 599 {
            AttemptOutcome::StatusError
        } else {
            AttemptOutcome::Success
        },
    }
}

/// What the executor returns.
#[derive(Debug, Clone, Copy, PartialEq, Eq, Structural)]
pub enum Verdict {
    /// The response of the last attempt, whose status was a success.
    Response,
    /// The error status of the last attempt; no attempts are left.
    StatusFailed,
    /// The transport error of the last attempt.
    TransportFailed,
}

/// What the executor does next.
#[derive(Debug, Clone, Copy, PartialEq, Eq, Structural)]
pub enum RetryDecision {
    /// Stop and return.
    Finish(Verdict),
    /// Sleep the backoff for failed attempt number `attempt`, then issue the
    /// request again.
    Backoff { attempt: u32 },
}

/// Progress of one executor run.
#[derive(Debug, Clone, Copy, PartialEq, Eq, Structural)]
pub struct RetryState {
    /// Requests issued so far.
    pub attempts: u32,
    /// Requests the run may issue.
    pub max_retries: u32,
}

/// Attempts may still be made.
pub open spec fn retry_state_ok(s: RetryState) -> bool {
    1 <= s.max_retries <= MAX_RETRIES_CAP && s.attempts < s.max_retries
}

/// One step of the executor: the outcome of the request just issued decides.
pub open spec fn retry_step(s: RetryState, o: AttemptOutcome) -> (RetryState, RetryDecision) {
    let n = RetryState { attempts: (s.attempts + 1) as u32, ..s };
    match o {
        AttemptOutcome::Success => (n, RetryDecision::Finish(Verdict::Response)),
        AttemptOutcome::TransportError => (n, RetryDecision::Finish(Verdict::TransportFailed)),
        AttemptOutcome::StatusError => if n.attempts < s.max_retries {
            (n, RetryDecision::Backoff { attempt: n.attempts })
        } else {
            (n, RetryDecision::Finish(Verdict::StatusFailed))
        },
    }
}

impl RetryState {
    /// A run with no request issued yet.
    pub fn new(max_retries: u32) -> (r: RetryState)
        requires
            1 <= max_retries <= MAX_RETRIES_CAP,
        ensures
            r == (RetryState { attempts: 0, max_retries }),
            retry_state_ok(r),
    {
        RetryState { attempts: 0, max_retries }
    }

    /// Takes the outcome of the request just issued: the next state and what
    /// to do. After a backoff decision attempts are still left.
    pub fn next(self, outcome: AttemptOutcome) -> (r: (RetryState, RetryDecision))
        requires
            retry_state_ok(self),
        ensures
            r == retry_step(self, outcome),
            r.1 is Backoff ==> retry_state_ok(r.0),
    {
        let n = RetryState { attempts: self.attempts + 1, max_retries: self.max_retries };
        match outcome {
            AttemptOutcome::Success => (n, RetryDecision::Finish(Verdict::Response)),
            AttemptOutcome::TransportError => (
                n,
                RetryDecision::Finish(Verdict::TransportFailed),
            ),
            AttemptOutcome::StatusError => if n.attempts < self.max_retries {
                (n, RetryDecision::Backoff { attempt: n.attempts })
            } else {
                (n, RetryDecision::Finish(Verdict::StatusFailed))
            },
        }
    }
}

/// A whole executor run against an endpoint whose `k`-th request (from 0)
/// comes to `outcomes[k]`: requests issued, and what is returned. A run
/// that would need more outcomes than are given stops where they end.
pub open spec fn retry_run(s: RetryState, outcomes: Seq<AttemptOutcome>) -> (nat, Verdict)
    decreases s.max_retries - s.attempts,
{
    if !retry_state_ok(s) || s.attempts >= outcomes.len() {
        (s.attempts as nat, Verdict::StatusFailed)
    } else {
        let (n, d) = retry_step(s, outcomes[s.attempts as int]);
        match d {
            RetryDecision::Finish(v) => (n.attempts as nat, v),
            RetryDecision::Backoff { .. } => retry_run(n, outcomes),
        }
    }
}

/// Against an endpoint that always answers with an error status, a run makes
/// exactly `max_retries` requests and returns the last status error.
pub proof fn lemma_always_failing_status(max_retries: u32, outcomes: Seq<AttemptOutcome>)
    requires
        1 <= max_retries <= MAX_RETRIES_CAP,
        outcomes.len() >= max_retries,
        forall|k: int| 0 <= k < outcomes.len() ==> outcomes[k] == AttemptOutcome::StatusError,
    ensures
        retry_run(RetryState { attempts: 0, max_retries }, outcomes) == (
            max_retries as nat,
            Verdict::StatusFailed,
        ),
{
    lemma_failing_status_from(RetryState { attempts: 0, max_retries }, outcomes);
}

proof fn lemma_failing_status_from(s: RetryState, outcomes: Seq<AttemptOutcome>)
    requires
        retry_state_ok(s),
        outcomes.len() >= s.max_retries,
        forall|k: int| 0 <= k < outcomes.len() ==> outcomes[k] == AttemptOutcome::StatusError,
    ensures
        retry_run(s, outcomes) == (s.max_retries as nat, Verdict::StatusFailed),
    decreases s.max_retries - s.attempts,
{
    let n = RetryState { attempts: (s.attempts + 1) as u32, ..s };
    if n.attempts < s.max_retries {
        lemma_failing_status_from(n, outcomes);
    }
}

/// Against an endpoint that answers first with an error status and then
/// with a success, a run with at least two attempts makes exactly two
/// requests and returns the second response.
pub proof fn lemma_status_then_success(max_retries: u32, outcomes: Seq<AttemptOutcome>)
    requires
        2 <= max_retries <= MAX_RETRIES_CAP,
        outcomes.len() >= 2,
        outcomes[0] == AttemptOutcome::StatusError,
        outcomes[1] == AttemptOutcome::Success,
    ensures
        retry_run(RetryState { attempts: 0, max_retries }, outcomes) == (2nat, Verdict::Response),
{
    let s1 = RetryState { attempts: 1, max_retries };
    assert(retry_run(s1, outcomes) == (2nat, Verdict::Response));
}

/// Against an endpoint that cannot be reached, a run makes exactly one
/// request and returns the transport error: it is never retried.
pub proof fn lemma_transport_failure_not_retried(max_retries: u32, outcomes: Seq<AttemptOutcome>)
    requires
        1 <= max_retries <= MAX_RETRIES_CAP,
        outcomes.len() >= 1,
        outcomes[0] == AttemptOutcome::TransportError,
    ensures
        retry_run(RetryState { attempts: 0, max_retries }, outcomes) == (
            1nat,
            Verdict::TransportFailed,
        ),
{
}

} // verus!
