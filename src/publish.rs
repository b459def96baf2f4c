//! Decisions of the result sink's publish loop.
//!
//! Each attempt fetches a fresh token and posts the payload; a failed attempt
//! is reported to the error sink and retried at once, with no wait, until
//! five attempts have failed, when the result is dropped.
use vstd::prelude::*;

verus! {

/// Attempts made to publish one result before it is dropped.
pub const PUBLISH_ATTEMPTS: u32 = 5;

/// What one publish attempt came to.
#[derive(Debug, Clone, Copy, PartialEq, Eq, Structural)]
pub enum PublishOutcome {
    /// The post was answered with a success status.
    Published,
    /// The token fetch or the post failed, or the status was an error.
    Failed,
}

/// The outcome of a publish attempt from the status the post got, `None`
/// where the token fetch or the post failed: only 2xx is a success.
pub fn publish_outcome(status: Option<u16>) -> (r: PublishOutcome)
    ensures
        r == if status matches Some(code) && 200 <= code <= 299 {
            PublishOutcome::Published
        } else {
            PublishOutcome::Failed
        },
{
    match status {
        Some(code) => if 200 <= code && code <= 299 {
            PublishOutcome::Published
        } else {
            PublishOutcome::Failed
        },
        None => PublishOutcome::Failed,
    }
}

/// What the publish loop does next.
#[derive(Debug, Clone, Copy, PartialEq, Eq, Structural)]
pub enum PublishDecision {
    /// The result was delivered: log the response and stop.
    Delivered,
    /// Report the failure to the error sink and attempt again at once.
    ReportAndRetry,
    /// Report the failure to the error sink and drop the result.
    ReportAndDrop,
}

/// Progress of publishing one result.
#[derive(Debug, Clone, Copy, PartialEq, Eq, Structural)]
pub struct PublishState {
    /// Attempts made so far.
    pub attempts: u32,
}

pub open spec fn publish_state_ok(s: PublishState) -> bool {
    s.attempts < PUBLISH_ATTEMPTS
}

pub open spec fn publish_step(s: PublishState, o: PublishOutcome) -> (PublishState, PublishDecision) {
    let n = PublishState { attempts: (s.attempts + 1) as u32 };
    match o {
        PublishOutcome::Published => (n, PublishDecision::Delivered),
        PublishOutcome::Failed => if n.attempts >= PUBLISH_ATTEMPTS {
            (n, PublishDecision::ReportAndDrop)
        } else {
            (n, PublishDecision::ReportAndRetry)
        },
    }
}

impl PublishState {
    /// Publishing a result that has not been attempted yet.
    pub fn new() -> (r: PublishState)
        ensures
            r.attempts == 0,
            publish_state_ok(r),
    {
        PublishState { attempts: 0 }
    }

    /// Takes the outcome of the attempt just made: the next state and what
    /// to do. After a retry decision attempts are still left.
    pub fn next(self, outcome: PublishOutcome) -> (r: (PublishState, PublishDecision))
        requires
            publish_state_ok(self),
        ensures
            r == publish_step(self, outcome),
            r.1 is ReportAndRetry ==> publish_state_ok(r.0),
    {
        let n = PublishState { attempts: self.attempts + 1 };
        match outcome {
            PublishOutcome::Published => (n, PublishDecision::Delivered),
            PublishOutcome::Failed => if n.attempts >= PUBLISH_ATTEMPTS {
                (n, PublishDecision::ReportAndDrop)
            } else {
                (n, PublishDecision::ReportAndRetry)
            },
        }
    }
}

/// Publishing one result against an endpoint whose `k`-th attempt (from 0)
/// comes to `outcomes[k]`: attempts made, failures reported to the error
/// sink, and whether the result was delivered. A run that would need more
/// outcomes than are given stops where they end.
pub open spec fn publish_run(s: PublishState, outcomes: Seq<PublishOutcome>) -> (nat, nat, bool)
    decreases PUBLISH_ATTEMPTS - s.attempts,
{
    if !publish_state_ok(s) || s.attempts >= outcomes.len() {
        (s.attempts as nat, 0, false)
    } else {
        let (n, d) = publish_step(s, outcomes[s.attempts as int]);
        match d {
            PublishDecision::Delivered => (n.attempts as nat, 0, true),
            PublishDecision::ReportAndDrop => (n.attempts as nat, 1, false),
            PublishDecision::ReportAndRetry => {
                let (a, e, ok) = publish_run(n, outcomes);
                (a, e + 1, ok)
            },
        }
    }
}

/// Against an endpoint that always fails, publishing makes exactly five
/// attempts, reports five failures, and drops the result; no step between
/// attempts waits.
pub proof fn lemma_always_failing_publish(outcomes: Seq<PublishOutcome>)
    requires
        outcomes.len() >= PUBLISH_ATTEMPTS,
        forall|k: int| 0 <= k < outcomes.len() ==> outcomes[k] == PublishOutcome::Failed,
    ensures
        publish_run(PublishState { attempts: 0 }, outcomes) == (5nat, 5nat, false),
{
    lemma_failing_publish_from(PublishState { attempts: 0 }, outcomes);
}

proof fn lemma_failing_publish_from(s: PublishState, outcomes: Seq<PublishOutcome>)
    requires
        publish_state_ok(s),
        outcomes.len() >= PUBLISH_ATTEMPTS,
        forall|k: int| 0 <= k < outcomes.len() ==> outcomes[k] == PublishOutcome::Failed,
    ensures
        publish_run(s, outcomes) == (5nat, (5 - s.attempts) as nat, false),
    decreases PUBLISH_ATTEMPTS - s.attempts,
{
    let n = PublishState { attempts: (s.attempts + 1) as u32 };
    if n.attempts < PUBLISH_ATTEMPTS {
        lemma_failing_publish_from(n, outcomes);
    }
}

/// Whatever the endpoint does, publishing one result stops after at most
/// five attempts, and every failed attempt is reported once.
pub proof fn lemma_publish_bounded(outcomes: Seq<PublishOutcome>)
    requires
        outcomes.len() >= PUBLISH_ATTEMPTS,
    ensures
        ({
            let (a, e, ok) = publish_run(PublishState { attempts: 0 }, outcomes);
            &&& 1 <= a <= 5
            &&& e == if ok {
                (a - 1) as nat
            } else {
                a
            }
        }),
{
    lemma_publish_bounded_from(PublishState { attempts: 0 }, outcomes);
}

proof fn lemma_publish_bounded_from(s: PublishState, outcomes: Seq<PublishOutcome>)
    requires
        publish_state_ok(s),
        outcomes.len() >= PUBLISH_ATTEMPTS,
    ensures
        ({
            let (a, e, ok) = publish_run(s, outcomes);
            &&& s.attempts + 1 <= a <= 5
            &&& e + s.attempts == if ok {
                (a - 1) as nat
            } else {
                a
            }
        }),
    decreases PUBLISH_ATTEMPTS - s.attempts,
{
    let n = PublishState { attempts: (s.attempts + 1) as u32 };
    if n.attempts < PUBLISH_ATTEMPTS {
        lemma_publish_bounded_from(n, outcomes);
    }
}

} // verus!
