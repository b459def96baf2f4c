//! Fan-in of finished scrape tasks: where each outcome goes.
//!
//! A scraped result goes to the success channel, an error that a scrape
//! returned goes to the failure channel, and a task that crashed is only
//! logged. Outcomes are routed one by one, in whatever order tasks finish.
use vstd::prelude::*;

verus! {

/// How one scrape task ended.
#[derive(Debug)]
pub enum TaskOutcome<R, E> {
    /// The scrape returned a result.
    Scraped(R),
    /// The scrape returned an error.
    Failed(E),
    /// The task itself terminated abnormally; the text describes how.
    Crashed(String),
}

/// Where an outcome goes.
#[derive(Debug)]
pub enum Routed<R, E> {
    /// To the success channel.
    ToResults(R),
    /// To the failure channel.
    ToErrors(E),
    /// To the log only.
    LogOnly(String),
}

/// The kind of an outcome, without its content.
#[derive(Debug, Clone, Copy, PartialEq, Eq, Structural)]
pub enum OutcomeKind {
    Scraped,
    Failed,
    Crashed,
}

pub open spec fn kind_of<R, E>(o: TaskOutcome<R, E>) -> OutcomeKind {
    match o {
        TaskOutcome::Scraped(_) => OutcomeKind::Scraped,
        TaskOutcome::Failed(_) => OutcomeKind::Failed,
        TaskOutcome::Crashed(_) => OutcomeKind::Crashed,
    }
}

pub open spec fn route_spec<R, E>(o: TaskOutcome<R, E>) -> Routed<R, E> {
    match o {
        TaskOutcome::Scraped(r) => Routed::ToResults(r),
        TaskOutcome::Failed(e) => Routed::ToErrors(e),
        TaskOutcome::Crashed(m) => Routed::LogOnly(m),
    }
}

/// Routes the outcome of one finished task.
pub fn route_outcome<R, E>(outcome: TaskOutcome<R, E>) -> (r: Routed<R, E>)
    ensures
        r == route_spec(outcome),
{
    match outcome {
        TaskOutcome::Scraped(r) => Routed::ToResults(r),
        TaskOutcome::Failed(e) => Routed::ToErrors(e),
        TaskOutcome::Crashed(m) => Routed::LogOnly(m),
    }
}

/// The kinds of a sequence of outcomes.
pub open spec fn kinds<R, E>(os: Seq<TaskOutcome<R, E>>) -> Seq<OutcomeKind> {
    os.map_values(|o: TaskOutcome<R, E>| kind_of(o))
}

/// Outcomes that routing sends to the success channel.
pub open spec fn results_sent<R, E>(os: Seq<TaskOutcome<R, E>>) -> nat {
    os.filter(|o: TaskOutcome<R, E>| route_spec(o) is ToResults).len()
}

/// Outcomes that routing sends to the failure channel.
pub open spec fn errors_sent<R, E>(os: Seq<TaskOutcome<R, E>>) -> nat {
    os.filter(|o: TaskOutcome<R, E>| route_spec(o) is ToErrors).len()
}

proof fn lemma_sent_counts<R, E>(os: Seq<TaskOutcome<R, E>>)
    ensures
        results_sent(os) == kinds(os).to_multiset().count(OutcomeKind::Scraped),
        errors_sent(os) == kinds(os).to_multiset().count(OutcomeKind::Failed),
        results_sent(os) + errors_sent(os) + kinds(os).to_multiset().count(OutcomeKind::Crashed)
            == os.len(),
    decreases os.len(),
{
    broadcast use vstd::multiset::group_multiset_axioms;

    let pr = |o: TaskOutcome<R, E>| route_spec(o) is ToResults;
    let pe = |o: TaskOutcome<R, E>| route_spec(o) is ToErrors;
    if os.len() == 0 {
        assert(os.filter(pr) =~= Seq::<TaskOutcome<R, E>>::empty());
        assert(os.filter(pe) =~= Seq::<TaskOutcome<R, E>>::empty());
        assert(kinds(os) =~= Seq::<OutcomeKind>::empty());
        kinds(os).to_multiset_ensures();
    } else {
        let prev = os.drop_last();
        let x = os.last();
        lemma_sent_counts(prev);
        assert(prev.push(x) =~= os);
        prev.lemma_filter_push(x, pr);
        prev.lemma_filter_push(x, pe);
        assert(kinds(prev).push(kind_of(x)) =~= kinds(os));
        vstd::seq_lib::to_multiset_build(kinds(prev), kind_of(x));
    }
}

/// Routing N finished tasks of which M scraped a result and the rest
/// returned an error sends exactly M results to the success channel and
/// N - M errors to the failure channel.
pub proof fn lemma_routing_counts<R, E>(os: Seq<TaskOutcome<R, E>>, m: nat)
    requires
        forall|k: int| 0 <= k < os.len() ==> !(#[trigger] os[k] is Crashed),
        kinds(os).to_multiset().count(OutcomeKind::Scraped) == m,
    ensures
        results_sent(os) == m,
        errors_sent(os) == os.len() - m,
{
    lemma_sent_counts(os);
    assert forall|k: int| 0 <= k < kinds(os).len() implies kinds(os)[k] != OutcomeKind::Crashed by {
        assert(!(os[k] is Crashed));
    }
    assert(!kinds(os).contains(OutcomeKind::Crashed));
    vstd::seq_lib::to_multiset_contains(kinds(os), OutcomeKind::Crashed);
}

/// What reaches each channel does not depend on the order in which tasks
/// finish: two runs with the same kinds of outcome, in any order, send the
/// same number of results and of errors.
pub proof fn lemma_routing_order_independent<R, E>(
    os1: Seq<TaskOutcome<R, E>>,
    os2: Seq<TaskOutcome<R, E>>,
)
    requires
        kinds(os1).to_multiset() == kinds(os2).to_multiset(),
    ensures
        results_sent(os1) == results_sent(os2),
        errors_sent(os1) == errors_sent(os2),
{
    lemma_sent_counts(os1);
    lemma_sent_counts(os2);
}

} // verus!
