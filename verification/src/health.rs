//! The health monitor's decisions: what a poll of the upstream says, and
//! what follows for the shared status. The status is there to be observed:
//! the admission filter does not consult it, so a disconnected upstream
//! alone turns no request down.
use vstd::prelude::*;

verus! {

/// Status of the upstream connection as the backend reports it.
#[derive(Clone, Copy, Debug, PartialEq, Eq, Structural)]
pub enum ConnectionStatus {
    Connected,
    Disconnected,
}

/// The `configuration` part of the backend's health answer.
#[derive(Debug)]
pub struct Configuration {
    pub indexes: String,
}

/// The backend's answer to a health request.
#[derive(Debug)]
pub struct KupoHealthCheckResponse {
    pub connection_status: ConnectionStatus,
    pub most_recent_checkpoint: u64,
    pub most_recent_node_tip: u64,
    pub configuration: Configuration,
    pub version: String,
}

/// How one poll of the upstream ended.
#[derive(Clone, Copy, Debug, PartialEq, Eq, Structural)]
pub enum Poll {
    /// No HTTP client could be built.
    NoClient,
    /// The request did not get through.
    Unreachable,
    /// The upstream answered with this status, which is a failure.
    Failed(u16),
    /// The answer could not be read.
    Unreadable,
    /// The upstream reported this connection status.
    Reported(ConnectionStatus),
}

/// A change of the shared status that is worth a log line.
#[derive(Clone, Copy, Debug, PartialEq, Eq, Structural)]
pub enum Transition {
    /// The upstream is healthy again.
    BecameHealthy,
    /// The upstream is no longer healthy.
    BecameUnhealthy,
}

/// Whether an HTTP status is a client or server error.
pub open spec fn is_failure_status(status: u16) -> bool {
    400 <= status < 600
}

/// How a poll ended, given the status of the answer and, where the answer
/// was read, what it reported.
pub open spec fn poll_of(status: u16, report: Option<ConnectionStatus>) -> Poll {
    if is_failure_status(status) {
        Poll::Failed(status)
    } else {
        match report {
            Some(connection) => Poll::Reported(connection),
            None => Poll::Unreadable,
        }
    }
}

/// How a poll ended whose request got an answer.
pub fn classify(status: u16, report: Option<ConnectionStatus>) -> (poll: Poll)
    ensures
        poll == poll_of(status, report),
{
    if 400 <= status && status < 600 {
        Poll::Failed(status)
    } else {
        match report {
            Some(connection) => Poll::Reported(connection),
            None => Poll::Unreadable,
        }
    }
}

/// The status after a poll: what the upstream reported, and the status as
/// it was where the poll did not get a report.
pub open spec fn health_after(current: bool, poll: Poll) -> bool {
    match poll {
        Poll::Reported(connection) => connection == ConnectionStatus::Connected,
        _ => current,
    }
}

/// The log line that a change of status is worth, if it is a change.
pub open spec fn transition_between(before: bool, after: bool) -> Option<Transition> {
    if !before && after {
        Some(Transition::BecameHealthy)
    } else if before && !after {
        Some(Transition::BecameUnhealthy)
    } else {
        None
    }
}

/// What a poll reports of the upstream, where it reports anything.
pub fn get_health(poll: Poll) -> (reported: Option<bool>)
    ensures
        reported == match poll {
            Poll::Reported(connection) => Some(connection == ConnectionStatus::Connected),
            _ => None::<bool>,
        },
{
    match poll {
        Poll::Reported(ConnectionStatus::Connected) => Some(true),
        Poll::Reported(ConnectionStatus::Disconnected) => Some(false),
        _ => None,
    }
}

/// The shared status after a poll, and the transition to log.
pub fn update_health(current: bool, poll: Poll) -> (next: (bool, Option<Transition>))
    ensures
        next.0 == health_after(current, poll),
        next.1 == transition_between(current, next.0),
{
    let after = match get_health(poll) {
        Some(reported) => reported,
        None => current,
    };
    let transition = if !current && after {
        Some(Transition::BecameHealthy)
    } else if current && !after {
        Some(Transition::BecameUnhealthy)
    } else {
        None
    };
    (after, transition)
}

/// The status after a run of polls.
pub open spec fn health_after_all(current: bool, polls: Seq<Poll>) -> bool
    decreases polls.len(),
{
    if polls.len() == 0 {
        current
    } else {
        health_after(health_after_all(current, polls.drop_last()), polls.last())
    }
}

/// The transitions logged over a run of polls, in their order.
pub open spec fn transitions_over(current: bool, polls: Seq<Poll>) -> Seq<Transition>
    decreases polls.len(),
{
    if polls.len() == 0 {
        Seq::<Transition>::empty()
    } else {
        let before = health_after_all(current, polls.drop_last());
        let earlier = transitions_over(current, polls.drop_last());
        match transition_between(before, health_after(before, polls.last())) {
            Some(transition) => earlier.push(transition),
            None => earlier,
        }
    }
}

/// How often the status changes over a run of polls.
pub open spec fn changes_over(current: bool, polls: Seq<Poll>) -> nat
    decreases polls.len(),
{
    if polls.len() == 0 {
        0
    } else {
        let before = health_after_all(current, polls.drop_last());
        let earlier = changes_over(current, polls.drop_last());
        if health_after(before, polls.last()) != before {
            earlier + 1
        } else {
            earlier
        }
    }
}

/// Over any run of polls one transition is logged for each change of the
/// status, and none besides.
pub proof fn law_one_transition_per_change(current: bool, polls: Seq<Poll>)
    ensures
        transitions_over(current, polls).len() == changes_over(current, polls),
    decreases polls.len(),
{
    if polls.len() > 0 {
        law_one_transition_per_change(current, polls.drop_last());
    }
}

/// While every poll leaves the status as it is, nothing is logged.
pub proof fn law_quiet_while_unchanged(current: bool, polls: Seq<Poll>)
    requires
        forall|i: int| 0 <= i < polls.len() ==> health_after(current, #[trigger] polls[i]) == current,
    ensures
        health_after_all(current, polls) == current,
        transitions_over(current, polls) == Seq::<Transition>::empty(),
    decreases polls.len(),
{
    if polls.len() > 0 {
        law_quiet_while_unchanged(current, polls.drop_last());
    }
}

/// A connected upstream that reports disconnected and then connected again
/// is logged exactly twice, however often each report is repeated: once as
/// unhealthy, once as healthy.
pub proof fn law_drop_and_recovery(down: nat, up: nat)
    requires
        down > 0,
        up > 0,
    ensures
        transitions_over(
            true,
            Seq::new(down, |i: int| Poll::Reported(ConnectionStatus::Disconnected)) + Seq::new(
                up,
                |i: int| Poll::Reported(ConnectionStatus::Connected),
            ),
        ) == seq![Transition::BecameUnhealthy, Transition::BecameHealthy],
{
    let downs = Seq::new(down, |i: int| Poll::Reported(ConnectionStatus::Disconnected));
    let ups = Seq::new(up, |i: int| Poll::Reported(ConnectionStatus::Connected));
    lemma_repeated_report(true, ConnectionStatus::Disconnected, down);
    lemma_continue(true, downs, ConnectionStatus::Connected, up);
    assert(seq![Transition::BecameUnhealthy].push(Transition::BecameHealthy) =~= seq![
        Transition::BecameUnhealthy,
        Transition::BecameHealthy,
    ]);
}

/// A report repeated `n` times, first in a state that it changes.
proof fn lemma_repeated_report(current: bool, report: ConnectionStatus, n: nat)
    requires
        n > 0,
        current != (report == ConnectionStatus::Connected),
    ensures
        health_after_all(current, Seq::new(n, |i: int| Poll::Reported(report))) == !current,
        transitions_over(current, Seq::new(n, |i: int| Poll::Reported(report))) == seq![
            transition_between(current, !current).unwrap(),
        ],
    decreases n,
{
    let polls = Seq::new(n, |i: int| Poll::Reported(report));
    let shorter = Seq::new((n - 1) as nat, |i: int| Poll::Reported(report));
    assert(polls.drop_last() =~= shorter);
    if n > 1 {
        lemma_repeated_report(current, report, (n - 1) as nat);
    } else {
        assert(polls.last() == Poll::Reported(report));
        assert(shorter.len() == 0);
        assert(health_after_all(current, shorter) == current);
        assert(transitions_over(current, shorter) =~= Seq::<Transition>::empty());
        assert(Seq::<Transition>::empty().push(transition_between(current, !current).unwrap())
            =~= seq![transition_between(current, !current).unwrap()]);
    }
    assert(polls.last() == Poll::Reported(report));
}

/// A report repeated `n` times after a run of polls that left the opposite
/// state.
proof fn lemma_continue(current: bool, first: Seq<Poll>, report: ConnectionStatus, n: nat)
    requires
        n > 0,
        health_after_all(current, first) != (report == ConnectionStatus::Connected),
    ensures
        transitions_over(current, first + Seq::new(n, |i: int| Poll::Reported(report)))
            == transitions_over(current, first).push(
            transition_between(
                health_after_all(current, first),
                !health_after_all(current, first),
            ).unwrap(),
        ),
        health_after_all(current, first + Seq::new(n, |i: int| Poll::Reported(report)))
            == !health_after_all(current, first),
    decreases n,
{
    let polls = first + Seq::new(n, |i: int| Poll::Reported(report));
    let shorter = first + Seq::new((n - 1) as nat, |i: int| Poll::Reported(report));
    assert(polls.drop_last() =~= shorter);
    if n > 1 {
        lemma_continue(current, first, report, (n - 1) as nat);
    } else {
        assert(shorter =~= first);
    }
}

} // verus!
