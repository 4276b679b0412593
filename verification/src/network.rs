//! Network checks: how the answers of a few well-known endpoints become an
//! online, slow or offline status, and how the connection monitor pauses the
//! download queue when the connection is lost and resumes it when it is back.

use vstd::prelude::*;
use crate::text::owned;

verus! {

/// What the launcher tells the user about its connection.
pub struct NetworkStatus {
    /// `online`, `slow` or `offline`.
    pub status: String,
    /// The quickest answer's time, where an endpoint answered.
    pub latency_ms: Option<u64>,
    pub message: String,
}

/// The answer of one endpoint.
#[derive(Clone, Copy, Debug)]
pub struct Probe {
    /// Whether the endpoint answered at all.
    pub answered: bool,
    /// The HTTP status of its answer.
    pub status_code: u16,
    /// How long the answer took.
    pub latency_ms: u64,
}

/// An answer counts as a working connection when it is a success (2xx), a
/// `204` or a `405` (the endpoint exists but refuses the method).
pub open spec fn usable(p: Probe) -> bool {
    p.answered && ((200 <= p.status_code && p.status_code <= 299) || p.status_code == 204 || p.status_code == 405)
}

/// The time under which a usable answer means the connection is good.
pub const FAST_MS: u64 = 5000;

/// Whether an answer settles the check as online.
pub open spec fn fast(p: Probe) -> bool {
    usable(p) && p.latency_ms < FAST_MS
}

/// The quickest usable answer among the first `n` probes, none of them fast.
pub open spec fn best_latency(probes: Seq<Probe>) -> Option<u64>
    decreases probes.len(),
{
    if probes.len() == 0 {
        None
    } else {
        let best = best_latency(probes.drop_last());
        let p = probes.last();
        if usable(p) && (best is None || p.latency_ms < best.unwrap()) {
            Some(p.latency_ms)
        } else {
            best
        }
    }
}

/// The position of the first fast answer.
pub open spec fn first_fast(probes: Seq<Probe>) -> Option<int> {
    if exists|i: int| 0 <= i < probes.len() && fast(#[trigger] probes[i]) {
        Some(choose|i: int| 0 <= i < probes.len() && fast(probes[i]) && forall|j: int| 0 <= j < i ==> !fast(#[trigger] probes[j]))
    } else {
        None
    }
}

/// The kinds of status.
#[derive(Clone, Copy, Debug, PartialEq, Eq, Structural)]
pub enum Connection {
    Online,
    Slow,
    Offline,
}

/// The status that the endpoints' answers, taken in order, give: online at
/// the first fast usable answer (with its time); otherwise slow, with the
/// quickest usable answer's time, when some endpoint answered usably;
/// otherwise offline.
pub open spec fn connection_of(probes: Seq<Probe>) -> (Connection, Option<u64>) {
    match first_fast(probes) {
        Some(i) => (Connection::Online, Some(probes[i].latency_ms)),
        None => match best_latency(probes) {
            Some(l) => (Connection::Slow, Some(l)),
            None => (Connection::Offline, None),
        },
    }
}

/// The text and message of a status.
pub open spec fn status_texts(c: Connection) -> (Seq<char>, Seq<char>) {
    match c {
        Connection::Online => ("online"@, "Connection is good"@),
        Connection::Slow => ("slow"@, "Connection is slow"@),
        Connection::Offline => ("offline"@, "Unable to connect to the internet"@),
    }
}

fn status_of(c: Connection, latency: Option<u64>) -> (r: NetworkStatus)
    ensures
        r.status@ == status_texts(c).0,
        r.message@ == status_texts(c).1,
        r.latency_ms == latency,
{
    match c {
        Connection::Online => NetworkStatus {
            status: owned("online"),
            latency_ms: latency,
            message: owned("Connection is good"),
        },
        Connection::Slow => NetworkStatus {
            status: owned("slow"),
            latency_ms: latency,
            message: owned("Connection is slow"),
        },
        Connection::Offline => NetworkStatus {
            status: owned("offline"),
            latency_ms: latency,
            message: owned("Unable to connect to the internet"),
        },
    }
}

/// What a check does after one more answer.
pub enum ProbeStep {
    /// The check is settled: the connection is good.
    Done(NetworkStatus),
    /// The check goes on to the next endpoint, with the quickest usable time so far.
    Continue(Option<u64>),
}

/// Takes one more answer into a check that has seen `best` as its quickest
/// usable time so far.
pub fn probe_step(best: Option<u64>, p: Probe) -> (r: ProbeStep)
    ensures
        fast(p) ==> (r matches ProbeStep::Done(s) && s.status@ == "online"@ && s.message@ == "Connection is good"@
            && s.latency_ms == Some(p.latency_ms)),
        !fast(p) ==> (r matches ProbeStep::Continue(b) && b == (if usable(p) && (best is None || p.latency_ms
            < best.unwrap()) {
            Some(p.latency_ms)
        } else {
            best
        })),
{
    let ok = p.answered && ((200 <= p.status_code && p.status_code <= 299) || p.status_code == 204 || p.status_code == 405);
    if ok && p.latency_ms < FAST_MS {
        return ProbeStep::Done(status_of(Connection::Online, Some(p.latency_ms)));
    }
    if ok {
        match best {
            None => ProbeStep::Continue(Some(p.latency_ms)),
            Some(b) => if p.latency_ms < b {
                ProbeStep::Continue(Some(p.latency_ms))
            } else {
                ProbeStep::Continue(best)
            },
        }
    } else {
        ProbeStep::Continue(best)
    }
}

/// The status when every endpoint was tried without a fast answer.
pub fn status_after_all(best: Option<u64>) -> (r: NetworkStatus)
    ensures
        best is Some ==> r.status@ == "slow"@ && r.message@ == "Connection is slow"@ && r.latency_ms == best,
        best is None ==> r.status@ == "offline"@ && r.message@ == "Unable to connect to the internet"@
            && r.latency_ms is None,
{
    match best {
        Some(l) => status_of(Connection::Slow, Some(l)),
        None => status_of(Connection::Offline, None),
    }
}

/// The status that answers given in order come to.
pub fn network_status(probes: &Vec<Probe>) -> (r: NetworkStatus)
    ensures
        r.status@ == status_texts(connection_of(probes@).0).0,
        r.message@ == status_texts(connection_of(probes@).0).1,
        r.latency_ms == connection_of(probes@).1,
{
    let mut best: Option<u64> = None;
    let mut i: usize = 0;
    while i < probes.len()
        invariant
            i <= probes@.len(),
            best == best_latency(probes@.take(i as int)),
            forall|j: int| 0 <= j < i ==> !fast(#[trigger] probes@[j]),
        decreases probes.len() - i,
    {
        assert(probes@.take(i + 1).drop_last() =~= probes@.take(i as int));
        let p = probes[i];
        match probe_step(best, p) {
            ProbeStep::Done(s) => {
                assert(fast(probes@[i as int]));
                let ghost f = first_fast(probes@);
                assert(f == Some(i as int)) by {
                    let w = choose|k: int| 0 <= k < probes@.len() && fast(probes@[k]) && forall|j: int|
                        0 <= j < k ==> !fast(#[trigger] probes@[j]);
                    assert(0 <= i < probes@.len() && fast(probes@[i as int]) && forall|j: int|
                        0 <= j < i ==> !fast(#[trigger] probes@[j]));
                    if w < i {
                        assert(!fast(probes@[w]));
                    } else if w > i {
                        assert(!fast(probes@[i as int]));
                    }
                };
                return s;
            },
            ProbeStep::Continue(b) => {
                best = b;
            },
        }
        i = i + 1;
    }
    assert(probes@.take(probes@.len() as int) =~= probes@);
    assert(first_fast(probes@) is None);
    status_after_all(best)
}

/// Whether an answer shows that the internet is reachable (for the
/// connection monitor): a success (2xx) or a `204`.
pub open spec fn reachable(p: Probe) -> bool {
    p.answered && ((200 <= p.status_code && p.status_code <= 299) || p.status_code == 204)
}

/// Whether the connection monitor counts the connection as up: some
/// endpoint answered with a success or a `204`.
pub fn is_online(probes: &Vec<Probe>) -> (r: bool)
    ensures
        r == exists|i: int| 0 <= i < probes@.len() && reachable(#[trigger] probes@[i]),
{
    let mut i: usize = 0;
    while i < probes.len()
        invariant
            i <= probes@.len(),
            forall|j: int| 0 <= j < i ==> !reachable(#[trigger] probes@[j]),
        decreases probes.len() - i,
    {
        let p = probes[i];
        if p.answered && ((200 <= p.status_code && p.status_code <= 299) || p.status_code == 204) {
            assert(reachable(probes@[i as int]));
            return true;
        }
        i = i + 1;
    }
    false
}

// ---------------------------------------------------------------------------
// The connection monitor
// ---------------------------------------------------------------------------

/// The number of failed checks in a row after which the queue is paused.
pub const FAILURES_BEFORE_PAUSE: u32 = 3;

/// What the connection monitor remembers between checks.
#[derive(Clone, Copy, Debug, PartialEq, Eq, Structural)]
pub struct MonitorState {
    /// Whether it has paused the queue for a lost connection.
    pub was_offline: bool,
    /// The number of failed checks in a row.
    pub consecutive_failures: u32,
}

/// What the monitor does to the queue after a check.
#[derive(Clone, Copy, Debug, PartialEq, Eq, Structural)]
pub enum MonitorAction {
    Nothing,
    /// Pause the queue, marking the pause as the monitor's own.
    AutoPause,
    /// Resume the queue that the monitor paused.
    AutoResume,
}

impl MonitorState {
    /// The state before the first check.
    pub fn new() -> (r: Self)
        ensures
            !r.was_offline,
            r.consecutive_failures == 0,
    {
        MonitorState { was_offline: false, consecutive_failures: 0 }
    }
}

/// The state and action after one check. A failed check counts one more
/// failure in a row, and pauses the queue when the count reaches three and
/// the queue is not paused for this already. A good check clears the count
/// and, where the monitor had paused for a lost connection, clears that and
/// resumes the queue if the queue is still under the monitor's own pause.
pub open spec fn monitor_next(s: MonitorState, online: bool, queue_auto_paused: bool) -> (MonitorState, MonitorAction) {
    if !online {
        let failures = if s.consecutive_failures == u32::MAX { u32::MAX } else { (s.consecutive_failures + 1) as u32 };
        if failures >= FAILURES_BEFORE_PAUSE && !s.was_offline {
            (MonitorState { was_offline: true, consecutive_failures: failures }, MonitorAction::AutoPause)
        } else {
            (MonitorState { was_offline: s.was_offline, consecutive_failures: failures }, MonitorAction::Nothing)
        }
    } else if s.was_offline {
        (
            MonitorState { was_offline: false, consecutive_failures: 0 },
            if queue_auto_paused { MonitorAction::AutoResume } else { MonitorAction::Nothing },
        )
    } else {
        (MonitorState { was_offline: false, consecutive_failures: 0 }, MonitorAction::Nothing)
    }
}

/// Takes one check's result into the monitor.
pub fn monitor_step(s: MonitorState, online: bool, queue_auto_paused: bool) -> (r: (MonitorState, MonitorAction))
    ensures
        r == monitor_next(s, online, queue_auto_paused),
{
    if !online {
        let failures = s.consecutive_failures.saturating_add(1);
        if failures >= FAILURES_BEFORE_PAUSE && !s.was_offline {
            (MonitorState { was_offline: true, consecutive_failures: failures }, MonitorAction::AutoPause)
        } else {
            (MonitorState { was_offline: s.was_offline, consecutive_failures: failures }, MonitorAction::Nothing)
        }
    } else if s.was_offline {
        let action = if queue_auto_paused {
            MonitorAction::AutoResume
        } else {
            MonitorAction::Nothing
        };
        (MonitorState { was_offline: false, consecutive_failures: 0 }, action)
    } else {
        (MonitorState { was_offline: false, consecutive_failures: 0 }, MonitorAction::Nothing)
    }
}

} // verus!
