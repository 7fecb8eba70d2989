//! Whether the provider's API can be reached: what a probe found, and what a frontend is told.
use vstd::prelude::*;
use vstd::string::*;

use crate::session::event::{Reachability, UiEvent, UiEventView};

verus! {

/// The outcome of one probe.
#[derive(Debug, PartialEq, Eq)]
pub struct ProbeOutcome {
    /// What the probe found.
    pub state: Reachability,
    /// Detail for a person.
    pub detail: Option<String>,
}

impl ProbeOutcome {
    /// An outcome without detail.
    #[must_use]
    pub fn new(state: Reachability) -> (r: Self)
        ensures
            r.state == state,
            r.detail is None,
    {
        ProbeOutcome { state, detail: None }
    }

    /// An outcome with detail.
    #[must_use]
    pub fn with_detail(state: Reachability, detail: &str) -> (r: Self)
        ensures
            r.state == state,
            crate::history::session::opt_text(r.detail) == Some(detail@),
    {
        ProbeOutcome { state, detail: Some(detail.to_owned()) }
    }
}

/// What made a probe run.
#[derive(Debug, Clone, Copy, PartialEq, Eq, Structural)]
pub enum ProbeCause {
    /// The monitor started.
    Startup,
    /// Someone asked for it, or a session could not connect.
    OnDemand,
    /// The interval passed.
    Periodic,
}

/// What the monitor waits for between probes.
#[derive(Debug, Clone, Copy, PartialEq, Eq, Structural)]
pub enum MonitorWait {
    /// Only for someone to ask.
    Demand,
    /// For someone to ask, or for the interval to pass.
    DemandOrInterval {
        /// Seconds.
        secs: u64,
    },
}

/// What a frontend is told before a probe: that it runs, unless it is one of the periodic ones.
pub open spec fn told_before(cause: ProbeCause) -> Seq<UiEventView> {
    if cause == ProbeCause::Periodic {
        Seq::empty()
    } else {
        seq![UiEventView::Reachability { state: Reachability::Checking, detail: None }]
    }
}

/// What a frontend is told before a probe.
pub fn before_probe(cause: ProbeCause) -> (r: Vec<UiEvent>)
    ensures
        crate::text::views(r@) == told_before(cause),
{
    let mut out: Vec<UiEvent> = Vec::new();
    if cause != ProbeCause::Periodic {
        out.push(UiEvent::Reachability { state: Reachability::Checking, detail: None });
    }
    assert(crate::text::views(out@) =~= told_before(cause));
    out
}

/// What a frontend is told after a probe: what it found, each time, so that one that joined late
/// learns it too.
pub fn after_probe(outcome: ProbeOutcome) -> (r: UiEvent)
    ensures
        r@ == (UiEventView::Reachability {
            state: outcome.state,
            detail: crate::history::session::opt_text(outcome.detail),
        }),
{
    UiEvent::Reachability { state: outcome.state, detail: outcome.detail }
}

/// What the monitor waits for: with an interval of zero there are no periodic probes.
pub fn monitor_wait(interval_secs: u64) -> (r: MonitorWait)
    ensures
        r == (if interval_secs == 0 {
            MonitorWait::Demand
        } else {
            MonitorWait::DemandOrInterval { secs: interval_secs }
        }),
{
    if interval_secs == 0 {
        MonitorWait::Demand
    } else {
        MonitorWait::DemandOrInterval { secs: interval_secs }
    }
}

/// A probe that was asked for is announced, and so is the first; those that come by themselves are not.
pub proof fn law_probe_is_announced()
    ensures
        told_before(ProbeCause::Startup) == seq![
            UiEventView::Reachability { state: Reachability::Checking, detail: None },
        ],
        told_before(ProbeCause::OnDemand) == seq![
            UiEventView::Reachability { state: Reachability::Checking, detail: None },
        ],
        told_before(ProbeCause::Periodic).len() == 0,
{
}

} // verus!
