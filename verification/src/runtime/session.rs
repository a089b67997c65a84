//! The pure half of the terminal session: the colour policy it launches
//! with, how long its driver waits between turns, and the order in which
//! one scheduler turn does its work.

use core::time::Duration;

use vstd::prelude::*;

use crate::runtime::time::{duration_from_nanos, duration_new, earlier, lemma_nanos_parts, nanos_of, sub_parts, Moment};
use crate::theme::tokens::ColorLevel;

verus! {

/// How the terminal session narrows the launch theme's colour.
#[derive(Clone, Copy, Debug, PartialEq, Eq, Structural)]
pub enum TerminalColorPolicy {
    /// Narrow once from ambient detection.
    Detect,
    /// Narrow once to exactly this level, with no ambient detection.
    Requested(ColorLevel),
}

/// The lifecycle service quantum, 100 ms: the driver never waits past it.
pub open spec fn quantum() -> (u64, u32) {
    (0, 100_000_000)
}

/// The span `wait_bound` waits for, in nanoseconds.
pub open spec fn wait_nanos(deadline: Option<Moment>, now: Moment) -> int {
    match deadline {
        Some(at) => {
            let left = if at.spec_nanos() < now.spec_nanos() { 0 } else { at.spec_nanos() - now.spec_nanos() };
            if left < 100_000_000 { left } else { 100_000_000 }
        },
        None => 100_000_000,
    }
}

/// How long the driver waits, as `(secs, nanos)`: the time remaining to
/// the earliest deadline, capped at the lifecycle quantum. An overdue
/// deadline waits zero; no deadline waits the quantum.
pub fn wait_span(deadline: Option<Moment>, now: Moment) -> (r: (u64, u32))
    requires
        now.wf(),
        deadline matches Some(at) ==> at.wf(),
    ensures
        r.1 < 1_000_000_000,
        nanos_of(r.0, r.1) == match deadline {
            Some(at) => {
                let left = if at.spec_nanos() < now.spec_nanos() { 0 } else { at.spec_nanos() - now.spec_nanos() };
                if left < 100_000_000 { left } else { 100_000_000 }
            },
            None => 100_000_000,
        },
{
    let q: (u64, u32) = (0, 100_000_000);
    match deadline {
        Some(at) => {
            let left = sub_parts(at.parts(), now.parts());
            if earlier(left, q) {
                left
            } else {
                q
            }
        },
        None => q,
    }
}

/// How long the driver waits: the time remaining to the earliest
/// deadline, capped at the lifecycle quantum.
pub fn wait_bound(deadline: Option<Moment>, now: Moment) -> (d: Duration)
    requires
        now.wf(),
        deadline matches Some(at) ==> at.wf(),
    ensures
        d == duration_from_nanos(wait_nanos(deadline, now)),
{
    let w = wait_span(deadline, now);
    proof {
        lemma_nanos_parts(w.0, w.1);
    }
    duration_new(w.0, w.1)
}

/// Where the driver stands within a scheduler turn.
#[derive(Clone, Copy, Debug, PartialEq, Eq, Structural)]
pub enum TurnPhase {
    /// A new turn: the clock advances exactly once.
    Advance,
    /// The settle check of the render loop.
    Settle,
    /// The present check of the render loop.
    Present,
    /// Rendering is done: quit, handle, service a stop, or wait.
    Decide,
}

/// What the driver does next.
#[derive(Clone, Copy, Debug, PartialEq, Eq)]
pub enum DriverAction {
    /// Advance the runtime's clock to the elapsed time.
    AdvanceClock,
    /// Let the runtime settle.
    Settle,
    /// Draw a frame and commit it as presented.
    Present,
    /// Leave the session and return.
    Quit,
    /// Hand the pending input to the runtime.
    Handle,
    /// Suspend for a stop signal, stop, resume, and stage a resize.
    ServiceStop,
    /// Wait for input at most this long, then read it if it came.
    Poll(Duration),
    /// Nothing to do in this phase.
    Pass,
}

/// What the driver knows about the runtime and the terminal when it steps.
#[derive(Clone, Copy, Debug, PartialEq, Eq, Structural)]
pub struct DriverView {
    /// The runtime has work to settle.
    pub needs_settle: bool,
    /// The runtime has a frame to present.
    pub needs_present: bool,
    /// The application or the runtime asked to quit.
    pub quit: bool,
    /// An input is waiting to be handled.
    pub pending_input: bool,
    /// A stop signal is waiting to be serviced.
    pub stop_pending: bool,
    /// The runtime's earliest deadline.
    pub deadline: Option<Moment>,
    /// The elapsed time now.
    pub now: Moment,
}

/// One step of the session driver: each turn advances the clock once,
/// then renders (settle; present and settle again while a frame is due)
/// until nothing needs settling, then quits, handles pending input,
/// services a stop, or waits for input no longer than `wait_bound`.
pub open spec fn step_spec(phase: TurnPhase, v: DriverView) -> (DriverAction, TurnPhase) {
    match phase {
        TurnPhase::Advance => (DriverAction::AdvanceClock, TurnPhase::Settle),
        TurnPhase::Settle => (if v.needs_settle { DriverAction::Settle } else { DriverAction::Pass }, TurnPhase::Present),
        TurnPhase::Present => if v.needs_present {
            (DriverAction::Present, TurnPhase::Settle)
        } else if v.needs_settle {
            (DriverAction::Pass, TurnPhase::Settle)
        } else {
            (DriverAction::Pass, TurnPhase::Decide)
        },
        TurnPhase::Decide => if v.quit {
            (DriverAction::Quit, TurnPhase::Decide)
        } else if v.pending_input {
            (DriverAction::Handle, TurnPhase::Advance)
        } else if v.stop_pending {
            (DriverAction::ServiceStop, TurnPhase::Advance)
        } else {
            (DriverAction::Poll(duration_from_nanos(wait_nanos(v.deadline, v.now))), TurnPhase::Advance)
        },
    }
}

/// The driver's next action and phase.
pub fn driver_step(phase: TurnPhase, v: &DriverView) -> (r: (DriverAction, TurnPhase))
    requires
        v.now.wf(),
        v.deadline matches Some(at) ==> at.wf(),
    ensures
        r == step_spec(phase, *v),
{
    match phase {
        TurnPhase::Advance => (DriverAction::AdvanceClock, TurnPhase::Settle),
        TurnPhase::Settle => (if v.needs_settle { DriverAction::Settle } else { DriverAction::Pass }, TurnPhase::Present),
        TurnPhase::Present => {
            if v.needs_present {
                (DriverAction::Present, TurnPhase::Settle)
            } else if v.needs_settle {
                (DriverAction::Pass, TurnPhase::Settle)
            } else {
                (DriverAction::Pass, TurnPhase::Decide)
            }
        },
        TurnPhase::Decide => {
            if v.quit {
                (DriverAction::Quit, TurnPhase::Decide)
            } else if v.pending_input {
                (DriverAction::Handle, TurnPhase::Advance)
            } else if v.stop_pending {
                (DriverAction::ServiceStop, TurnPhase::Advance)
            } else {
                (DriverAction::Poll(wait_bound(v.deadline, v.now)), TurnPhase::Advance)
            }
        },
    }
}

/// The driver never waits past the lifecycle quantum, and it never quits,
/// handles or waits while a frame is due or work is unsettled: those
/// happen only once rendering is done.
pub proof fn law_the_driver_waits_at_most_the_quantum(phase: TurnPhase, v: DriverView)
    ensures
        step_spec(phase, v).0 matches DriverAction::Poll(_) ==> phase is Decide && 0 <= wait_nanos(v.deadline, v.now) <= 100_000_000,
        (step_spec(phase, v).0 is Quit || step_spec(phase, v).0 is Handle || step_spec(phase, v).0 is Poll) ==> phase is Decide,
        step_spec(phase, v).1 is Decide ==> phase is Decide || (!v.needs_present && !v.needs_settle),
{
}

} // verus!
