//! One activation-feedback record, aged by a clock domain selected once.

use core::time::Duration;

use vstd::prelude::*;

use crate::id::{Id, PartRef};
use crate::runtime::time::{
    add_parts, capped, duration_from_nanos, duration_nanos, duration_new, duration_parts, earlier, lemma_nanos_parts,
    nanos_of, spec_duration, sub_parts, Moment,
};

verus! {

/// Absolute monotonic simulation time, distinct from elapsed driver time.
#[derive(Clone, Copy, Debug, Default, PartialEq, Eq, Structural, PartialOrd, Ord, Hash)]
pub struct SimulationMoment {
    secs: u64,
    nanos: u32,
}

impl SimulationMoment {
    /// The time, in nanoseconds.
    pub closed spec fn spec_nanos(&self) -> int {
        nanos_of(self.secs, self.nanos)
    }

    /// The nanoseconds stay below a second.
    pub closed spec fn wf(&self) -> bool {
        self.nanos < 1_000_000_000
    }

    fn parts(&self) -> (p: (u64, u32))
        requires
            self.wf(),
        ensures
            p.1 < 1_000_000_000,
            nanos_of(p.0, p.1) == self.spec_nanos(),
    {
        (self.secs, self.nanos)
    }

    /// Simulation origin.
    pub fn zero() -> (m: SimulationMoment)
        ensures
            m.wf(),
            m.spec_nanos() == 0,
    {
        SimulationMoment { secs: 0, nanos: 0 }
    }

    /// Construct simulation milliseconds.
    pub fn from_millis(ms: u64) -> (m: SimulationMoment)
        ensures
            m.wf(),
            m.spec_nanos() == ms as int * 1_000_000,
    {
        let p = crate::runtime::time::millis_parts(ms);
        SimulationMoment { secs: p.0, nanos: p.1 }
    }

    /// Construct simulation time without discarding fractional milliseconds.
    pub fn from_duration(value: Duration) -> (m: SimulationMoment)
        ensures
            m.wf(),
            m.spec_nanos() == duration_nanos(value),
            m.spec_as_duration() == value,
    {
        let p = duration_parts(value);
        proof {
            crate::runtime::time::lemma_parts_nanos(value, p);
        }
        SimulationMoment { secs: p.0, nanos: p.1 }
    }

    /// The duration this moment stands for.
    pub closed spec fn spec_as_duration(&self) -> Duration {
        spec_duration(self.secs, self.nanos)
    }

    /// Absolute time in the simulation domain.
    pub fn as_duration(self) -> (d: Duration)
        requires
            self.wf(),
        ensures
            d == self.spec_as_duration(),
            d == duration_from_nanos(self.spec_nanos()),
    {
        proof {
            lemma_nanos_parts(self.secs, self.nanos);
        }
        duration_new(self.secs, self.nanos)
    }

    /// Add a simulation duration, saturating at the representable maximum.
    pub fn saturating_add(self, delta: Duration) -> (m: SimulationMoment)
        requires
            self.wf(),
        ensures
            m.wf(),
            m.spec_nanos() == capped(self.spec_nanos() + duration_nanos(delta)),
    {
        let d = duration_parts(delta);
        proof {
            crate::runtime::time::lemma_parts_nanos(delta, d);
        }
        let p = add_parts(self.parts(), d);
        SimulationMoment { secs: p.0, nanos: p.1 }
    }

    /// Simulation duration since an earlier moment, or zero if it is later.
    pub fn saturating_duration_since(self, earlier_moment: SimulationMoment) -> (d: Duration)
        requires
            self.wf(),
            earlier_moment.wf(),
        ensures
            d == duration_from_nanos(
                if self.spec_nanos() < earlier_moment.spec_nanos() {
                    0
                } else {
                    self.spec_nanos() - earlier_moment.spec_nanos()
                },
            ),
    {
        let p = sub_parts(self.parts(), earlier_moment.parts());
        proof {
            lemma_nanos_parts(p.0, p.1);
        }
        duration_new(p.0, p.1)
    }
}

/// Select activation-feedback timing once, before initialization.
#[derive(Clone, Copy, Debug, Default, PartialEq, Eq, Structural)]
pub enum FeedbackClock {
    /// Driver elapsed time ages feedback and schedules its deadline.
    #[default]
    Elapsed,
    /// Domain-owned absolute simulation time ages feedback only when
    /// synchronized.
    Simulation {
        /// Already-seeked fixture time before the first activation.
        initial: SimulationMoment,
    },
}

/// A rejected feedback synchronization; the clock and record remain
/// unchanged.
#[derive(Clone, Copy, Debug, PartialEq, Eq, Structural)]
pub enum FeedbackClockError {
    /// This runtime selected elapsed feedback at construction.
    WrongPolicy,
    /// The requested simulation time precedes the current time.
    Backwards {
        /// Current simulation time.
        current: SimulationMoment,
        /// Rejected earlier time.
        requested: SimulationMoment,
    },
}

impl FeedbackClockError {
    /// How the error displays.
    pub fn message(&self) -> (s: &'static str)
        ensures
            s@ == (match self {
                FeedbackClockError::WrongPolicy => "feedback uses elapsed time, not simulation time"@,
                FeedbackClockError::Backwards { .. } => "simulation feedback time cannot move backwards"@,
            }),
    {
        match self {
            FeedbackClockError::WrongPolicy => "feedback uses elapsed time, not simulation time",
            FeedbackClockError::Backwards { .. } => "simulation feedback time cannot move backwards",
        }
    }
}

/// Current activation feedback; the remaining duration belongs to the
/// selected clock.
#[derive(Clone, Copy, Debug, PartialEq, Eq)]
pub struct ActivationFeedback {
    /// Stable control identity.
    pub owner: Id,
    /// Stable sub-region, such as a collection item.
    pub part: PartRef,
    /// Time remaining in the selected domain.
    pub remaining: Duration,
}

/// The live record: who was activated and until when (nanoseconds, in the
/// selected domain).
#[derive(Clone, Copy, Debug, PartialEq, Eq, Structural)]
pub struct Record {
    /// The activated control.
    pub owner: Id,
    /// The activated part.
    pub part: PartRef,
    /// Whole seconds of the expiry.
    pub until_secs: u64,
    /// Nanoseconds of the expiry.
    pub until_nanos: u32,
}

/// The feedback state: the simulation time if that domain was selected,
/// and the current record.
#[derive(Clone, Copy, Debug, Default)]
pub struct FeedbackState {
    simulation: Option<SimulationMoment>,
    record: Option<Record>,
}

impl FeedbackState {
    /// The simulation time, if that domain was selected.
    pub closed spec fn spec_simulation(&self) -> Option<SimulationMoment> {
        self.simulation
    }

    /// The current record.
    pub closed spec fn spec_record(&self) -> Option<Record> {
        self.record
    }

    /// Times are well formed.
    pub open spec fn wf(&self) -> bool {
        &&& self.spec_simulation() matches Some(s) ==> s.wf()
        &&& self.spec_record() matches Some(r) ==> r.until_nanos < 1_000_000_000
    }

    /// The time "now" in the selected domain, in nanoseconds.
    pub open spec fn now_nanos(&self, elapsed: Moment) -> int {
        match self.spec_simulation() {
            Some(s) => s.spec_nanos(),
            None => elapsed.spec_nanos(),
        }
    }

    /// No record; the domain is fixed here.
    pub fn new(clock: FeedbackClock) -> (s: FeedbackState)
        requires
            clock matches FeedbackClock::Simulation { initial } ==> initial.wf(),
        ensures
            s.wf(),
            s.spec_record() is None,
            s.spec_simulation() == (match clock {
                FeedbackClock::Elapsed => None,
                FeedbackClock::Simulation { initial } => Some(initial),
            }),
    {
        FeedbackState {
            simulation: match clock {
                FeedbackClock::Elapsed => None,
                FeedbackClock::Simulation { initial } => Some(initial),
            },
            record: None,
        }
    }

    fn now(&self, elapsed: Moment) -> (p: (u64, u32))
        requires
            self.wf(),
            elapsed.wf(),
        ensures
            p.1 < 1_000_000_000,
            nanos_of(p.0, p.1) == self.now_nanos(elapsed),
    {
        match self.simulation {
            Some(s) => s.parts(),
            None => elapsed.parts(),
        }
    }

    /// Record an activation of `part` of `owner` lasting `duration`
    /// (`(secs, nanos)`). Under simulation timing an interval that ends no
    /// later than now records nothing.
    pub fn activate_for(&mut self, owner: Id, part: PartRef, elapsed: Moment, duration: (u64, u32))
        requires
            old(self).wf(),
            elapsed.wf(),
            duration.1 < 1_000_000_000,
        ensures
            final(self).wf(),
            final(self).spec_simulation() == old(self).spec_simulation(),
            ({
                let now = old(self).now_nanos(elapsed);
                let sum = now + nanos_of(duration.0, duration.1);
                let until = if sum > crate::runtime::time::max_nanos() { crate::runtime::time::max_nanos() } else { sum };
                if old(self).spec_simulation() is None || until > now {
                    final(self).spec_record() matches Some(r) && r.owner == owner && r.part == part
                        && nanos_of(r.until_secs, r.until_nanos) == until
                } else {
                    final(self).spec_record() is None
                }
            }),
    {
        let now = self.now(elapsed);
        let until = add_parts(now, duration);
        if self.simulation.is_none() || earlier(now, until) {
            self.record = Some(Record { owner, part, until_secs: until.0, until_nanos: until.1 });
        } else {
            self.record = None;
        }
    }

    /// Record an activation lasting `duration`.
    pub fn activate(&mut self, owner: Id, part: PartRef, elapsed: Moment, duration: Duration)
        requires
            old(self).wf(),
            elapsed.wf(),
        ensures
            final(self).wf(),
            final(self).spec_simulation() == old(self).spec_simulation(),
            ({
                let now = old(self).now_nanos(elapsed);
                let until = capped(now + duration_nanos(duration));
                if old(self).spec_simulation() is None || until > now {
                    final(self).spec_record() matches Some(r) && r.owner == owner && r.part == part
                        && nanos_of(r.until_secs, r.until_nanos) == until
                } else {
                    final(self).spec_record() is None
                }
            }),
    {
        let d = duration_parts(duration);
        proof {
            crate::runtime::time::lemma_parts_nanos(duration, d);
        }
        self.activate_for(owner, part, elapsed, d);
    }

    /// The time left on the record, as `(secs, nanos)`, if there is one.
    pub fn remaining(&self, elapsed: Moment) -> (r: Option<(Id, PartRef, (u64, u32))>)
        requires
            self.wf(),
            elapsed.wf(),
        ensures
            match self.spec_record() {
                Some(rec) => r matches Some((o, p, left)) && o == rec.owner && p == rec.part
                    && left.1 < 1_000_000_000
                    && nanos_of(left.0, left.1) == (if nanos_of(rec.until_secs, rec.until_nanos) < self.now_nanos(elapsed) {
                        0
                    } else {
                        nanos_of(rec.until_secs, rec.until_nanos) - self.now_nanos(elapsed)
                    }),
                None => r is None,
            },
    {
        match self.record {
            Some(rec) => {
                let left = sub_parts((rec.until_secs, rec.until_nanos), self.now(elapsed));
                Some((rec.owner, rec.part, left))
            },
            None => None,
        }
    }

    /// The current feedback, if any.
    pub fn active(&self, elapsed: Moment) -> (r: Option<ActivationFeedback>)
        requires
            self.wf(),
            elapsed.wf(),
        ensures
            match self.spec_record() {
                Some(rec) => r matches Some(f) && f.owner == rec.owner && f.part == rec.part
                    && f.remaining == duration_from_nanos(
                    if nanos_of(rec.until_secs, rec.until_nanos) < self.now_nanos(elapsed) {
                        0
                    } else {
                        nanos_of(rec.until_secs, rec.until_nanos) - self.now_nanos(elapsed)
                    },
                ),
                None => r is None,
            },
    {
        match self.remaining(elapsed) {
            Some((owner, part, left)) => {
                proof {
                    lemma_nanos_parts(left.0, left.1);
                }
                Some(ActivationFeedback { owner, part, remaining: duration_new(left.0, left.1) })
            },
            None => None,
        }
    }

    /// The pressed control and part, if any.
    pub fn pressed(&self) -> (r: Option<(Id, PartRef)>)
        ensures
            match self.spec_record() {
                Some(rec) => r == Some((rec.owner, rec.part)),
                None => r is None,
            },
    {
        match self.record {
            Some(rec) => Some((rec.owner, rec.part)),
            None => None,
        }
    }

    /// The elapsed-time deadline of the record; none under simulation
    /// timing.
    pub fn elapsed_deadline(&self) -> (r: Option<Moment>)
        requires
            self.wf(),
        ensures
            match (self.spec_simulation(), self.spec_record()) {
                (None, Some(rec)) => r matches Some(m) && m.wf()
                    && m.spec_nanos() == nanos_of(rec.until_secs, rec.until_nanos),
                _ => r is None,
            },
    {
        if self.simulation.is_some() {
            None
        } else {
            match self.record {
                Some(rec) => Some(Moment::from_parts((rec.until_secs, rec.until_nanos))),
                None => None,
            }
        }
    }

    fn expire(&mut self, now: (u64, u32)) -> (expired: bool)
        requires
            old(self).wf(),
            now.1 < 1_000_000_000,
        ensures
            final(self).wf(),
            final(self).spec_simulation() == old(self).spec_simulation(),
            match old(self).spec_record() {
                Some(rec) => if nanos_of(now.0, now.1) >= nanos_of(rec.until_secs, rec.until_nanos) {
                    expired && final(self).spec_record() is None
                } else {
                    !expired && final(self).spec_record() == old(self).spec_record()
                },
                None => !expired && final(self).spec_record() is None,
            },
    {
        match self.record {
            Some(rec) => {
                if !earlier(now, (rec.until_secs, rec.until_nanos)) {
                    self.record = None;
                    true
                } else {
                    false
                }
            },
            None => false,
        }
    }

    /// Expire the record once elapsed time reaches it; only under elapsed
    /// timing.
    pub fn expire_elapsed(&mut self, now: Moment) -> (expired: bool)
        requires
            old(self).wf(),
            now.wf(),
        ensures
            final(self).wf(),
            final(self).spec_simulation() == old(self).spec_simulation(),
            old(self).spec_simulation() is Some ==> !expired && final(self).spec_record() == old(self).spec_record(),
            old(self).spec_simulation() is None ==> match old(self).spec_record() {
                Some(rec) => if now.spec_nanos() >= nanos_of(rec.until_secs, rec.until_nanos) {
                    expired && final(self).spec_record() is None
                } else {
                    !expired && final(self).spec_record() == old(self).spec_record()
                },
                None => !expired && final(self).spec_record() is None,
            },
    {
        if self.simulation.is_some() {
            return false;
        }
        self.expire(now.parts())
    }

    /// Advance simulation time to `requested`: refused under elapsed
    /// timing or backwards; the same time changes nothing; a later time
    /// expires the record when it is due.
    pub fn sync(&mut self, requested: SimulationMoment) -> (r: Result<bool, FeedbackClockError>)
        requires
            old(self).wf(),
            requested.wf(),
        ensures
            final(self).wf(),
            match old(self).spec_simulation() {
                None => r == Err::<bool, FeedbackClockError>(FeedbackClockError::WrongPolicy)
                    && final(self).spec_simulation() == old(self).spec_simulation()
                    && final(self).spec_record() == old(self).spec_record(),
                Some(current) => if requested.spec_nanos() < current.spec_nanos() {
                    r == Err::<bool, FeedbackClockError>(FeedbackClockError::Backwards { current, requested })
                        && final(self).spec_simulation() == old(self).spec_simulation()
                        && final(self).spec_record() == old(self).spec_record()
                } else if requested.spec_nanos() == current.spec_nanos() {
                    r == Ok::<bool, FeedbackClockError>(false)
                        && final(self).spec_simulation() == old(self).spec_simulation()
                        && final(self).spec_record() == old(self).spec_record()
                } else {
                    &&& final(self).spec_simulation() == Some(requested)
                    &&& match old(self).spec_record() {
                        Some(rec) => if requested.spec_nanos() >= nanos_of(rec.until_secs, rec.until_nanos) {
                            r == Ok::<bool, FeedbackClockError>(true) && final(self).spec_record() is None
                        } else {
                            r == Ok::<bool, FeedbackClockError>(false) && final(self).spec_record() == old(self).spec_record()
                        },
                        None => r == Ok::<bool, FeedbackClockError>(false) && final(self).spec_record() is None,
                    }
                },
            },
    {
        let current = match self.simulation {
            Some(c) => c,
            None => return Err(FeedbackClockError::WrongPolicy),
        };
        let rp = requested.parts();
        let cp = current.parts();
        if earlier(rp, cp) {
            return Err(FeedbackClockError::Backwards { current, requested });
        }
        if !earlier(cp, rp) {
            return Ok(false);
        }
        self.simulation = Some(requested);
        Ok(self.expire(rp))
    }
}

} // verus!
