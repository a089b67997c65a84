//! Explicit elapsed time; no clock source or input cadence is embedded
//! here. A moment is whole seconds plus nanoseconds, as a `Duration` is,
//! and every operation on it saturates.

use core::time::Duration;

use vstd::prelude::*;

verus! {

/// Nanoseconds in a second.
pub const NANOS_PER_SEC: u64 = 1_000_000_000;

/// The largest time a `Duration` can hold, in nanoseconds.
pub open spec fn max_nanos() -> int {
    u64::MAX as int * 1_000_000_000 + 999_999_999
}

/// `secs` seconds plus `nanos` nanoseconds, in nanoseconds.
pub open spec fn nanos_of(secs: u64, nanos: u32) -> int {
    secs as int * 1_000_000_000 + nanos as int
}

/// `Duration::new(secs, nanos)`.
pub uninterp spec fn spec_duration(secs: u64, nanos: u32) -> Duration;

/// `Duration::new`: the duration of `secs` seconds and `nanos`
/// nanoseconds (below a second, so nothing carries into the seconds).
#[verifier::external_body]
pub(crate) fn duration_new(secs: u64, nanos: u32) -> (d: Duration)
    requires
        nanos < 1_000_000_000,
    ensures
        d == spec_duration(secs, nanos),
{
    Duration::new(secs, nanos)
}

/// `d` is `Duration::new(secs, nanos)` with the nanoseconds below a second.
pub open spec fn made_of(d: Duration, secs: u64, nanos: u32) -> bool {
    nanos < 1_000_000_000 && spec_duration(secs, nanos) == d
}

/// Some nanoseconds below a second make `d` with `secs`.
pub open spec fn secs_part(d: Duration, secs: u64) -> bool {
    &&& exists|n: u32| #[trigger] made_of(d, secs, n)
    &&& forall|s: u64, n: u32| #[trigger] made_of(d, s, n) ==> s == secs
}

/// Some seconds make `d` with `nanos`, and no other nanoseconds do.
pub open spec fn nanos_part(d: Duration, nanos: u32) -> bool {
    &&& nanos < 1_000_000_000
    &&& exists|s: u64| #[trigger] made_of(d, s, nanos)
    &&& forall|s: u64, n: u32| #[trigger] made_of(d, s, n) ==> n == nanos
}

/// `Duration::as_secs`: the whole seconds of a duration, which is
/// `Duration::new` of those seconds and some nanoseconds below a second.
#[verifier::external_body]
pub(crate) fn duration_secs(d: Duration) -> (secs: u64)
    ensures
        secs_part(d, secs),
{
    d.as_secs()
}

/// `Duration::subsec_nanos`: the nanoseconds below a second of a
/// duration, which is `Duration::new` of some seconds and those
/// nanoseconds.
#[verifier::external_body]
pub(crate) fn duration_subsec_nanos(d: Duration) -> (nanos: u32)
    ensures
        nanos_part(d, nanos),
{
    d.subsec_nanos()
}

/// A duration as `(secs, nanos)`: the unique parts it was made of.
pub(crate) fn duration_parts(d: Duration) -> (p: (u64, u32))
    ensures
        p.1 < 1_000_000_000,
        spec_duration(p.0, p.1) == d,
        forall|s: u64, n: u32| n < 1_000_000_000 && #[trigger] spec_duration(s, n) == d ==> p == (s, n),
{
    let secs = duration_secs(d);
    let nanos = duration_subsec_nanos(d);
    proof {
        let n0 = choose|n: u32| #[trigger] made_of(d, secs, n);
        assert(made_of(d, secs, n0));
        assert(nanos == n0);
        assert forall|s: u64, n: u32| n < 1_000_000_000 && #[trigger] spec_duration(s, n) == d implies (secs, nanos) == (s, n) by {
            assert(made_of(d, s, n));
        }
    }
    (secs, nanos)
}

/// The duration that `(secs, nanos)` parts with nanoseconds below a
/// second stand for, in nanoseconds (`-1` for no such parts).
pub open spec fn duration_nanos(d: Duration) -> int {
    if exists|s: u64, n: u32| n < 1_000_000_000 && #[trigger] spec_duration(s, n) == d {
        let (s, n) = choose|s: u64, n: u32| n < 1_000_000_000 && #[trigger] spec_duration(s, n) == d;
        nanos_of(s, n)
    } else {
        -1
    }
}

/// The duration of `x` nanoseconds.
pub open spec fn duration_from_nanos(x: int) -> Duration {
    spec_duration((x / 1_000_000_000) as u64, (x % 1_000_000_000) as u32)
}

/// `saturate(x)`: `x` capped at the largest duration.
pub open spec fn capped(x: int) -> int {
    if x > max_nanos() { max_nanos() } else { x }
}

pub(crate) proof fn lemma_parts_nanos(d: Duration, p: (u64, u32))
    requires
        p.1 < 1_000_000_000,
        spec_duration(p.0, p.1) == d,
        forall|s: u64, n: u32| n < 1_000_000_000 && #[trigger] spec_duration(s, n) == d ==> p == (s, n),
    ensures
        duration_nanos(d) == nanos_of(p.0, p.1),
{
    assert(exists|s: u64, n: u32| n < 1_000_000_000 && #[trigger] spec_duration(s, n) == d) by {
        assert(spec_duration(p.0, p.1) == d);
    }
    let (s, n) = choose|s: u64, n: u32| n < 1_000_000_000 && #[trigger] spec_duration(s, n) == d;
    assert(p == (s, n));
}

/// Parts with nanoseconds below a second are the parts of their own
/// nanosecond count.
pub proof fn lemma_nanos_parts(secs: u64, nanos: u32)
    requires
        nanos < 1_000_000_000,
    ensures
        (nanos_of(secs, nanos) / 1_000_000_000) as u64 == secs,
        (nanos_of(secs, nanos) % 1_000_000_000) as u32 == nanos,
{
    assert((secs as int * 1_000_000_000 + nanos as int) / 1_000_000_000 == secs as int) by (nonlinear_arith)
        requires
            0 <= nanos < 1_000_000_000,
    ;
    assert((secs as int * 1_000_000_000 + nanos as int) % 1_000_000_000 == nanos as int) by (nonlinear_arith)
        requires
            0 <= nanos < 1_000_000_000,
    ;
}

/// `a + b` in `(secs, nanos)` form, saturating at the largest duration.
pub fn add_parts(a: (u64, u32), b: (u64, u32)) -> (r: (u64, u32))
    requires
        a.1 < 1_000_000_000,
        b.1 < 1_000_000_000,
    ensures
        r.1 < 1_000_000_000,
        nanos_of(r.0, r.1) == if nanos_of(a.0, a.1) + nanos_of(b.0, b.1) > max_nanos() {
            max_nanos()
        } else {
            nanos_of(a.0, a.1) + nanos_of(b.0, b.1)
        },
{
    let n = a.1 + b.1;
    let carry: u64 = if n >= 1_000_000_000 { 1 } else { 0 };
    let nanos: u32 = if n >= 1_000_000_000 { n - 1_000_000_000 } else { n };
    match a.0.checked_add(b.0) {
        Some(s) => match s.checked_add(carry) {
            Some(t) => (t, nanos),
            None => (u64::MAX, 999_999_999),
        },
        None => (u64::MAX, 999_999_999),
    }
}

/// `a - b` in `(secs, nanos)` form, or zero if `b` is later.
pub fn sub_parts(a: (u64, u32), b: (u64, u32)) -> (r: (u64, u32))
    requires
        a.1 < 1_000_000_000,
        b.1 < 1_000_000_000,
    ensures
        r.1 < 1_000_000_000,
        nanos_of(r.0, r.1) == if nanos_of(a.0, a.1) < nanos_of(b.0, b.1) {
            0
        } else {
            nanos_of(a.0, a.1) - nanos_of(b.0, b.1)
        },
{
    if a.0 < b.0 || (a.0 == b.0 && a.1 < b.1) {
        (0, 0)
    } else if a.1 >= b.1 {
        (a.0 - b.0, a.1 - b.1)
    } else {
        (a.0 - b.0 - 1, a.1 + 1_000_000_000 - b.1)
    }
}

/// Whether `a` is earlier than `b`.
pub fn earlier(a: (u64, u32), b: (u64, u32)) -> (r: bool)
    requires
        a.1 < 1_000_000_000,
        b.1 < 1_000_000_000,
    ensures
        r == (nanos_of(a.0, a.1) < nanos_of(b.0, b.1)),
{
    a.0 < b.0 || (a.0 == b.0 && a.1 < b.1)
}

/// `ms` milliseconds in `(secs, nanos)` form.
pub fn millis_parts(ms: u64) -> (r: (u64, u32))
    ensures
        r.1 < 1_000_000_000,
        nanos_of(r.0, r.1) == ms as int * 1_000_000,
{
    let secs = ms / 1000;
    let rest = ms % 1000;
    ((secs), (rest as u32) * 1_000_000)
}

/// Monotonic elapsed time from a driver- or fixture-owned origin.
#[derive(Clone, Copy, Debug, Default, PartialEq, Eq, Structural, PartialOrd, Ord, Hash)]
pub struct Moment {
    secs: u64,
    nanos: u32,
}

impl Moment {
    /// The elapsed time, in nanoseconds.
    pub closed spec fn spec_nanos(&self) -> int {
        nanos_of(self.secs, self.nanos)
    }

    /// The nanoseconds stay below a second.
    pub closed spec fn wf(&self) -> bool {
        self.nanos < 1_000_000_000
    }

    /// The elapsed time as `(secs, nanos)`.
    pub fn parts(&self) -> (p: (u64, u32))
        requires
            self.wf(),
        ensures
            p.1 < 1_000_000_000,
            nanos_of(p.0, p.1) == self.spec_nanos(),
    {
        (self.secs, self.nanos)
    }

    /// The moment `(secs, nanos)` from the origin.
    pub fn from_parts(p: (u64, u32)) -> (m: Moment)
        requires
            p.1 < 1_000_000_000,
        ensures
            m.wf(),
            m.spec_nanos() == nanos_of(p.0, p.1),
    {
        Moment { secs: p.0, nanos: p.1 }
    }

    /// The origin of elapsed time.
    pub fn zero() -> (m: Moment)
        ensures
            m.wf(),
            m.spec_nanos() == 0,
    {
        Moment { secs: 0, nanos: 0 }
    }

    /// Construct elapsed milliseconds.
    pub fn from_millis(ms: u64) -> (m: Moment)
        ensures
            m.wf(),
            m.spec_nanos() == ms as int * 1_000_000,
    {
        Moment::from_parts(millis_parts(ms))
    }

    /// Construct elapsed time without losing sub-millisecond precision.
    pub fn from_duration(elapsed: Duration) -> (m: Moment)
        ensures
            m.wf(),
            m.spec_nanos() == duration_nanos(elapsed),
            m.spec_as_duration() == elapsed,
    {
        let p = duration_parts(elapsed);
        proof {
            lemma_parts_nanos(elapsed, p);
        }
        Moment::from_parts(p)
    }

    /// The duration this moment stands for.
    pub closed spec fn spec_as_duration(&self) -> Duration {
        spec_duration(self.secs, self.nanos)
    }

    /// Elapsed time from the origin: the duration of as many nanoseconds.
    pub fn as_duration(self) -> (d: Duration)
        requires
            self.wf(),
        ensures
            d == self.spec_as_duration(),
            d == duration_from_nanos(self.spec_nanos()),
    {
        proof {
            lemma_nanos_parts(self.secs, self.nanos);
        }
        duration_new(self.secs, self.nanos)
    }

    /// Add elapsed time, saturating at the representable maximum.
    pub fn saturating_add(self, delta: Duration) -> (m: Moment)
        requires
            self.wf(),
        ensures
            m.wf(),
            m.spec_nanos() == capped(self.spec_nanos() + duration_nanos(delta)),
    {
        let d = duration_parts(delta);
        proof {
            lemma_parts_nanos(delta, d);
        }
        Moment::from_parts(add_parts(self.parts(), d))
    }

    /// Elapsed time since an earlier moment, or zero if it is later.
    pub fn saturating_duration_since(self, earlier: Moment) -> (d: Duration)
        requires
            self.wf(),
            earlier.wf(),
        ensures
            d == duration_from_nanos(
                if self.spec_nanos() < earlier.spec_nanos() { 0 } else { self.spec_nanos() - earlier.spec_nanos() },
            ),
    {
        let p = sub_parts(self.parts(), earlier.parts());
        proof {
            lemma_nanos_parts(p.0, p.1);
        }
        duration_new(p.0, p.1)
    }
}

/// A rejected backwards clock movement. Runtime state is unchanged.
#[derive(Clone, Copy, Debug, PartialEq, Eq, Structural)]
pub struct ClockError {
    /// The runtime's current elapsed time.
    pub current: Moment,
    /// The rejected earlier time.
    pub requested: Moment,
}

impl ClockError {
    /// How the error displays.
    pub fn message(&self) -> (s: &'static str)
        ensures
            s@ == "monotonic time cannot move backwards"@,
    {
        "monotonic time cannot move backwards"
    }
}

} // verus!
