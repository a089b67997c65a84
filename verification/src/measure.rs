//! Measurement: what a component needs and what it would like.

use vstd::prelude::*;

verus! {

/// A measured size: the minimum a component can use and what it prefers.
#[derive(Clone, Copy, PartialEq, Eq, Debug, Default)]
pub struct Size {
    /// `(width, height)` below which the component degrades.
    pub min: (u16, u16),
    /// `(width, height)` the component would like.
    pub preferred: (u16, u16),
}

/// The space offered to `measure`.
#[derive(Clone, Copy, PartialEq, Eq, Debug, Default)]
pub struct Constraints {
    /// The largest `(width, height)` available.
    pub max: (u16, u16),
    /// The width is fixed at `max.0`.
    pub tight_w: bool,
    /// The height is fixed at `max.1`.
    pub tight_h: bool,
}

impl Constraints {
    /// Loose constraints up to `w × h`.
    pub fn loose(w: u16, h: u16) -> (c: Constraints)
        ensures
            c == (Constraints { max: (w, h), tight_w: false, tight_h: false }),
    {
        Constraints { max: (w, h), tight_w: false, tight_h: false }
    }

    /// Both axes fixed.
    pub fn tight(w: u16, h: u16) -> (c: Constraints)
        ensures
            c == (Constraints { max: (w, h), tight_w: true, tight_h: true }),
    {
        Constraints { max: (w, h), tight_w: true, tight_h: true }
    }
}

/// A `(width, height)` pair clipped to `c`: a tight axis reports exactly
/// the maximum, a loose one at most it.
pub open spec fn clip(p: (u16, u16), c: Constraints) -> (u16, u16) {
    (
        if c.tight_w { c.max.0 } else if p.0 <= c.max.0 { p.0 } else { c.max.0 },
        if c.tight_h { c.max.1 } else if p.1 <= c.max.1 { p.1 } else { c.max.1 },
    )
}

fn clip_pair(p: (u16, u16), c: Constraints) -> (r: (u16, u16))
    ensures
        r == clip(p, c),
{
    let w = if c.tight_w { c.max.0 } else if p.0 <= c.max.0 { p.0 } else { c.max.0 };
    let h = if c.tight_h { c.max.1 } else if p.1 <= c.max.1 { p.1 } else { c.max.1 };
    (w, h)
}

impl Size {
    /// A size whose minimum and preferred are equal.
    pub fn exact(w: u16, h: u16) -> (s: Size)
        ensures
            s == (Size { min: (w, h), preferred: (w, h) }),
    {
        Size { min: (w, h), preferred: (w, h) }
    }

    /// Clip both pairs to `c.max`; tight axes report exactly `c.max`.
    pub fn fit(self, c: Constraints) -> (s: Size)
        ensures
            s == (Size { min: clip(self.min, c), preferred: clip(self.preferred, c) }),
    {
        Size { min: clip_pair(self.min, c), preferred: clip_pair(self.preferred, c) }
    }
}

/// A fitted size never exceeds what was offered, and fitting twice is
/// fitting once.
pub proof fn law_fit_within_and_idempotent(s: Size, c: Constraints)
    ensures
        clip(s.min, c).0 <= c.max.0 && clip(s.min, c).1 <= c.max.1,
        clip(s.preferred, c).0 <= c.max.0 && clip(s.preferred, c).1 <= c.max.1,
        clip(clip(s.min, c), c) == clip(s.min, c),
        clip(clip(s.preferred, c), c) == clip(s.preferred, c),
{
}

} // verus!
