//! Cell-grid geometry: positions and rectangles on a terminal screen.

use vstd::prelude::*;

verus! {

/// `a + b`, saturating at `u16::MAX`.
pub open spec fn sat_add(a: int, b: int) -> int {
    if a + b > 0xffff { 0xffff } else { a + b }
}

/// `a - b`, saturating at zero.
pub open spec fn sat_sub(a: int, b: int) -> int {
    if a - b < 0 { 0 } else { a - b }
}

/// The smaller of two integers.
pub open spec fn min_int(a: int, b: int) -> int {
    if a <= b { a } else { b }
}

/// The larger of two integers.
pub open spec fn max_int(a: int, b: int) -> int {
    if a >= b { a } else { b }
}

/// `v` clamped into `[lo, hi]`.
pub open spec fn clamp_int(v: int, lo: int, hi: int) -> int {
    if v < lo { lo } else if v > hi { hi } else { v }
}

/// `v` clamped into `[lo, hi]`.
pub fn clamp_u16(v: u16, lo: u16, hi: u16) -> (r: u16)
    requires
        lo <= hi,
    ensures
        r == clamp_int(v as int, lo as int, hi as int),
{
    if v < lo {
        lo
    } else if v > hi {
        hi
    } else {
        v
    }
}

/// A cell position.
#[derive(Clone, Copy, PartialEq, Eq, Structural, Debug, Default)]
pub struct Position {
    /// Column.
    pub x: u16,
    /// Row.
    pub y: u16,
}

impl Position {
    /// The position `(x, y)`.
    pub fn new(x: u16, y: u16) -> (p: Position)
        ensures
            p.x == x,
            p.y == y,
    {
        Position { x, y }
    }
}

/// A rectangle of cells.
#[derive(Clone, Copy, PartialEq, Eq, Structural, Debug, Default)]
pub struct Rect {
    /// Left column.
    pub x: u16,
    /// Top row.
    pub y: u16,
    /// Width in cells.
    pub width: u16,
    /// Height in cells.
    pub height: u16,
}

impl Rect {
    /// The first column right of the rect, saturating.
    pub open spec fn spec_right(self) -> int {
        sat_add(self.x as int, self.width as int)
    }

    /// The first row below the rect, saturating.
    pub open spec fn spec_bottom(self) -> int {
        sat_add(self.y as int, self.height as int)
    }

    /// `self` lies inside `outer`.
    pub open spec fn within(self, outer: Rect) -> bool {
        &&& outer.x <= self.x
        &&& outer.y <= self.y
        &&& self.spec_right() <= outer.spec_right()
        &&& self.spec_bottom() <= outer.spec_bottom()
    }

    /// The empty rect at the origin.
    pub fn zero() -> (r: Rect)
        ensures
            r == (Rect { x: 0, y: 0, width: 0, height: 0 }),
    {
        Rect { x: 0, y: 0, width: 0, height: 0 }
    }

    /// A rect at `(x, y)`; the size is clipped so the far edges fit in `u16`.
    pub fn new(x: u16, y: u16, width: u16, height: u16) -> (r: Rect)
        ensures
            r.x == x,
            r.y == y,
            r.width == sat_add(x as int, width as int) - x,
            r.height == sat_add(y as int, height as int) - y,
    {
        Rect { x, y, width: x.saturating_add(width) - x, height: y.saturating_add(height) - y }
    }

    /// Whether the rect has no cells.
    pub fn is_empty(&self) -> (b: bool)
        ensures
            b == (self.width == 0 || self.height == 0),
    {
        self.width == 0 || self.height == 0
    }

    /// The first column right of the rect, saturating at `u16::MAX`.
    pub fn right(&self) -> (r: u16)
        ensures
            r == self.spec_right(),
    {
        self.x.saturating_add(self.width)
    }

    /// The first row below the rect, saturating at `u16::MAX`.
    pub fn bottom(&self) -> (r: u16)
        ensures
            r == self.spec_bottom(),
    {
        self.y.saturating_add(self.height)
    }

    /// Whether the cell at `p` lies in the rect.
    pub fn contains(&self, p: Position) -> (b: bool)
        ensures
            b == (self.x <= p.x && p.x < self.spec_right() && self.y <= p.y && p.y < self.spec_bottom()),
    {
        p.x >= self.x && p.x < self.right() && p.y >= self.y && p.y < self.bottom()
    }

    /// The far edges fit in `u16` without saturating.
    pub open spec fn fits(self) -> bool {
        self.x + self.width <= 0xffff && self.y + self.height <= 0xffff
    }

    /// `self` moved and shrunk to lie inside `other`: the size is capped by
    /// `other`'s, then each coordinate is clamped into the room left.
    pub open spec fn clamp_spec(self, other: Rect) -> Rect {
        let width = min_int(self.width as int, other.width as int);
        let height = min_int(self.height as int, other.height as int);
        let x = clamp_int(self.x as int, other.x as int, sat_sub(other.spec_right(), width));
        let y = clamp_int(self.y as int, other.y as int, sat_sub(other.spec_bottom(), height));
        Rect {
            x: x as u16,
            y: y as u16,
            width: (sat_add(x, width) - x) as u16,
            height: (sat_add(y, height) - y) as u16,
        }
    }

    /// Move and shrink `self` to lie inside `other`.
    pub fn clamp(self, other: Rect) -> (r: Rect)
        requires
            other.fits(),
        ensures
            r == self.clamp_spec(other),
            r.within(other),
            r.width == min_int(self.width as int, other.width as int),
            r.height == min_int(self.height as int, other.height as int),
    {
        let width = if self.width < other.width { self.width } else { other.width };
        let height = if self.height < other.height { self.height } else { other.height };
        let x = clamp_u16(self.x, other.x, other.right().saturating_sub(width));
        let y = clamp_u16(self.y, other.y, other.bottom().saturating_sub(height));
        Rect::new(x, y, width, height)
    }
}

} // verus!
