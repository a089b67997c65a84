//! Scrolling as a pure model.
//!
//! [`ScrollState`] knows content length, viewport length and offset and
//! nothing about rendering. Every field is private and every mutator
//! clamps. `ensure_visible_on_next_layout` is set only by cursor motion and
//! consumed by the next layout.

use core::ops::Range;

use vstd::prelude::*;

use crate::response::{Flow, Invalidate, Response};

verus! {

/// `a + b`, saturating at `usize::MAX`.
pub open spec fn sat_add_usize(a: int, b: int) -> int {
    if a + b > usize::MAX { usize::MAX as int } else { a + b }
}

/// `a * b`, saturating at `usize::MAX`.
pub open spec fn sat_mul_usize(a: int, b: int) -> int {
    if a * b > usize::MAX { usize::MAX as int } else { a * b }
}

/// `a - b`, saturating at zero.
pub open spec fn sat_sub0(a: int, b: int) -> int {
    if a < b { 0 } else { a - b }
}

/// The smaller of two integers.
pub open spec fn min(a: int, b: int) -> int {
    if a <= b { a } else { b }
}

/// The larger of two integers.
pub open spec fn max(a: int, b: int) -> int {
    if a >= b { a } else { b }
}

fn sat_mul(a: usize, b: usize) -> (r: usize)
    ensures
        r == sat_mul_usize(a as int, b as int),
{
    match a.checked_mul(b) {
        Some(p) => p,
        None => usize::MAX,
    }
}

/// How far a scrollable region can still move in each direction.
#[derive(Clone, Copy, Debug, PartialEq, Eq, Structural, Default)]
pub struct Headroom {
    /// Rows above the viewport.
    pub up: u16,
    /// Rows below the viewport.
    pub down: u16,
    /// Columns left of the viewport.
    pub left: u16,
    /// Columns right of the viewport.
    pub right: u16,
}

/// Offset, content length and viewport length on one axis.
#[derive(Debug, Clone, Copy, PartialEq, Eq, Structural)]
pub struct ScrollState {
    offset: usize,
    content_len: usize,
    viewport_len: usize,
    reveal: Option<usize>,
}

/// The largest legal offset for a content and viewport length.
pub open spec fn max_offset_of(content: int, viewport: int) -> int {
    sat_sub0(content, viewport)
}

/// `offset + delta`, saturating at both ends of `usize`.
pub open spec fn shifted(offset: int, delta: int) -> int {
    if offset + delta < 0 { 0 } else if offset + delta > usize::MAX { usize::MAX as int } else { offset + delta }
}

/// The offset after the least move that shows `index` in a viewport of
/// `viewport` items (before clamping).
pub open spec fn revealed(offset: int, viewport: int, index: int) -> int {
    if index < offset {
        index
    } else if index >= sat_add_usize(offset, viewport) {
        sat_sub0(sat_add_usize(index, 1), viewport)
    } else {
        offset
    }
}

/// The thumb's length on a track of `track` cells.
pub open spec fn thumb_len(content: int, viewport: int, track: int) -> int {
    min(max(sat_mul_usize(viewport, track) / content, 1), track)
}

/// The thumb's `(start, len)` on a track of `track` cells.
pub open spec fn thumb_of(offset: int, content: int, viewport: int, track: int) -> (int, int) {
    if !(content > viewport && viewport > 0) || track == 0 {
        (0, track)
    } else {
        let len = thumb_len(content, viewport, track);
        let max_off = max_offset_of(content, viewport);
        let usable = sat_sub0(track, len);
        let start = sat_add_usize(sat_mul_usize(offset, usable), max_off / 2) / max_off;
        (min(start, usable), len)
    }
}

/// The offset a track position `pos` stands for.
pub open spec fn offset_for(offset: int, content: int, viewport: int, pos: int, track: int) -> int {
    if !(content > viewport && viewport > 0) || track == 0 {
        0
    } else {
        let len = thumb_of(offset, content, viewport, track).1;
        let usable = max(sat_sub0(track, len), 1);
        let p = min(sat_sub0(pos, len / 2), usable);
        sat_add_usize(sat_mul_usize(p, max_offset_of(content, viewport)), usable / 2) / usable
    }
}

/// After `ensure_visible`, the index is in view: the least move lands
/// the viewport over it whatever the offset was.
pub proof fn law_reveal_shows_index(offset: int, content: int, viewport: int, index: int)
    requires
        0 <= offset <= usize::MAX,
        0 < viewport <= usize::MAX,
        0 <= index < content <= usize::MAX,
    ensures
        ({
            let o = min(revealed(offset, viewport, index), max_offset_of(content, viewport));
            o <= index < o + viewport
        }),
{
}

/// From a clamped offset, `ensure_visible` moves the viewport the least:
/// an index already in view keeps the offset, one above it becomes the
/// first row, one below it the last, and no legal offset that shows the
/// index lies nearer the old one.
pub proof fn law_reveal_moves_least(offset: int, content: int, viewport: int, index: int)
    requires
        0 < viewport <= usize::MAX,
        0 <= index < content <= usize::MAX,
        0 <= offset <= max_offset_of(content, viewport),
    ensures
        ({
            let m = max_offset_of(content, viewport);
            let o = min(revealed(offset, viewport, index), m);
            &&& o <= index < o + viewport
            &&& offset <= index < offset + viewport ==> o == offset
            &&& index < offset ==> o == index
            &&& index >= offset + viewport ==> o == index + 1 - viewport
            &&& forall|p: int| 0 <= p <= m && p <= index < p + viewport ==> #[trigger] max(p - offset, offset - p) >= max(
                o - offset,
                offset - o,
            )
        }),
{
}

/// The thumb lies on the track, and an overflowing region on a non-empty
/// track always shows a thumb at least one cell long.
pub proof fn law_thumb_within_track(offset: int, content: int, viewport: int, track: int)
    requires
        0 <= offset,
        0 <= viewport,
        0 <= content,
        0 <= track <= usize::MAX,
    ensures
        ({
            let (start, len) = thumb_of(offset, content, viewport, track);
            &&& 0 <= start
            &&& start + len <= track
            &&& (content > viewport && viewport > 0 && track > 0) ==> len >= 1
        }),
{
    if content > viewport && viewport > 0 && track > 0 {
        let len = thumb_len(content, viewport, track);
        let max_off = max_offset_of(content, viewport);
        let usable = sat_sub0(track, len);
        let num = sat_add_usize(sat_mul_usize(offset, usable), max_off / 2);
        assert(sat_mul_usize(viewport, track) >= 0) by (nonlinear_arith)
            requires viewport >= 0, track >= 0;
        assert(sat_mul_usize(offset, usable) >= 0) by (nonlinear_arith)
            requires offset >= 0, usable >= 0;
        assert(sat_mul_usize(viewport, track) / content >= 0) by (nonlinear_arith)
            requires sat_mul_usize(viewport, track) >= 0, content > 0;
        assert(num / max_off >= 0) by (nonlinear_arith)
            requires num >= 0, max_off > 0;
    }
}

/// The thumb starts at the offset's share of the track the thumb can
/// travel, rounded to the nearest cell: at the top when the offset is
/// zero, at the bottom when it is the largest offset, and in proportion in
/// between.
pub proof fn law_thumb_follows_the_offset(offset: int, content: int, viewport: int, track: int)
    requires
        0 < viewport < content <= usize::MAX,
        0 < track <= usize::MAX,
        0 <= offset <= content - viewport,
        offset * track + (content - viewport) / 2 <= usize::MAX,
    ensures
        ({
            let (start, len) = thumb_of(offset, content, viewport, track);
            let travel = track - len;
            let m = content - viewport;
            &&& start * m <= offset * travel + m / 2 < (start + 1) * m
            &&& offset == 0 ==> start == 0
            &&& offset == m ==> start == travel
        }),
{
    law_thumb_within_track(offset, content, viewport, track);
    let (start, len) = thumb_of(offset, content, viewport, track);
    let u = track - len;
    let m = content - viewport;
    assert(max_offset_of(content, viewport) == m);
    assert(sat_sub0(track, len) == u);
    assert(0 <= u <= track);
    assert(0 <= offset * u <= offset * track) by (nonlinear_arith)
        requires
            0 <= offset,
            0 <= u <= track,
    ;
    assert(sat_mul_usize(offset, u) == offset * u);
    let n = offset * u + m / 2;
    assert(sat_add_usize(offset * u, m / 2) == n);
    let q = n / m;
    assert(q * m <= n < (q + 1) * m && q >= 0) by (nonlinear_arith)
        requires
            m > 0,
            n >= 0,
            q == n / m,
    {
        vstd::arithmetic::div_mod::lemma_fundamental_div_mod(n, m);
    }
    assert(q <= u) by (nonlinear_arith)
        requires
            q * m <= n,
            n == offset * u + m / 2,
            0 <= offset <= m,
            0 <= u,
            m > 0,
            m / 2 < m,
    {
        assert(offset * u <= m * u);
    }
    assert(start == q);
    if offset == 0 {
        assert(offset * u == 0);
        assert(q == 0) by (nonlinear_arith)
            requires
                q * m <= n,
                n == m / 2,
                m > 0,
                q >= 0,
                m / 2 < m,
        ;
    }
    if offset == m {
        assert(offset * u == m * u);
        assert(q >= u) by (nonlinear_arith)
            requires
                n < (q + 1) * m,
                n == m * u + m / 2,
                m > 0,
                m / 2 >= 0,
        ;
    }
}

/// The thumb's length is the visible share of the track, rounded down:
/// never shorter than one cell nor longer than the track.
pub proof fn law_thumb_length_is_the_visible_share(offset: int, content: int, viewport: int, track: int)
    requires
        0 < viewport < content <= usize::MAX,
        0 < track <= usize::MAX,
        0 <= offset,
        viewport * track <= usize::MAX,
    ensures
        ({
            let len = thumb_of(offset, content, viewport, track).1;
            &&& 1 <= len <= track
            &&& 1 < len < track ==> len * content <= viewport * track < (len + 1) * content
            &&& len == 1 ==> viewport * track < 2 * content
            &&& len == track && track > 1 ==> track * content <= viewport * track
        }),
{
    let q = (viewport * track) / content;
    assert(sat_mul_usize(viewport, track) == viewport * track);
    assert(q * content <= viewport * track < (q + 1) * content && q >= 0) by (nonlinear_arith)
        requires
            content > 0,
            viewport * track >= 0,
            q == (viewport * track) / content,
    {
        vstd::arithmetic::div_mod::lemma_fundamental_div_mod(viewport * track, content);
    }
    assert(thumb_len(content, viewport, track) == min(max(q, 1), track));
    let len = min(max(q, 1), track);
    if len == 1 && track == 1 {
        assert(viewport * track == viewport);
    } else if len == 1 {
        assert(q <= 1);
        assert(viewport * track < 2 * content) by (nonlinear_arith)
            requires
                viewport * track < (q + 1) * content,
                q <= 1,
                content > 0,
        ;
    }
    if len == track && track > 1 {
        assert(q >= track);
        assert(track * content <= viewport * track) by (nonlinear_arith)
            requires
                q * content <= viewport * track,
                q >= track,
                content > 0,
        ;
    }
}

/// A track position never stands for an offset past the end.
pub proof fn law_track_pos_within_range(offset: int, content: int, viewport: int, pos: int, track: int)
    requires
        0 <= offset,
        0 <= viewport,
        0 <= content,
        0 <= pos,
        0 <= track <= usize::MAX,
    ensures
        0 <= offset_for(offset, content, viewport, pos, track) <= max_offset_of(content, viewport),
{
    if content > viewport && viewport > 0 && track > 0 {
        law_thumb_within_track(offset, content, viewport, track);
        let len = thumb_of(offset, content, viewport, track).1;
        let usable = max(sat_sub0(track, len), 1);
        let p = min(sat_sub0(pos, len / 2), usable);
        let m = max_offset_of(content, viewport);
        let prod = sat_mul_usize(p, m);
        let num = sat_add_usize(prod, usable / 2);
        assert(0 <= prod <= usable * m) by (nonlinear_arith)
            requires 0 <= p <= usable, m >= 0, prod == sat_mul_usize(p, m);
        assert(0 <= num / usable <= m) by (nonlinear_arith)
            requires usable >= 1, 0 <= num <= usable * m + usable / 2, m >= 0;
    }
}

impl ScrollState {
    /// The offset never passes the last offset that fills the viewport.
    #[verifier::type_invariant]
    spec fn offset_in_range(self) -> bool {
        self.offset as int <= max_offset_of(self.content_len as int, self.viewport_len as int)
    }

    /// The first visible index.
    pub closed spec fn spec_offset(&self) -> int {
        self.offset as int
    }

    /// The content length.
    pub closed spec fn spec_content(&self) -> int {
        self.content_len as int
    }

    /// The viewport length.
    pub closed spec fn spec_viewport(&self) -> int {
        self.viewport_len as int
    }

    /// The pending reveal request.
    pub closed spec fn spec_reveal(&self) -> Option<usize> {
        self.reveal
    }

    /// The largest legal offset.
    pub open spec fn spec_max_offset(&self) -> int {
        max_offset_of(self.spec_content(), self.spec_viewport())
    }

    /// The offset lies within the content.
    pub open spec fn clamped(&self) -> bool {
        self.spec_offset() <= self.spec_max_offset()
    }

    /// A state for `content_len` items with no viewport yet.
    pub fn new(content_len: usize) -> (s: ScrollState)
        ensures
            s.spec_offset() == 0,
            s.spec_content() == content_len,
            s.spec_viewport() == 0,
            s.spec_reveal() is None,
            s.clamped(),
    {
        ScrollState { offset: 0, content_len, viewport_len: 0, reveal: None }
    }

    /// The first visible index; it never passes the last offset that fills
    /// the viewport.
    pub fn offset(&self) -> (o: usize)
        ensures
            o == self.spec_offset(),
            self.clamped(),
    {
        proof {
            use_type_invariant(self);
        }
        self.offset
    }

    /// The content length.
    pub fn content_len(&self) -> (n: usize)
        ensures
            n == self.spec_content(),
    {
        self.content_len
    }

    /// The viewport length.
    pub fn viewport_len(&self) -> (n: usize)
        ensures
            n == self.spec_viewport(),
    {
        self.viewport_len
    }

    /// The largest legal offset.
    pub fn max_offset(&self) -> (m: usize)
        ensures
            m == self.spec_max_offset(),
    {
        self.content_len.saturating_sub(self.viewport_len)
    }

    /// Whether content exceeds the viewport.
    pub fn overflows(&self) -> (b: bool)
        ensures
            b == (self.spec_content() > self.spec_viewport() && self.spec_viewport() > 0),
    {
        self.content_len > self.viewport_len && self.viewport_len > 0
    }

    /// Whether the offset is at the start.
    pub fn at_start(&self) -> (b: bool)
        ensures
            b == (self.spec_offset() == 0),
    {
        self.offset == 0
    }

    /// Whether the offset is at the end.
    pub fn at_end(&self) -> (b: bool)
        ensures
            b == (self.spec_offset() >= self.spec_max_offset()),
    {
        self.offset >= self.max_offset()
    }

    /// Set the viewport length and clamp.
    pub fn set_viewport(&mut self, len: usize)
        ensures
            final(self).spec_viewport() == len,
            final(self).spec_content() == old(self).spec_content(),
            final(self).spec_reveal() == old(self).spec_reveal(),
            final(self).spec_offset() == min(old(self).spec_offset(), max_offset_of(old(self).spec_content(), len as int)),
            final(self).clamped(),
    {
        proof {
            use_type_invariant(&*self);
        }
        let m = self.content_len.saturating_sub(len);
        let offset = if self.offset < m { self.offset } else { m };
        *self = ScrollState { offset, viewport_len: len, ..*self };
    }

    /// Set the content length and clamp.
    pub fn set_content(&mut self, len: usize)
        ensures
            final(self).spec_content() == len,
            final(self).spec_viewport() == old(self).spec_viewport(),
            final(self).spec_reveal() == old(self).spec_reveal(),
            final(self).spec_offset() == min(old(self).spec_offset(), max_offset_of(len as int, old(self).spec_viewport())),
            final(self).clamped(),
    {
        proof {
            use_type_invariant(&*self);
        }
        let m = len.saturating_sub(self.viewport_len);
        let offset = if self.offset < m { self.offset } else { m };
        *self = ScrollState { offset, content_len: len, ..*self };
    }

    /// Clamp the offset to the content.
    pub fn clamp(&mut self)
        ensures
            final(self).spec_content() == old(self).spec_content(),
            final(self).spec_viewport() == old(self).spec_viewport(),
            final(self).spec_reveal() == old(self).spec_reveal(),
            final(self).spec_offset() == min(old(self).spec_offset(), old(self).spec_max_offset()),
            final(self).clamped(),
    {
        proof {
            use_type_invariant(&*self);
        }
    }

    /// Scroll by a signed delta, clamped.
    pub fn scroll_by(&mut self, delta: isize)
        ensures
            final(self).spec_content() == old(self).spec_content(),
            final(self).spec_viewport() == old(self).spec_viewport(),
            final(self).spec_reveal() == old(self).spec_reveal(),
            final(self).spec_offset() == min(shifted(old(self).spec_offset(), delta as int), old(self).spec_max_offset()),
            final(self).clamped(),
    {
        let moved = if delta >= 0 {
            self.offset.saturating_add(delta as usize)
        } else {
            let back = ((-(delta + 1)) as usize) + 1;
            self.offset.saturating_sub(back)
        };
        let m = self.max_offset();
        self.offset = if moved < m { moved } else { m };
    }

    /// Scroll to an offset, clamped.
    pub fn scroll_to(&mut self, offset: usize)
        ensures
            final(self).spec_content() == old(self).spec_content(),
            final(self).spec_viewport() == old(self).spec_viewport(),
            final(self).spec_reveal() == old(self).spec_reveal(),
            final(self).spec_offset() == min(offset as int, old(self).spec_max_offset()),
            final(self).clamped(),
    {
        let m = self.max_offset();
        self.offset = if offset < m { offset } else { m };
    }

    /// Scroll up by one viewport.
    pub fn page_up(&mut self)
        ensures
            final(self).spec_content() == old(self).spec_content(),
            final(self).spec_viewport() == old(self).spec_viewport(),
            final(self).spec_reveal() == old(self).spec_reveal(),
            ({
                let page = (max(old(self).spec_viewport(), 1) as usize) as isize;
                let back = if page == isize::MIN { isize::MAX as int } else { -page };
                final(self).spec_offset() == min(shifted(old(self).spec_offset(), back), old(self).spec_max_offset())
            }),
            final(self).clamped(),
    {
        let v = if self.viewport_len > 1 { self.viewport_len } else { 1 };
        let page = v as isize;
        let back = if page == isize::MIN { isize::MAX } else { -page };
        self.scroll_by(back);
    }

    /// Scroll down by one viewport.
    pub fn page_down(&mut self)
        ensures
            final(self).spec_content() == old(self).spec_content(),
            final(self).spec_viewport() == old(self).spec_viewport(),
            final(self).spec_reveal() == old(self).spec_reveal(),
            ({
                let page = (max(old(self).spec_viewport(), 1) as usize) as isize;
                final(self).spec_offset() == min(shifted(old(self).spec_offset(), page as int), old(self).spec_max_offset())
            }),
            final(self).clamped(),
    {
        let v = if self.viewport_len > 1 { self.viewport_len } else { 1 };
        self.scroll_by(v as isize);
    }

    /// Jump to the start.
    pub fn jump_start(&mut self)
        ensures
            final(self).spec_content() == old(self).spec_content(),
            final(self).spec_viewport() == old(self).spec_viewport(),
            final(self).spec_reveal() == old(self).spec_reveal(),
            final(self).spec_offset() == 0,
            final(self).clamped(),
    {
        self.offset = 0;
    }

    /// Jump to the end.
    pub fn jump_end(&mut self)
        ensures
            final(self).spec_content() == old(self).spec_content(),
            final(self).spec_viewport() == old(self).spec_viewport(),
            final(self).spec_reveal() == old(self).spec_reveal(),
            final(self).spec_offset() == old(self).spec_max_offset(),
            final(self).clamped(),
    {
        self.offset = self.max_offset();
    }

    /// Move the viewport the minimum amount so `index` is visible.
    pub fn ensure_visible(&mut self, index: usize)
        ensures
            final(self).spec_content() == old(self).spec_content(),
            final(self).spec_viewport() == old(self).spec_viewport(),
            final(self).spec_reveal() == old(self).spec_reveal(),
            old(self).spec_viewport() == 0 ==> final(self).spec_offset() == old(self).spec_offset(),
            old(self).spec_viewport() != 0 ==> final(self).spec_offset() == min(
                revealed(old(self).spec_offset(), old(self).spec_viewport(), index as int),
                old(self).spec_max_offset(),
            ),
            final(self).clamped(),
            ({
                let o = old(self).spec_offset();
                let v = old(self).spec_viewport();
                let n = final(self).spec_offset();
                v > 0 && index < old(self).spec_content() ==> {
                    &&& n <= index < n + v
                    &&& o <= index < o + v ==> n == o
                    &&& index < o ==> n == index
                    &&& index >= o + v ==> n == index + 1 - v
                    &&& forall|p: int| 0 <= p <= old(self).spec_max_offset() && p <= index < p + v ==> #[trigger] max(
                        p - o,
                        o - p,
                    ) >= max(n - o, o - n)
                }
            }),
    {
        proof {
            use_type_invariant(&*self);
            if self.viewport_len > 0 && index < self.content_len {
                law_reveal_moves_least(self.offset as int, self.content_len as int, self.viewport_len as int, index as int);
            }
        }
        if self.viewport_len == 0 {
            return;
        }
        let wanted = if index < self.offset {
            index
        } else if index >= self.offset.saturating_add(self.viewport_len) {
            index.saturating_add(1).saturating_sub(self.viewport_len)
        } else {
            self.offset
        };
        let m = self.max_offset();
        self.offset = if wanted < m { wanted } else { m };
    }

    /// Request that `index` be revealed by the next layout (cursor motion
    /// only; a wheel never sets this).
    pub fn ensure_visible_on_next_layout(&mut self, index: usize)
        ensures
            final(self).spec_content() == old(self).spec_content(),
            final(self).spec_viewport() == old(self).spec_viewport(),
            final(self).spec_offset() == old(self).spec_offset(),
            final(self).spec_reveal() == Some(index),
    {
        proof {
            use_type_invariant(&*self);
        }
        self.reveal = Some(index);
    }

    /// The pending reveal request, if any.
    pub fn pending_reveal(&self) -> (r: Option<usize>)
        ensures
            r == self.spec_reveal(),
    {
        self.reveal
    }

    /// Called after layout knows the viewport: applies the pending reveal
    /// and clears it.
    pub fn apply_layout(&mut self, viewport_len: usize, content_len: usize)
        ensures
            final(self).spec_content() == content_len,
            final(self).spec_viewport() == viewport_len,
            final(self).spec_reveal() is None,
            final(self).clamped(),
            ({
                let m = max_offset_of(content_len as int, viewport_len as int);
                let o = old(self).spec_offset();
                match old(self).spec_reveal() {
                    Some(i) => if viewport_len == 0 {
                        final(self).spec_offset() == min(o, m)
                    } else {
                        final(self).spec_offset() == min(revealed(o, viewport_len as int, i as int), m)
                    },
                    None => final(self).spec_offset() == min(o, m),
                }
            }),
    {
        let m = content_len.saturating_sub(viewport_len);
        let o = self.offset;
        let wanted = match self.reveal {
            Some(i) => if viewport_len == 0 {
                o
            } else if i < o {
                i
            } else if i >= o.saturating_add(viewport_len) {
                i.saturating_add(1).saturating_sub(viewport_len)
            } else {
                o
            },
            None => o,
        };
        let offset = if wanted < m { wanted } else { m };
        *self = ScrollState { offset, content_len, viewport_len, reveal: None };
    }

    /// The wheel rule: consumed even at the boundary, repaint only when the
    /// offset moved.
    pub fn wheel(&mut self, delta: i16) -> (r: Response<()>)
        ensures
            final(self).spec_content() == old(self).spec_content(),
            final(self).spec_viewport() == old(self).spec_viewport(),
            final(self).spec_reveal() == old(self).spec_reveal(),
            final(self).spec_offset() == min(shifted(old(self).spec_offset(), delta as int), old(self).spec_max_offset()),
            final(self).clamped(),
            r.spec_flow() == Flow::Consumed,
            r.spec_invalidate() == (if final(self).spec_offset() == old(self).spec_offset() {
                Invalidate::Nothing
            } else {
                Invalidate::Paint
            }),
            r.spec_id() is None,
            r.spec_action() is None,
            r.spec_state().spec_bits() == 0,
    {
        let before = self.offset;
        self.scroll_by(delta as isize);
        if self.offset == before {
            Response::consumed()
        } else {
            Response::changed()
        }
    }

    /// Range of content indices currently in view.
    pub fn visible_range(&self) -> (r: Range<usize>)
        ensures
            r.start == self.spec_offset(),
            r.end == min(sat_add_usize(self.spec_offset(), self.spec_viewport()), self.spec_content()),
    {
        let reach = self.offset.saturating_add(self.viewport_len);
        let end = if reach < self.content_len { reach } else { self.content_len };
        Range { start: self.offset, end }
    }

    /// Headroom on the vertical axis.
    pub fn headroom_v(&self) -> (h: Headroom)
        ensures
            h.up == min(self.spec_offset(), 0xffff),
            h.down == min(sat_sub0(self.spec_max_offset(), self.spec_offset()), 0xffff),
            h.left == 0,
            h.right == 0,
    {
        let up: u16 = if self.offset > 0xffff { 0xffff } else { self.offset as u16 };
        let rest = self.max_offset().saturating_sub(self.offset);
        let down: u16 = if rest > 0xffff { 0xffff } else { rest as u16 };
        Headroom { up, down, left: 0, right: 0 }
    }

    /// Thumb geometry for a track of `track_len` cells: `(start, len)`.
    pub fn thumb(&self, track_len: usize) -> (t: (usize, usize))
        ensures
            t.0 == thumb_of(self.spec_offset(), self.spec_content(), self.spec_viewport(), track_len as int).0,
            t.1 == thumb_of(self.spec_offset(), self.spec_content(), self.spec_viewport(), track_len as int).1,
    {
        if !self.overflows() || track_len == 0 {
            return (0, track_len);
        }
        let share = sat_mul(self.viewport_len, track_len) / self.content_len;
        let at_least = if share > 1 { share } else { 1 };
        let len = if at_least < track_len { at_least } else { track_len };
        let max_off = self.max_offset();
        let usable = track_len.saturating_sub(len);
        let start = sat_mul(self.offset, usable).saturating_add(max_off / 2) / max_off;
        (if start < usable { start } else { usable }, len)
    }

    /// Inverse of [`thumb`](Self::thumb): a track position to an offset.
    pub fn offset_for_track_pos(&self, pos: usize, track_len: usize) -> (o: usize)
        ensures
            o == offset_for(self.spec_offset(), self.spec_content(), self.spec_viewport(), pos as int, track_len as int),
    {
        if !self.overflows() || track_len == 0 {
            return 0;
        }
        let (_, len) = self.thumb(track_len);
        let room = track_len.saturating_sub(len);
        let usable = if room > 1 { room } else { 1 };
        let lifted = pos.saturating_sub(len / 2);
        let p = if lifted < usable { lifted } else { usable };
        sat_mul(p, self.max_offset()).saturating_add(usable / 2) / usable
    }
}

} // verus!
