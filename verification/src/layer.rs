//! The layer stack: modals, popovers and tooltips above the page, and the
//! one placement resolver for them.
//!
//! A layer is opened with a [`LayerSpec`] and composited bottom to top, so
//! z-order is the layer order. Placement is one resolver: anchor, flip,
//! then clamp.

use vstd::prelude::*;

use crate::action::ActionKey;
use crate::geometry::{min_int, sat_add, sat_sub, Position, Rect};
use crate::id::Id;

verus! {

/// A stack position; `0` is the page.
#[derive(Clone, Copy, PartialEq, Eq, Structural, PartialOrd, Ord, Hash, Debug, Default)]
pub struct LayerId(pub u16);

impl LayerId {
    /// The page.
    pub fn page() -> (l: LayerId)
        ensures
            l.0 == 0,
    {
        LayerId(0)
    }

    /// The stack position.
    pub fn index(self) -> (i: u16)
        ensures
            i == self.0,
    {
        self.0
    }
}

/// What a layer traps.
#[derive(Clone, Copy, PartialEq, Eq, Structural, Debug)]
pub enum LayerKind {
    /// Focus and pointer trap, dim backdrop, inert below.
    Modal,
    /// Pointer barrier only.
    Popover,
    /// Pointer barrier only, no focus scope of its own.
    Tooltip,
}

/// Screen placement for `Anchor::Screen`.
#[derive(Clone, Copy, PartialEq, Eq, Structural, Debug)]
pub enum ScreenAlign {
    /// Horizontally centred, vertically in the optical centre (upper third).
    Center,
    /// Horizontally centred, near the top.
    UpperThird,
    /// Horizontally centred, at the bottom.
    Bottom,
}

/// Which side of an anchor rect.
#[derive(Clone, Copy, PartialEq, Eq, Structural, Debug)]
pub enum Side {
    /// Below the rect.
    Below,
    /// Above the rect.
    Above,
    /// Left of the rect.
    Left,
    /// Right of the rect.
    Right,
}

/// Alignment along the axis perpendicular to `Side`.
#[derive(Clone, Copy, PartialEq, Eq, Structural, Debug)]
pub enum CrossAlign {
    /// Align starts.
    Start,
    /// Centre.
    Center,
    /// Align ends.
    End,
}

/// Where the layer's area is placed.
#[derive(Clone, Copy, PartialEq, Eq, Structural, Debug)]
pub enum Anchor {
    /// Relative to the whole screen.
    Screen(ScreenAlign),
    /// Adjacent to a rect, flipping when there is no room.
    Rect {
        /// The anchor rect.
        rect: Rect,
        /// Which side of the rect.
        side: Side,
        /// Alignment along the other axis.
        align: CrossAlign,
    },
    /// At a point (a tooltip or context menu).
    Point(Position),
}

/// How a layer may be dismissed.
#[derive(Clone, Copy, PartialEq, Eq, Structural, Debug, Default)]
pub struct Dismiss {
    /// Esc in the bubble phase.
    pub esc: bool,
    /// A click whose hit is below the layer, or nowhere.
    pub outside_click: bool,
    /// Focus leaving the layer (honoured for popovers and tooltips only).
    pub focus_out: bool,
}

impl Dismiss {
    /// Programmatic only.
    pub fn none() -> (d: Dismiss)
        ensures
            d == (Dismiss { esc: false, outside_click: false, focus_out: false }),
    {
        Dismiss { esc: false, outside_click: false, focus_out: false }
    }

    /// Esc only.
    pub fn esc() -> (d: Dismiss)
        ensures
            d == (Dismiss { esc: true, outside_click: false, focus_out: false }),
    {
        Dismiss { esc: true, outside_click: false, focus_out: false }
    }

    /// Esc and outside click.
    pub fn esc_and_outside() -> (d: Dismiss)
        ensures
            d == (Dismiss { esc: true, outside_click: true, focus_out: false }),
    {
        Dismiss { esc: true, outside_click: true, focus_out: false }
    }

    /// Esc, outside click and focus out.
    pub fn all() -> (d: Dismiss)
        ensures
            d == (Dismiss { esc: true, outside_click: true, focus_out: true }),
    {
        Dismiss { esc: true, outside_click: true, focus_out: true }
    }
}

/// The backdrop behind a layer.
#[derive(Clone, Copy, PartialEq, Eq, Structural, Debug)]
pub enum Backdrop {
    /// No backdrop.
    Clear,
    /// Dim the page below.
    Dim {
        /// Keep the last row (the hint bar) undimmed.
        exclude_footer: bool,
    },
}

/// How large a layer asks to be. The resolver clamps to the screen; it
/// never grows a layer, so a `Fixed` size is a maximum as well as a request.
#[non_exhaustive]
#[derive(Clone, Copy, PartialEq, Eq, Structural, Debug)]
pub enum LayerSize {
    /// The whole screen; `Anchor` is ignored.
    Fill,
    /// Exactly `w × h` cells before clamping.
    Fixed(u16, u16),
}

/// A layer's configuration. Construct through the builders.
#[non_exhaustive]
#[derive(Clone, Copy, PartialEq, Eq, Structural, Debug)]
pub struct LayerSpec {
    /// The kind.
    pub kind: LayerKind,
    /// Anchor owner and focus-restore target.
    pub owner: Id,
    /// Placement.
    pub anchor: Anchor,
    /// Dismissal.
    pub dismiss: Dismiss,
    /// Restore focus to the opener on close.
    pub restore_focus: bool,
    /// Initial focus inside the layer.
    pub initial_focus: Option<Id>,
    /// The requested content size.
    pub size: LayerSize,
    /// The backdrop.
    pub backdrop: Backdrop,
    /// No registrations from the layers below.
    pub inert_below: bool,
}

impl LayerSpec {
    /// Modal: centred on the screen, esc and outside click, dim, inert below.
    pub fn modal(owner: Id) -> (s: LayerSpec)
        ensures
            s == (LayerSpec {
                kind: LayerKind::Modal,
                owner,
                anchor: Anchor::Screen(ScreenAlign::Center),
                dismiss: Dismiss { esc: true, outside_click: true, focus_out: false },
                restore_focus: true,
                initial_focus: None,
                size: LayerSize::Fill,
                backdrop: Backdrop::Dim { exclude_footer: true },
                inert_below: true,
            }),
    {
        LayerSpec {
            kind: LayerKind::Modal,
            owner,
            anchor: Anchor::Screen(ScreenAlign::Center),
            dismiss: Dismiss::esc_and_outside(),
            restore_focus: true,
            initial_focus: None,
            size: LayerSize::Fill,
            backdrop: Backdrop::Dim { exclude_footer: true },
            inert_below: true,
        }
    }

    /// Popover: pointer barrier only, no dim.
    pub fn popover(owner: Id, anchor: Anchor) -> (s: LayerSpec)
        ensures
            s == (LayerSpec {
                kind: LayerKind::Popover,
                owner,
                anchor,
                dismiss: Dismiss { esc: true, outside_click: true, focus_out: false },
                restore_focus: true,
                initial_focus: None,
                size: LayerSize::Fill,
                backdrop: Backdrop::Clear,
                inert_below: false,
            }),
    {
        LayerSpec {
            kind: LayerKind::Popover,
            owner,
            anchor,
            dismiss: Dismiss::esc_and_outside(),
            restore_focus: true,
            initial_focus: None,
            size: LayerSize::Fill,
            backdrop: Backdrop::Clear,
            inert_below: false,
        }
    }

    /// Tooltip at a point: no focus, dismissed by anything.
    pub fn tooltip(owner: Id, at: Position) -> (s: LayerSpec)
        ensures
            s == (LayerSpec {
                kind: LayerKind::Tooltip,
                owner,
                anchor: Anchor::Point(at),
                dismiss: Dismiss { esc: true, outside_click: true, focus_out: true },
                restore_focus: false,
                initial_focus: None,
                size: LayerSize::Fill,
                backdrop: Backdrop::Clear,
                inert_below: false,
            }),
    {
        LayerSpec {
            kind: LayerKind::Tooltip,
            owner,
            anchor: Anchor::Point(at),
            dismiss: Dismiss::all(),
            restore_focus: false,
            initial_focus: None,
            size: LayerSize::Fill,
            backdrop: Backdrop::Clear,
            inert_below: false,
        }
    }

    /// Set the anchor.
    pub fn anchor(self, a: Anchor) -> (s: LayerSpec)
        ensures
            s == (LayerSpec { anchor: a, ..self }),
    {
        LayerSpec { anchor: a, ..self }
    }

    /// Set dismissal.
    pub fn dismiss(self, d: Dismiss) -> (s: LayerSpec)
        ensures
            s == (LayerSpec { dismiss: d, ..self }),
    {
        LayerSpec { dismiss: d, ..self }
    }

    /// Set the backdrop.
    pub fn backdrop(self, b: Backdrop) -> (s: LayerSpec)
        ensures
            s == (LayerSpec { backdrop: b, ..self }),
    {
        LayerSpec { backdrop: b, ..self }
    }

    /// Set the initial focus.
    pub fn initial_focus(self, id: Id) -> (s: LayerSpec)
        ensures
            s == (LayerSpec { initial_focus: Some(id), ..self }),
    {
        LayerSpec { initial_focus: Some(id), ..self }
    }

    /// Set the requested size: a request and a maximum.
    pub fn size(self, sz: LayerSize) -> (s: LayerSpec)
        ensures
            s == (LayerSpec { size: sz, ..self }),
    {
        LayerSpec { size: sz, ..self }
    }

    /// Set inertness of the layers below.
    pub fn inert_below(self, yes: bool) -> (s: LayerSpec)
        ensures
            s == (LayerSpec { inert_below: yes, ..self }),
    {
        LayerSpec { inert_below: yes, ..self }
    }

    /// Set focus restoration.
    pub fn restore_focus(self, yes: bool) -> (s: LayerSpec)
        ensures
            s == (LayerSpec { restore_focus: yes, ..self }),
    {
        LayerSpec { restore_focus: yes, ..self }
    }

    /// Whether focus-out dismissal applies (never for a modal).
    pub fn dismisses_on_focus_out(&self) -> (b: bool)
        ensures
            b == (self.dismiss.focus_out && !(self.kind is Modal)),
    {
        self.dismiss.focus_out && !matches!(self.kind, LayerKind::Modal)
    }
}

/// A layer lifecycle event, delivered to the layer's owner.
#[non_exhaustive]
#[derive(Clone, Copy, PartialEq, Eq, Structural, Debug)]
pub enum LayerEvent {
    /// The layer opened.
    Opened,
    /// The layer was dismissed.
    Dismissed(DismissReason),
    /// The layer was closed with an action.
    Closed(ActionKey),
}

/// Why a layer was dismissed.
#[non_exhaustive]
#[derive(Clone, Copy, PartialEq, Eq, Structural, Debug)]
pub enum DismissReason {
    /// Esc.
    Esc,
    /// A click outside.
    OutsideClick,
    /// Focus left.
    FocusOut,
    /// Closed by the program.
    Programmatic,
}

// ---------------------------------------------------------------------------
// Placement.
// ---------------------------------------------------------------------------

/// The area `ratatui`'s layout solver gives a `Length(width)` constraint
/// centred horizontally in `area`.
pub uninterp spec fn centered_horizontally(area: Rect, width: u16) -> Rect;

/// `Rect::centered_horizontally` with a `Length(width)` constraint.
#[verifier::external_body]
fn center_horizontally(area: Rect, width: u16) -> (r: Rect)
    ensures
        r == centered_horizontally(area, width),
{
    let outer = ratatui_core::layout::Rect { x: area.x, y: area.y, width: area.width, height: area.height };
    let inner = outer.centered_horizontally(ratatui_core::layout::Constraint::Length(width));
    Rect { x: inner.x, y: inner.y, width: inner.width, height: inner.height }
}

/// Where a span of `size` cells starts when aligned against a span of
/// `len` cells starting at `start`.
pub open spec fn cross_spec(start: int, len: int, size: int, align: CrossAlign) -> int {
    match align {
        CrossAlign::Start => start,
        CrossAlign::Center => sat_add(start, sat_sub(len, size) / 2),
        CrossAlign::End => sat_sub(sat_add(start, len), size),
    }
}

fn cross(start: u16, len: u16, size: u16, align: CrossAlign) -> (r: u16)
    ensures
        r == cross_spec(start as int, len as int, size as int, align),
{
    match align {
        CrossAlign::Start => start,
        CrossAlign::Center => start.saturating_add(len.saturating_sub(size) / 2),
        CrossAlign::End => start.saturating_add(len).saturating_sub(size),
    }
}

/// The rect a `w × h` layer is placed at before clamping: anchored, and
/// flipped to the other side when the chosen one has no room. `center_x`
/// is where a screen-anchored layer starts horizontally.
pub open spec fn raw_place(screen: Rect, anchor: Anchor, w: u16, h: u16, center_x: u16) -> Rect {
    match anchor {
        Anchor::Screen(align) => {
            let free = sat_sub(screen.height as int, h as int);
            let y = match align {
                ScreenAlign::Center => sat_add(screen.y as int, free / 3),
                ScreenAlign::UpperThird => sat_add(screen.y as int, free / 6),
                ScreenAlign::Bottom => sat_add(screen.y as int, free),
            };
            Rect { x: center_x, y: y as u16, width: w, height: h }
        },
        Anchor::Rect { rect, side, align } => match side {
            Side::Below | Side::Above => {
                let x = cross_spec(rect.x as int, rect.width as int, w as int, align);
                let below = rect.spec_bottom();
                let fits_below = sat_add(below, h as int) <= screen.spec_bottom();
                let fits_above = rect.y >= sat_add(screen.y as int, h as int);
                let up = sat_sub(rect.y as int, h as int);
                let y = if side is Below {
                    if fits_below || !fits_above { below } else { up }
                } else {
                    if fits_above || !fits_below { up } else { below }
                };
                Rect { x: x as u16, y: y as u16, width: w, height: h }
            },
            Side::Left | Side::Right => {
                let y = cross_spec(rect.y as int, rect.height as int, h as int, align);
                let right = rect.spec_right();
                let fits_right = sat_add(right, w as int) <= screen.spec_right();
                let fits_left = rect.x >= sat_add(screen.x as int, w as int);
                let left = sat_sub(rect.x as int, w as int);
                let x = if side is Right {
                    if fits_right || !fits_left { right } else { left }
                } else {
                    if fits_left || !fits_right { left } else { right }
                };
                Rect { x: x as u16, y: y as u16, width: w, height: h }
            },
        },
        Anchor::Point(p) => {
            let below = sat_add(p.y as int, 1);
            let fits_below = sat_add(below, h as int) <= screen.spec_bottom();
            let fits_above = p.y >= sat_add(screen.y as int, h as int);
            let y = if fits_below || !fits_above { below } else { sat_sub(p.y as int, h as int) };
            let fits_right = sat_add(p.x as int, w as int) <= screen.spec_right();
            let fits_left = p.x >= sat_add(screen.x as int, w as int);
            let x = if fits_right || !fits_left { p.x as int } else { sat_sub(p.x as int, w as int) };
            Rect { x: x as u16, y: y as u16, width: w, height: h }
        },
    }
}

/// Place a `w × h` layer on `screen`: anchor, flip, then clamp.
/// `center_x` is where a screen-anchored layer starts horizontally.
pub fn place(screen: Rect, anchor: Anchor, w: u16, h: u16, center_x: u16) -> (r: Rect)
    requires
        screen.fits(),
    ensures
        r == raw_place(screen, anchor, w, h, center_x).clamp_spec(screen),
        r.within(screen),
        r.width == min_int(w as int, screen.width as int),
        r.height == min_int(h as int, screen.height as int),
{
    let raw = match anchor {
        Anchor::Screen(align) => {
            let free = screen.height.saturating_sub(h);
            let y = match align {
                ScreenAlign::Center => screen.y.saturating_add(free / 3),
                ScreenAlign::UpperThird => screen.y.saturating_add(free / 6),
                ScreenAlign::Bottom => screen.y.saturating_add(free),
            };
            Rect { x: center_x, y, width: w, height: h }
        },
        Anchor::Rect { rect, side, align } => match side {
            Side::Below | Side::Above => {
                let x = cross(rect.x, rect.width, w, align);
                let below = rect.bottom();
                let fits_below = below.saturating_add(h) <= screen.bottom();
                let fits_above = rect.y >= screen.y.saturating_add(h);
                let y = match side {
                    Side::Below => if fits_below || !fits_above { below } else { rect.y.saturating_sub(h) },
                    _ => if fits_above || !fits_below { rect.y.saturating_sub(h) } else { below },
                };
                Rect { x, y, width: w, height: h }
            },
            Side::Left | Side::Right => {
                let y = cross(rect.y, rect.height, h, align);
                let right = rect.right();
                let fits_right = right.saturating_add(w) <= screen.right();
                let fits_left = rect.x >= screen.x.saturating_add(w);
                let x = match side {
                    Side::Right => if fits_right || !fits_left { right } else { rect.x.saturating_sub(w) },
                    _ => if fits_left || !fits_right { rect.x.saturating_sub(w) } else { right },
                };
                Rect { x, y, width: w, height: h }
            },
        },
        Anchor::Point(p) => {
            let below = p.y.saturating_add(1);
            let fits_below = below.saturating_add(h) <= screen.bottom();
            let fits_above = p.y >= screen.y.saturating_add(h);
            let y = if fits_below || !fits_above { below } else { p.y.saturating_sub(h) };
            let fits_right = p.x.saturating_add(w) <= screen.right();
            let fits_left = p.x >= screen.x.saturating_add(w);
            let x = if fits_right || !fits_left { p.x } else { p.x.saturating_sub(w) };
            Rect { x, y, width: w, height: h }
        },
    };
    raw.clamp(screen)
}

/// The size a layer gets before placement: `None` for `Fill`, else the
/// request clipped to the screen.
pub open spec fn clipped_size(screen: Rect, w: u16, h: u16) -> (u16, u16) {
    (min_int(w as int, screen.width as int) as u16, min_int(h as int, screen.height as int) as u16)
}

/// Where a layer of `size` anchored by `anchor` lands on `screen`: the
/// whole screen when it fills it, nothing when it has no size, else its
/// size clipped to the screen, placed by the anchor and kept on screen.
pub open spec fn anchored(screen: Rect, anchor: Anchor, size: LayerSize) -> Rect {
    match size {
        LayerSize::Fill => screen,
        LayerSize::Fixed(w, h) => if w == 0 || h == 0 {
            Rect { x: 0, y: 0, width: 0, height: 0 }
        } else {
            let (cw, ch) = clipped_size(screen, w, h);
            raw_place(screen, anchor, cw, ch, centered_horizontally(screen, cw).x).clamp_spec(screen)
        },
    }
}

/// A layer anchored beside a rect inside the screen sits on the side asked
/// for when that side has room: to the left it ends where the rect starts,
/// to the right it starts where the rect ends, above it ends where the rect
/// starts, below it starts where the rect ends. When only the other side
/// has room it flips there.
pub proof fn law_anchored_layer_takes_the_side_with_room(
    screen: Rect,
    rect: Rect,
    side: Side,
    align: CrossAlign,
    w: u16,
    h: u16,
)
    requires
        screen.fits(),
        rect.fits(),
        rect.within(screen),
        0 < w <= screen.width,
        0 < h <= screen.height,
    ensures
        ({
            let r = anchored(screen, Anchor::Rect { rect, side, align }, LayerSize::Fixed(w, h));
            let room_left = rect.x >= screen.x + w;
            let room_right = rect.x + rect.width + w <= screen.x + screen.width;
            let room_above = rect.y >= screen.y + h;
            let room_below = rect.y + rect.height + h <= screen.y + screen.height;
            &&& side is Left && room_left ==> r.x + r.width == rect.x
            &&& side is Left && !room_left && room_right ==> r.x == rect.x + rect.width
            &&& side is Right && room_right ==> r.x == rect.x + rect.width
            &&& side is Right && !room_right && room_left && rect.x + rect.width + w <= 0xffff ==> r.x + r.width
                == rect.x
            &&& side is Above && room_above ==> r.y + r.height == rect.y
            &&& side is Above && !room_above && room_below ==> r.y == rect.y + rect.height
            &&& side is Below && room_below ==> r.y == rect.y + rect.height
            &&& side is Below && !room_below && room_above && rect.y + rect.height + h <= 0xffff ==> r.y + r.height
                == rect.y
            &&& (side is Left || side is Right) ==> r.width == w
            &&& (side is Above || side is Below) ==> r.height == h
        }),
{
    let anchor = Anchor::Rect { rect, side, align };
    assert(clipped_size(screen, w, h) == (w, h));
    let raw = raw_place(screen, anchor, w, h, centered_horizontally(screen, w).x);
    let r = raw.clamp_spec(screen);
    assert(r == anchored(screen, anchor, LayerSize::Fixed(w, h)));
    assert(raw.width == w && raw.height == h);
    if side is Left || side is Right {
        let right = rect.spec_right();
        assert(right == rect.x + rect.width);
        let fits_right = sat_add(right, w as int) <= screen.spec_right();
        let fits_left = rect.x >= sat_add(screen.x as int, w as int);
        let x = if side is Right {
            if fits_right || !fits_left { right } else { sat_sub(rect.x as int, w as int) }
        } else {
            if fits_left || !fits_right { sat_sub(rect.x as int, w as int) } else { right }
        };
        assert(raw.x == x as u16);
        let room_left = rect.x >= screen.x + w;
        let room_right = rect.x + rect.width + w <= screen.x + screen.width;
        if room_left && (side is Left || (!room_right && rect.x + rect.width + w <= 0xffff)) {
            assert(x == rect.x - w);
            assert(screen.x <= x <= screen.spec_right() - w);
            assert(r.x == x);
        }
        if room_right && (side is Right || !room_left) {
            assert(x == right);
            assert(screen.x <= x <= screen.spec_right() - w);
            assert(r.x == x);
        }
        assert(r.width == w);
    } else {
        let below = rect.spec_bottom();
        assert(below == rect.y + rect.height);
        let fits_below = sat_add(below, h as int) <= screen.spec_bottom();
        let fits_above = rect.y >= sat_add(screen.y as int, h as int);
        let y = if side is Below {
            if fits_below || !fits_above { below } else { sat_sub(rect.y as int, h as int) }
        } else {
            if fits_above || !fits_below { sat_sub(rect.y as int, h as int) } else { below }
        };
        assert(raw.y == y as u16);
        let room_above = rect.y >= screen.y + h;
        let room_below = rect.y + rect.height + h <= screen.y + screen.height;
        if room_above && (side is Above || (!room_below && rect.y + rect.height + h <= 0xffff)) {
            assert(y == rect.y - h);
            assert(screen.y <= y <= screen.spec_bottom() - h);
            assert(r.y == y);
        }
        if room_below && (side is Below || !room_above) {
            assert(y == below);
            assert(screen.y <= y <= screen.spec_bottom() - h);
            assert(r.y == y);
        }
        assert(r.height == h);
    }
}

/// Along the other axis a layer beside a rect lines up with it as asked:
/// `Start` shares the rect's first row (or column), `End` its last, and
/// `Center` is centred on it, rounding toward the start, whenever that
/// position is on screen.
pub proof fn law_anchored_layer_aligns_with_its_rect(
    screen: Rect,
    rect: Rect,
    side: Side,
    align: CrossAlign,
    w: u16,
    h: u16,
)
    requires
        screen.fits(),
        rect.fits(),
        rect.within(screen),
        0 < w <= screen.width,
        0 < h <= screen.height,
    ensures
        ({
            let r = anchored(screen, Anchor::Rect { rect, side, align }, LayerSize::Fixed(w, h));
            &&& (side is Left || side is Right) && align is Start && rect.y + h <= screen.y + screen.height ==> r.y == rect.y
            &&& (side is Left || side is Right) && align is End && rect.y + rect.height >= screen.y + h ==> r.y + r.height
                == rect.y + rect.height
            &&& (side is Left || side is Right) && align is Center && h <= rect.height ==> r.y == rect.y + (rect.height
                - h) / 2
            &&& (side is Above || side is Below) && align is Start && rect.x + w <= screen.x + screen.width ==> r.x == rect.x
            &&& (side is Above || side is Below) && align is End && rect.x + rect.width >= screen.x + w ==> r.x + r.width
                == rect.x + rect.width
            &&& (side is Above || side is Below) && align is Center && w <= rect.width ==> r.x == rect.x + (rect.width
                - w) / 2
        }),
{
    let anchor = Anchor::Rect { rect, side, align };
    assert(clipped_size(screen, w, h) == (w, h));
    let raw = raw_place(screen, anchor, w, h, centered_horizontally(screen, w).x);
    let r = raw.clamp_spec(screen);
    assert(r == anchored(screen, anchor, LayerSize::Fixed(w, h)));
    assert(rect.spec_right() == rect.x + rect.width);
    assert(rect.spec_bottom() == rect.y + rect.height);
    if side is Left || side is Right {
        let y = cross_spec(rect.y as int, rect.height as int, h as int, align);
        assert(raw.y == y as u16);
        if align is Start && rect.y + h <= screen.y + screen.height {
            assert(y == rect.y);
            assert(r.y == y);
        }
        if align is End && rect.y + rect.height >= screen.y + h {
            assert(y == rect.y + rect.height - h);
            assert(r.y == y);
        }
        if align is Center && h <= rect.height {
            assert(y == rect.y + (rect.height - h) / 2);
            assert(r.y == y);
        }
        assert(r.height == h);
    } else {
        let x = cross_spec(rect.x as int, rect.width as int, w as int, align);
        assert(raw.x == x as u16);
        if align is Start && rect.x + w <= screen.x + screen.width {
            assert(x == rect.x);
            assert(r.x == x);
        }
        if align is End && rect.x + rect.width >= screen.x + w {
            assert(x == rect.x + rect.width - w);
            assert(r.x == x);
        }
        if align is Center && w <= rect.width {
            assert(x == rect.x + (rect.width - w) / 2);
            assert(r.x == x);
        }
        assert(r.width == w);
    }
}

/// A layer at a point opens below and to the right of it when there is
/// room, and flips above or to the left when only that side has room. A
/// screen-anchored layer sits a third of the free height down when
/// centred, a sixth when in the upper third, and on the bottom edge when
/// at the bottom.
pub proof fn law_point_and_screen_layers(screen: Rect, p: Position, align: ScreenAlign, w: u16, h: u16)
    requires
        screen.fits(),
        screen.x <= p.x < screen.x + screen.width,
        screen.y <= p.y < screen.y + screen.height,
        0 < w <= screen.width,
        0 < h <= screen.height,
    ensures
        ({
            let r = anchored(screen, Anchor::Point(p), LayerSize::Fixed(w, h));
            let room_below = p.y + 1 + h <= screen.y + screen.height;
            let room_above = p.y >= screen.y + h;
            let room_right = p.x + w <= screen.x + screen.width;
            let room_left = p.x >= screen.x + w;
            &&& room_below ==> r.y == p.y + 1
            &&& !room_below && room_above && p.y + 1 + h <= 0xffff ==> r.y + r.height == p.y
            &&& room_right ==> r.x == p.x
            &&& !room_right && room_left && p.x + w <= 0xffff ==> r.x + r.width == p.x
            &&& r.width == w && r.height == h
        }),
        ({
            let r = anchored(screen, Anchor::Screen(align), LayerSize::Fixed(w, h));
            let free = screen.height - h;
            &&& align is Center ==> r.y == screen.y + free / 3
            &&& align is UpperThird ==> r.y == screen.y + free / 6
            &&& align is Bottom ==> r.y + r.height == screen.y + screen.height
            &&& r.width == w && r.height == h
        }),
{
    assert(clipped_size(screen, w, h) == (w, h));
    let cx = centered_horizontally(screen, w).x;
    let anchor = Anchor::Point(p);
    let raw = raw_place(screen, anchor, w, h, cx);
    let r = raw.clamp_spec(screen);
    assert(r == anchored(screen, anchor, LayerSize::Fixed(w, h)));
    let room_below = p.y + 1 + h <= screen.y + screen.height;
    let room_above = p.y >= screen.y + h;
    let room_right = p.x + w <= screen.x + screen.width;
    let room_left = p.x >= screen.x + w;
    if room_below {
        assert(raw.y == p.y + 1);
        assert(r.y == p.y + 1);
    } else if room_above && p.y + 1 + h <= 0xffff {
        assert(raw.y == p.y - h);
        assert(r.y == p.y - h);
    }
    if room_right {
        assert(raw.x == p.x);
        assert(r.x == p.x);
    } else if room_left && p.x + w <= 0xffff {
        assert(raw.x == p.x - w);
        assert(r.x == p.x - w);
    }
    let sa = Anchor::Screen(align);
    let raw2 = raw_place(screen, sa, w, h, cx);
    let r2 = raw2.clamp_spec(screen);
    assert(r2 == anchored(screen, sa, LayerSize::Fixed(w, h)));
    let free = screen.height - h;
    assert(free / 3 <= free && free / 6 <= free);
    assert(r2.width == w && r2.height == h);
}

/// Resolve a layer's area: anchor, flip, then clamp.
///
/// [`LayerSize::Fill`] yields the whole screen. A `Fixed` size is clipped to
/// the screen first, then anchored, then flipped if the chosen side has no
/// room, then clamped. A layer is never grown to meet its request. A zero
/// dimension is an empty layer, not the screen.
pub fn resolve_anchor(screen: Rect, anchor: Anchor, size: LayerSize) -> (r: Rect)
    requires
        screen.fits(),
    ensures
        r == anchored(screen, anchor, size),
        size matches LayerSize::Fixed(w, h) ==> r.width <= w && r.height <= h,
        size matches LayerSize::Fixed(w, h) && w > 0 && h > 0 ==> r.within(screen),
{
    match size {
        LayerSize::Fill => screen,
        LayerSize::Fixed(w, h) => {
            if w == 0 || h == 0 {
                return Rect::zero();
            }
            let cw = if w < screen.width { w } else { screen.width };
            let ch = if h < screen.height { h } else { screen.height };
            let center_x = match anchor {
                Anchor::Screen(_) => center_horizontally(screen, cw).x,
                _ => 0,
            };
            let r = place(screen, anchor, cw, ch, center_x);
            proof {
                if !(anchor is Screen) {
                    assert(raw_place(screen, anchor, cw, ch, center_x)
                        == raw_place(screen, anchor, cw, ch, centered_horizontally(screen, cw).x));
                }
            }
            r
        },
    }
}

/// The area a backdrop dims: the screen, minus the last row when the
/// footer is excluded.
pub fn backdrop_area(screen: Rect, backdrop: Backdrop) -> (r: Rect)
    ensures
        match backdrop {
            Backdrop::Clear => r == (Rect { x: 0, y: 0, width: 0, height: 0 }),
            Backdrop::Dim { exclude_footer } => r == (Rect {
                x: screen.x,
                y: screen.y,
                width: screen.width,
                height: if exclude_footer { sat_sub(screen.height as int, 1) as u16 } else { screen.height },
            }),
        },
{
    match backdrop {
        Backdrop::Clear => Rect::zero(),
        Backdrop::Dim { exclude_footer } => Rect {
            x: screen.x,
            y: screen.y,
            width: screen.width,
            height: if exclude_footer { screen.height.saturating_sub(1) } else { screen.height },
        },
    }
}

// ---------------------------------------------------------------------------
// The stack.
// ---------------------------------------------------------------------------

/// One open layer.
#[derive(Clone, Copy, Debug, PartialEq, Eq, Structural)]
pub struct OpenLayer {
    /// The layer's identity.
    pub id: Id,
    /// Its stack position.
    pub layer: LayerId,
    /// Its configuration.
    pub spec: LayerSpec,
    /// Focus to restore when this layer closes.
    pub restore_to: Option<Id>,
}

/// The runtime's layer stack and the events it has staged.
#[derive(Clone, Debug, Default)]
pub struct LayerStack {
    open: Vec<OpenLayer>,
    pending: Vec<(Id, LayerEvent)>,
}

/// The index of the first open layer with `id` at or after `i`, or `-1`.
pub open spec fn find_layer(ls: Seq<OpenLayer>, id: Id, i: int) -> int
    decreases ls.len() - i,
{
    if i < 0 || i >= ls.len() {
        -1
    } else if ls[i].id == id {
        i
    } else {
        find_layer(ls, id, i + 1)
    }
}

/// The index of the last layer before `n` that makes those below inert,
/// or `-1`.
pub open spec fn last_inert(ls: Seq<OpenLayer>, n: int) -> int
    decreases n,
{
    if n <= 0 || n > ls.len() {
        -1
    } else if ls[n - 1].spec.inert_below {
        n - 1
    } else {
        last_inert(ls, n - 1)
    }
}

/// The events a close stages: `event` for the layer closed, programmatic
/// dismissal for each one above it.
pub open spec fn close_events(closed: Seq<OpenLayer>, event: LayerEvent) -> Seq<(Id, LayerEvent)> {
    Seq::new(closed.len(), |i: int| (closed[i].id, if i == 0 { event } else {
        LayerEvent::Dismissed(DismissReason::Programmatic)
    }))
}

pub proof fn lemma_find_layer(ls: Seq<OpenLayer>, id: Id, i: int)
    requires
        0 <= i,
    ensures
        ({
            let k = find_layer(ls, id, i);
            &&& k == -1 || (i <= k < ls.len() && ls[k].id == id)
            &&& k == -1 ==> forall|j: int| i <= j < ls.len() ==> #[trigger] ls[j].id != id
        }),
    decreases ls.len() - i,
{
    if i < ls.len() && ls[i].id != id {
        lemma_find_layer(ls, id, i + 1);
    }
}

impl LayerStack {
    /// The open layers, bottom first.
    pub closed spec fn spec_open(&self) -> Seq<OpenLayer> {
        self.open@
    }

    /// The staged events, oldest first.
    pub closed spec fn spec_pending(&self) -> Seq<(Id, LayerEvent)> {
        self.pending@
    }

    /// An empty stack.
    pub fn new() -> (s: LayerStack)
        ensures
            s.spec_open().len() == 0,
            s.spec_pending().len() == 0,
    {
        LayerStack { open: Vec::new(), pending: Vec::new() }
    }

    /// The top layer's position, or the page.
    pub fn top(&self) -> (l: LayerId)
        ensures
            l == (if self.spec_open().len() == 0 { LayerId(0) } else { self.spec_open().last().layer }),
    {
        let n = self.open.len();
        if n == 0 {
            LayerId(0)
        } else {
            self.open[n - 1].layer
        }
    }

    /// The open layers, bottom first.
    pub fn layers(&self) -> (ls: &[OpenLayer])
        ensures
            ls@ == self.spec_open(),
    {
        self.open.as_slice()
    }

    /// The open layer with `id`.
    pub fn get(&self, id: Id) -> (r: Option<&OpenLayer>)
        ensures
            ({
                let k = find_layer(self.spec_open(), id, 0);
                if k >= 0 { r matches Some(l) && *l == self.spec_open()[k] } else { r is None }
            }),
    {
        let mut i: usize = 0;
        while i < self.open.len()
            invariant
                i <= self.open@.len(),
                find_layer(self.open@, id, 0) == find_layer(self.open@, id, i as int),
            decreases self.open@.len() - i,
        {
            if self.open[i].id == id {
                return Some(&self.open[i]);
            }
            i = i + 1;
        }
        None
    }

    /// The spec of an open layer, mutable. Only its geometry (size and
    /// anchor) is meant to change while the layer is open: the rest was
    /// armed when the layer was pushed.
    pub fn spec_mut(&mut self, id: Id) -> (r: Option<&mut LayerSpec>)
        ensures
            final(self).spec_pending() == old(self).spec_pending(),
            ({
                let k = find_layer(old(self).spec_open(), id, 0);
                if k >= 0 {
                    r matches Some(s) && *s == old(self).spec_open()[k].spec && final(self).spec_open()
                        == old(self).spec_open().update(k, OpenLayer { spec: *final(s), ..old(self).spec_open()[k] })
                } else {
                    r is None && final(self).spec_open() == old(self).spec_open()
                }
            }),
    {
        let mut i: usize = 0;
        while i < self.open.len()
            invariant
                i <= self.open@.len(),
                find_layer(self.open@, id, 0) == find_layer(self.open@, id, i as int),
            ensures
                i <= self.open@.len(),
                i < self.open@.len() ==> find_layer(self.open@, id, 0) == i,
                i == self.open@.len() ==> find_layer(self.open@, id, 0) == -1,
            decreases self.open@.len() - i,
        {
            if self.open[i].id == id {
                break;
            }
            i = i + 1;
        }
        if i == self.open.len() {
            return None;
        }
        Some(&mut self.open[i].spec)
    }

    /// Whether a layer with `id` is open.
    pub fn is_open(&self, id: Id) -> (b: bool)
        ensures
            b == (find_layer(self.spec_open(), id, 0) >= 0),
    {
        self.get(id).is_some()
    }

    /// The top layer.
    pub fn top_layer(&self) -> (r: Option<&OpenLayer>)
        ensures
            if self.spec_open().len() == 0 { r is None } else { r matches Some(l) && *l == self.spec_open().last() },
    {
        let n = self.open.len();
        if n == 0 {
            None
        } else {
            Some(&self.open[n - 1])
        }
    }

    /// The highest layer that makes those below it inert, or the page:
    /// everything beneath it is inert.
    pub fn inert_floor(&self) -> (l: LayerId)
        ensures
            ({
                let k = last_inert(self.spec_open(), self.spec_open().len() as int);
                l == (if k >= 0 { self.spec_open()[k].layer } else { LayerId(0) })
            }),
    {
        let mut n: usize = self.open.len();
        while n > 0
            invariant
                n <= self.open@.len(),
                last_inert(self.open@, self.open@.len() as int) == last_inert(self.open@, n as int),
            decreases n,
        {
            if self.open[n - 1].spec.inert_below {
                return self.open[n - 1].layer;
            }
            n = n - 1;
        }
        LayerId(0)
    }

    /// Open a layer; its `LayerId` is its stack position (one above the
    /// layers already open). Re-opening an open id does nothing.
    pub fn open(&mut self, id: Id, spec: LayerSpec, restore_to: Option<Id>) -> (r: Option<LayerId>)
        ensures
            find_layer(old(self).spec_open(), id, 0) >= 0 ==> {
                &&& r is None
                &&& final(self).spec_open() == old(self).spec_open()
                &&& final(self).spec_pending() == old(self).spec_pending()
            },
            find_layer(old(self).spec_open(), id, 0) < 0 ==> {
                let layer = LayerId(sat_add((old(self).spec_open().len() as u16) as int, 1) as u16);
                &&& r == Some(layer)
                &&& final(self).spec_open() == old(self).spec_open().push(OpenLayer { id, layer, spec, restore_to })
                &&& final(self).spec_pending() == old(self).spec_pending().push((id, LayerEvent::Opened))
            },
    {
        if self.is_open(id) {
            return None;
        }
        let n = self.open.len() as u16;
        let layer = LayerId(n.saturating_add(1));
        self.open.push(OpenLayer { id, layer, spec, restore_to });
        self.pending.push((id, LayerEvent::Opened));
        Some(layer)
    }

    /// Close a layer and everything above it. Returns the closed layers,
    /// bottom-most first, and stages `event` for the layer closed and a
    /// programmatic dismissal for each one above it.
    pub fn close(&mut self, id: Id, event: LayerEvent) -> (closed: Vec<OpenLayer>)
        ensures
            ({
                let k = find_layer(old(self).spec_open(), id, 0);
                if k < 0 {
                    &&& closed@.len() == 0
                    &&& final(self).spec_open() == old(self).spec_open()
                    &&& final(self).spec_pending() == old(self).spec_pending()
                } else {
                    &&& closed@ == old(self).spec_open().skip(k)
                    &&& final(self).spec_open() == old(self).spec_open().take(k)
                    &&& final(self).spec_pending() == old(self).spec_pending() + close_events(closed@, event)
                }
            }),
    {
        let mut pos: usize = 0;
        while pos < self.open.len()
            invariant
                self.open@ == old(self).open@,
                self.pending@ == old(self).pending@,
                pos <= self.open@.len(),
                find_layer(self.open@, id, 0) == find_layer(self.open@, id, pos as int),
            ensures
                pos <= self.open@.len(),
                self.open@ == old(self).open@,
                self.pending@ == old(self).pending@,
                find_layer(self.open@, id, 0) == find_layer(self.open@, id, pos as int),
                pos < self.open@.len() ==> self.open@[pos as int].id == id,
            decreases self.open@.len() - pos,
        {
            if self.open[pos].id == id {
                break;
            }
            pos = pos + 1;
        }
        if pos == self.open.len() {
            return Vec::new();
        }
        let ghost k = pos as int;
        let mut closed: Vec<OpenLayer> = Vec::new();
        let mut i: usize = pos;
        while i < self.open.len()
            invariant
                self.open@ == old(self).open@,
                self.pending@ == old(self).pending@,
                pos <= i <= self.open@.len(),
                closed@ == self.open@.subrange(pos as int, i as int),
            decreases self.open@.len() - i,
        {
            closed.push(self.open[i]);
            proof {
                assert(self.open@.subrange(pos as int, i as int + 1)
                    =~= self.open@.subrange(pos as int, i as int).push(self.open@[i as int]));
            }
            i = i + 1;
        }
        self.open.truncate(pos);
        let mut j: usize = 0;
        while j < closed.len()
            invariant
                j <= closed@.len(),
                self.open@ == old(self).open@.subrange(0, pos as int),
                self.pending@ == old(self).pending@ + close_events(closed@, event).take(j as int),
            decreases closed@.len() - j,
        {
            let ev = if j == 0 { event } else { LayerEvent::Dismissed(DismissReason::Programmatic) };
            self.pending.push((closed[j].id, ev));
            proof {
                assert(close_events(closed@, event).take(j as int + 1)
                    =~= close_events(closed@, event).take(j as int).push(close_events(closed@, event)[j as int]));
            }
            j = j + 1;
        }
        proof {
            assert(close_events(closed@, event).take(closed@.len() as int) =~= close_events(closed@, event));
            assert(closed@ =~= old(self).open@.skip(k));
        }
        closed
    }

    /// Hand over the staged events, leaving none.
    pub fn take_pending(&mut self) -> (events: Vec<(Id, LayerEvent)>)
        ensures
            events@ == old(self).spec_pending(),
            final(self).spec_pending().len() == 0,
            final(self).spec_open() == old(self).spec_open(),
    {
        let mut events: Vec<(Id, LayerEvent)> = Vec::new();
        core::mem::swap(&mut events, &mut self.pending);
        events
    }
}

/// After a close, the closed layer is no longer open, and neither is any
/// layer that was above it; the layers below stay as they were.
pub proof fn law_close_removes_the_layer(ls: Seq<OpenLayer>, id: Id)
    requires
        find_layer(ls, id, 0) >= 0,
    ensures
        find_layer(ls.take(find_layer(ls, id, 0)), id, 0) < 0,
        ls.take(find_layer(ls, id, 0)) + ls.skip(find_layer(ls, id, 0)) == ls,
{
    lemma_find_layer(ls, id, 0);
    let k = find_layer(ls, id, 0);
    let below = ls.take(k);
    lemma_find_layer(below, id, 0);
    if find_layer(below, id, 0) >= 0 {
        let j = find_layer(below, id, 0);
        lemma_first_is_first(ls, id, 0, j);
    }
    assert(ls.take(k) + ls.skip(k) =~= ls);
}

proof fn lemma_first_is_first(ls: Seq<OpenLayer>, id: Id, i: int, j: int)
    requires
        0 <= i <= j < ls.len(),
        ls[j].id == id,
    ensures
        0 <= find_layer(ls, id, i) <= j,
    decreases j - i,
{
    if ls[i].id != id {
        lemma_first_is_first(ls, id, i + 1, j);
    }
}

} // verus!
