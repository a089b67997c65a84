//! Pointer and keyboard interaction bookkeeping: hover, press, click and
//! double click, drag, press flash, capture, and the keyboard focus policy.
//!
//! The runtime hit-tests each event against the last frame and hands the
//! answers in a [`PointerContext`]; the transitions here decide what the
//! event does to the interaction state and which intents it produces.

use vstd::prelude::*;

use crate::geometry::{Position, Rect};
use crate::id::{Id, PartRef};
use crate::keys::{Key, KeyCode, KeyModifiers};
use crate::layer::{close_events, find_layer, lemma_find_layer, DismissReason, LayerEvent, LayerId, LayerStack, OpenLayer};
use crate::response::{rank, Invalidate};

verus! {

/// A wheel's scroll axis.
#[derive(Clone, Copy, Debug, PartialEq, Eq, Structural)]
pub enum Axis {
    /// Up and down.
    Vertical,
    /// Left and right.
    Horizontal,
}

/// What a pointer event is.
#[derive(Clone, Copy, Debug, PartialEq, Eq, Structural)]
pub enum MouseKind {
    /// The pointer moved with no button held.
    Move,
    /// The primary button went down.
    Down,
    /// The pointer moved with the primary button held.
    Drag,
    /// The primary button went up.
    Up,
    /// The secondary button went down.
    Secondary,
    /// The secondary button went up.
    SecondaryUp,
    /// The wheel turned by a number of notches on an axis.
    Wheel(Axis, i16),
}

/// A pointer event.
#[derive(Clone, Copy, Debug, PartialEq, Eq, Structural)]
pub struct Mouse {
    /// What happened.
    pub kind: MouseKind,
    /// Where, in screen cells.
    pub pos: Position,
    /// The modifiers held.
    pub mods: KeyModifiers,
}

/// Where a pointer intent stands in a gesture.
#[derive(Clone, Copy, Debug, PartialEq, Eq, Structural)]
pub enum Phase {
    /// The primary button went down on the owner.
    Press,
    /// The primary button went up after a press on the owner.
    Release,
    /// A press and release on the same target.
    Click,
    /// A second click on the same target within the double-click window.
    DoubleClick,
    /// The first movement of a press.
    DragStart,
    /// A movement of a press.
    Drag,
    /// The release that ends a drag.
    DragEnd,
    /// The secondary button went down on the owner.
    Secondary,
}

/// How focus came to move.
#[derive(Clone, Copy, Debug, PartialEq, Eq, Structural)]
pub enum FocusVia {
    /// Tab or Shift+Tab.
    Keyboard,
    /// A press on a focusable control.
    Pointer,
    /// A request by the program.
    Programmatic,
    /// A closed layer handing focus back.
    Restore,
}

/// The region under the pointer, as the last frame registered it.
#[derive(Clone, Copy, Debug, PartialEq, Eq, Structural)]
pub struct Hit {
    /// The component that registered it.
    pub owner: Id,
    /// The part of the component.
    pub part: PartRef,
    /// The layer it was drawn in.
    pub layer: LayerId,
    /// Whether it is decoration that takes no pointer input.
    pub decorative: bool,
}

/// A live pointer capture, as it sees this event.
#[derive(Clone, Copy, Debug, PartialEq, Eq, Structural)]
pub struct CaptureHit {
    /// The capturing component.
    pub owner: Id,
    /// The captured part.
    pub part: PartRef,
    /// The event's position relative to the capture's origin.
    pub local: Position,
    /// Whether the position lies inside the captured area.
    pub inside: bool,
}

/// What the runtime looked up for one pointer event.
#[derive(Clone, Copy, Debug, PartialEq, Eq, Structural)]
pub struct PointerContext {
    /// The region under the pointer.
    pub hit: Option<Hit>,
    /// The area of that region's part (or of its owner when the part has
    /// none).
    pub region: Rect,
    /// The scrollable region under the pointer for a wheel event.
    pub scroll_hit: Option<Hit>,
    /// The live capture, if any.
    pub capture: Option<CaptureHit>,
    /// The top layer.
    pub top: LayerId,
    /// Whether the hit's owner is in the last frame's focus ring.
    pub in_ring: bool,
    /// The virtual clock, in milliseconds.
    pub clock_ms: u64,
    /// The double-click window, in milliseconds.
    pub double_click_ms: u64,
    /// How long a click's press flash lasts, in milliseconds.
    pub press_flash_ms: u64,
    /// Rows scrolled per wheel notch.
    pub wheel_rows: i16,
}

/// The hovered part.
#[derive(Clone, Copy, Debug, PartialEq, Eq, Structural)]
pub struct Hover {
    /// Its owner.
    pub owner: Id,
    /// The part.
    pub part: PartRef,
}

/// A primary press in progress.
#[derive(Clone, Copy, Debug, PartialEq, Eq, Structural)]
pub struct Press {
    /// The pressed component.
    pub owner: Id,
    /// The pressed part.
    pub part: PartRef,
    /// The part's area, for local coordinates.
    pub area: Rect,
    /// Whether the press has started dragging.
    pub dragging: bool,
    /// Where the button went down.
    pub pos: Position,
}

/// A click's press flash.
#[derive(Clone, Copy, Debug, PartialEq, Eq, Structural)]
pub struct Flash {
    /// The clicked component.
    pub owner: Id,
    /// The clock reading at which the flash ends.
    pub until: u64,
}

/// The last single click, for double-click detection.
#[derive(Clone, Copy, Debug, PartialEq, Eq, Structural)]
pub struct LastClick {
    /// The clicked component.
    pub owner: Id,
    /// The clicked part.
    pub part: PartRef,
    /// When, on the virtual clock.
    pub at: u64,
}

/// What components read of the interaction in the next frame.
#[derive(Clone, Copy, Debug, PartialEq, Eq, Structural)]
pub struct Snapshot {
    /// The hovered component.
    pub hover: Option<Id>,
    /// The pressed (or flashing) component.
    pub pressed: Option<Id>,
    /// Whether focus is painted.
    pub focus_visible: bool,
    /// Whether hover is suppressed by keyboard input.
    pub hover_suppressed: bool,
    /// The capturing component.
    pub capture: Option<Id>,
}

/// The runtime's interaction bookkeeping.
#[derive(Clone, Copy, Debug, PartialEq, Eq, Structural)]
pub struct Interaction {
    /// The hovered part.
    pub hover: Option<Hover>,
    /// Whether keyboard input suppresses hover until the pointer moves.
    pub hover_suppressed: bool,
    /// The primary press in progress.
    pub press: Option<Press>,
    /// The press flash of the last click.
    pub flash: Option<Flash>,
    /// The last single click.
    pub last_click: Option<LastClick>,
    /// Whether the last input was a key.
    pub last_input_key: bool,
    /// Whether focus is painted.
    pub focus_visible: bool,
    /// What the next frame reads.
    pub snapshot: Snapshot,
}

/// A pointer intent for a component.
#[derive(Clone, Copy, Debug, PartialEq, Eq, Structural)]
pub struct PointerIntent {
    /// The component it is for.
    pub owner: Id,
    /// The gesture phase.
    pub phase: Phase,
    /// The part concerned.
    pub part: PartRef,
    /// The screen position.
    pub pos: Position,
    /// The position relative to the part's area.
    pub local: Position,
    /// The modifiers held.
    pub mods: KeyModifiers,
}

/// A wheel intent for a scrollable component.
#[derive(Clone, Copy, Debug, PartialEq, Eq, Structural)]
pub struct WheelIntent {
    /// The component it is for.
    pub owner: Id,
    /// The axis.
    pub axis: Axis,
    /// Rows to scroll, signed.
    pub delta: i16,
    /// The part under the pointer.
    pub part: PartRef,
    /// The screen position.
    pub pos: Position,
}

/// What a pointer event asks of the runtime besides the state change.
#[derive(Clone, Debug)]
pub struct PointerEffects {
    /// Pointer intents, in delivery order.
    pub intents: Vec<PointerIntent>,
    /// A wheel intent.
    pub wheel: Option<WheelIntent>,
    /// A component to focus (by pointer).
    pub focus: Option<Id>,
    /// Whether the event was a click outside the top layer.
    pub outside_click: bool,
    /// Whether the capture ends.
    pub release_capture: bool,
    /// Where a press went down.
    pub press_pos: Option<Position>,
}

/// What a key press asks of the runtime.
#[derive(Clone, Copy, Debug, PartialEq, Eq, Structural)]
pub struct KeyDispatch {
    /// Where keyboard focus moves (`Some(None)`: focus leaves every
    /// control).
    pub focus: Option<Option<Id>>,
    /// The focused component the key goes to.
    pub key_to: Option<Id>,
}

/// A dismissed top layer.
#[derive(Clone, Debug)]
pub struct Dismissal {
    /// The layers closed, bottom-most first.
    pub closed: Vec<OpenLayer>,
    /// The owner that receives a cancel (Esc dismissals only).
    pub cancel: Option<Id>,
}

// ---------------------------------------------------------------------------
// The rules.
// ---------------------------------------------------------------------------

/// `pos` relative to `area`'s corner, saturating at zero.
pub open spec fn local_of(area: Rect, pos: Position) -> Position {
    Position {
        x: if pos.x >= area.x { (pos.x - area.x) as u16 } else { 0 },
        y: if pos.y >= area.y { (pos.y - area.y) as u16 } else { 0 },
    }
}

/// A hit takes pointer input: it is on the top layer and not decoration.
pub open spec fn is_deliverable(h: Hit, top: LayerId) -> bool {
    h.layer == top && !h.decorative
}

/// A press lands outside the top layer: on nothing, or below it.
pub open spec fn is_outside(hit: Option<Hit>, top: LayerId) -> bool {
    match hit {
        None => true,
        Some(h) => h.layer.0 < top.0,
    }
}

/// The hit that takes a primary or secondary press, if any.
pub open spec fn pressed_hit(cx: PointerContext) -> Option<Hit> {
    match cx.hit {
        Some(h) => if !is_outside(cx.hit, cx.top) && is_deliverable(h, cx.top) { Some(h) } else { None },
        None => None,
    }
}

/// The release lands on the pressed target.
pub open spec fn same_target(hit: Option<Hit>, p: Press) -> bool {
    match hit {
        Some(h) => h.owner == p.owner && h.part == p.part,
        None => false,
    }
}

/// A click on `owner`'s `part` at `now` completes a double click: the last
/// single click was on the same target no longer than `window` ago.
pub open spec fn is_double(last: Option<LastClick>, owner: Id, part: PartRef, now: u64, window: u64) -> bool {
    match last {
        Some(c) => c.owner == owner && c.part == part && (if now >= c.at { now - c.at } else { 0 }) <= window,
        None => false,
    }
}

/// An intent for the event `m`.
pub open spec fn intent(owner: Id, phase: Phase, part: PartRef, m: Mouse, local: Position) -> PointerIntent {
    PointerIntent { owner, phase, part, pos: m.pos, local, mods: m.mods }
}

/// `a + b`, saturating in `u64`.
pub open spec fn sat_add_u64(a: u64, b: u64) -> u64 {
    if a + b > u64::MAX { u64::MAX } else { (a + b) as u64 }
}

/// `a * b`, saturating in `i16`.
pub open spec fn sat_mul_i16(a: i16, b: i16) -> i16 {
    if a * b > i16::MAX { i16::MAX } else if a * b < i16::MIN { i16::MIN } else { (a * b) as i16 }
}

/// Any pointer event hides the focus ring; a move lifts the hover
/// suppression that keyboard input set.
pub open spec fn entered(s: Interaction, m: Mouse) -> Interaction {
    let lifted = m.kind is Move;
    Interaction {
        last_input_key: false,
        focus_visible: false,
        hover_suppressed: if lifted { false } else { s.hover_suppressed },
        snapshot: Snapshot {
            focus_visible: false,
            hover_suppressed: if lifted { false } else { s.snapshot.hover_suppressed },
            ..s.snapshot
        },
        ..s
    }
}

/// The state after a release on `hit` ended press `p` (the press already
/// taken): a click on the pressed target records it (or, completing a
/// double click, forgets it) and starts the press flash.
pub open spec fn released(s: Interaction, p: Press, cx: PointerContext) -> Interaction {
    let s2 = Interaction { snapshot: Snapshot { pressed: None, ..s.snapshot }, ..s };
    if p.dragging || !same_target(cx.hit, p) {
        s2
    } else {
        let double = is_double(s2.last_click, p.owner, p.part, cx.clock_ms, cx.double_click_ms);
        Interaction {
            last_click: if double { None } else { Some(LastClick { owner: p.owner, part: p.part, at: cx.clock_ms }) },
            flash: Some(Flash { owner: p.owner, until: sat_add_u64(cx.clock_ms, cx.press_flash_ms) }),
            snapshot: Snapshot { pressed: Some(p.owner), ..s2.snapshot },
            ..s2
        }
    }
}

/// The interaction state after pointer event `m`.
pub open spec fn mouse_next(s: Interaction, m: Mouse, cx: PointerContext) -> Interaction {
    let s1 = entered(s, m);
    match cx.capture {
        Some(_) => if m.kind is Up {
            Interaction { press: None, snapshot: Snapshot { pressed: None, capture: None, ..s1.snapshot }, ..s1 }
        } else {
            s1
        },
        None => match m.kind {
            MouseKind::Move => {
                let hover = match cx.hit {
                    Some(h) => if is_deliverable(h, cx.top) { Some(Hover { owner: h.owner, part: h.part }) } else { None },
                    None => None,
                };
                Interaction {
                    hover,
                    snapshot: Snapshot { hover: match hover { Some(v) => Some(v.owner), None => None }, ..s1.snapshot },
                    ..s1
                }
            },
            MouseKind::Down => match pressed_hit(cx) {
                Some(h) => Interaction {
                    press: Some(Press { owner: h.owner, part: h.part, area: cx.region, dragging: false, pos: m.pos }),
                    snapshot: Snapshot { pressed: Some(h.owner), ..s1.snapshot },
                    ..s1
                },
                None => s1,
            },
            MouseKind::Drag => match s1.press {
                Some(p) => Interaction { press: Some(Press { dragging: true, ..p }), ..s1 },
                None => s1,
            },
            MouseKind::Up => match s1.press {
                Some(p) => released(Interaction { press: None, ..s1 }, p, cx),
                None => s1,
            },
            _ => s1,
        },
    }
}

/// The pointer intents of event `m`, in delivery order.
pub open spec fn mouse_intents(s: Interaction, m: Mouse, cx: PointerContext) -> Seq<PointerIntent> {
    match cx.capture {
        Some(c) => match m.kind {
            MouseKind::Drag | MouseKind::Move => seq![intent(c.owner, Phase::Drag, c.part, m, c.local)],
            MouseKind::Up => {
                let ended = seq![
                    intent(c.owner, Phase::Release, c.part, m, c.local),
                    intent(c.owner, Phase::DragEnd, c.part, m, c.local),
                ];
                if c.inside { ended.push(intent(c.owner, Phase::Click, c.part, m, c.local)) } else { ended }
            },
            MouseKind::Down => seq![intent(c.owner, Phase::Press, c.part, m, c.local)],
            _ => Seq::empty(),
        },
        None => match m.kind {
            MouseKind::Down => match pressed_hit(cx) {
                Some(h) => seq![intent(h.owner, Phase::Press, h.part, m, local_of(cx.region, m.pos))],
                None => Seq::empty(),
            },
            MouseKind::Drag => match s.press {
                Some(p) => {
                    let dragged = seq![intent(p.owner, Phase::Drag, p.part, m, local_of(p.area, m.pos))];
                    if p.dragging {
                        dragged
                    } else {
                        seq![intent(p.owner, Phase::DragStart, p.part, m, local_of(p.area, m.pos))] + dragged
                    }
                },
                None => Seq::empty(),
            },
            MouseKind::Up => match s.press {
                Some(p) => {
                    let local = local_of(p.area, m.pos);
                    let release = seq![intent(p.owner, Phase::Release, p.part, m, local)];
                    if p.dragging {
                        release.push(intent(p.owner, Phase::DragEnd, p.part, m, local))
                    } else if same_target(cx.hit, p) {
                        let phase = if is_double(s.last_click, p.owner, p.part, cx.clock_ms, cx.double_click_ms) {
                            Phase::DoubleClick
                        } else {
                            Phase::Click
                        };
                        release.push(intent(p.owner, phase, p.part, m, local))
                    } else {
                        release
                    }
                },
                None => Seq::empty(),
            },
            MouseKind::Secondary => match pressed_hit(cx) {
                Some(h) => seq![intent(h.owner, Phase::Secondary, h.part, m, local_of(cx.region, m.pos))],
                None => Seq::empty(),
            },
            _ => Seq::empty(),
        },
    }
}

/// The wheel intent of event `m`: only a scrollable region on the top
/// layer scrolls, never the page below a popover.
pub open spec fn mouse_wheel(m: Mouse, cx: PointerContext) -> Option<WheelIntent> {
    match (cx.capture, m.kind, cx.scroll_hit) {
        (None, MouseKind::Wheel(axis, delta), Some(h)) => if h.layer == cx.top {
            Some(WheelIntent { owner: h.owner, axis, delta: sat_mul_i16(delta, cx.wheel_rows), part: h.part, pos: m.pos })
        } else {
            None
        },
        _ => None,
    }
}

/// The component a press focuses: the pressed owner, when it is in the
/// focus ring.
pub open spec fn mouse_focus(m: Mouse, cx: PointerContext) -> Option<Id> {
    match (cx.capture, m.kind, pressed_hit(cx)) {
        (None, MouseKind::Down, Some(h)) => if cx.in_ring { Some(h.owner) } else { None },
        _ => None,
    }
}

/// Whether event `m` is a primary or secondary press outside the top layer.
pub open spec fn mouse_outside(m: Mouse, cx: PointerContext) -> bool {
    cx.capture is None && (m.kind is Down || m.kind is Secondary) && is_outside(cx.hit, cx.top)
}

/// Where a primary press went down, when one was taken.
pub open spec fn mouse_press_pos(m: Mouse, cx: PointerContext) -> Option<Position> {
    if m.kind is Down && (cx.capture is Some || pressed_hit(cx) is Some) { Some(m.pos) } else { None }
}

/// The state a clock tick leaves: an expired press flash ends, and with no
/// press in progress the pressed look goes with it.
pub open spec fn tick_next(s: Interaction, now: u64) -> Interaction {
    match s.flash {
        Some(f) => if now >= f.until {
            Interaction {
                flash: None,
                snapshot: Snapshot { pressed: if s.press is None { None } else { s.snapshot.pressed }, ..s.snapshot },
                ..s
            }
        } else {
            s
        },
        None => s,
    }
}

/// Where a key press sends focus or the key: Tab (with no modifier but
/// Shift) moves to the next control of the ring, Shift+Tab and BackTab to
/// the previous one; any other key goes to the focused component.
pub open spec fn key_dispatch(k: Key, focused: Option<Id>, next: Option<Id>, prev: Option<Id>) -> KeyDispatch {
    if k.code == KeyCode::Tab && k.mods.spec_bits() & 254 == 0 {
        KeyDispatch { focus: Some(if k.mods.spec_bits() & 1 == 1 { prev } else { next }), key_to: None }
    } else if k.code == KeyCode::BackTab {
        KeyDispatch { focus: Some(prev), key_to: None }
    } else {
        KeyDispatch { focus: None, key_to: focused }
    }
}

/// The top layer of `before_open` was dismissed for `reason`: it and every
/// layer above it closed, its dismissal and the programmatic dismissal of
/// the layers above it were staged, and an Esc dismissal cancels its owner.
pub open spec fn top_dismissed(
    before_open: Seq<OpenLayer>,
    before_pending: Seq<(Id, LayerEvent)>,
    after_open: Seq<OpenLayer>,
    after_pending: Seq<(Id, LayerEvent)>,
    d: Dismissal,
    reason: DismissReason,
) -> bool {
    let top = before_open.last();
    let k = find_layer(before_open, top.id, 0);
    &&& before_open.len() > 0
    &&& 0 <= k < before_open.len()
    &&& d.closed@ == before_open.skip(k)
    &&& after_open == before_open.take(k)
    &&& after_pending == before_pending + close_events(d.closed@, LayerEvent::Dismissed(reason))
    &&& d.cancel == (if reason == DismissReason::Esc { Some(top.spec.owner) } else { None })
}

/// `pos` relative to `area`'s corner, saturating at zero.
pub fn local_in(area: Rect, pos: Position) -> (r: Position)
    ensures
        r == local_of(area, pos),
{
    Position { x: pos.x.saturating_sub(area.x), y: pos.y.saturating_sub(area.y) }
}

/// Whether a hit takes pointer input on the `top` layer.
pub fn deliverable(h: Hit, top: LayerId) -> (b: bool)
    ensures
        b == is_deliverable(h, top),
{
    h.layer == top && !h.decorative
}

fn saturating_mul_i16(a: i16, b: i16) -> (r: i16)
    ensures
        r == sat_mul_i16(a, b),
{
    assert(-1073741824 <= (a as int) * (b as int) <= 1073741824) by (nonlinear_arith)
        requires
            -32768 <= a <= 32767,
            -32768 <= b <= 32767,
    ;
    let p: i32 = (a as i32) * (b as i32);
    if p > 32767 {
        32767
    } else if p < -32768 {
        -32768
    } else {
        p as i16
    }
}

impl Interaction {
    /// No hover, press, flash or click; focus not painted.
    pub fn new() -> (s: Interaction)
        ensures
            s.hover is None,
            !s.hover_suppressed,
            s.press is None,
            s.flash is None,
            s.last_click is None,
            !s.last_input_key,
            !s.focus_visible,
            s.snapshot == (Snapshot { hover: None, pressed: None, focus_visible: false, hover_suppressed: false, capture: None }),
    {
        Interaction {
            hover: None,
            hover_suppressed: false,
            press: None,
            flash: None,
            last_click: None,
            last_input_key: false,
            focus_visible: false,
            snapshot: Snapshot { hover: None, pressed: None, focus_visible: false, hover_suppressed: false, capture: None },
        }
    }

    /// A pointer event: hover, press, click and double click, drag and
    /// secondary press on the last frame's regions. A live capture
    /// short-circuits hit-testing; a press outside the top layer asks for
    /// an outside-click dismissal instead.
    pub fn enqueue_mouse(&mut self, m: Mouse, cx: &PointerContext) -> (fx: PointerEffects)
        ensures
            *final(self) == mouse_next(*old(self), m, *cx),
            fx.intents@ == mouse_intents(*old(self), m, *cx),
            fx.wheel == mouse_wheel(m, *cx),
            fx.focus == mouse_focus(m, *cx),
            fx.outside_click == mouse_outside(m, *cx),
            fx.release_capture == (cx.capture is Some && m.kind is Up),
            fx.press_pos == mouse_press_pos(m, *cx),
    {
        self.last_input_key = false;
        self.focus_visible = false;
        self.snapshot.focus_visible = false;
        if matches!(m.kind, MouseKind::Move) {
            self.hover_suppressed = false;
            self.snapshot.hover_suppressed = false;
        }
        let mut fx = PointerEffects {
            intents: Vec::new(),
            wheel: None,
            focus: None,
            outside_click: false,
            release_capture: false,
            press_pos: None,
        };
        if let Some(c) = cx.capture {
            self.pointer_captured(c, m, &mut fx);
            return fx;
        }
        let top = cx.top;
        let outside = match cx.hit {
            None => true,
            Some(h) => h.layer.0 < top.0,
        };
        match m.kind {
            MouseKind::Move => {
                let hover = match cx.hit {
                    Some(h) => if deliverable(h, top) { Some(Hover { owner: h.owner, part: h.part }) } else { None },
                    None => None,
                };
                self.hover = hover;
                self.snapshot.hover = match hover {
                    Some(v) => Some(v.owner),
                    None => None,
                };
            },
            MouseKind::Down => {
                if outside {
                    fx.outside_click = true;
                    return fx;
                }
                if let Some(h) = cx.hit {
                    self.pointer_down(h, m, cx, &mut fx);
                }
            },
            MouseKind::Drag => {
                if let Some(p) = self.press {
                    let local = local_in(p.area, m.pos);
                    if !p.dragging {
                        fx.intents.push(
                            PointerIntent { owner: p.owner, phase: Phase::DragStart, part: p.part, pos: m.pos, local, mods: m.mods },
                        );
                        self.press = Some(Press { dragging: true, ..p });
                    }
                    fx.intents.push(
                        PointerIntent { owner: p.owner, phase: Phase::Drag, part: p.part, pos: m.pos, local, mods: m.mods },
                    );
                    proof {
                        assert(fx.intents@ =~= mouse_intents(*old(self), m, *cx));
                    }
                }
            },
            MouseKind::Up => {
                if let Some(p) = self.press {
                    self.press = None;
                    self.pointer_up(p, m, cx, &mut fx);
                }
            },
            MouseKind::Secondary => {
                if outside {
                    fx.outside_click = true;
                    return fx;
                }
                if let Some(h) = cx.hit {
                    if deliverable(h, top) {
                        let local = local_in(cx.region, m.pos);
                        fx.intents.push(
                            PointerIntent { owner: h.owner, phase: Phase::Secondary, part: h.part, pos: m.pos, local, mods: m.mods },
                        );
                        proof {
                            assert(fx.intents@ =~= mouse_intents(*old(self), m, *cx));
                        }
                    }
                }
            },
            MouseKind::SecondaryUp => {},
            MouseKind::Wheel(axis, delta) => {
                if let Some(h) = cx.scroll_hit {
                    if h.layer == top {
                        let rows = saturating_mul_i16(delta, cx.wheel_rows);
                        fx.wheel = Some(WheelIntent { owner: h.owner, axis, delta: rows, part: h.part, pos: m.pos });
                    }
                }
            },
        }
        fx
    }

    /// A primary press on `h`: a deliverable hit starts a press, focuses
    /// its owner when the owner is focusable, and gets the press intent.
    fn pointer_down(&mut self, h: Hit, m: Mouse, cx: &PointerContext, fx: &mut PointerEffects)
        requires
            old(fx).intents@.len() == 0,
            old(fx).focus is None,
            old(fx).press_pos is None,
            cx.capture is None,
            m.kind is Down,
            cx.hit == Some(h),
            !is_outside(cx.hit, cx.top),
        ensures
            *final(self) == (match pressed_hit(*cx) {
                Some(h) => Interaction {
                    press: Some(Press { owner: h.owner, part: h.part, area: cx.region, dragging: false, pos: m.pos }),
                    snapshot: Snapshot { pressed: Some(h.owner), ..old(self).snapshot },
                    ..*old(self)
                },
                None => *old(self),
            }),
            final(fx).intents@ == (match pressed_hit(*cx) {
                Some(h) => seq![intent(h.owner, Phase::Press, h.part, m, local_of(cx.region, m.pos))],
                None => Seq::<PointerIntent>::empty(),
            }),
            final(fx).focus == mouse_focus(m, *cx),
            final(fx).press_pos == mouse_press_pos(m, *cx),
            final(fx).wheel == old(fx).wheel,
            final(fx).outside_click == old(fx).outside_click,
            final(fx).release_capture == old(fx).release_capture,
    {
        if !deliverable(h, cx.top) {
            return;
        }
        let area = cx.region;
        self.press = Some(Press { owner: h.owner, part: h.part, area, dragging: false, pos: m.pos });
        fx.press_pos = Some(m.pos);
        self.snapshot.pressed = Some(h.owner);
        if cx.in_ring {
            fx.focus = Some(h.owner);
        }
        let local = local_in(area, m.pos);
        fx.intents.push(PointerIntent { owner: h.owner, phase: Phase::Press, part: h.part, pos: m.pos, local, mods: m.mods });
        proof {
            assert(fx.intents@ =~= seq![intent(h.owner, Phase::Press, h.part, m, local_of(cx.region, m.pos))]);
        }
    }

    /// The release of press `p` (already taken): the release intent, then
    /// the drag end, or a click or double click when the release lands on
    /// the pressed target, which also starts the press flash.
    fn pointer_up(&mut self, p: Press, m: Mouse, cx: &PointerContext, fx: &mut PointerEffects)
        requires
            old(fx).intents@.len() == 0,
        ensures
            *final(self) == released(*old(self), p, *cx),
            final(fx).intents@ == ({
                let local = local_of(p.area, m.pos);
                let release = seq![intent(p.owner, Phase::Release, p.part, m, local)];
                if p.dragging {
                    release.push(intent(p.owner, Phase::DragEnd, p.part, m, local))
                } else if same_target(cx.hit, p) {
                    let phase = if is_double(old(self).last_click, p.owner, p.part, cx.clock_ms, cx.double_click_ms) {
                        Phase::DoubleClick
                    } else {
                        Phase::Click
                    };
                    release.push(intent(p.owner, phase, p.part, m, local))
                } else {
                    release
                }
            }),
            final(fx).wheel == old(fx).wheel,
            final(fx).focus == old(fx).focus,
            final(fx).outside_click == old(fx).outside_click,
            final(fx).release_capture == old(fx).release_capture,
            final(fx).press_pos == old(fx).press_pos,
    {
        self.snapshot.pressed = None;
        let local = local_in(p.area, m.pos);
        fx.intents.push(PointerIntent { owner: p.owner, phase: Phase::Release, part: p.part, pos: m.pos, local, mods: m.mods });
        if p.dragging {
            fx.intents.push(PointerIntent { owner: p.owner, phase: Phase::DragEnd, part: p.part, pos: m.pos, local, mods: m.mods });
            proof {
                assert(fx.intents@ =~= seq![
                    intent(p.owner, Phase::Release, p.part, m, local),
                    intent(p.owner, Phase::DragEnd, p.part, m, local),
                ]);
            }
            return;
        }
        let same = match cx.hit {
            Some(h) => h.owner == p.owner && h.part == p.part,
            None => false,
        };
        if !same {
            proof {
                assert(fx.intents@ =~= seq![intent(p.owner, Phase::Release, p.part, m, local)]);
            }
            return;
        }
        let window = cx.double_click_ms;
        let now = cx.clock_ms;
        let double = match self.last_click {
            Some(c) => c.owner == p.owner && c.part == p.part && now.saturating_sub(c.at) <= window,
            None => false,
        };
        let phase = if double { Phase::DoubleClick } else { Phase::Click };
        self.last_click = if double { None } else { Some(LastClick { owner: p.owner, part: p.part, at: now }) };
        fx.intents.push(PointerIntent { owner: p.owner, phase, part: p.part, pos: m.pos, local, mods: m.mods });
        self.flash = Some(Flash { owner: p.owner, until: now.saturating_add(cx.press_flash_ms) });
        self.snapshot.pressed = Some(p.owner);
        proof {
            assert(fx.intents@ =~= seq![
                intent(p.owner, Phase::Release, p.part, m, local),
                intent(p.owner, phase, p.part, m, local),
            ]);
        }
    }

    /// A pointer event under capture: every movement drags the captured
    /// part, a release ends the drag (clicking when it lands inside) and
    /// the capture, a press presses the captured part.
    fn pointer_captured(&mut self, c: CaptureHit, m: Mouse, fx: &mut PointerEffects)
        requires
            old(fx).intents@.len() == 0,
            old(fx).wheel is None,
            old(fx).focus is None,
            !old(fx).outside_click,
            !old(fx).release_capture,
            old(fx).press_pos is None,
        ensures
            *final(self) == (if m.kind is Up {
                Interaction { press: None, snapshot: Snapshot { pressed: None, capture: None, ..old(self).snapshot }, ..*old(self) }
            } else {
                *old(self)
            }),
            ({
                let cx = PointerContext { capture: Some(c), ..arbitrary_context() };
                final(fx).intents@ == mouse_intents(*old(self), m, cx)
            }),
            final(fx).wheel is None,
            final(fx).focus is None,
            !final(fx).outside_click,
            final(fx).release_capture == m.kind is Up,
            final(fx).press_pos == (if m.kind is Down { Some(m.pos) } else { None }),
    {
        let local = c.local;
        match m.kind {
            MouseKind::Drag | MouseKind::Move => {
                fx.intents.push(PointerIntent { owner: c.owner, phase: Phase::Drag, part: c.part, pos: m.pos, local, mods: m.mods });
            },
            MouseKind::Up => {
                fx.intents.push(PointerIntent { owner: c.owner, phase: Phase::Release, part: c.part, pos: m.pos, local, mods: m.mods });
                fx.intents.push(PointerIntent { owner: c.owner, phase: Phase::DragEnd, part: c.part, pos: m.pos, local, mods: m.mods });
                if c.inside {
                    fx.intents.push(PointerIntent { owner: c.owner, phase: Phase::Click, part: c.part, pos: m.pos, local, mods: m.mods });
                }
                fx.release_capture = true;
                self.press = None;
                self.snapshot.pressed = None;
                self.snapshot.capture = None;
            },
            MouseKind::Down => {
                fx.press_pos = Some(m.pos);
                fx.intents.push(PointerIntent { owner: c.owner, phase: Phase::Press, part: c.part, pos: m.pos, local, mods: m.mods });
            },
            MouseKind::Secondary | MouseKind::SecondaryUp | MouseKind::Wheel(..) => {},
        }
        proof {
            let cx = PointerContext { capture: Some(c), ..arbitrary_context() };
            assert(fx.intents@ =~= mouse_intents(*old(self), m, cx));
        }
    }

    /// A key press: keyboard input paints focus and suppresses hover until
    /// the pointer moves; Tab and Shift+Tab move focus along the ring,
    /// other keys go to the focused component.
    pub fn enqueue_key(&mut self, k: Key, focused: Option<Id>, next: Option<Id>, prev: Option<Id>) -> (d: KeyDispatch)
        ensures
            *final(self) == (Interaction {
                last_input_key: true,
                hover_suppressed: true,
                focus_visible: true,
                snapshot: Snapshot { focus_visible: true, hover_suppressed: true, ..old(self).snapshot },
                ..*old(self)
            }),
            d == key_dispatch(k, focused, next, prev),
    {
        self.last_input_key = true;
        self.hover_suppressed = true;
        self.focus_visible = true;
        self.snapshot.focus_visible = true;
        self.snapshot.hover_suppressed = true;
        let bits = k.mods.bits();
        if k.code == KeyCode::Tab && bits & 254 == 0 {
            let to = if bits & 1 == 1 { prev } else { next };
            return KeyDispatch { focus: Some(to), key_to: None };
        }
        if k.code == KeyCode::BackTab {
            return KeyDispatch { focus: Some(prev), key_to: None };
        }
        KeyDispatch { focus: None, key_to: focused }
    }

    /// The clock advanced to `now`: an expired press flash ends.
    pub fn tick(&mut self, now: u64)
        ensures
            *final(self) == tick_next(*old(self), now),
    {
        if let Some(f) = self.flash {
            if now >= f.until {
                self.flash = None;
                if self.press.is_none() {
                    self.snapshot.pressed = None;
                }
            }
        }
    }

    /// The terminal resized: the press and the hover end, and the next
    /// frame shows no press, hover or capture.
    pub fn resize(&mut self)
        ensures
            *final(self) == (Interaction {
                press: None,
                hover: None,
                snapshot: Snapshot { pressed: None, hover: None, capture: None, ..old(self).snapshot },
                ..*old(self)
            }),
    {
        self.press = None;
        self.hover = None;
        self.snapshot.pressed = None;
        self.snapshot.hover = None;
        self.snapshot.capture = None;
    }

    /// Whether the loop should wait at the tick cadence: a repaint is
    /// pending, timed or due to a press flash, or the last frame changed.
    pub fn wants_tick(&self, repaint: bool, repaint_after: bool, last: Invalidate) -> (b: bool)
        ensures
            b == (repaint || repaint_after || self.flash is Some || rank(last) >= 1),
    {
        repaint || repaint_after || self.flash.is_some() || !matches!(last, Invalidate::Nothing)
    }
}

/// A context with no hit, capture or scrollable region, on the page.
pub open spec fn arbitrary_context() -> PointerContext {
    PointerContext {
        hit: None,
        region: Rect { x: 0, y: 0, width: 0, height: 0 },
        scroll_hit: None,
        capture: None,
        top: LayerId(0),
        in_ring: false,
        clock_ms: 0,
        double_click_ms: 0,
        press_flash_ms: 0,
        wheel_rows: 0,
    }
}

/// Dismiss the top layer for `reason`: it closes with everything above
/// it, and an Esc dismissal cancels its owner. `None` when only the page
/// is open.
pub fn dismiss_top(layers: &mut LayerStack, reason: DismissReason) -> (r: Option<Dismissal>)
    ensures
        old(layers).spec_open().len() == 0 ==> r is None && final(layers).spec_open() == old(layers).spec_open()
            && final(layers).spec_pending() == old(layers).spec_pending(),
        old(layers).spec_open().len() > 0 ==> (r matches Some(d) && top_dismissed(
            old(layers).spec_open(),
            old(layers).spec_pending(),
            final(layers).spec_open(),
            final(layers).spec_pending(),
            d,
            reason,
        )),
{
    let top = match layers.top_layer() {
        Some(l) => *l,
        None => return None,
    };
    proof {
        lemma_find_layer(old(layers).spec_open(), top.id, 0);
        let n = old(layers).spec_open().len() as int;
        assert(old(layers).spec_open()[n - 1].id == top.id);
    }
    let closed = layers.close(top.id, LayerEvent::Dismissed(reason));
    let cancel = if reason == DismissReason::Esc { Some(top.spec.owner) } else { None };
    Some(Dismissal { closed, cancel })
}

/// A press outside the top layer: the top layer is dismissed when it
/// dismisses on outside clicks.
pub fn outside_click(layers: &mut LayerStack) -> (r: Option<Dismissal>)
    ensures
        ({
            let before = old(layers).spec_open();
            if before.len() > 0 && before.last().spec.dismiss.outside_click {
                r matches Some(d) && top_dismissed(
                    before,
                    old(layers).spec_pending(),
                    final(layers).spec_open(),
                    final(layers).spec_pending(),
                    d,
                    DismissReason::OutsideClick,
                )
            } else {
                &&& r is None
                &&& final(layers).spec_open() == before
                &&& final(layers).spec_pending() == old(layers).spec_pending()
            }
        }),
{
    let dismisses = match layers.top_layer() {
        Some(top) => top.spec.dismiss.outside_click,
        None => false,
    };
    if !dismisses {
        return None;
    }
    dismiss_top(layers, DismissReason::OutsideClick)
}

// ---------------------------------------------------------------------------
// Laws.
// ---------------------------------------------------------------------------

/// A live capture short-circuits hit-testing: under capture, what the
/// registry finds under the pointer (hit, region, scrollable region, ring
/// membership) changes nothing an event does.
pub proof fn law_capture_ignores_hit_testing(s: Interaction, m: Mouse, cx1: PointerContext, cx2: PointerContext)
    requires
        cx1.capture is Some,
        cx2.capture == cx1.capture,
    ensures
        mouse_next(s, m, cx1) == mouse_next(s, m, cx2),
        mouse_intents(s, m, cx1) == mouse_intents(s, m, cx2),
        mouse_wheel(m, cx1) == mouse_wheel(m, cx2),
        mouse_focus(m, cx1) == mouse_focus(m, cx2),
        mouse_outside(m, cx1) == mouse_outside(m, cx2),
        mouse_press_pos(m, cx1) == mouse_press_pos(m, cx2),
{
}

/// A wheel scrolls only a region on the top layer: a wheel over the page
/// below a popover never scrolls the page.
pub proof fn law_wheel_stays_on_the_top_layer(m: Mouse, cx: PointerContext)
    ensures
        mouse_wheel(m, cx) matches Some(w) ==> (cx.scroll_hit matches Some(h) && h.layer == cx.top && w.owner == h.owner),
{
}

/// Without a capture, a press (primary or secondary) reaches only the
/// owner of a deliverable hit on the top layer, and focus follows a
/// primary press only to that owner.
pub proof fn law_presses_reach_only_the_top_layer(s: Interaction, m: Mouse, cx: PointerContext)
    requires
        cx.capture is None,
    ensures
        forall|i: int|
            0 <= i < mouse_intents(s, m, cx).len() && (#[trigger] mouse_intents(s, m, cx)[i]).phase is Press
                || 0 <= i < mouse_intents(s, m, cx).len() && mouse_intents(s, m, cx)[i].phase is Secondary
                ==> (pressed_hit(cx) matches Some(h) && mouse_intents(s, m, cx)[i].owner == h.owner
                && h.layer == cx.top && !h.decorative),
        mouse_focus(m, cx) matches Some(o) ==> (pressed_hit(cx) matches Some(h) && o == h.owner),
{
}

/// A release always ends the press.
pub proof fn law_release_ends_the_press(s: Interaction, m: Mouse, cx: PointerContext)
    requires
        m.kind is Up,
    ensures
        mouse_next(s, m, cx).press is None,
{
}

/// A click, single or double, lands on the pressed target after a press
/// that did not drag.
pub proof fn law_click_lands_on_the_pressed_target(s: Interaction, m: Mouse, cx: PointerContext)
    requires
        cx.capture is None,
    ensures
        forall|i: int|
            0 <= i < mouse_intents(s, m, cx).len() && ((#[trigger] mouse_intents(s, m, cx)[i]).phase is Click
                || mouse_intents(s, m, cx)[i].phase is DoubleClick)
                ==> (s.press matches Some(p) && !p.dragging && same_target(cx.hit, p)
                && mouse_intents(s, m, cx)[i].owner == p.owner && mouse_intents(s, m, cx)[i].part == p.part),
{
}

/// A double click needs a single click on the same target within the
/// window, and consumes it: the next click is single again.
pub proof fn law_double_click_follows_a_click(s: Interaction, m: Mouse, cx: PointerContext)
    requires
        cx.capture is None,
    ensures
        forall|i: int|
            0 <= i < mouse_intents(s, m, cx).len() && (#[trigger] mouse_intents(s, m, cx)[i]).phase is DoubleClick
                ==> (s.last_click matches Some(c) && c.owner == mouse_intents(s, m, cx)[i].owner
                && c.part == mouse_intents(s, m, cx)[i].part
                && (if cx.clock_ms >= c.at { cx.clock_ms - c.at } else { 0 }) <= cx.double_click_ms
                && mouse_next(s, m, cx).last_click is None),
{
}

/// A click starts the press flash, and a tick at or after its end ends
/// it; before its end the tick changes nothing.
pub proof fn law_flash_lasts_until_its_end(s: Interaction, now: u64)
    ensures
        s.flash matches Some(f) && now >= f.until ==> tick_next(s, now).flash is None,
        s.flash matches Some(f) && now < f.until ==> tick_next(s, now) == s,
        s.flash is None ==> tick_next(s, now) == s,
{
}

/// A key reaches only the focused component, and Tab never reaches one.
pub proof fn law_keys_reach_only_the_focused_component(k: Key, focused: Option<Id>, next: Option<Id>, prev: Option<Id>)
    ensures
        key_dispatch(k, focused, next, prev).key_to matches Some(o) ==> focused == Some(o),
        k.code == KeyCode::Tab || k.code == KeyCode::BackTab ==> key_dispatch(k, focused, next, prev).key_to is None
            || k.mods.spec_bits() & 254 != 0,
        key_dispatch(k, focused, next, prev).focus is Some ==> key_dispatch(k, focused, next, prev).key_to is None,
{
}

// ---------------------------------------------------------------------------
// Focus staging.
// ---------------------------------------------------------------------------

/// Update passes the runtime runs before it stops waiting for focus to
/// settle.
pub const MAX_FOCUS_PASSES: usize = 4;

/// A focus move waiting to be applied.
#[derive(Clone, Copy, Debug, PartialEq, Eq, Structural)]
pub struct StagedFocus {
    /// Where focus goes (`None`: no control).
    pub to: Option<Id>,
    /// Why.
    pub via: FocusVia,
}

/// An applied focus move: focus-out goes to `from` (naming `to`), focus-in
/// to `to` (naming `via`).
#[derive(Clone, Copy, Debug, PartialEq, Eq, Structural)]
pub struct FocusChange {
    /// The control that had focus.
    pub from: Option<Id>,
    /// The control that has it now.
    pub to: Option<Id>,
    /// Why it moved.
    pub via: FocusVia,
}

/// What one update pass leaves to do about focus.
#[derive(Clone, Copy, Debug, PartialEq, Eq, Structural)]
pub enum Settle {
    /// Focus stays: the update loop ends.
    Settled,
    /// Focus moves: apply it and run another pass.
    Again,
    /// Focus kept moving for every allowed pass; the last move was applied
    /// (when it moves at all) and the loop ends.
    GaveUp {
        /// Where focus was last asked to go.
        target: Option<Id>,
        /// The move applied.
        change: Option<FocusChange>,
    },
}

/// The focused control and the move staged for it.
#[derive(Clone, Copy, Debug, PartialEq, Eq, Structural)]
pub struct FocusStage {
    /// The focused control.
    pub current: Option<Id>,
    /// The staged move.
    pub staged: Option<StagedFocus>,
    /// Consecutive passes in which focus moved.
    pub unsettled: usize,
}

/// Whether the staged move changes focus.
pub open spec fn moves_focus(f: FocusStage) -> bool {
    f.staged matches Some(st) && st.to != f.current
}

/// Applying the staged move: the change it makes, if it makes one.
pub open spec fn applied_change(f: FocusStage) -> Option<FocusChange> {
    match f.staged {
        Some(st) => if st.to != f.current { Some(FocusChange { from: f.current, to: st.to, via: st.via }) } else { None },
        None => None,
    }
}

/// The focus after applying the staged move.
pub open spec fn applied_focus(f: FocusStage) -> Option<Id> {
    match applied_change(f) {
        Some(c) => c.to,
        None => f.current,
    }
}

/// One update pass ran (`first` for the first pass of a `handle`): the
/// decision and the focus state after it.
pub open spec fn settle_next(f: FocusStage, first: bool) -> (Settle, FocusStage) {
    let passes = (if first { 0 } else { f.unsettled as int }) + 1;
    if !moves_focus(f) {
        (Settle::Settled, FocusStage { staged: None, unsettled: 0, ..f })
    } else if passes < MAX_FOCUS_PASSES {
        (Settle::Again, FocusStage { unsettled: passes as usize, ..f })
    } else {
        (
            Settle::GaveUp { target: f.staged.unwrap().to, change: applied_change(f) },
            FocusStage { current: applied_focus(f), staged: None, unsettled: 0 },
        )
    }
}

impl FocusStage {
    /// Focus on `current`, nothing staged.
    pub fn new(current: Option<Id>) -> (f: FocusStage)
        ensures
            f == (FocusStage { current, staged: None, unsettled: 0 }),
    {
        FocusStage { current, staged: None, unsettled: 0 }
    }

    /// Stage a move to `to`; a later stage replaces it.
    pub fn stage(&mut self, to: Option<Id>, via: FocusVia)
        ensures
            *final(self) == (FocusStage { staged: Some(StagedFocus { to, via }), ..*old(self) }),
    {
        self.staged = Some(StagedFocus { to, via });
    }

    /// Whether the staged move changes focus.
    pub fn moves(&self) -> (b: bool)
        ensures
            b == moves_focus(*self),
    {
        match self.staged {
            Some(st) => st.to != self.current,
            None => false,
        }
    }

    /// Apply the staged move, clearing it: focus-out then focus-in when
    /// focus changes.
    pub fn apply_staged_focus(&mut self) -> (c: Option<FocusChange>)
        ensures
            c == applied_change(*old(self)),
            *final(self) == (FocusStage { current: applied_focus(*old(self)), staged: None, ..*old(self) }),
    {
        let st = match self.staged {
            Some(st) => st,
            None => return None,
        };
        self.staged = None;
        let from = self.current;
        if from == st.to {
            return None;
        }
        self.current = st.to;
        Some(FocusChange { from, to: st.to, via: st.via })
    }

    /// One update pass ran (`first` for the first pass of a `handle`):
    /// focus that stays ends the loop; focus that moves runs another pass,
    /// unless it has moved for every allowed pass, when the move is
    /// applied and the loop ends.
    pub fn settle_pass(&mut self, first: bool) -> (r: Settle)
        ensures
            r == settle_next(*old(self), first).0,
            *final(self) == settle_next(*old(self), first).1,
    {
        if !self.moves() {
            self.staged = None;
            self.unsettled = 0;
            return Settle::Settled;
        }
        if first {
            self.unsettled = 0;
        }
        if self.unsettled >= MAX_FOCUS_PASSES - 1 {
            let target = match self.staged {
                Some(st) => st.to,
                None => None,
            };
            let change = self.apply_staged_focus();
            self.unsettled = 0;
            return Settle::GaveUp { target, change };
        }
        self.unsettled = self.unsettled + 1;
        Settle::Again
    }
}

/// Focus settles within the allowed passes: each pass that asks for
/// another counts one more consecutive move, below the limit; the pass
/// that reaches the limit ends the loop, applies the move and leaves
/// nothing staged; a pass where focus stays ends the loop too.
pub proof fn law_focus_settles_within_the_pass_limit(f: FocusStage, first: bool)
    ensures
        settle_next(f, first).0 is Again ==> settle_next(f, first).1.unsettled == (if first { 0 } else {
            f.unsettled as int
        }) + 1 && settle_next(f, first).1.unsettled < MAX_FOCUS_PASSES,
        moves_focus(f) && !first && f.unsettled >= MAX_FOCUS_PASSES - 1 ==> ({
            let (r, g) = settle_next(f, first);
            &&& r is GaveUp
            &&& g.staged is None
            &&& g.current == f.staged.unwrap().to
        }),
        !moves_focus(f) ==> settle_next(f, first).0 is Settled && settle_next(f, first).1.current == f.current,
{
}

// ---------------------------------------------------------------------------
// Layer lifecycle events.
// ---------------------------------------------------------------------------

/// The component that hears about layer `id`: the owner of its spec while
/// it is open, the layer itself once it has closed.
pub open spec fn event_owner(open: Seq<OpenLayer>, id: Id) -> Id {
    let k = find_layer(open, id, 0);
    if k >= 0 { open[k].spec.owner } else { id }
}

/// The layer intents for staged events `evs`: each event goes to the
/// layer's owner and, when that is another component, to the layer too.
pub open spec fn layer_intents(open: Seq<OpenLayer>, evs: Seq<(Id, LayerEvent)>) -> Seq<(Id, LayerEvent)>
    decreases evs.len(),
{
    if evs.len() == 0 {
        Seq::empty()
    } else {
        let (id, ev) = evs.last();
        let owner = event_owner(open, id);
        layer_intents(open, evs.drop_last()) + if owner != id { seq![(owner, ev), (id, ev)] } else { seq![(owner, ev)] }
    }
}

/// Hand the staged layer events over: the events themselves (for the
/// application's event list) and the layer intents they make.
pub fn pump_layer_events(layers: &mut LayerStack) -> (r: (Vec<(Id, LayerEvent)>, Vec<(Id, LayerEvent)>))
    ensures
        r.0@ == old(layers).spec_pending(),
        r.1@ == layer_intents(old(layers).spec_open(), old(layers).spec_pending()),
        final(layers).spec_open() == old(layers).spec_open(),
        final(layers).spec_pending().len() == 0,
{
    let events = layers.take_pending();
    let mut intents: Vec<(Id, LayerEvent)> = Vec::new();
    let mut i: usize = 0;
    while i < events.len()
        invariant
            i <= events@.len(),
            layers.spec_open() == old(layers).spec_open(),
            events@ == old(layers).spec_pending(),
            intents@ == layer_intents(layers.spec_open(), events@.take(i as int)),
        decreases events@.len() - i,
    {
        let (id, ev) = events[i];
        let owner = match layers.get(id) {
            Some(l) => l.spec.owner,
            None => id,
        };
        proof {
            assert(events@.take(i as int + 1).drop_last() =~= events@.take(i as int));
        }
        intents.push((owner, ev));
        if owner != id {
            intents.push((id, ev));
        }
        i = i + 1;
    }
    proof {
        assert(events@.take(events@.len() as int) =~= events@);
    }
    (events, intents)
}

} // verus!
