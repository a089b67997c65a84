//! What the runtime decides while it handles one input: how the input
//! opens the call (a resize, a clock tick, a capture-phase command, or what
//! the ordinary pass is handed), the bubble step for a key nothing
//! consumed, and the settling of layers that closed during a pass.
//!
//! The runtime performs each returned action (runs another update pass,
//! dismisses the top layer, asks the application's Esc ladder, releases
//! the capture, stages the focus restore); the choices are made here.

use vstd::prelude::*;

use crate::action::ActionKey;
use crate::id::Id;
use crate::keymap::{lookup_from, Entry, KeyMap, KeyPhase};
use crate::keys::{Key, KeyCode};
use crate::layer::{LayerId, LayerStack, OpenLayer};
use crate::response::{Flow, Invalidate, Response};
use crate::runtime::interaction::Mouse;

verus! {

/// What follows an update pass that a key went through.
#[derive(Clone, Copy, Debug, PartialEq, Eq, Structural)]
pub enum AfterPass {
    /// Nothing more: the key was consumed, or no rule claims it.
    Done,
    /// Run another pass with this bubble-phase command.
    Command(ActionKey),
    /// Dismiss the top layer as an Esc dismissal, then run another pass.
    DismissTop,
    /// Hand Esc to the application's own Esc ladder.
    AppEsc,
}

/// The bubble step: a key nothing consumed goes first to a bubble-phase
/// binding; an unbound Esc dismisses the top layer when that layer
/// dismisses on Esc, and otherwise goes to the application.
pub open spec fn bubble_spec(es: Seq<Entry>, top: Option<OpenLayer>, key: Option<Key>, consumed: bool) -> AfterPass {
    match key {
        None => AfterPass::Done,
        Some(k) => if consumed {
            AfterPass::Done
        } else {
            match lookup_from(es, KeyPhase::Bubble, k, false, 0) {
                Some(cmd) => AfterPass::Command(cmd),
                None => if k.code is Esc {
                    if top matches Some(l) && l.spec.dismiss.esc {
                        AfterPass::DismissTop
                    } else {
                        AfterPass::AppEsc
                    }
                } else {
                    AfterPass::Done
                },
            }
        },
    }
}

/// The top open layer, if any.
pub open spec fn top_of(open: Seq<OpenLayer>) -> Option<OpenLayer> {
    if open.len() == 0 { None } else { Some(open.last()) }
}

/// Decide the bubble step for `key` (the key input of this `handle`, if
/// it was a key) after a pass that did or did not consume it.
pub fn bubble_key(keymap: &KeyMap, layers: &LayerStack, key: Option<Key>, consumed: bool) -> (r: AfterPass)
    ensures
        r == bubble_spec(keymap.spec_entries(), top_of(layers.spec_open()), key, consumed),
{
    match key {
        None => AfterPass::Done,
        Some(k) => {
            if consumed {
                return AfterPass::Done;
            }
            match keymap.lookup(KeyPhase::Bubble, &k, false) {
                Some(cmd) => AfterPass::Command(cmd),
                None => {
                    if matches!(k.code, KeyCode::Esc) {
                        let dismissable = match layers.top_layer() {
                            Some(l) => l.spec.dismiss.esc,
                            None => false,
                        };
                        if dismissable {
                            AfterPass::DismissTop
                        } else {
                            AfterPass::AppEsc
                        }
                    } else {
                        AfterPass::Done
                    }
                },
            }
        },
    }
}

/// Where focus goes back to when layers close.
#[derive(Clone, Copy, Debug, PartialEq, Eq, Structural)]
pub struct RestoreFocus {
    /// The focus target to stage (as a restore).
    pub to: Option<Id>,
    /// Whether the target came from the focus state's saved restore
    /// target for the layer's scope, which is then consumed.
    pub take_saved: bool,
}

/// What closing some layers asks of the runtime.
#[derive(Clone, Copy, Debug, PartialEq, Eq, Structural)]
pub struct ClosedSettlement {
    /// The pointer capture belongs to a layer that closed: release it.
    pub release_capture: bool,
    /// The focus restore to stage, if the lowest closed layer restores focus.
    pub restore: Option<RestoreFocus>,
}

/// Whether one of `closed` is the layer the capture owner lives on.
pub open spec fn closes_capture_layer(closed: Seq<OpenLayer>, capture_layer: Option<LayerId>) -> bool {
    capture_layer matches Some(l) && exists|i: int| 0 <= i < closed.len() && #[trigger] closed[i].layer == l
}

/// The focus restore after `closed` close: the lowest closed layer's own
/// target wins, else the target saved for its scope.
pub open spec fn restore_after(closed: Seq<OpenLayer>, saved: Option<Id>) -> Option<RestoreFocus> {
    if closed.len() > 0 && closed[0].spec.restore_focus {
        Some(match closed[0].restore_to {
            Some(id) => RestoreFocus { to: Some(id), take_saved: false },
            None => RestoreFocus { to: saved, take_saved: true },
        })
    } else {
        None
    }
}

/// Settle layers that closed during a pass (bottom-most first).
/// `capture_layer` is the layer of the capture's owner, if a capture is
/// held; `saved` is the restore target the focus state holds for the
/// lowest closed layer's scope.
pub fn settle_closed(closed: &[OpenLayer], capture_layer: Option<LayerId>, saved: Option<Id>) -> (s: ClosedSettlement)
    ensures
        s.release_capture == closes_capture_layer(closed@, capture_layer),
        s.restore == restore_after(closed@, saved),
{
    let mut release = false;
    if let Some(cl) = capture_layer {
        let mut i: usize = 0;
        while i < closed.len()
            invariant
                i <= closed@.len(),
                capture_layer == Some(cl),
                release == exists|j: int| 0 <= j < i && #[trigger] closed@[j].layer == cl,
            decreases closed@.len() - i,
        {
            if closed[i].layer == cl {
                release = true;
            }
            i = i + 1;
        }
    }
    let restore = if closed.len() > 0 && closed[0].spec.restore_focus {
        match closed[0].restore_to {
            Some(id) => Some(RestoreFocus { to: Some(id), take_saved: false }),
            None => Some(RestoreFocus { to: saved, take_saved: true }),
        }
    } else {
        None
    };
    ClosedSettlement { release_capture: release, restore }
}

/// One input to the runtime.
#[derive(Clone, Debug, PartialEq, Eq)]
pub enum Input {
    /// The terminal is now this many columns and rows.
    Resize(u16, u16),
    /// The clock advanced by one tick.
    Tick,
    /// A key was pressed.
    Key(Key),
    /// A pointer event.
    Mouse(Mouse),
    /// Text was pasted.
    Paste(String),
}

/// How an input opens a `handle` call.
#[derive(Clone, Copy, Debug, PartialEq, Eq, Structural)]
pub enum Opening {
    /// The screen is now `width` by `height`: the capture is released, the
    /// press and hover end, and the pass that follows is folded with a
    /// relayout; no bubble step.
    Resize { width: u16, height: u16 },
    /// The clock moved to `now`: an expired press flash ends before the
    /// pass.
    Tick { now: u64 },
    /// A capture-phase binding claimed the key: one pass with this command
    /// and no bubble step.
    Capture(ActionKey),
    /// The key goes to the focus ring; the pass follows, then the bubble
    /// step for it.
    Key(Key),
    /// The pointer event is dispatched before the pass.
    Mouse(Mouse),
    /// The paste goes to the focused editor before the pass.
    PasteTo(Id),
    /// Nothing is queued; the pass runs alone (a paste with no editing
    /// focus).
    Pass,
}

/// How `input` opens the call, given the key map, whether the focused
/// component swallows typing, the focused component when it is editing,
/// the clock and the tick length.
pub open spec fn opening_of(
    es: Seq<Entry>,
    input: Input,
    swallows: bool,
    editing: Option<Id>,
    clock_ms: u64,
    tick_ms: u64,
) -> Opening {
    match input {
        Input::Resize(w, h) => Opening::Resize { width: w, height: h },
        Input::Tick => Opening::Tick {
            now: if clock_ms + tick_ms > u64::MAX { u64::MAX } else { (clock_ms + tick_ms) as u64 },
        },
        Input::Key(k) => match lookup_from(es, KeyPhase::Capture, k, swallows, 0) {
            Some(cmd) => Opening::Capture(cmd),
            None => Opening::Key(k),
        },
        Input::Mouse(m) => Opening::Mouse(m),
        Input::Paste(_) => match editing {
            Some(owner) => Opening::PasteTo(owner),
            None => Opening::Pass,
        },
    }
}

/// Decide how `input` opens a `handle` call. `editing` is the focused
/// component when it is editing or swallows typing.
pub fn open_input(
    keymap: &KeyMap,
    input: &Input,
    swallows: bool,
    editing: Option<Id>,
    clock_ms: u64,
    tick_ms: u64,
) -> (o: Opening)
    ensures
        o == opening_of(keymap.spec_entries(), *input, swallows, editing, clock_ms, tick_ms),
{
    match input {
        Input::Resize(w, h) => Opening::Resize { width: *w, height: *h },
        Input::Tick => Opening::Tick { now: clock_ms.saturating_add(tick_ms) },
        Input::Key(k) => match keymap.lookup(KeyPhase::Capture, k, swallows) {
            Some(cmd) => Opening::Capture(cmd),
            None => Opening::Key(*k),
        },
        Input::Mouse(m) => Opening::Mouse(*m),
        Input::Paste(_) => match editing {
            Some(owner) => Opening::PasteTo(owner),
            None => Opening::Pass,
        },
    }
}

/// What a resize answers: the pass's response folded with a relayout.
/// It is consumed and asks for a relayout, whatever the pass answered.
pub fn after_resize_pass(pass: Response<()>) -> (r: Response<()>)
    ensures
        r.spec_flow() == Flow::Consumed,
        r.spec_invalidate() == Invalidate::Layout,
        r.spec_id() == pass.spec_id(),
        r.spec_state() == pass.spec_state(),
        r.spec_action() is None,
{
    let relayout = Response::changed().relayout();
    pass | relayout
}

} // verus!
