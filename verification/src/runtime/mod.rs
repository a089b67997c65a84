//! The runtime: it owns the interaction state and runs the two phases of
//! a frame. `handle` takes one input: the input opens the call (a resize,
//! a clock tick, a capture-phase command, or what the focus ring, the
//! pointer or the focused editor is handed), the application's update pass
//! runs until focus settles, a key nothing consumed bubbles, and the answer
//! is folded. A frame begins by placing every open layer on the screen,
//! bottom first, and ends by reconciling focus with the ring it drew. The
//! application is the library's user: it implements [`App`].

pub mod dispatch;
pub mod feedback;
pub mod interaction;
pub mod session;
pub mod time;
pub mod typing;

use vstd::prelude::*;

use crate::action::ActionKey;
use crate::geometry::Rect;
use crate::id::Id;
use crate::keymap::{Entry, KeyMap};
use crate::keys::Key;
use crate::layer::{anchored, resolve_anchor, DismissReason, LayerStack};
use crate::response::{Flow, Invalidate, Response};
use crate::runtime::dispatch::{after_resize_pass, bubble_key, open_input, opening_of, AfterPass, Input, Opening};
use crate::runtime::interaction::{
    dismiss_top, FocusChange, FocusStage, FocusVia, Interaction, PointerContext, PointerEffects, Settle, MAX_FOCUS_PASSES,
};

verus! {

/// What the update pass is handed besides the application's own state.
pub struct Cx {
    command: Option<ActionKey>,
    key: Option<(Id, Key)>,
    paste: Option<(Id, String)>,
    pointer: Option<PointerEffects>,
    focus_request: Option<Id>,
    repaint: bool,
    focus_change: Option<FocusChange>,
}

impl Cx {
    /// Nothing handed, nothing asked.
    pub fn new() -> (c: Cx)
        ensures
            c.spec_command() is None,
            c.spec_focus_request() is None,
            !c.spec_repaint(),
    {
        Cx { command: None, key: None, paste: None, pointer: None, focus_request: None, repaint: false, focus_change: None }
    }

    /// The command of this pass.
    pub closed spec fn spec_command(&self) -> Option<ActionKey> {
        self.command
    }

    /// The focus the pass asked for.
    pub closed spec fn spec_focus_request(&self) -> Option<Id> {
        self.focus_request
    }

    /// Whether the pass asked for a repaint.
    pub closed spec fn spec_repaint(&self) -> bool {
        self.repaint
    }

    /// The command this pass runs with: a bound chord's action, or none.
    pub fn command(&self) -> (c: Option<ActionKey>)
        ensures
            c == self.spec_command(),
    {
        self.command
    }

    /// The key the focused component receives in this pass.
    pub fn key(&self) -> Option<(Id, Key)> {
        self.key
    }

    /// The paste the focused editor receives in this pass.
    pub fn paste(&self) -> Option<&(Id, String)> {
        match &self.paste {
            Some(p) => Some(p),
            None => None,
        }
    }

    /// The pointer intents of this pass.
    pub fn pointer(&self) -> Option<&PointerEffects> {
        match &self.pointer {
            Some(p) => Some(p),
            None => None,
        }
    }

    /// The focus move the last frame's reconcile applied: focus-out goes to
    /// its `from`, focus-in to its `to`.
    pub fn focus_change(&self) -> Option<FocusChange> {
        self.focus_change
    }

    /// Ask for focus to move to `id` after the pass.
    pub fn request_focus(&mut self, id: Id)
        ensures
            final(self).spec_focus_request() == Some(id),
            final(self).spec_command() == old(self).spec_command(),
            final(self).spec_repaint() == old(self).spec_repaint(),
    {
        self.focus_request = Some(id);
    }

    /// Ask for a repaint after this input.
    pub fn request_repaint(&mut self)
        ensures
            final(self).spec_repaint(),
            final(self).spec_command() == old(self).spec_command(),
            final(self).spec_focus_request() == old(self).spec_focus_request(),
    {
        self.repaint = true;
    }

    /// Forget the intents of a pass whose focus moved: the next pass sees
    /// the new focus.
    fn clear_intents(&mut self)
        ensures
            final(self).spec_command() == old(self).spec_command(),
            final(self).spec_focus_request() == old(self).spec_focus_request(),
            final(self).spec_repaint() == old(self).spec_repaint(),
    {
        self.key = None;
        self.paste = None;
        self.pointer = None;
        self.focus_change = None;
    }
}

/// The application: its key map, its update pass and its answer to an Esc
/// that nothing else claimed.
pub trait App {
    /// The application's chord layer.
    fn keymap(&self) -> &KeyMap;

    /// One update pass over what `cx` hands it.
    fn update(&mut self, cx: &mut Cx) -> Response<()>;

    /// The end of the Esc ladder: Esc reached the page with nothing to
    /// dismiss.
    fn on_esc(&mut self, cx: &mut Cx) -> Response<()>;
}

/// What the last frame registered that input handling reads: the focus
/// ring's neighbours of the focused component, whether the focused
/// component swallows typing or is editing, and the pointer lookup.
#[derive(Clone, Copy, Debug)]
pub struct FrameFacts {
    /// The next component in the focus ring.
    pub ring_next: Option<Id>,
    /// The previous component in the focus ring.
    pub ring_prev: Option<Id>,
    /// The focused component takes bare characters as text.
    pub swallows_typing: bool,
    /// The focused component is editing text.
    pub editing: bool,
    /// The pointer lookup of the last frame.
    pub pointer: PointerContext,
}

/// One step of a `handle` call, in the order taken.
pub enum Step {
    /// The input opened the call, decided over these key map entries.
    Opened(Seq<Entry>, Opening),
    /// The application's update ran with this command.
    Pass(Option<ActionKey>),
    /// The ordinary update passes answered with this flow.
    Answered(Flow),
    /// The key nothing consumed went on to this bubble step.
    Bubble(AfterPass),
}

/// A repaint folded into an invalidation when asked for.
pub open spec fn inv_max_if(i: Invalidate, repaint: bool) -> Invalidate {
    if repaint { crate::response::inv_max(i, Invalidate::Paint) } else { i }
}

/// The component that takes pastes: the focused one, when it is editing
/// or swallows typing.
pub open spec fn editing_focus(f: FrameFacts, focus: FocusStage) -> Option<Id> {
    if f.editing || f.swallows_typing { focus.current } else { None }
}

/// How the call the trace records was opened.
pub open spec fn opened(t: Seq<Step>) -> Opening {
    if t.len() > 0 {
        match t[0] {
            Step::Opened(_, o) => o,
            _ => Opening::Pass,
        }
    } else {
        Opening::Pass
    }
}

/// The runtime over an application.
pub struct Runtime<A: App> {
    app: A,
    screen: Rect,
    inter: Interaction,
    focus: FocusStage,
    layers: LayerStack,
    clock_ms: u64,
    tick_ms: u64,
    last_invalidate: Invalidate,
    facts: FrameFacts,
    cx: Cx,
    pending_focus: Option<FocusChange>,
    trace: Ghost<Seq<Step>>,
}

/// The passes of one update run, all with `command`, appended to `before`.
pub open spec fn passes_after(before: Seq<Step>, after: Seq<Step>, command: Option<ActionKey>) -> bool {
    &&& after.len() > before.len()
    &&& after.subrange(0, before.len() as int) == before
    &&& forall|i: int| before.len() <= i < after.len() ==> #[trigger] after[i] == Step::Pass(command)
}

impl<A: App> Runtime<A> {
    /// The steps of the last `handle` call.
    pub closed spec fn spec_trace(&self) -> Seq<Step> {
        self.trace@
    }

    /// The screen.
    pub closed spec fn spec_screen(&self) -> Rect {
        self.screen
    }

    /// The virtual clock.
    pub closed spec fn spec_clock(&self) -> u64 {
        self.clock_ms
    }

    /// The focused component and the move staged for it.
    pub closed spec fn spec_focus(&self) -> FocusStage {
        self.focus
    }

    /// The last frame's facts.
    pub closed spec fn spec_facts(&self) -> FrameFacts {
        self.facts
    }

    /// The tick length.
    pub closed spec fn spec_tick(&self) -> u64 {
        self.tick_ms
    }

    /// What must be laid out or painted next.
    pub closed spec fn spec_last_invalidate(&self) -> Invalidate {
        self.last_invalidate
    }

    /// A runtime over `app` on a `screen`, with a clock ticking `tick_ms`
    /// and the facts of a first frame.
    pub fn new(app: A, screen: Rect, tick_ms: u64, facts: FrameFacts) -> (rt: Runtime<A>)
        ensures
            rt.spec_screen() == screen,
            rt.spec_clock() == 0,
            rt.spec_tick() == tick_ms,
            rt.spec_facts() == facts,
            rt.spec_focus() == (FocusStage { current: None, staged: None, unsettled: 0 }),
            rt.spec_last_invalidate() == Invalidate::Layout,
    {
        Runtime {
            app,
            screen,
            inter: Interaction::new(),
            focus: FocusStage::new(None),
            layers: LayerStack::new(),
            clock_ms: 0,
            tick_ms,
            last_invalidate: Invalidate::Layout,
            facts,
            cx: Cx::new(),
            pending_focus: None,
            trace: Ghost(Seq::empty()),
        }
    }

    /// The application.
    pub fn app(&self) -> &A {
        &self.app
    }

    /// The screen.
    pub fn screen(&self) -> (s: Rect)
        ensures
            s == self.spec_screen(),
    {
        self.screen
    }

    /// The focused component.
    pub fn focus(&self) -> (f: Option<Id>)
        ensures
            f == self.spec_focus().current,
    {
        self.focus.current
    }

    /// The virtual clock, in milliseconds.
    pub fn clock_ms(&self) -> (c: u64)
        ensures
            c == self.spec_clock(),
    {
        self.clock_ms
    }

    /// The layer stack.
    pub fn layers_mut(&mut self) -> &mut LayerStack {
        &mut self.layers
    }

    /// Record what the frame just drawn registered.
    pub fn set_frame_facts(&mut self, facts: FrameFacts)
        ensures
            final(self).spec_facts() == facts,
            final(self).spec_screen() == old(self).spec_screen(),
            final(self).spec_clock() == old(self).spec_clock(),
            final(self).spec_focus() == old(self).spec_focus(),
            final(self).spec_tick() == old(self).spec_tick(),
    {
        self.facts = facts;
    }

    /// Handle one input. The input opens the call; a resize answers a
    /// relayout after one update run; a capture-phase command runs alone;
    /// otherwise the key, pointer event or paste is handed to the update
    /// run, and a key that run left unconsumed goes on to the bubble step.
    pub fn handle(&mut self, input: Input) -> (r: Response<()>)
        ensures
            final(self).spec_trace().len() >= 2,
            final(self).spec_trace()[0] matches Step::Opened(es, o) && o == opening_of(
                es,
                input,
                old(self).spec_facts().swallows_typing,
                editing_focus(old(self).spec_facts(), old(self).spec_focus()),
                old(self).spec_clock(),
                old(self).spec_tick(),
            ),
            ({
                let t = final(self).spec_trace();
                let o = opened(t);
                &&& o matches Opening::Resize { width, height } ==> {
                    &&& r.spec_flow() == Flow::Consumed
                    &&& r.spec_invalidate() == Invalidate::Layout
                    &&& final(self).spec_screen() == (Rect { x: 0, y: 0, width, height })
                    &&& forall|i: int| 1 <= i < t.len() ==> #[trigger] t[i] == Step::Pass(None)
                }
                &&& o matches Opening::Capture(cmd) ==> forall|i: int| 1 <= i < t.len() ==> #[trigger] t[i] == Step::Pass(
                    Some(cmd),
                )
                &&& o matches Opening::Tick { now } ==> final(self).spec_clock() == now
                &&& !(o is Resize || o is Capture) ==> exists|k: int|
                    2 <= k < t.len() && #[trigger] t[k] is Answered && {
                        let f = t[k]->Answered_0;
                        &&& forall|i: int| 1 <= i < k ==> #[trigger] t[i] == Step::Pass(None)
                        &&& (o is Key && f is Ignored) ==> t.len() > k + 1 && t[k + 1] is Bubble
                        &&& !(o is Key && f is Ignored) ==> t.len() == k + 1
                        &&& forall|i: int| k + 1 < i < t.len() ==> #[trigger] t[i] is Pass
                    }
            }),
    {
        self.cx = Cx::new();
        self.cx.focus_change = self.pending_focus;
        self.pending_focus = None;
        let swallows = self.facts.swallows_typing;
        let editing = if self.facts.editing || self.facts.swallows_typing { self.focus.current } else { None };
        let km = self.app.keymap();
        let opening = open_input(km, &input, swallows, editing, self.clock_ms, self.tick_ms);
        let ghost es = km.spec_entries();
        proof {
            self.trace@ = seq![Step::Opened(es, opening)];
        }
        let mut key_input: Option<Key> = None;
        match opening {
            Opening::Resize { width, height } => {
                self.screen = Rect { x: 0, y: 0, width, height };
                self.inter.resize();
                self.last_invalidate = Invalidate::Layout;
                let pass = self.run_update(None);
                let r = after_resize_pass(pass);
                proof {
                    assert(self.trace@.subrange(0, 1)[0] == self.trace@[0]);
                    assert(self.trace@[0] == Step::Opened(es, opening));
                }
                return self.finish(r);
            },
            Opening::Tick { now } => {
                self.clock_ms = now;
                self.inter.tick(now);
            },
            Opening::Capture(cmd) => {
                let r = self.run_update(Some(cmd));
                proof {
                    assert(self.trace@.subrange(0, 1)[0] == self.trace@[0]);
                    assert(self.trace@[0] == Step::Opened(es, opening));
                }
                return self.finish(r);
            },
            Opening::Key(k) => {
                key_input = Some(k);
                let d = self.inter.enqueue_key(k, self.focus.current, self.facts.ring_next, self.facts.ring_prev);
                if let Some(to) = d.focus {
                    self.focus.stage(to, FocusVia::Keyboard);
                }
                if let Some(owner) = d.key_to {
                    self.cx.key = Some((owner, k));
                }
            },
            Opening::Mouse(m) => {
                let mut pcx = self.facts.pointer;
                pcx.clock_ms = self.clock_ms;
                let fx = self.inter.enqueue_mouse(m, &pcx);
                if let Some(f) = fx.focus {
                    self.focus.stage(Some(f), FocusVia::Pointer);
                }
                self.cx.pointer = Some(fx);
            },
            Opening::PasteTo(owner) => {
                if let Input::Paste(text) = input {
                    self.cx.paste = Some((owner, text));
                }
            },
            Opening::Pass => {},
        }
        let ghost opened_trace = self.trace@;
        let mut r = self.run_update(None);
        let ghost k = self.trace@.len() as int;
        proof {
            let f = r.spec_flow();
            self.trace@ = self.trace@.push(Step::Answered(f));
        }
        let ghost answered = self.trace@;
        if let Some(key) = key_input {
            if !r.is_consumed() {
                let after = bubble_key(self.app.keymap(), &self.layers, Some(key), false);
                proof {
                    self.trace@ = self.trace@.push(Step::Bubble(after));
                }
                let ghost bubbled = self.trace@;
                match after {
                    AfterPass::Command(cmd) => {
                        let more = self.run_update(Some(cmd));
                        r = r | more;
                    },
                    AfterPass::DismissTop => {
                        let _ = dismiss_top(&mut self.layers, DismissReason::Esc);
                        let more = self.run_update(None);
                        r = r | more.repaint();
                    },
                    AfterPass::AppEsc => {
                        let more = self.app.on_esc(&mut self.cx);
                        r = r | more;
                    },
                    AfterPass::Done => {},
                }
                proof {
                    let t = self.trace@;
                    assert(t.subrange(0, bubbled.len() as int) == bubbled);
                    assert(forall|i: int| 0 <= i < bubbled.len() ==> t[i] == bubbled[i]);
                    assert(forall|i: int| 0 <= i < opened_trace.len() ==> answered[i] == opened_trace[i]);
                    assert(t[k] == Step::Answered(answered[k]->Answered_0));
                }
            }
        }
        proof {
            let t = self.trace@;
            assert(t[0] == opened_trace[0]);
        }
        self.finish(r)
    }

    /// The end of the call: a repaint the pass asked for is folded in.
    fn finish(&mut self, r: Response<()>) -> (out: Response<()>)
        ensures
            out.spec_flow() == r.spec_flow(),
            out.spec_invalidate() == inv_max_if(r.spec_invalidate(), old(self).cx.repaint),
            *final(self) == *old(self),
    {
        if self.cx.repaint {
            r.repaint()
        } else {
            r
        }
    }

    /// Begin a frame on `area`: it becomes the screen, and every open layer
    /// gets its area on it, bottom first, the order the frame composites
    /// them in.
    pub fn begin_frame(&mut self, area: Rect) -> (rects: Vec<(Id, Rect)>)
        requires
            area.fits(),
        ensures
            final(self).spec_screen() == area,
            final(self).spec_clock() == old(self).spec_clock(),
            final(self).spec_focus() == old(self).spec_focus(),
            final(self).spec_facts() == old(self).spec_facts(),
            final(self).spec_layers() == old(self).spec_layers(),
            rects@.len() == old(self).spec_layers().spec_open().len(),
            forall|i: int| 0 <= i < rects@.len() ==> {
                let l = #[trigger] old(self).spec_layers().spec_open()[i];
                rects@[i] == (l.id, anchored(area, l.spec.anchor, l.spec.size))
            },
    {
        self.screen = area;
        let open = self.layers.layers();
        let mut rects: Vec<(Id, Rect)> = Vec::new();
        let mut i: usize = 0;
        while i < open.len()
            invariant
                area.fits(),
                i <= open@.len(),
                open@ == self.layers.spec_open(),
                rects@.len() == i,
                forall|j: int| 0 <= j < i ==> {
                    let l = #[trigger] open@[j];
                    rects@[j] == (l.id, anchored(area, l.spec.anchor, l.spec.size))
                },
            decreases open@.len() - i,
        {
            let l = open[i];
            let r = resolve_anchor(area, l.spec.anchor, l.spec.size);
            rects.push((l.id, r));
            i = i + 1;
        }
        rects
    }

    /// The focus move the next `handle` delivers.
    pub closed spec fn spec_pending_focus(&self) -> Option<FocusChange> {
        self.pending_focus
    }

    /// End a frame: record what it registered, and reconcile focus with the
    /// ring it drew, which put focus on `reconciled`. When that moves
    /// focus, the move is applied now, delivered as focus-out and focus-in
    /// by the next `handle` (a restore when a restore was staged, else a
    /// programmatic move), and the frame, painted with the old focus, asks
    /// for another. Any staged move is dropped.
    pub fn end_frame(&mut self, facts: FrameFacts, reconciled: Option<Id>) -> (repaint: bool)
        ensures
            final(self).spec_facts() == facts,
            final(self).spec_screen() == old(self).spec_screen(),
            final(self).spec_clock() == old(self).spec_clock(),
            final(self).spec_focus().current == reconciled,
            final(self).spec_focus().staged is None,
            repaint == (reconciled != old(self).spec_focus().current),
            repaint ==> final(self).spec_pending_focus() == Some(FocusChange {
                from: old(self).spec_focus().current,
                to: reconciled,
                via: if old(self).spec_focus().staged matches Some(st) && st.via == FocusVia::Restore {
                    FocusVia::Restore
                } else {
                    FocusVia::Programmatic
                },
            }),
            !repaint ==> final(self).spec_pending_focus() == old(self).spec_pending_focus(),
    {
        self.facts = facts;
        let previous = self.focus.current;
        let changed = reconciled != previous;
        if changed {
            let via = match self.focus.staged {
                Some(st) => if st.via == FocusVia::Restore { FocusVia::Restore } else { FocusVia::Programmatic },
                None => FocusVia::Programmatic,
            };
            self.pending_focus = Some(FocusChange { from: previous, to: reconciled, via });
        }
        self.focus = FocusStage { current: reconciled, staged: None, unsettled: self.focus.unsettled };
        changed
    }

    /// The layer stack.
    pub closed spec fn spec_layers(&self) -> LayerStack {
        self.layers
    }

    /// Run the application's update until focus settles: each pass gets
    /// `command`; a focus request is staged after the pass; a pass whose
    /// staged focus moves is followed by another, at most
    /// `MAX_FOCUS_PASSES` in all. The answers fold.
    fn run_update(&mut self, command: Option<ActionKey>) -> (r: Response<()>)
        ensures
            passes_after(old(self).trace@, final(self).trace@, command),
            final(self).screen == old(self).screen,
            final(self).clock_ms == old(self).clock_ms,
            final(self).tick_ms == old(self).tick_ms,
            final(self).facts == old(self).facts,
            final(self).last_invalidate == old(self).last_invalidate,
    {
        let mut folded: Response<()> = Response::ignored();
        let mut first = true;
        let mut passes: usize = 0;
        let ghost before = self.trace@;
        loop
            invariant_except_break
                passes <= MAX_FOCUS_PASSES,
                first ==> passes == 0,
                !first ==> self.focus.unsettled == passes && passes >= 1,
                first ==> self.trace@ == before,
                !first ==> passes_after(before, self.trace@, command),
            invariant
                self.screen == old(self).screen,
                self.clock_ms == old(self).clock_ms,
                self.tick_ms == old(self).tick_ms,
                self.facts == old(self).facts,
                self.last_invalidate == old(self).last_invalidate,
                before == old(self).trace@,
            ensures
                passes_after(before, self.trace@, command),
                self.screen == old(self).screen,
                self.clock_ms == old(self).clock_ms,
                self.tick_ms == old(self).tick_ms,
                self.facts == old(self).facts,
                self.last_invalidate == old(self).last_invalidate,
            decreases MAX_FOCUS_PASSES - passes,
        {
            self.cx.command = command;
            self.cx.focus_request = None;
            let r = self.app.update(&mut self.cx);
            proof {
                let t = self.trace@.push(Step::Pass(command));
                assert(passes_after(before, t, command)) by {
                    assert(t.subrange(0, before.len() as int) =~= before);
                }
                self.trace@ = t;
            }
            folded = folded | r;
            if let Some(f) = self.cx.focus_request {
                self.focus.stage(Some(f), FocusVia::Programmatic);
            }
            match self.focus.settle_pass(first) {
                Settle::Again => {
                    let _ = self.focus.apply_staged_focus();
                    self.cx.clear_intents();
                },
                _ => {
                    break;
                },
            }
            first = false;
            passes = passes + 1;
        }
        folded
    }
}

} // verus!
