//! The one reply type.
//!
//! `flow` (was the event consumed?) and `invalidate` (what must be redrawn?)
//! are orthogonal, which is what makes "a wheel at a boundary is consumed
//! without a repaint" expressible. Folding with `|` is defined for
//! `Response<()>` only: composing two action-carrying responses is a type
//! error, never silent loss.

use core::ops::{BitOr, BitOrAssign};

use vstd::prelude::*;
use vstd::std_specs::ops::BitOrSpecImpl;

use crate::id::Id;
use crate::text::unicode::string_push_str;

verus! {

/// Whether an input was consumed.
#[derive(Clone, Copy, PartialEq, Eq, Structural, Debug, Default, PartialOrd, Ord)]
pub enum Flow {
    /// Not interested; keep offering the input to the next handler.
    #[default]
    Ignored,
    /// Handled; stop propagation.
    Consumed,
}

/// What must be redrawn. Ordered: `Nothing < Paint < Layout`.
///
/// `Layout` currently behaves as `Paint`; it is reserved for layout
/// caching and only its ordering matters.
#[derive(Clone, Copy, PartialEq, Eq, Structural, Debug, Default, PartialOrd, Ord)]
pub enum Invalidate {
    /// Nothing visible changed.
    #[default]
    Nothing,
    /// Repaint.
    Paint,
    /// Re-layout, then repaint.
    Layout,
}

/// The rank of an invalidation in its order.
pub open spec fn rank(i: Invalidate) -> int {
    match i {
        Invalidate::Nothing => 0,
        Invalidate::Paint => 1,
        Invalidate::Layout => 2,
    }
}

/// The larger of two invalidations.
pub open spec fn inv_max(a: Invalidate, b: Invalidate) -> Invalidate {
    if rank(a) >= rank(b) { a } else { b }
}

/// `Consumed` wins over `Ignored`.
pub open spec fn flow_max(a: Flow, b: Flow) -> Flow {
    if a is Consumed || b is Consumed { Flow::Consumed } else { Flow::Ignored }
}

/// Folding flows is commutative and associative, and `Ignored` is neutral.
pub proof fn law_fold_flow(a: Flow, b: Flow, c: Flow)
    ensures
        flow_max(a, b) == flow_max(b, a),
        flow_max(flow_max(a, b), c) == flow_max(a, flow_max(b, c)),
        flow_max(a, Flow::Ignored) == a,
{
}

/// Folding invalidations takes the larger: commutative, associative, with
/// `Nothing` neutral, and never below either side.
pub proof fn law_fold_invalidate(a: Invalidate, b: Invalidate, c: Invalidate)
    ensures
        inv_max(a, b) == inv_max(b, a),
        inv_max(inv_max(a, b), c) == inv_max(a, inv_max(b, c)),
        inv_max(a, Invalidate::Nothing) == a,
        rank(inv_max(a, b)) >= rank(a),
        rank(inv_max(a, b)) >= rank(b),
{
}

/// The invalidations are strictly ordered: `Nothing < Paint < Layout`.
pub proof fn law_invalidate_order()
    ensures
        rank(Invalidate::Nothing) < rank(Invalidate::Paint) < rank(Invalidate::Layout),
{
}

/// A repaint never lowers the invalidation, always reaches `Paint`, and a
/// second repaint changes nothing.
pub proof fn law_repaint_never_lowers(i: Invalidate)
    ensures
        rank(inv_max(i, Invalidate::Paint)) >= rank(i),
        rank(inv_max(i, Invalidate::Paint)) >= 1,
        inv_max(inv_max(i, Invalidate::Paint), Invalidate::Paint) == inv_max(i, Invalidate::Paint),
{
}

fn invalidate_max(a: Invalidate, b: Invalidate) -> (r: Invalidate)
    ensures
        r == inv_max(a, b),
{
    let ra: u8 = match a {
        Invalidate::Nothing => 0,
        Invalidate::Paint => 1,
        Invalidate::Layout => 2,
    };
    let rb: u8 = match b {
        Invalidate::Nothing => 0,
        Invalidate::Paint => 1,
        Invalidate::Layout => 2,
    };
    if ra >= rb {
        a
    } else {
        b
    }
}

fn flow_or(a: Flow, b: Flow) -> (r: Flow)
    ensures
        r == flow_max(a, b),
{
    match (a, b) {
        (Flow::Ignored, Flow::Ignored) => Flow::Ignored,
        _ => Flow::Consumed,
    }
}

// ---------------------------------------------------------------------------
// State flags.
// ---------------------------------------------------------------------------

/// The visual state a component wears, as resolved by the runtime and
/// declared by the component: one bit per flag.
#[derive(Clone, Copy, PartialEq, Eq, Structural, Hash, Debug, Default)]
pub struct StateFlags {
    bits: u16,
}

/// Whether bit `i` of `bits` is set.
pub open spec fn bit_set(bits: u16, i: int) -> bool {
    (bits >> (i as u16)) & 1u16 == 1u16
}

/// The name of flag `i`.
pub open spec fn flag_name(i: int) -> Seq<char> {
    if i == 0 { "FOCUSED"@ }
    else if i == 1 { "FOCUS_VISIBLE"@ }
    else if i == 2 { "HOVERED"@ }
    else if i == 3 { "PRESSED"@ }
    else if i == 4 { "SELECTED"@ }
    else if i == 5 { "ACTIVE"@ }
    else if i == 6 { "CHECKED"@ }
    else if i == 7 { "DISABLED"@ }
    else if i == 8 { "READ_ONLY"@ }
    else if i == 9 { "ERROR"@ }
    else if i == 10 { "WARNING"@ }
    else if i == 11 { "BUSY"@ }
    else if i == 12 { "EDITING"@ }
    else if i == 13 { "DIRTY"@ }
    else if i == 14 { "EXPANDED"@ }
    else { "LOADING"@ }
}

/// The names of the flags among the first `i` bits that are set, in bit
/// order.
pub open spec fn set_names(bits: u16, i: int) -> Seq<Seq<char>>
    decreases i,
{
    if i <= 0 {
        Seq::empty()
    } else if bit_set(bits, i - 1) {
        set_names(bits, i - 1).push(flag_name(i - 1))
    } else {
        set_names(bits, i - 1)
    }
}

/// Names joined with `" | "`.
pub open spec fn joined(names: Seq<Seq<char>>) -> Seq<char>
    decreases names.len(),
{
    if names.len() == 0 {
        Seq::empty()
    } else if names.len() == 1 {
        names[0]
    } else {
        joined(names.drop_last()) + " | "@ + names.last()
    }
}

/// How the flags print: `StateFlags(A | B)`, or `StateFlags(0x0)` when empty.
pub open spec fn flags_text(bits: u16) -> Seq<char> {
    "StateFlags("@ + (if bits == 0 { "0x0"@ } else { joined(set_names(bits, 16)) }) + ")"@
}

fn flag_name_str(i: u16) -> (s: &'static str)
    requires
        i < 16,
    ensures
        s@ == flag_name(i as int),
{
    if i == 0 { "FOCUSED" }
    else if i == 1 { "FOCUS_VISIBLE" }
    else if i == 2 { "HOVERED" }
    else if i == 3 { "PRESSED" }
    else if i == 4 { "SELECTED" }
    else if i == 5 { "ACTIVE" }
    else if i == 6 { "CHECKED" }
    else if i == 7 { "DISABLED" }
    else if i == 8 { "READ_ONLY" }
    else if i == 9 { "ERROR" }
    else if i == 10 { "WARNING" }
    else if i == 11 { "BUSY" }
    else if i == 12 { "EDITING" }
    else if i == 13 { "DIRTY" }
    else if i == 14 { "EXPANDED" }
    else { "LOADING" }
}

impl StateFlags {
    /// Owns keyboard focus.
    pub fn focused() -> (f: StateFlags)
        ensures
            f.spec_bits() == 1,
            f == StateFlags::of_bits(1),
    {
        StateFlags { bits: 1 }
    }
    /// Focus should be painted (the last input was a key).
    pub fn focus_visible() -> (f: StateFlags)
        ensures
            f.spec_bits() == 2,
            f == StateFlags::of_bits(2),
    {
        StateFlags { bits: 2 }
    }
    /// The pointer is over it.
    pub fn hovered() -> (f: StateFlags)
        ensures
            f.spec_bits() == 4,
            f == StateFlags::of_bits(4),
    {
        StateFlags { bits: 4 }
    }
    /// The primary button is down on it (or the press flash is live).
    pub fn pressed() -> (f: StateFlags)
        ensures
            f.spec_bits() == 8,
            f == StateFlags::of_bits(8),
    {
        StateFlags { bits: 8 }
    }
    /// Selected within its collection.
    pub fn selected() -> (f: StateFlags)
        ensures
            f.spec_bits() == 16,
            f == StateFlags::of_bits(16),
    {
        StateFlags { bits: 16 }
    }
    /// The active item (tab, cursor row).
    pub fn active() -> (f: StateFlags)
        ensures
            f.spec_bits() == 32,
            f == StateFlags::of_bits(32),
    {
        StateFlags { bits: 32 }
    }
    /// Checked (checkbox, toggle, multi-select).
    pub fn checked() -> (f: StateFlags)
        ensures
            f.spec_bits() == 64,
            f == StateFlags::of_bits(64),
    {
        StateFlags { bits: 64 }
    }
    /// Disabled: registered but never reachable or activatable.
    pub fn disabled() -> (f: StateFlags)
        ensures
            f.spec_bits() == 128,
            f == StateFlags::of_bits(128),
    {
        StateFlags { bits: 128 }
    }
    /// Read-only: reachable, never editable.
    pub fn read_only() -> (f: StateFlags)
        ensures
            f.spec_bits() == 256,
            f == StateFlags::of_bits(256),
    {
        StateFlags { bits: 256 }
    }
    /// Carries a validation error.
    pub fn error() -> (f: StateFlags)
        ensures
            f.spec_bits() == 512,
            f == StateFlags::of_bits(512),
    {
        StateFlags { bits: 512 }
    }
    /// Carries a warning.
    pub fn warning() -> (f: StateFlags)
        ensures
            f.spec_bits() == 1024,
            f == StateFlags::of_bits(1024),
    {
        StateFlags { bits: 1024 }
    }
    /// Busy with an operation.
    pub fn busy() -> (f: StateFlags)
        ensures
            f.spec_bits() == 2048,
            f == StateFlags::of_bits(2048),
    {
        StateFlags { bits: 2048 }
    }
    /// An edit is in flight (the hardware cursor belongs to it).
    pub fn editing() -> (f: StateFlags)
        ensures
            f.spec_bits() == 4096,
            f == StateFlags::of_bits(4096),
    {
        StateFlags { bits: 4096 }
    }
    /// Has uncommitted changes.
    pub fn dirty() -> (f: StateFlags)
        ensures
            f.spec_bits() == 8192,
            f == StateFlags::of_bits(8192),
    {
        StateFlags { bits: 8192 }
    }
    /// Expanded (tree node, section).
    pub fn expanded() -> (f: StateFlags)
        ensures
            f.spec_bits() == 16384,
            f == StateFlags::of_bits(16384),
    {
        StateFlags { bits: 16384 }
    }
    /// Loading data.
    pub fn loading() -> (f: StateFlags)
        ensures
            f.spec_bits() == 32768,
            f == StateFlags::of_bits(32768),
    {
        StateFlags { bits: 32768 }
    }

    /// The bits.
    pub closed spec fn spec_bits(self) -> u16 {
        self.bits
    }

    /// The flags whose bits are `bits`.
    pub closed spec fn of_bits(bits: u16) -> StateFlags {
        StateFlags { bits }
    }

    /// `of_bits` keeps the bits, and flags are their bits.
    pub proof fn lemma_of_bits(bits: u16)
        ensures
            StateFlags::of_bits(bits).spec_bits() == bits,
            forall|f: StateFlags| #[trigger] StateFlags::of_bits(f.spec_bits()) == f,
    {
    }

    /// No flag.
    pub fn empty() -> (f: StateFlags)
        ensures
            f.spec_bits() == 0,
    {
        StateFlags { bits: 0 }
    }

    /// Every flag.
    pub fn all() -> (f: StateFlags)
        ensures
            f.spec_bits() == 0xffff,
    {
        StateFlags { bits: 0xffff }
    }

    /// The bits.
    pub fn bits(&self) -> (b: u16)
        ensures
            b == self.spec_bits(),
    {
        self.bits
    }

    /// The flags of `bits`; every bit names a flag, so none is dropped.
    pub fn from_bits_truncate(bits: u16) -> (f: StateFlags)
        ensures
            f.spec_bits() == bits,
    {
        StateFlags { bits }
    }

    /// Whether every flag of `other` is set here.
    pub fn contains(&self, other: StateFlags) -> (b: bool)
        ensures
            b == (self.spec_bits() & other.spec_bits() == other.spec_bits()),
    {
        self.bits & other.bits == other.bits
    }

    /// The flags of either.
    pub fn union(self, other: StateFlags) -> (f: StateFlags)
        ensures
            f.spec_bits() == self.spec_bits() | other.spec_bits(),
            f == StateFlags::of_bits(self.spec_bits() | other.spec_bits()),
    {
        StateFlags { bits: self.bits | other.bits }
    }

    /// Each set flag on its own, in bit order.
    pub fn iter(&self) -> (v: Vec<StateFlags>)
        ensures
            v@.len() == set_names(self.spec_bits(), 16).len(),
    {
        let mut v: Vec<StateFlags> = Vec::new();
        let mut i: u16 = 0;
        while i < 16
            invariant
                i <= 16,
                v@.len() == set_names(self.bits, i as int).len(),
            decreases 16 - i,
        {
            if (self.bits >> i) & 1u16 == 1u16 {
                v.push(StateFlags { bits: 1u16 << i });
            }
            i = i + 1;
        }
        v
    }

    /// How the flags print: `StateFlags(FOCUSED | HOVERED)`.
    pub fn debug_string(&self) -> (s: String)
        ensures
            s@ == flags_text(self.spec_bits()),
    {
        let mut s = String::new();
        string_push_str(&mut s, "StateFlags(");
        if self.bits == 0 {
            string_push_str(&mut s, "0x0");
        } else {
            let mut i: u16 = 0;
            let mut first = true;
            while i < 16
                invariant
                    i <= 16,
                    first == (set_names(self.bits, i as int).len() == 0),
                    s@ == "StateFlags("@ + joined(set_names(self.bits, i as int)),
                decreases 16 - i,
            {
                if (self.bits >> i) & 1u16 == 1u16 {
                    let ghost before = set_names(self.bits, i as int);
                    if !first {
                        string_push_str(&mut s, " | ");
                    }
                    string_push_str(&mut s, flag_name_str(i));
                    first = false;
                    proof {
                        let after = before.push(flag_name(i as int));
                        assert(after.drop_last() =~= before);
                        if before.len() == 0 {
                            assert(joined(before) == Seq::<char>::empty());
                        }
                    }
                }
                i = i + 1;
            }
        }
        string_push_str(&mut s, ")");
        s
    }
}

impl BitOr for StateFlags {
    type Output = StateFlags;

    fn bitor(self, rhs: StateFlags) -> (f: StateFlags)
        ensures
            f.spec_bits() == self.spec_bits() | rhs.spec_bits(),
    {
        StateFlags { bits: self.bits | rhs.bits }
    }
}

impl BitOrSpecImpl for StateFlags {
    open spec fn obeys_bitor_spec() -> bool {
        true
    }

    open spec fn bitor_req(self, rhs: StateFlags) -> bool {
        true
    }

    closed spec fn bitor_spec(self, rhs: StateFlags) -> StateFlags {
        StateFlags { bits: self.bits | rhs.bits }
    }
}

// ---------------------------------------------------------------------------
// Responses.
// ---------------------------------------------------------------------------

/// The reply of every `update`.
#[must_use]
#[derive(Clone, Debug, PartialEq, Eq)]
pub struct Response<A = ()> {
    id: Option<Id>,
    flow: Flow,
    invalidate: Invalidate,
    state: StateFlags,
    action: Option<A>,
}

impl<A> Response<A> {
    /// The producing component.
    pub closed spec fn spec_id(&self) -> Option<Id> {
        self.id
    }

    /// The flow.
    pub closed spec fn spec_flow(&self) -> Flow {
        self.flow
    }

    /// The invalidation.
    pub closed spec fn spec_invalidate(&self) -> Invalidate {
        self.invalidate
    }

    /// The recorded state.
    pub closed spec fn spec_state(&self) -> StateFlags {
        self.state
    }

    /// The carried action.
    pub closed spec fn spec_action(&self) -> Option<A> {
        self.action
    }

    /// Not consumed, nothing changed, no id.
    pub fn ignored() -> (r: Self)
        ensures
            r.spec_id() is None,
            r.spec_flow() == Flow::Ignored,
            r.spec_invalidate() == Invalidate::Nothing,
            r.spec_state().spec_bits() == 0,
            r.spec_action() is None,
    {
        Response {
            id: None,
            flow: Flow::Ignored,
            invalidate: Invalidate::Nothing,
            state: StateFlags::empty(),
            action: None,
        }
    }

    /// Consumed without a repaint (the boundary-wheel rule).
    pub fn consumed() -> (r: Self)
        ensures
            r.spec_id() is None,
            r.spec_flow() == Flow::Consumed,
            r.spec_invalidate() == Invalidate::Nothing,
            r.spec_state().spec_bits() == 0,
            r.spec_action() is None,
    {
        Response {
            id: None,
            flow: Flow::Consumed,
            invalidate: Invalidate::Nothing,
            state: StateFlags::empty(),
            action: None,
        }
    }

    /// Consumed and repaint.
    pub fn changed() -> (r: Self)
        ensures
            r.spec_id() is None,
            r.spec_flow() == Flow::Consumed,
            r.spec_invalidate() == Invalidate::Paint,
            r.spec_state().spec_bits() == 0,
            r.spec_action() is None,
    {
        Response {
            id: None,
            flow: Flow::Consumed,
            invalidate: Invalidate::Paint,
            state: StateFlags::empty(),
            action: None,
        }
    }

    /// Consumed, repaint, and carry an action.
    pub fn action(a: A) -> (r: Self)
        ensures
            r.spec_id() is None,
            r.spec_flow() == Flow::Consumed,
            r.spec_invalidate() == Invalidate::Paint,
            r.spec_state().spec_bits() == 0,
            r.spec_action() == Some(a),
    {
        Response {
            id: None,
            flow: Flow::Consumed,
            invalidate: Invalidate::Paint,
            state: StateFlags::empty(),
            action: Some(a),
        }
    }

    /// Tag the response with the component that produced it.
    pub fn for_id(self, id: Id) -> (r: Self)
        ensures
            r.spec_id() == Some(id),
            r.spec_flow() == self.spec_flow(),
            r.spec_invalidate() == self.spec_invalidate(),
            r.spec_state() == self.spec_state(),
            r.spec_action() == self.spec_action(),
    {
        let mut r = self;
        r.id = Some(id);
        r
    }

    /// Record the state the component ended in.
    pub fn with_state(self, s: StateFlags) -> (r: Self)
        ensures
            r.spec_id() == self.spec_id(),
            r.spec_flow() == self.spec_flow(),
            r.spec_invalidate() == self.spec_invalidate(),
            r.spec_state() == s,
            r.spec_action() == self.spec_action(),
    {
        let mut r = self;
        r.state = s;
        r
    }

    /// Raise invalidation to at least `Paint`.
    pub fn repaint(self) -> (r: Self)
        ensures
            r.spec_id() == self.spec_id(),
            r.spec_flow() == self.spec_flow(),
            r.spec_invalidate() == inv_max(self.spec_invalidate(), Invalidate::Paint),
            r.spec_state() == self.spec_state(),
            r.spec_action() == self.spec_action(),
    {
        let mut r = self;
        r.invalidate = invalidate_max(r.invalidate, Invalidate::Paint);
        r
    }

    /// Raise invalidation to `Layout`.
    pub fn relayout(self) -> (r: Self)
        ensures
            r.spec_id() == self.spec_id(),
            r.spec_flow() == self.spec_flow(),
            r.spec_invalidate() == Invalidate::Layout,
            r.spec_state() == self.spec_state(),
            r.spec_action() == self.spec_action(),
    {
        let mut r = self;
        r.invalidate = Invalidate::Layout;
        r
    }

    /// Lower invalidation to `Nothing` (the boundary-wheel rule).
    pub fn no_repaint(self) -> (r: Self)
        ensures
            r.spec_id() == self.spec_id(),
            r.spec_flow() == self.spec_flow(),
            r.spec_invalidate() == Invalidate::Nothing,
            r.spec_state() == self.spec_state(),
            r.spec_action() == self.spec_action(),
    {
        let mut r = self;
        r.invalidate = Invalidate::Nothing;
        r
    }

    /// The producing component, `None` for [`Response::ignored`].
    pub fn id(&self) -> (id: Option<Id>)
        ensures
            id == self.spec_id(),
    {
        self.id
    }

    /// The flow.
    pub fn flow(&self) -> (f: Flow)
        ensures
            f == self.spec_flow(),
    {
        self.flow
    }

    /// Whether the input was consumed.
    pub fn is_consumed(&self) -> (b: bool)
        ensures
            b == (self.spec_flow() is Consumed),
    {
        matches!(self.flow, Flow::Consumed)
    }

    /// The invalidation.
    pub fn invalidate(&self) -> (i: Invalidate)
        ensures
            i == self.spec_invalidate(),
    {
        self.invalidate
    }

    /// Whether a repaint is needed (`invalidate >= Paint`).
    pub fn is_changed(&self) -> (b: bool)
        ensures
            b == (rank(self.spec_invalidate()) >= 1),
    {
        !matches!(self.invalidate, Invalidate::Nothing)
    }

    /// The recorded state flags.
    pub fn state(&self) -> (s: StateFlags)
        ensures
            s == self.spec_state(),
    {
        self.state
    }

    /// Whether the recorded state carries `FOCUSED`.
    pub fn focused(&self) -> (b: bool)
        ensures
            b == (self.spec_state().spec_bits() & 1 == 1),
    {
        self.state.contains(StateFlags::focused())
    }

    /// Whether the recorded state carries `HOVERED`.
    pub fn hovered(&self) -> (b: bool)
        ensures
            b == (self.spec_state().spec_bits() & 4 == 4),
    {
        self.state.contains(StateFlags::hovered())
    }

    /// Whether the recorded state carries `PRESSED`.
    pub fn pressed(&self) -> (b: bool)
        ensures
            b == (self.spec_state().spec_bits() & 8 == 8),
    {
        self.state.contains(StateFlags::pressed())
    }

    /// Borrow the action, if any.
    pub fn action_ref(&self) -> (a: Option<&A>)
        ensures
            match self.spec_action() {
                Some(x) => a matches Some(y) && *y == x,
                None => a is None,
            },
    {
        match &self.action {
            Some(x) => Some(x),
            None => None,
        }
    }

    /// Take the action out, leaving flow and invalidation.
    pub fn take_action(&mut self) -> (a: Option<A>)
        ensures
            a == old(self).spec_action(),
            final(self).spec_action() is None,
            final(self).spec_id() == old(self).spec_id(),
            final(self).spec_flow() == old(self).spec_flow(),
            final(self).spec_invalidate() == old(self).spec_invalidate(),
            final(self).spec_state() == old(self).spec_state(),
    {
        self.action.take()
    }

    /// Consume the response for its action.
    pub fn into_action(self) -> (a: Option<A>)
        ensures
            a == self.spec_action(),
    {
        self.action
    }

    /// Translate the action at a composition boundary; flow and
    /// invalidation are preserved.
    pub fn map_action<B>(self, f: impl FnOnce(A) -> B) -> (r: Response<B>)
        requires
            self.spec_action() matches Some(a) ==> call_requires(f, (a,)),
        ensures
            r.spec_id() == self.spec_id(),
            r.spec_flow() == self.spec_flow(),
            r.spec_invalidate() == self.spec_invalidate(),
            r.spec_state() == self.spec_state(),
            match self.spec_action() {
                Some(a) => r.spec_action() matches Some(b) && call_ensures(f, (a,), b),
                None => r.spec_action() is None,
            },
    {
        let action = match self.action {
            Some(a) => Some(f(a)),
            None => None,
        };
        Response { id: self.id, flow: self.flow, invalidate: self.invalidate, state: self.state, action }
    }

    /// Run `f` on the action, if any, and erase it.
    pub fn on_action(self, f: impl FnOnce(A)) -> (r: Response<()>)
        requires
            self.spec_action() matches Some(a) ==> call_requires(f, (a,)),
        ensures
            r.spec_id() == self.spec_id(),
            r.spec_flow() == self.spec_flow(),
            r.spec_invalidate() == self.spec_invalidate(),
            r.spec_state() == self.spec_state(),
            r.spec_action() is None,
            self.spec_action() matches Some(a) ==> call_ensures(f, (a,), ()),
    {
        let erased = Response { id: self.id, flow: self.flow, invalidate: self.invalidate, state: self.state, action: None };
        if let Some(a) = self.action {
            f(a);
        }
        erased
    }

    /// Drop the action, keep flow and invalidation.
    pub fn erase(self) -> (r: Response<()>)
        ensures
            r.spec_id() == self.spec_id(),
            r.spec_flow() == self.spec_flow(),
            r.spec_invalidate() == self.spec_invalidate(),
            r.spec_state() == self.spec_state(),
            r.spec_action() is None,
    {
        self.on_action(|_a: A| {})
    }
}

/// The unit action of buttons, menu items and chips.
#[derive(Clone, Copy, PartialEq, Eq, Structural, Debug, Default)]
pub struct Activated;

impl Response<Activated> {
    /// Whether the control fired.
    pub fn activated(&self) -> (b: bool)
        ensures
            b == (self.spec_action() is Some),
    {
        self.action.is_some()
    }

    /// Run `f` iff the control fired, then erase the action.
    pub fn on_activated(self, f: impl FnOnce()) -> (r: Response<()>)
        requires
            self.spec_action() is Some ==> call_requires(f, ()),
        ensures
            r.spec_id() == self.spec_id(),
            r.spec_flow() == self.spec_flow(),
            r.spec_invalidate() == self.spec_invalidate(),
            r.spec_state() == self.spec_state(),
            r.spec_action() is None,
            self.spec_action() is Some ==> call_ensures(f, (), ()),
    {
        let erased = Response { id: self.id, flow: self.flow, invalidate: self.invalidate, state: self.state, action: None };
        if self.action.is_some() {
            f();
        }
        erased
    }
}

/// The fold of two responses: `flow`, `Consumed` wins; `invalidate`, the
/// larger; `id` and `state`, the left-hand side's; no action. The fold is a
/// control-flow summary: read `id` and `state` from the single responses.
impl BitOr for Response<()> {
    type Output = Response<()>;

    fn bitor(self, rhs: Self) -> (r: Response<()>)
        ensures
            r.spec_id() == self.spec_id(),
            r.spec_flow() == flow_max(self.spec_flow(), rhs.spec_flow()),
            r.spec_invalidate() == inv_max(self.spec_invalidate(), rhs.spec_invalidate()),
            r.spec_state() == self.spec_state(),
            r.spec_action() is None,
    {
        Response {
            id: self.id,
            flow: flow_or(self.flow, rhs.flow),
            invalidate: invalidate_max(self.invalidate, rhs.invalidate),
            state: self.state,
            action: None,
        }
    }
}

impl BitOrSpecImpl for Response<()> {
    open spec fn obeys_bitor_spec() -> bool {
        true
    }

    open spec fn bitor_req(self, rhs: Response<()>) -> bool {
        true
    }

    closed spec fn bitor_spec(self, rhs: Response<()>) -> Response<()> {
        Response {
            id: self.id,
            flow: flow_max(self.flow, rhs.flow),
            invalidate: inv_max(self.invalidate, rhs.invalidate),
            state: self.state,
            action: None,
        }
    }
}

impl BitOrAssign for Response<()> {
    fn bitor_assign(&mut self, rhs: Self)
        ensures
            final(self).spec_id() == old(self).spec_id(),
            final(self).spec_flow() == flow_max(old(self).spec_flow(), rhs.spec_flow()),
            final(self).spec_invalidate() == inv_max(old(self).spec_invalidate(), rhs.spec_invalidate()),
            final(self).spec_state() == old(self).spec_state(),
            final(self).spec_action() == old(self).spec_action(),
    {
        self.flow = flow_or(self.flow, rhs.flow);
        self.invalidate = invalidate_max(self.invalidate, rhs.invalidate);
    }
}

} // verus!
