//! Typing ownership: which editor receives typed text this frame,
//! published as frame metadata independent of navigation focus.

use vstd::prelude::*;

use crate::diagnostics::Diagnostic;
use crate::geometry::Rect;
use crate::id::Id;
use crate::layer::LayerId;
use crate::response::StateFlags;

verus! {

/// How a text control participates in typing ownership.
#[derive(Clone, Copy, Debug, Default, PartialEq, Eq, Structural)]
pub enum TypingPolicy {
    /// Receive typing through ordinary focus ownership.
    #[default]
    Focused,
    /// Receive text and editing bindings when primary focus is not an editor.
    Fallback {
        /// Also retain this editor's caret while it owns fallback typing.
        cursor: bool,
    },
}

/// What the last frame's focus ring holds for one control, with what
/// typing ownership reads of the registry and the active trap.
#[derive(Clone, Copy, Debug, PartialEq, Eq, Structural)]
pub struct RingEntry {
    /// The control.
    pub owner: Id,
    /// Registered but disabled.
    pub disabled: bool,
    /// Its area.
    pub area: Rect,
    /// The layer its scope belongs to.
    pub layer: LayerId,
    /// Whether it takes typed text while focused.
    pub swallows_typing: bool,
    /// The layer the registry has it on, if registered.
    pub registered: Option<LayerId>,
    /// No trap is active, or its scope lies within the active trap.
    pub in_trap: bool,
}

/// An editor's request for fallback typing.
#[derive(Clone, Copy, Debug, PartialEq, Eq, Structural)]
pub struct TypingDeclaration {
    /// The editor.
    pub owner: Id,
    /// The layer it was drawn on.
    pub layer: LayerId,
    /// Whether it keeps its caret while it owns fallback typing.
    pub cursor: bool,
}

/// What typing ownership reads of a frame.
#[derive(Clone, Debug)]
pub struct TypingFrame {
    /// The top layer.
    pub top: LayerId,
    /// The focus ring's entries.
    pub ring: Vec<RingEntry>,
    /// State flags the controls declared, by owner.
    pub declared: Vec<(Id, StateFlags)>,
    /// Fallback typing requests, in declaration order.
    pub typing: Vec<TypingDeclaration>,
}

/// Who types this frame.
#[derive(Clone, Copy, Debug, Default, PartialEq, Eq, Structural)]
pub struct TypingResolved {
    /// The editor that receives text, if any.
    pub owner: Option<Id>,
    /// The same editor, when it holds typing as a fallback.
    pub fallback: Option<Id>,
    /// The control whose caret is kept.
    pub cursor: Option<Id>,
}

/// The first ring entry at or after `i` for `owner`.
pub open spec fn entry_of(ring: Seq<RingEntry>, owner: Id, i: int) -> Option<RingEntry>
    decreases ring.len() - i,
{
    if i < 0 || i >= ring.len() {
        None
    } else if ring[i].owner == owner {
        Some(ring[i])
    } else {
        entry_of(ring, owner, i + 1)
    }
}

/// The flags `owner` first declared at or after `i`, or none.
pub open spec fn flags_of(declared: Seq<(Id, StateFlags)>, owner: Id, i: int) -> u16
    decreases declared.len() - i,
{
    if i < 0 || i >= declared.len() {
        0
    } else if declared[i].0 == owner {
        declared[i].1.spec_bits()
    } else {
        flags_of(declared, owner, i + 1)
    }
}

/// A control may own typing: it is in the ring, enabled, has an area, sits
/// on the top layer where the registry has it, and is within the active
/// trap.
pub open spec fn is_admissible(top: LayerId, ring: Seq<RingEntry>, owner: Id) -> bool {
    match entry_of(ring, owner, 0) {
        Some(e) => !e.disabled && !(e.area.width == 0 || e.area.height == 0) && e.layer == top && e.registered
            == Some(e.layer) && e.in_trap,
        None => false,
    }
}

/// The control takes typed text while focused.
pub open spec fn swallows(ring: Seq<RingEntry>, owner: Id) -> bool {
    entry_of(ring, owner, 0) matches Some(e) && e.swallows_typing
}

/// An admissible text control with an edit in flight, neither read-only
/// nor disabled.
pub open spec fn is_editable(top: LayerId, ring: Seq<RingEntry>, declared: Seq<(Id, StateFlags)>, owner: Id) -> bool {
    let f = flags_of(declared, owner, 0);
    is_admissible(top, ring, owner) && swallows(ring, owner) && f & 4096 == 4096 && f & 384 == 0
}

/// The fallback requests among `decls` that could take typing: on the top
/// layer and editable, in declaration order.
pub open spec fn candidates(
    top: LayerId,
    ring: Seq<RingEntry>,
    declared: Seq<(Id, StateFlags)>,
    decls: Seq<TypingDeclaration>,
) -> Seq<TypingDeclaration>
    decreases decls.len(),
{
    if decls.len() == 0 {
        Seq::empty()
    } else {
        let c = candidates(top, ring, declared, decls.drop_last());
        let d = decls.last();
        if d.layer == top && is_editable(top, ring, declared, d.owner) { c.push(d) } else { c }
    }
}

/// One conflict for each candidate after the first, naming the first.
pub open spec fn conflicts(cs: Seq<TypingDeclaration>, top: LayerId) -> Seq<Diagnostic> {
    if cs.len() <= 1 {
        Seq::empty()
    } else {
        Seq::new((cs.len() - 1) as nat, |i: int| Diagnostic::TypingTargetConflict { a: cs[0].owner, b: cs[i + 1].owner, layer: top })
    }
}

/// Who types, given the focused control: a focused text control keeps
/// typing to itself (when editable) so text never leaks into another
/// field; otherwise a single candidate takes it as a fallback, and two or
/// more take nothing. The caret stays with the admissible focus unless a
/// read-only focused editor or a caret-keeping fallback decides otherwise.
pub open spec fn resolve_spec(
    top: LayerId,
    ring: Seq<RingEntry>,
    declared: Seq<(Id, StateFlags)>,
    decls: Seq<TypingDeclaration>,
    focus: Option<Id>,
) -> TypingResolved {
    let f = match focus {
        Some(o) => if is_admissible(top, ring, o) { Some(o) } else { None },
        None => None,
    };
    let cs = candidates(top, ring, declared, decls);
    if f matches Some(o) && swallows(ring, o) {
        let o = f.unwrap();
        TypingResolved {
            owner: if is_editable(top, ring, declared, o) { Some(o) } else { None },
            fallback: None,
            cursor: if flags_of(declared, o, 0) & 256 == 256 { None } else { f },
        }
    } else if cs.len() == 1 {
        TypingResolved {
            owner: Some(cs[0].owner),
            fallback: Some(cs[0].owner),
            cursor: if cs[0].cursor { Some(cs[0].owner) } else { f },
        }
    } else {
        TypingResolved { owner: None, fallback: None, cursor: f }
    }
}

fn entry(ring: &Vec<RingEntry>, owner: Id) -> (r: Option<RingEntry>)
    ensures
        r == entry_of(ring@, owner, 0),
{
    let mut i: usize = 0;
    while i < ring.len()
        invariant
            i <= ring@.len(),
            entry_of(ring@, owner, 0) == entry_of(ring@, owner, i as int),
        decreases ring@.len() - i,
    {
        if ring[i].owner == owner {
            return Some(ring[i]);
        }
        i = i + 1;
    }
    None
}

/// The flags `owner` declared this frame (none when it declared nothing).
pub fn flags(frame: &TypingFrame, owner: Id) -> (f: StateFlags)
    ensures
        f.spec_bits() == flags_of(frame.declared@, owner, 0),
{
    let mut i: usize = 0;
    while i < frame.declared.len()
        invariant
            i <= frame.declared@.len(),
            flags_of(frame.declared@, owner, 0) == flags_of(frame.declared@, owner, i as int),
        decreases frame.declared@.len() - i,
    {
        if frame.declared[i].0 == owner {
            return frame.declared[i].1;
        }
        i = i + 1;
    }
    StateFlags::empty()
}

/// Whether `owner` may own typing this frame.
pub fn admissible(frame: &TypingFrame, owner: Id) -> (b: bool)
    ensures
        b == is_admissible(frame.top, frame.ring@, owner),
{
    match entry(&frame.ring, owner) {
        Some(e) => !e.disabled && !e.area.is_empty() && e.layer == frame.top && e.registered == Some(e.layer) && e.in_trap,
        None => false,
    }
}

/// Whether `owner` is an editable text control this frame.
pub fn editable(frame: &TypingFrame, owner: Id) -> (b: bool)
    ensures
        b == is_editable(frame.top, frame.ring@, frame.declared@, owner),
{
    if !admissible(frame, owner) {
        return false;
    }
    let swallows = match entry(&frame.ring, owner) {
        Some(e) => e.swallows_typing,
        None => false,
    };
    let f = flags(frame, owner).bits();
    swallows && f & 4096 == 4096 && f & 384 == 0
}

/// Resolve who types this frame, reporting each extra fallback candidate
/// as a conflict.
pub fn resolve(frame: &TypingFrame, focus: Option<Id>, diagnostics: &mut Vec<Diagnostic>) -> (r: TypingResolved)
    ensures
        r == resolve_spec(frame.top, frame.ring@, frame.declared@, frame.typing@, focus),
        final(diagnostics)@ == old(diagnostics)@ + conflicts(
            candidates(frame.top, frame.ring@, frame.declared@, frame.typing@),
            frame.top,
        ),
{
    let focus = match focus {
        Some(o) => if admissible(frame, o) { Some(o) } else { None },
        None => None,
    };
    let ghost top = frame.top;
    let ghost ring = frame.ring@;
    let ghost declared = frame.declared@;
    let mut candidate: Option<TypingDeclaration> = None;
    let mut count: usize = 0;
    let mut i: usize = 0;
    while i < frame.typing.len()
        invariant
            i <= frame.typing@.len(),
            top == frame.top,
            ring == frame.ring@,
            declared == frame.declared@,
            ({
                let cs = candidates(top, ring, declared, frame.typing@.take(i as int));
                &&& count == cs.len()
                &&& count <= i
                &&& (count == 0 <==> candidate is None)
                &&& count > 0 ==> candidate == Some(cs[0])
                &&& diagnostics@ == old(diagnostics)@ + conflicts(cs, top)
            }),
        decreases frame.typing@.len() - i,
    {
        let d = frame.typing[i];
        let ghost before = candidates(top, ring, declared, frame.typing@.take(i as int));
        proof {
            assert(frame.typing@.take(i as int + 1).drop_last() =~= frame.typing@.take(i as int));
        }
        if d.layer == frame.top && editable(frame, d.owner) {
            match candidate {
                Some(first) => {
                    diagnostics.push(Diagnostic::TypingTargetConflict { a: first.owner, b: d.owner, layer: frame.top });
                    proof {
                        let after = before.push(d);
                        assert(conflicts(after, top) =~= conflicts(before, top).push(
                            Diagnostic::TypingTargetConflict { a: first.owner, b: d.owner, layer: top },
                        ));
                    }
                },
                None => {
                    candidate = Some(d);
                    proof {
                        assert(conflicts(before.push(d), top) =~= Seq::<Diagnostic>::empty());
                    }
                },
            }
            count = count + 1;
        }
        i = i + 1;
    }
    proof {
        assert(frame.typing@.take(frame.typing@.len() as int) =~= frame.typing@);
    }
    if let Some(owner) = focus {
        let swallows = match entry(&frame.ring, owner) {
            Some(e) => e.swallows_typing,
            None => false,
        };
        if swallows {
            let owns = if editable(frame, owner) { Some(owner) } else { None };
            let read_only = flags(frame, owner).bits() & 256 == 256;
            return TypingResolved { owner: owns, fallback: None, cursor: if read_only { None } else { focus } };
        }
    }
    if count == 1 {
        let c = candidate.unwrap();
        return TypingResolved { owner: Some(c.owner), fallback: Some(c.owner), cursor: if c.cursor { Some(c.owner) } else { focus } };
    }
    TypingResolved { owner: None, fallback: None, cursor: focus }
}

proof fn lemma_candidates_editable(
    top: LayerId,
    ring: Seq<RingEntry>,
    declared: Seq<(Id, StateFlags)>,
    decls: Seq<TypingDeclaration>,
)
    ensures
        forall|i: int|
            0 <= i < candidates(top, ring, declared, decls).len() ==> {
                let c = #[trigger] candidates(top, ring, declared, decls)[i];
                c.layer == top && is_editable(top, ring, declared, c.owner)
            },
        candidates(top, ring, declared, decls).len() <= decls.len(),
    decreases decls.len(),
{
    if decls.len() > 0 {
        lemma_candidates_editable(top, ring, declared, decls.drop_last());
    }
}

/// Typing goes only to an editable text control; a fallback owner is the
/// typing owner, and it is a candidate on the top layer.
pub proof fn law_typing_owner_is_editable(
    top: LayerId,
    ring: Seq<RingEntry>,
    declared: Seq<(Id, StateFlags)>,
    decls: Seq<TypingDeclaration>,
    focus: Option<Id>,
)
    ensures
        resolve_spec(top, ring, declared, decls, focus).owner matches Some(o) ==> is_editable(top, ring, declared, o),
        resolve_spec(top, ring, declared, decls, focus).fallback matches Some(o) ==> resolve_spec(
            top,
            ring,
            declared,
            decls,
            focus,
        ).owner == Some(o),
{
    lemma_candidates_editable(top, ring, declared, decls);
}

/// A focused text control keeps typing from leaking into another field:
/// when the admissible focus takes typed text, no fallback is chosen and
/// typing goes to the focus or nowhere, even if it is read-only or idle.
pub proof fn law_focused_editor_blocks_fallback(
    top: LayerId,
    ring: Seq<RingEntry>,
    declared: Seq<(Id, StateFlags)>,
    decls: Seq<TypingDeclaration>,
    o: Id,
)
    requires
        is_admissible(top, ring, o),
        swallows(ring, o),
    ensures
        resolve_spec(top, ring, declared, decls, Some(o)).fallback is None,
        resolve_spec(top, ring, declared, decls, Some(o)).owner is None || resolve_spec(
            top,
            ring,
            declared,
            decls,
            Some(o),
        ).owner == Some(o),
{
}

/// Two or more fallback candidates are ambiguous: with no focused text
/// control, nobody types, and each candidate after the first is reported.
pub proof fn law_ambiguous_fallback_types_nowhere(
    top: LayerId,
    ring: Seq<RingEntry>,
    declared: Seq<(Id, StateFlags)>,
    decls: Seq<TypingDeclaration>,
    focus: Option<Id>,
)
    requires
        candidates(top, ring, declared, decls).len() >= 2,
        !(focus matches Some(o) && is_admissible(top, ring, o) && swallows(ring, o)),
    ensures
        resolve_spec(top, ring, declared, decls, focus).owner is None,
        resolve_spec(top, ring, declared, decls, focus).fallback is None,
        conflicts(candidates(top, ring, declared, decls), top).len() == candidates(top, ring, declared, decls).len() - 1,
{
}

} // verus!
