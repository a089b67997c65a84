//! Keymaps, bindings and hints.
//!
//! Components declare bindings from small tables selected by state; an
//! application overrides and adds product chords through [`KeyMap`] in two
//! explicit phases. Hints are derived from the same tables.

use core::any::TypeId;

use vstd::prelude::*;
use vstd::string::StringSliceAdditionalSpecFns;

use crate::action::ActionKey;
use crate::diagnostics::Diagnostic;
use crate::id::{fnv1a_spec, Id, FNV_OFFSET};
use crate::keys::{spec_is_bare_char, Chord, Key};
use crate::layer::LayerId;
use crate::response::StateFlags;

verus! {

/// The phase in which an application chord is matched.
#[derive(Clone, Copy, PartialEq, Eq, Structural, Debug, Hash)]
pub enum KeyPhase {
    /// Before dispatch; a bare `Char` chord is skipped while the focused
    /// control swallows typing.
    Capture,
    /// After dispatch, for keys no component consumed.
    Bubble,
}

/// The state a binding table is selected for.
#[derive(Clone, Copy, PartialEq, Eq, Structural, Debug, Default)]
pub struct BindingState {
    /// The live flags.
    pub flags: StateFlags,
}

/// One chord → command binding in a component's table.
#[derive(Clone, Copy, Debug, PartialEq, Eq)]
pub struct Binding<C: 'static> {
    /// Stable identity used by component-scoped overrides and dispatch.
    pub action: ActionKey,
    /// The default chord. `None` declares a latent action that the
    /// application's [`KeyMap`] can bind.
    pub chord: Option<Chord>,
    /// The command; `update` maps it to the emitted action.
    pub cmd: C,
    /// The hint label.
    pub label: &'static str,
    /// Hint priority; higher survives width pressure longer.
    pub priority: u8,
    /// Whether the hint bar shows it.
    pub visible: bool,
}

/// The index of the first binding of `action` in `t` at or after `i`, or
/// `-1`.
pub open spec fn find_action<C>(t: Seq<Binding<C>>, action: ActionKey, i: int) -> int
    decreases t.len() - i,
{
    if i < 0 || i >= t.len() {
        -1
    } else if t[i].action == action {
        i
    } else {
        find_action(t, action, i + 1)
    }
}

impl<C: Copy + 'static> Binding<C> {
    /// Find the command identified by `action` in `table`.
    pub fn command(table: &[Binding<C>], action: ActionKey) -> (r: Option<C>)
        ensures
            ({
                let k = find_action(table@, action, 0);
                if k >= 0 { r == Some(table@[k].cmd) } else { r is None }
            }),
    {
        let mut i: usize = 0;
        while i < table.len()
            invariant
                i <= table@.len(),
                find_action(table@, action, 0) == find_action(table@, action, i as int),
            decreases table@.len() - i,
        {
            if table[i].action == action {
                return Some(table[i].cmd);
            }
            i = i + 1;
        }
        None
    }
}

/// A component's binding tables, one per state.
pub trait Bindings {
    /// The command type.
    type Cmd: Copy + 'static;

    /// The table for `st`.
    fn bindings(&self, st: BindingState) -> &'static [Binding<Self::Cmd>];
}

/// The conflict reported for `chord` in `phase` between two bindings of
/// `owner`.
pub open spec fn conflict(chord: Chord, phase: KeyPhase, owner: Id) -> Diagnostic {
    Diagnostic::BindingConflict { chord, phase, a: owner, b: owner }
}

/// Whether a binding after `i` has chord `c`.
pub open spec fn chord_again<C>(t: Seq<Binding<C>>, i: int, c: Chord) -> bool {
    exists|j: int| i < j < t.len() && #[trigger] t[j].chord == Some(c)
}

/// The conflicts among the first `n` bindings of a table: one for each
/// binding whose chord a later binding repeats.
pub open spec fn table_conflicts<C>(owner: Id, phase: KeyPhase, t: Seq<Binding<C>>, n: int) -> Seq<Diagnostic>
    decreases n,
{
    if n <= 0 {
        Seq::empty()
    } else {
        let rest = table_conflicts(owner, phase, t, n - 1);
        match t[n - 1].chord {
            Some(c) => if chord_again(t, n - 1, c) { rest.push(conflict(c, phase, owner)) } else { rest },
            None => rest,
        }
    }
}

/// Bindings on the same effective chord within one table are a conflict.
pub fn binding_conflicts<C: Copy + 'static>(owner: Id, phase: KeyPhase, table: &[Binding<C>]) -> (out: Vec<Diagnostic>)
    ensures
        out@ == table_conflicts(owner, phase, table@, table@.len() as int),
{
    let mut out: Vec<Diagnostic> = Vec::new();
    let mut i: usize = 0;
    while i < table.len()
        invariant
            i <= table@.len(),
            out@ == table_conflicts(owner, phase, table@, i as int),
        decreases table@.len() - i,
    {
        if let Some(chord) = table[i].chord {
            let mut dup = false;
            let mut j: usize = i + 1;
            while j < table.len()
                invariant
                    i < j <= table@.len(),
                    dup == exists|k: int| i < k < j && #[trigger] table@[k].chord == Some(chord),
                decreases table@.len() - j,
            {
                let same = match table[j].chord {
                    Some(c) => c == chord,
                    None => false,
                };
                if same {
                    dup = true;
                }
                j = j + 1;
            }
            if dup {
                out.push(Diagnostic::BindingConflict { chord, phase, a: owner, b: owner });
            }
        }
        i = i + 1;
    }
    out
}

// ---------------------------------------------------------------------------
// The application's key map.
// ---------------------------------------------------------------------------

/// One application binding.
#[derive(Clone, Copy, Debug, PartialEq, Eq, Structural)]
pub struct Entry {
    /// The phase it is matched in.
    pub phase: KeyPhase,
    /// The chord.
    pub chord: Chord,
    /// The action it issues.
    pub key: ActionKey,
}

/// One component-scoped override: the effective chord of a component
/// action (`None` suppresses it).
#[derive(Clone, Copy, Debug, PartialEq, Eq, Structural)]
pub struct ComponentEntry {
    /// The component.
    pub owner: Id,
    /// Its action.
    pub action: ActionKey,
    /// The effective chord.
    pub chord: Option<Chord>,
}

/// The application's chord layer: add, remove and remap per phase.
#[derive(Clone, Debug, Default, PartialEq, Eq)]
pub struct KeyMap {
    entries: Vec<Entry>,
    components: Vec<ComponentEntry>,
}

/// The id reported as the owner of a key map binding in diagnostics.
pub open spec fn keymap_owner() -> Id {
    Id(fnv1a_spec(FNV_OFFSET, "tui.keymap".spec_bytes()))
}

/// The entries left after removing `chord` from `phase`.
pub open spec fn without(es: Seq<Entry>, phase: KeyPhase, chord: Chord) -> Seq<Entry> {
    es.filter(|e: Entry| !(e.phase == phase && e.chord == chord))
}

/// An entry moved from `from` to `to` in `phase`.
pub open spec fn moved(e: Entry, phase: KeyPhase, from: Chord, to: Chord) -> Entry {
    if e.phase == phase && e.chord == from { Entry { phase: e.phase, chord: to, key: e.key } } else { e }
}

/// The index of the first override of `(owner, action)` at or after `i`,
/// or `-1`.
pub open spec fn first_override(cs: Seq<ComponentEntry>, owner: Id, action: ActionKey, i: int) -> int
    decreases cs.len() - i,
{
    if i < 0 || i >= cs.len() {
        -1
    } else if cs[i].owner == owner && cs[i].action == action {
        i
    } else {
        first_override(cs, owner, action, i + 1)
    }
}

/// The index of the last override of `(owner, action)` before `n`, or `-1`.
pub open spec fn last_override(cs: Seq<ComponentEntry>, owner: Id, action: ActionKey, n: int) -> int
    decreases n,
{
    if n <= 0 || n > cs.len() {
        -1
    } else if cs[n - 1].owner == owner && cs[n - 1].action == action {
        n - 1
    } else {
        last_override(cs, owner, action, n - 1)
    }
}

/// The overrides after setting the effective chord of `(owner, action)`.
pub open spec fn overridden(cs: Seq<ComponentEntry>, owner: Id, action: ActionKey, chord: Option<Chord>) -> Seq<ComponentEntry> {
    let k = first_override(cs, owner, action, 0);
    let e = ComponentEntry { owner, action, chord };
    if k >= 0 { cs.update(k, e) } else { cs.push(e) }
}

/// The effective chord of `(owner, action)`: its override, else `default`.
pub open spec fn effective(cs: Seq<ComponentEntry>, owner: Id, action: ActionKey, default: Option<Chord>) -> Option<Chord> {
    let k = last_override(cs, owner, action, cs.len() as int);
    if k >= 0 { cs[k].chord } else { default }
}

/// Whether entry `e` answers `key` in `phase`.
pub open spec fn answers(e: Entry, phase: KeyPhase, key: Key, swallows_typing: bool) -> bool {
    &&& e.phase == phase
    &&& !(phase is Capture && swallows_typing && spec_is_bare_char(e.chord))
    &&& e.chord.code == key.code
    &&& e.chord.mods == key.mods
}

/// The action of the first entry at or after `i` that answers `key`.
pub open spec fn lookup_from(es: Seq<Entry>, phase: KeyPhase, key: Key, swallows_typing: bool, i: int) -> Option<ActionKey>
    decreases es.len() - i,
{
    if i < 0 || i >= es.len() {
        None
    } else if answers(es[i], phase, key, swallows_typing) {
        Some(es[i].key)
    } else {
        lookup_from(es, phase, key, swallows_typing, i + 1)
    }
}

/// Whether an entry after `i` repeats entry `i`'s phase and chord.
pub open spec fn entry_again(es: Seq<Entry>, i: int) -> bool {
    exists|j: int| i < j < es.len() && #[trigger] es[j].phase == es[i].phase && es[j].chord == es[i].chord
}

/// The conflicts among the first `n` entries.
pub open spec fn entry_conflicts(es: Seq<Entry>, n: int) -> Seq<Diagnostic>
    decreases n,
{
    if n <= 0 {
        Seq::empty()
    } else {
        let rest = entry_conflicts(es, n - 1);
        if entry_again(es, n - 1) {
            rest.push(Diagnostic::BindingConflict {
                chord: es[n - 1].chord,
                phase: es[n - 1].phase,
                a: keymap_owner(),
                b: keymap_owner(),
            })
        } else {
            rest
        }
    }
}

/// No component action has two overrides.
pub open spec fn overrides_unique(cs: Seq<ComponentEntry>) -> bool {
    forall|i: int, j: int| 0 <= i < j < cs.len() ==>
        !(#[trigger] cs[i].owner == #[trigger] cs[j].owner && cs[i].action == cs[j].action)
}

proof fn lemma_first_override(cs: Seq<ComponentEntry>, owner: Id, action: ActionKey, i: int)
    requires
        0 <= i,
    ensures
        ({
            let k = first_override(cs, owner, action, i);
            &&& k == -1 || (i <= k < cs.len() && cs[k].owner == owner && cs[k].action == action)
            &&& k == -1 ==> forall|j: int| i <= j < cs.len() ==> !(#[trigger] cs[j].owner == owner && cs[j].action == action)
        }),
    decreases cs.len() - i,
{
    if i < cs.len() && !(cs[i].owner == owner && cs[i].action == action) {
        lemma_first_override(cs, owner, action, i + 1);
    }
}

proof fn lemma_last_override_only(cs: Seq<ComponentEntry>, owner: Id, action: ActionKey, k: int, n: int)
    requires
        0 <= k < n <= cs.len(),
        cs[k].owner == owner && cs[k].action == action,
        forall|j: int| k < j < n ==> !(#[trigger] cs[j].owner == owner && cs[j].action == action),
    ensures
        last_override(cs, owner, action, n) == k,
    decreases n,
{
    if n - 1 > k {
        lemma_last_override_only(cs, owner, action, k, n - 1);
    }
}

/// Setting a component action's chord and reading it back gives the chord
/// set, whatever its default; and no action ever gets two overrides.
pub proof fn law_override_round_trip(
    cs: Seq<ComponentEntry>,
    owner: Id,
    action: ActionKey,
    chord: Option<Chord>,
    default: Option<Chord>,
)
    requires
        overrides_unique(cs),
    ensures
        effective(overridden(cs, owner, action, chord), owner, action, default) == chord,
        overrides_unique(overridden(cs, owner, action, chord)),
{
    lemma_first_override(cs, owner, action, 0);
    let k = first_override(cs, owner, action, 0);
    let e = ComponentEntry { owner, action, chord };
    let next = overridden(cs, owner, action, chord);
    if k >= 0 {
        assert forall|j: int| k < j < next.len() implies !(#[trigger] next[j].owner == owner && next[j].action == action) by {
            assert(next[j] == cs[j]);
        }
        lemma_last_override_only(next, owner, action, k, next.len() as int);
        assert forall|i: int, j: int| 0 <= i < j < next.len() implies
            !(#[trigger] next[i].owner == #[trigger] next[j].owner && next[i].action == next[j].action) by {
            if i != k && j != k {
                assert(next[i] == cs[i] && next[j] == cs[j]);
            } else if i == k {
                assert(next[j] == cs[j]);
            } else {
                assert(next[i] == cs[i]);
            }
        }
    } else {
        assert(next[next.len() - 1] == e);
        assert forall|i: int, j: int| 0 <= i < j < next.len() implies
            !(#[trigger] next[i].owner == #[trigger] next[j].owner && next[i].action == next[j].action) by {
            if j < cs.len() {
                assert(next[i] == cs[i] && next[j] == cs[j]);
            } else {
                assert(next[i] == cs[i]);
            }
        }
    }
}

proof fn lemma_lookup_none(es: Seq<Entry>, phase: KeyPhase, key: Key, swallows_typing: bool, i: int)
    requires
        0 <= i,
        forall|j: int| i <= j < es.len() ==> !answers(#[trigger] es[j], phase, key, swallows_typing),
    ensures
        lookup_from(es, phase, key, swallows_typing, i) is None,
    decreases es.len() - i,
{
    if i < es.len() {
        lemma_lookup_none(es, phase, key, swallows_typing, i + 1);
    }
}

/// After a chord is removed from a phase, no key that chord stands for
/// finds a binding in that phase.
pub proof fn law_removed_chord_never_answers(es: Seq<Entry>, phase: KeyPhase, chord: Chord, key: Key, swallows_typing: bool)
    requires
        chord.code == key.code,
        chord.mods == key.mods,
    ensures
        lookup_from(without(es, phase, chord), phase, key, swallows_typing, 0) is None,
{
    let kept = without(es, phase, chord);
    let keep = |e: Entry| !(e.phase == phase && e.chord == chord);
    broadcast use vstd::seq_lib::group_filter_ensures;

    assert forall|j: int| 0 <= j < kept.len() implies !answers(#[trigger] kept[j], phase, key, swallows_typing) by {
        assert(keep(kept[j]));
        if answers(kept[j], phase, key, swallows_typing) {
            assert(kept[j].chord == chord);
        }
    }
    lemma_lookup_none(kept, phase, key, swallows_typing, 0);
}

impl KeyMap {
    /// Each component action has at most one override, so the first and
    /// the last override of an action are the same one.
    pub open spec fn wf(&self) -> bool {
        overrides_unique(self.spec_components())
    }

    /// The application bindings, in insertion order.
    pub closed spec fn spec_entries(&self) -> Seq<Entry> {
        self.entries@
    }

    /// The component overrides.
    pub closed spec fn spec_components(&self) -> Seq<ComponentEntry> {
        self.components@
    }

    /// The id reported as the owner of a key map binding in diagnostics.
    pub fn owner() -> (id: Id)
        ensures
            id == keymap_owner(),
    {
        Id::root("tui.keymap")
    }

    /// An empty, growable map.
    pub fn new() -> (m: KeyMap)
        ensures
            m.wf(),
            m.spec_entries() == Seq::<Entry>::empty(),
            m.spec_components() == Seq::<ComponentEntry>::empty(),
    {
        KeyMap { entries: Vec::new(), components: Vec::new() }
    }

    /// Bind `chord` to `key` in `phase`.
    pub fn bind(self, phase: KeyPhase, chord: Chord, key: ActionKey) -> (m: KeyMap)
        ensures
            m.spec_entries() == self.spec_entries().push(Entry { phase, chord, key }),
            m.spec_components() == self.spec_components(),
    {
        let mut m = self;
        m.add(phase, chord, key);
        m
    }

    /// Bind in place.
    pub fn add(&mut self, phase: KeyPhase, chord: Chord, key: ActionKey)
        ensures
            final(self).spec_entries() == old(self).spec_entries().push(Entry { phase, chord, key }),
            final(self).spec_components() == old(self).spec_components(),
    {
        self.entries.push(Entry { phase, chord, key });
    }

    /// Remove every binding of `chord` in `phase`.
    pub fn remove(&mut self, phase: KeyPhase, chord: Chord)
        ensures
            final(self).spec_entries() == without(old(self).spec_entries(), phase, chord),
            final(self).spec_components() == old(self).spec_components(),
    {
        let mut kept: Vec<Entry> = Vec::new();
        let mut i: usize = 0;
        let ghost es = self.entries@;
        while i < self.entries.len()
            invariant
                self.entries@ == es,
                i <= es.len(),
                kept@ == without(es.take(i as int), phase, chord),
            decreases es.len() - i,
        {
            let e = self.entries[i];
            proof {
                assert(es.take(i as int + 1) =~= es.take(i as int).push(e));
                es.take(i as int).lemma_filter_push(e, |x: Entry| !(x.phase == phase && x.chord == chord));
            }
            if !(e.phase == phase && e.chord == chord) {
                kept.push(e);
            }
            i = i + 1;
        }
        proof {
            assert(es.take(es.len() as int) =~= es);
        }
        self.entries = kept;
    }

    /// Move every binding of `from` in `phase` onto `to`.
    pub fn remap(&mut self, phase: KeyPhase, from: Chord, to: Chord)
        ensures
            final(self).spec_entries().len() == old(self).spec_entries().len(),
            forall|i: int| 0 <= i < old(self).spec_entries().len() ==>
                #[trigger] final(self).spec_entries()[i] == moved(old(self).spec_entries()[i], phase, from, to),
            final(self).spec_components() == old(self).spec_components(),
    {
        let mut i: usize = 0;
        let ghost es = self.entries@;
        while i < self.entries.len()
            invariant
                self.entries@.len() == es.len(),
                self.components@ == old(self).components@,
                es == old(self).entries@,
                i <= es.len(),
                forall|k: int| 0 <= k < i ==> #[trigger] self.entries@[k] == moved(es[k], phase, from, to),
                forall|k: int| i <= k < es.len() ==> #[trigger] self.entries@[k] == es[k],
            decreases es.len() - i,
        {
            let e = self.entries[i];
            if e.phase == phase && e.chord == from {
                self.entries.set(i, Entry { phase: e.phase, chord: to, key: e.key });
            }
            i = i + 1;
        }
    }

    /// Bind a component action, including one whose default chord is latent.
    pub fn bind_component(self, owner: Id, action: ActionKey, chord: Chord) -> (m: KeyMap)
        requires
            self.wf(),
        ensures
            m.wf(),
            m.spec_entries() == self.spec_entries(),
            m.spec_components() == overridden(self.spec_components(), owner, action, Some(chord)),
    {
        let mut m = self;
        m.remap_component(owner, action, chord);
        m
    }

    /// Replace the effective chord for one component action.
    pub fn remap_component(&mut self, owner: Id, action: ActionKey, chord: Chord)
        requires
            old(self).wf(),
        ensures
            final(self).wf(),
            final(self).spec_entries() == old(self).spec_entries(),
            final(self).spec_components() == overridden(old(self).spec_components(), owner, action, Some(chord)),
    {
        proof {
            law_override_round_trip(self.spec_components(), owner, action, Some(chord), None);
        }
        self.set_component(owner, action, Some(chord));
    }

    /// Suppress one component action's default chord and hint.
    pub fn remove_component(&mut self, owner: Id, action: ActionKey)
        requires
            old(self).wf(),
        ensures
            final(self).wf(),
            final(self).spec_entries() == old(self).spec_entries(),
            final(self).spec_components() == overridden(old(self).spec_components(), owner, action, None),
    {
        proof {
            law_override_round_trip(self.spec_components(), owner, action, None, None);
        }
        self.set_component(owner, action, None);
    }

    fn set_component(&mut self, owner: Id, action: ActionKey, chord: Option<Chord>)
        ensures
            final(self).spec_entries() == old(self).spec_entries(),
            final(self).spec_components() == overridden(old(self).spec_components(), owner, action, chord),
    {
        let mut i: usize = 0;
        while i < self.components.len()
            invariant
                self.components@ == old(self).components@,
                self.entries@ == old(self).entries@,
                i <= self.components@.len(),
                first_override(self.components@, owner, action, 0) == first_override(self.components@, owner, action, i as int),
            decreases self.components@.len() - i,
        {
            let e = self.components[i];
            if e.owner == owner && e.action == action {
                self.components.set(i, ComponentEntry { owner, action, chord });
                return;
            }
            i = i + 1;
        }
        self.components.push(ComponentEntry { owner, action, chord });
    }

    /// The effective chord of a component action: the application's
    /// override if there is one, else `default`.
    pub fn component_chord(&self, owner: Id, action: ActionKey, default: Option<Chord>) -> (r: Option<Chord>)
        ensures
            r == effective(self.spec_components(), owner, action, default),
    {
        let mut n: usize = self.components.len();
        while n > 0
            invariant
                n <= self.components@.len(),
                last_override(self.components@, owner, action, self.components@.len() as int)
                    == last_override(self.components@, owner, action, n as int),
            decreases n,
        {
            let e = self.components[n - 1];
            if e.owner == owner && e.action == action {
                return e.chord;
            }
            n = n - 1;
        }
        default
    }

    /// The first binding of `table` whose effective chord answers `key`.
    pub fn component_binding(&self, owner: Id, table: &[BindingDescriptor], key: &Key) -> (r: Option<(ActionKey, Chord)>)
        ensures
            r == component_binding_from(self.spec_components(), owner, table@, *key, 0),
    {
        let mut i: usize = 0;
        while i < table.len()
            invariant
                i <= table@.len(),
                component_binding_from(self.spec_components(), owner, table@, *key, 0)
                    == component_binding_from(self.spec_components(), owner, table@, *key, i as int),
            decreases table@.len() - i,
        {
            let b = table[i];
            if let Some(chord) = self.component_chord(owner, b.action, b.chord) {
                if chord.matches(key) {
                    return Some((b.action, chord));
                }
            }
            i = i + 1;
        }
        None
    }

    /// Two bindings of one component table on the same effective chord.
    pub fn component_conflicts(&self, owner: Id, table: &[BindingDescriptor]) -> (out: Vec<Diagnostic>)
        ensures
            out@ == descriptor_conflicts(self.spec_components(), owner, table@, table@.len() as int),
    {
        let mut out: Vec<Diagnostic> = Vec::new();
        let mut i: usize = 0;
        while i < table.len()
            invariant
                i <= table@.len(),
                out@ == descriptor_conflicts(self.spec_components(), owner, table@, i as int),
            decreases table@.len() - i,
        {
            let b = table[i];
            if let Some(chord) = self.component_chord(owner, b.action, b.chord) {
                let mut dup = false;
                let mut j: usize = i + 1;
                while j < table.len()
                    invariant
                        i < j <= table@.len(),
                        dup == exists|k: int| i < k < j && #[trigger] effective_at(self.spec_components(), owner, table@, k) == Some(chord),
                    decreases table@.len() - j,
                {
                    let other = table[j];
                    let same = match self.component_chord(owner, other.action, other.chord) {
                        Some(c) => c == chord,
                        None => false,
                    };
                    proof {
                        assert(other == table@[j as int]);
                        assert(same == (effective_at(self.spec_components(), owner, table@, j as int) == Some(chord)));
                    }
                    if same {
                        dup = true;
                    }
                    j = j + 1;
                }
                if dup {
                    out.push(Diagnostic::BindingConflict { chord, phase: KeyPhase::Bubble, a: owner, b: owner });
                }
            }
            i = i + 1;
        }
        out
    }

    /// The action bound to `key` in `phase`, if any. In the capture phase a
    /// bare `Char` chord is skipped while `swallows_typing`.
    pub fn lookup(&self, phase: KeyPhase, key: &Key, swallows_typing: bool) -> (r: Option<ActionKey>)
        ensures
            r == lookup_from(self.spec_entries(), phase, *key, swallows_typing, 0),
    {
        let mut i: usize = 0;
        while i < self.entries.len()
            invariant
                i <= self.entries@.len(),
                lookup_from(self.entries@, phase, *key, swallows_typing, 0)
                    == lookup_from(self.entries@, phase, *key, swallows_typing, i as int),
            decreases self.entries@.len() - i,
        {
            let e = self.entries[i];
            let skipped = matches!(phase, KeyPhase::Capture) && swallows_typing && e.chord.is_bare_char();
            if e.phase == phase && !skipped && e.chord.matches(key) {
                return Some(e.key);
            }
            i = i + 1;
        }
        None
    }

    /// Whether the map has no bindings.
    pub fn is_empty(&self) -> (b: bool)
        ensures
            b == (self.spec_entries().len() == 0 && self.spec_components().len() == 0),
    {
        self.entries.len() == 0 && self.components.len() == 0
    }

    /// Two bindings of the same chord in the same phase.
    pub fn conflicts(&self) -> (out: Vec<Diagnostic>)
        ensures
            out@ == entry_conflicts(self.spec_entries(), self.spec_entries().len() as int),
    {
        let owner = KeyMap::owner();
        let mut out: Vec<Diagnostic> = Vec::new();
        let mut i: usize = 0;
        while i < self.entries.len()
            invariant
                i <= self.entries@.len(),
                owner == keymap_owner(),
                out@ == entry_conflicts(self.entries@, i as int),
            decreases self.entries@.len() - i,
        {
            let a = self.entries[i];
            let mut dup = false;
            let mut j: usize = i + 1;
            while j < self.entries.len()
                invariant
                    i < j <= self.entries@.len(),
                    a == self.entries@[i as int],
                    dup == exists|k: int| i < k < j && #[trigger] self.entries@[k].phase == a.phase
                        && self.entries@[k].chord == a.chord,
                decreases self.entries@.len() - j,
            {
                let b = self.entries[j];
                if b.phase == a.phase && b.chord == a.chord {
                    dup = true;
                }
                j = j + 1;
            }
            if dup {
                out.push(Diagnostic::BindingConflict { chord: a.chord, phase: a.phase, a: owner, b: owner });
            }
            i = i + 1;
        }
        out
    }
}

/// The effective chord of descriptor `k` of a table.
pub open spec fn effective_at(cs: Seq<ComponentEntry>, owner: Id, t: Seq<BindingDescriptor>, k: int) -> Option<Chord> {
    effective(cs, owner, t[k].action, t[k].chord)
}

/// The first descriptor at or after `i` whose effective chord answers `key`.
pub open spec fn component_binding_from(cs: Seq<ComponentEntry>, owner: Id, t: Seq<BindingDescriptor>, key: Key, i: int) -> Option<(ActionKey, Chord)>
    decreases t.len() - i,
{
    if i < 0 || i >= t.len() {
        None
    } else {
        match effective_at(cs, owner, t, i) {
            Some(c) => if c.code == key.code && c.mods == key.mods {
                Some((t[i].action, c))
            } else {
                component_binding_from(cs, owner, t, key, i + 1)
            },
            None => component_binding_from(cs, owner, t, key, i + 1),
        }
    }
}

/// The conflicts among the first `n` descriptors' effective chords.
pub open spec fn descriptor_conflicts(cs: Seq<ComponentEntry>, owner: Id, t: Seq<BindingDescriptor>, n: int) -> Seq<Diagnostic>
    decreases n,
{
    if n <= 0 {
        Seq::empty()
    } else {
        let rest = descriptor_conflicts(cs, owner, t, n - 1);
        match effective_at(cs, owner, t, n - 1) {
            Some(c) => if exists|k: int| n - 1 < k < t.len() && #[trigger] effective_at(cs, owner, t, k) == Some(c) {
                rest.push(conflict(c, KeyPhase::Bubble, owner))
            } else {
                rest
            },
            None => rest,
        }
    }
}

// ---------------------------------------------------------------------------
// Hints.
// ---------------------------------------------------------------------------

/// One hint in the hint bar.
#[derive(Clone, Copy, Debug, PartialEq, Eq)]
pub struct Hint {
    /// The chord shown.
    pub chord: Chord,
    /// The label shown.
    pub label: &'static str,
    /// Higher survives width pressure longer.
    pub priority: u8,
}

/// A layer of hints contributed by a screen, a layer or a component.
#[derive(Clone, Debug, PartialEq, Eq, Default)]
pub struct HintLayer {
    /// The hints, in display order.
    pub hints: Vec<Hint>,
    /// An optional badge at the start.
    pub badge: Option<&'static str>,
    /// An optional status message.
    pub status: Option<String>,
    /// Centre the row instead of left-aligning it.
    pub centered: bool,
}

/// The hints of the visible bindings that have a chord, in table order.
pub open spec fn shown<C>(t: Seq<Binding<C>>) -> Seq<Hint>
    decreases t.len(),
{
    if t.len() == 0 {
        Seq::empty()
    } else {
        let rest = shown(t.drop_last());
        let b = t.last();
        match b.chord {
            Some(c) => if b.visible { rest.push(Hint { chord: c, label: b.label, priority: b.priority }) } else { rest },
            None => rest,
        }
    }
}

/// The hints of priority `p`, in order.
pub open spec fn with_priority(hs: Seq<Hint>, p: int) -> Seq<Hint> {
    hs.filter(|h: Hint| h.priority == p)
}

/// The hints of priority `p` and above, highest first, ties in order:
/// the stable sort by descending priority.
pub open spec fn from_priority(hs: Seq<Hint>, p: int) -> Seq<Hint>
    decreases 256 - p,
{
    if p > 255 { Seq::empty() } else { from_priority(hs, p + 1) + with_priority(hs, p) }
}

proof fn lemma_from_priority(hs: Seq<Hint>, p: int)
    requires
        0 <= p <= 256,
    ensures
        forall|i: int| 0 <= i < from_priority(hs, p).len() ==> #[trigger] from_priority(hs, p)[i].priority >= p,
        forall|i: int, j: int| 0 <= i < j < from_priority(hs, p).len() ==>
            #[trigger] from_priority(hs, p)[i].priority >= #[trigger] from_priority(hs, p)[j].priority,
    decreases 256 - p,
{
    if p <= 255 {
        lemma_from_priority(hs, p + 1);
        let hi = from_priority(hs, p + 1);
        let lo = with_priority(hs, p);
        broadcast use vstd::seq_lib::group_filter_ensures;

        let all = from_priority(hs, p);
        assert(all == hi + lo);
        assert forall|i: int| 0 <= i < all.len() implies #[trigger] all[i].priority >= p by {
            if i >= hi.len() {
                assert(all[i] == lo[i - hi.len()]);
            }
        }
        assert forall|i: int, j: int| 0 <= i < j < all.len() implies
            #[trigger] all[i].priority >= #[trigger] all[j].priority by {
            if j >= hi.len() {
                assert(all[j] == lo[j - hi.len()]);
                if i >= hi.len() {
                    assert(all[i] == lo[i - hi.len()]);
                } else {
                    assert(all[i] == hi[i]);
                }
            } else {
                assert(all[i] == hi[i] && all[j] == hi[j]);
            }
        }
    }
}

/// Derived hints come highest priority first.
pub proof fn law_hints_by_priority(hs: Seq<Hint>)
    ensures
        forall|i: int, j: int| 0 <= i < j < from_priority(hs, 0).len() ==>
            #[trigger] from_priority(hs, 0)[i].priority >= #[trigger] from_priority(hs, 0)[j].priority,
{
    lemma_from_priority(hs, 0);
}

impl HintLayer {
    /// No hints.
    pub fn empty() -> (h: HintLayer)
        ensures
            h.hints@.len() == 0,
            h.badge is None,
            h.status is None,
            !h.centered,
    {
        HintLayer { hints: Vec::new(), badge: None, status: None, centered: false }
    }

    /// Whether this layer contributes no visible content.
    pub fn is_empty(&self) -> (b: bool)
        ensures
            b == (self.hints@.len() == 0 && self.badge is None
                && (self.status matches Some(s) ==> s@.len() == 0)),
    {
        let quiet = match &self.status {
            Some(s) => {
                proof {
                    crate::text::unicode::lemma_byte_len_encode(s@);
                    crate::text::buffer::lemma_len_le_byte_len(s@);
                }
                s.as_str().as_bytes().len() == 0
            },
            None => true,
        };
        self.hints.len() == 0 && self.badge.is_none() && quiet
    }

    /// Derive hints from a binding table: visible bindings only, sorted by
    /// priority descending, ties by declaration order.
    pub fn from_bindings<C: Copy + 'static>(table: &[Binding<C>]) -> (h: HintLayer)
        ensures
            h.hints@ == from_priority(shown(table@), 0),
            h.badge is None,
            h.status is None,
            !h.centered,
    {
        let mut visible: Vec<Hint> = Vec::new();
        let mut i: usize = 0;
        while i < table.len()
            invariant
                i <= table@.len(),
                visible@ == shown(table@.take(i as int)),
            decreases table@.len() - i,
        {
            let b = table[i];
            proof {
                assert(table@.take(i as int + 1).drop_last() =~= table@.take(i as int));
            }
            if b.visible {
                if let Some(chord) = b.chord {
                    visible.push(Hint { chord, label: b.label, priority: b.priority });
                }
            }
            i = i + 1;
        }
        proof {
            assert(table@.take(table@.len() as int) =~= table@);
        }
        let mut hints: Vec<Hint> = Vec::new();
        let mut p: u16 = 256;
        while p > 0
            invariant
                p <= 256,
                hints@ == from_priority(visible@, p as int),
            decreases p,
        {
            p = p - 1;
            let mut j: usize = 0;
            while j < visible.len()
                invariant
                    p < 256,
                    j <= visible@.len(),
                    hints@ == from_priority(visible@, p as int + 1) + with_priority(visible@.take(j as int), p as int),
                decreases visible@.len() - j,
            {
                let h = visible[j];
                proof {
                    assert(visible@.take(j as int + 1) =~= visible@.take(j as int).push(h));
                    visible@.take(j as int).lemma_filter_push(h, |x: Hint| x.priority == p as int);
                }
                if h.priority as u16 == p {
                    hints.push(h);
                }
                j = j + 1;
            }
            proof {
                assert(visible@.take(visible@.len() as int) =~= visible@);
            }
        }
        HintLayer { hints, badge: None, status: None, centered: false }
    }
}

// ---------------------------------------------------------------------------
// Published binding tables.
// ---------------------------------------------------------------------------

/// Marker for `std::any::TypeId`, which identifies a command type.
#[verifier::external_type_specification]
#[verifier::external_body]
pub struct ExTypeId(TypeId);

/// Stable identity of one component binding table.
#[derive(Clone, Copy, Debug, PartialEq, Eq)]
pub enum BindingTableId {
    /// A static component table.
    Static {
        /// Concrete command type.
        command_type: TypeId,
        /// Static slice address.
        address: usize,
        /// Static descriptor count.
        len: usize,
    },
    /// A structurally compared dynamic descriptor snapshot.
    Dynamic {
        /// Monotonic structural revision.
        revision: u64,
        /// Combined static and dynamic descriptor count.
        len: usize,
    },
}

impl BindingTableId {
    /// The identity of a dynamic snapshot; the owner does not enter it.
    pub fn dynamic(owner: Id, len: usize, revision: u64) -> (t: BindingTableId)
        ensures
            t == (BindingTableId::Dynamic { revision, len }),
    {
        let _ = owner;
        BindingTableId::Dynamic { revision, len }
    }
}

/// A binding as the runtime keeps it, without its command.
#[derive(Clone, Copy, Debug, PartialEq, Eq)]
pub struct BindingDescriptor {
    /// The action.
    pub action: ActionKey,
    /// The default chord.
    pub chord: Option<Chord>,
    /// The hint label.
    pub label: &'static str,
    /// The hint priority.
    pub priority: u8,
    /// Whether the hint bar shows it.
    pub visible: bool,
}

/// The descriptor of a binding.
pub open spec fn descriptor_of<C>(b: Binding<C>) -> BindingDescriptor {
    BindingDescriptor { action: b.action, chord: b.chord, label: b.label, priority: b.priority, visible: b.visible }
}

/// One published table: whose it is, the state and layer it was
/// published for, and where its descriptors lie.
#[derive(Clone, Copy, Debug, PartialEq, Eq)]
pub struct PublishedBindings {
    /// The owning component.
    pub owner: Id,
    /// The state it was published in.
    pub flags: StateFlags,
    /// The layer it was published on.
    pub layer: LayerId,
    /// The table's identity.
    pub table: BindingTableId,
    /// Where its descriptors start.
    pub start: usize,
    /// How many descriptors it has.
    pub len: usize,
}

/// Reusable frame publication of the focused component's bindings.
#[derive(Clone, Debug, Default)]
pub struct BindingRegistry {
    tables: Vec<PublishedBindings>,
    descriptors: Vec<BindingDescriptor>,
}

/// The index of the last table of `owner` before `n`, or `-1`.
pub open spec fn last_table(ts: Seq<PublishedBindings>, owner: Id, n: int) -> int
    decreases n,
{
    if n <= 0 || n > ts.len() {
        -1
    } else if ts[n - 1].owner == owner {
        n - 1
    } else {
        last_table(ts, owner, n - 1)
    }
}

proof fn lemma_last_table_range(ts: Seq<PublishedBindings>, owner: Id, n: int)
    requires
        n >= 0,
    ensures
        -1 <= last_table(ts, owner, n) < n,
        last_table(ts, owner, n) >= 0 ==> last_table(ts, owner, n) < ts.len()
            && ts[last_table(ts, owner, n)].owner == owner,
    decreases n,
{
    if n > 0 && n <= ts.len() && ts[n - 1].owner != owner {
        lemma_last_table_range(ts, owner, n - 1);
    }
}

/// Whether `action` occurs among `ds[lo..hi]`.
pub open spec fn has_action(ds: Seq<BindingDescriptor>, lo: int, hi: int, action: ActionKey) -> bool {
    exists|k: int| lo <= k < hi && #[trigger] ds[k].action == action
}

/// The first binding of a static table whose action an earlier binding
/// already has, or `-1`.
pub open spec fn first_repeat<C>(t: Seq<Binding<C>>, i: int) -> int
    decreases t.len() - i,
{
    if i < 0 || i >= t.len() {
        -1
    } else if exists|k: int| 0 <= k < i && #[trigger] t[k].action == t[i].action {
        i
    } else {
        first_repeat(t, i + 1)
    }
}

/// `a + b`, saturating at `usize::MAX`.
pub open spec fn sat_add(a: int, b: int) -> int {
    if a + b > usize::MAX { usize::MAX as int } else { a + b }
}

/// The descriptors an earlier publication of the owner left in place:
/// its range if it lies within the store, else none.
pub open spec fn prior_range(ts: Seq<PublishedBindings>, ds: Seq<BindingDescriptor>, owner: Id) -> (int, int) {
    let k = last_table(ts, owner, ts.len() as int);
    if k >= 0 { (ts[k].start as int, sat_add(ts[k].start as int, ts[k].len as int)) } else { (0, 0) }
}

/// The first dynamic descriptor whose action the owner's prior table or a
/// later dynamic descriptor already has, or `-1`.
pub open spec fn first_clash(ds: Seq<BindingDescriptor>, lo: int, hi: int, dynamic: Seq<BindingDescriptor>, i: int) -> int
    decreases dynamic.len() - i,
{
    if i < 0 || i >= dynamic.len() {
        -1
    } else if (hi <= ds.len() && has_action(ds, lo, hi, dynamic[i].action))
        || has_action(dynamic, i + 1, dynamic.len() as int, dynamic[i].action) {
        i
    } else {
        first_clash(ds, lo, hi, dynamic, i + 1)
    }
}

/// The length of the owner's last publication, or zero.
pub open spec fn prior_len(ts: Seq<PublishedBindings>, owner: Id) -> int {
    let k = last_table(ts, owner, ts.len() as int);
    if k >= 0 { ts[k].len as int } else { 0 }
}

/// What [`BindingRegistry::get`] finds for `owner`: its last publication
/// and that publication's descriptors, when they lie within the store.
pub open spec fn lookup(ts: Seq<PublishedBindings>, ds: Seq<BindingDescriptor>, owner: Id) -> Option<
    (PublishedBindings, Seq<BindingDescriptor>),
> {
    let k = last_table(ts, owner, ts.len() as int);
    if k < 0 {
        None
    } else {
        let p = ts[k];
        let end = sat_add(p.start as int, p.len as int);
        if end <= ds.len() { Some((p, ds.subrange(p.start as int, end))) } else { None }
    }
}

/// The descriptors a lookup of `owner` finds, or none.
pub open spec fn lookup_descriptors(ts: Seq<PublishedBindings>, ds: Seq<BindingDescriptor>, owner: Id) -> Seq<
    BindingDescriptor,
> {
    match lookup(ts, ds, owner) {
        Some((_, d)) => d,
        None => Seq::empty(),
    }
}

/// Every table's range lies within the descriptor store.
pub open spec fn tables_fit(ts: Seq<PublishedBindings>, ds: Seq<BindingDescriptor>) -> bool {
    forall|k: int| 0 <= k < ts.len() ==> #[trigger] ts[k].start + ts[k].len <= ds.len()
}

/// What [`BindingRegistry::publish_dynamic`] answers and leaves: the first
/// clashing action with the registry unchanged; or the dynamic descriptors
/// appended in place to the owner's last publication when it is the last
/// one and ends the store; or a fresh publication of a copy of the prior
/// descriptors followed by the dynamic ones.
pub open spec fn published(
    ts: Seq<PublishedBindings>,
    ds: Seq<BindingDescriptor>,
    owner: Id,
    flags: StateFlags,
    layer: LayerId,
    dynamic: Seq<BindingDescriptor>,
    revision: u64,
) -> (Option<ActionKey>, Seq<PublishedBindings>, Seq<BindingDescriptor>) {
    let k = last_table(ts, owner, ts.len() as int);
    let (lo, hi) = prior_range(ts, ds, owner);
    let c = first_clash(ds, lo, hi, dynamic, 0);
    if c >= 0 {
        (Some(dynamic[c].action), ts, ds)
    } else if k >= 0 && k == ts.len() - 1 && hi == ds.len() {
        let len = ts[k].len + dynamic.len();
        (
            None,
            ts.update(
                k,
                PublishedBindings {
                    owner: ts[k].owner,
                    flags,
                    layer,
                    table: BindingTableId::Dynamic { revision, len: len as usize },
                    start: ts[k].start,
                    len: len as usize,
                },
            ),
            ds + dynamic,
        )
    } else {
        let len = prior_len(ts, owner) + dynamic.len();
        (
            None,
            ts.push(
                PublishedBindings {
                    owner,
                    flags,
                    layer,
                    table: BindingTableId::Dynamic { revision, len: len as usize },
                    start: ds.len() as usize,
                    len: len as usize,
                },
            ),
            ds + ds.subrange(lo, hi) + dynamic,
        )
    }
}

/// Whether `action` occurs among `ds[lo..hi]`.
fn has_action_in(ds: &[BindingDescriptor], lo: usize, hi: usize, action: ActionKey) -> (b: bool)
    requires
        hi <= ds@.len(),
    ensures
        b == has_action(ds@, lo as int, hi as int, action),
{
    let mut k: usize = lo;
    while k < hi
        invariant
            lo <= k <= hi || (hi < lo && k == lo),
            hi <= ds@.len(),
            forall|j: int| lo <= j < k ==> #[trigger] ds@[j].action != action,
        decreases hi - k,
    {
        if ds[k].action == action {
            return true;
        }
        k = k + 1;
    }
    false
}

impl BindingRegistry {
    /// The published tables.
    pub closed spec fn spec_tables(&self) -> Seq<PublishedBindings> {
        self.tables@
    }

    /// The descriptor store.
    pub closed spec fn spec_descriptors(&self) -> Seq<BindingDescriptor> {
        self.descriptors@
    }

    /// Every published table's range lies in the descriptor store.
    pub open spec fn wf(&self) -> bool {
        forall|k: int| 0 <= k < self.spec_tables().len() ==>
            #[trigger] self.spec_tables()[k].start + self.spec_tables()[k].len <= self.spec_descriptors().len()
    }

    /// An empty registry.
    pub fn new() -> (r: BindingRegistry)
        ensures
            r.wf(),
            r.spec_tables().len() == 0,
            r.spec_descriptors().len() == 0,
    {
        BindingRegistry { tables: Vec::new(), descriptors: Vec::new() }
    }

    /// Drop every publication.
    pub fn reset(&mut self)
        ensures
            final(self).wf(),
            final(self).spec_tables().len() == 0,
            final(self).spec_descriptors().len() == 0,
    {
        self.tables.clear();
        self.descriptors.clear();
    }

    /// Publish a static table under `table_id`. A table that names one
    /// action twice is refused: the repeated action is returned and the
    /// registry is left as it was.
    pub fn publish<C: Copy + 'static>(
        &mut self,
        owner: Id,
        flags: StateFlags,
        layer: LayerId,
        table: &[Binding<C>],
        table_id: BindingTableId,
    ) -> (r: Option<ActionKey>)
        requires
            old(self).wf(),
        ensures
            final(self).wf(),
            ({
                let k = first_repeat(table@, 0);
                if k >= 0 {
                    &&& r == Some(table@[k].action)
                    &&& final(self).spec_tables() == old(self).spec_tables()
                    &&& final(self).spec_descriptors() == old(self).spec_descriptors()
                } else {
                    &&& r is None
                    &&& final(self).spec_descriptors() == old(self).spec_descriptors()
                        + table@.map_values(|b: Binding<C>| descriptor_of(b))
                    &&& final(self).spec_tables() == old(self).spec_tables().push(PublishedBindings {
                        owner,
                        flags,
                        layer,
                        table: table_id,
                        start: old(self).spec_descriptors().len() as usize,
                        len: table@.len() as usize,
                    })
                }
            }),
    {
        let start = self.descriptors.len();
        let mut i: usize = 0;
        while i < table.len()
            invariant
                old(self).wf(),
                self.tables@ == old(self).tables@,
                start == old(self).descriptors@.len(),
                i <= table@.len(),
                self.descriptors@ == old(self).descriptors@ + table@.take(i as int).map_values(|b: Binding<C>| descriptor_of(b)),
                first_repeat(table@, 0) == first_repeat(table@, i as int),
            decreases table@.len() - i,
        {
            let b = table[i];
            let mut seen = false;
            let mut k: usize = start;
            while k < self.descriptors.len()
                invariant
                    start <= k <= self.descriptors@.len(),
                    self.descriptors@.len() == start + i,
                    self.descriptors@ == old(self).descriptors@ + table@.take(i as int).map_values(|x: Binding<C>| descriptor_of(x)),
                    b == table@[i as int],
                    i < table@.len(),
                    seen == exists|j: int| 0 <= j < k - start && #[trigger] table@[j].action == b.action,
                decreases self.descriptors@.len() - k,
            {
                proof {
                    assert(self.descriptors@[k as int] == descriptor_of(table@[k - start]));
                }
                if self.descriptors[k].action == b.action {
                    seen = true;
                }
                k = k + 1;
            }
            if seen {
                self.descriptors.truncate(start);
                proof {
                    assert(self.descriptors@ =~= old(self).descriptors@);
                }
                return Some(b.action);
            }
            self.descriptors.push(BindingDescriptor {
                action: b.action,
                chord: b.chord,
                label: b.label,
                priority: b.priority,
                visible: b.visible,
            });
            proof {
                assert(table@.take(i as int + 1) =~= table@.take(i as int).push(b));
                assert(table@.take(i as int + 1).map_values(|x: Binding<C>| descriptor_of(x))
                    =~= table@.take(i as int).map_values(|x: Binding<C>| descriptor_of(x)).push(descriptor_of(b)));
            }
            i = i + 1;
        }
        proof {
            assert(table@.take(table@.len() as int) =~= table@);
        }
        self.tables.push(PublishedBindings { owner, flags, layer, table: table_id, start, len: table.len() });
        None
    }

    /// The index of the last table of `owner`.
    fn last_table_of(&self, owner: Id) -> (r: Option<usize>)
        ensures
            ({
                let k = last_table(self.spec_tables(), owner, self.spec_tables().len() as int);
                if k >= 0 { r == Some(k as usize) } else { r is None }
            }),
    {
        let mut n: usize = self.tables.len();
        while n > 0
            invariant
                n <= self.tables@.len(),
                last_table(self.tables@, owner, self.tables@.len() as int) == last_table(self.tables@, owner, n as int),
            decreases n,
        {
            if self.tables[n - 1].owner == owner {
                return Some(n - 1);
            }
            n = n - 1;
        }
        None
    }

    /// Publish a dynamic table for `owner`: its descriptors are added to the
    /// owner's last publication, in place when that publication is the last
    /// one in the store and otherwise as a fresh copy. A dynamic action that
    /// the prior table or a later dynamic descriptor already has is refused:
    /// it is returned and the registry is left as it was. What a later
    /// lookup finds is [`law_publish_dynamic_then_lookup`].
    pub fn publish_dynamic(
        &mut self,
        owner: Id,
        flags: StateFlags,
        layer: LayerId,
        dynamic: &[BindingDescriptor],
        revision: u64,
    ) -> (r: Option<ActionKey>)
        requires
            old(self).wf(),
            old(self).spec_descriptors().len() + prior_len(old(self).spec_tables(), owner) + dynamic@.len() <= usize::MAX,
        ensures
            final(self).wf(),
            (r, final(self).spec_tables(), final(self).spec_descriptors()) == published(
                old(self).spec_tables(),
                old(self).spec_descriptors(),
                owner,
                flags,
                layer,
                dynamic@,
                revision,
            ),
    {
        let existing = self.last_table_of(owner);
        proof {
            lemma_last_table_range(self.tables@, owner, self.tables@.len() as int);
        }
        let prior_start: usize = match existing {
            Some(index) => self.tables[index].start,
            None => 0,
        };
        let prior_count: usize = match existing {
            Some(index) => self.tables[index].len,
            None => 0,
        };
        let prior_end = prior_start.saturating_add(prior_count);
        proof {
            let k = last_table(self.tables@, owner, self.tables@.len() as int);
            if k >= 0 {
                assert(existing == Some(k as usize));
                assert(k < self.tables.len());
                assert((k as usize) as int == k);
                assert(prior_start == self.tables@[k].start);
                assert(prior_count == self.tables@[k].len);
            }
            assert(prior_start as int == prior_range(self.tables@, self.descriptors@, owner).0);
            assert(prior_end as int == prior_range(self.tables@, self.descriptors@, owner).1);
        }
        let mut i: usize = 0;
        while i < dynamic.len()
            invariant
                old(self).wf(),
                self.tables@ == old(self).tables@,
                self.descriptors@ == old(self).descriptors@,
                i <= dynamic@.len(),
                (prior_start as int, prior_end as int) == prior_range(self.tables@, self.descriptors@, owner),
                first_clash(self.descriptors@, prior_start as int, prior_end as int, dynamic@, 0)
                    == first_clash(self.descriptors@, prior_start as int, prior_end as int, dynamic@, i as int),
            decreases dynamic@.len() - i,
        {
            let action = dynamic[i].action;
            let mut clash = false;
            if prior_end <= self.descriptors.len() {
                clash = has_action_in(self.descriptors.as_slice(), prior_start, prior_end, action);
            }
            if !clash {
                clash = has_action_in(dynamic, i + 1, dynamic.len(), action);
            }
            if clash {
                return Some(action);
            }
            i = i + 1;
        }
        let contiguous = match existing {
            Some(index) => index == self.tables.len() - 1 && prior_end == self.descriptors.len(),
            None => false,
        };
        proof {
            let ts = self.tables@;
            let k = last_table(ts, owner, ts.len() as int);
            if k >= 0 {
                assert(ts[k].start + ts[k].len <= self.descriptors@.len());
            }
        }
        if contiguous {
            let index = match existing {
                Some(index) => index,
                None => 0,
            };
            self.push_all(dynamic);
            let t = self.tables[index];
            let len = t.len + dynamic.len();
            self.tables.set(index, PublishedBindings {
                owner: t.owner,
                flags,
                layer,
                table: BindingTableId::dynamic(owner, len, revision),
                start: t.start,
                len,
            });
        } else {
            let start = self.descriptors.len();
            let mut index: usize = prior_start;
            while index < prior_end
                invariant
                    self.tables@ == old(self).tables@,
                    old(self).wf(),
                    prior_start <= index <= prior_end <= old(self).descriptors@.len(),
                    start == old(self).descriptors@.len(),
                    self.descriptors@ == old(self).descriptors@ + old(self).descriptors@.subrange(prior_start as int, index as int),
                decreases prior_end - index,
            {
                if index < self.descriptors.len() {
                    let d = self.descriptors[index];
                    self.descriptors.push(d);
                }
                proof {
                    assert(old(self).descriptors@.subrange(prior_start as int, index as int + 1)
                        =~= old(self).descriptors@.subrange(prior_start as int, index as int).push(old(self).descriptors@[index as int]));
                }
                index = index + 1;
            }
            self.push_all(dynamic);
            let len = prior_count + dynamic.len();
            self.tables.push(PublishedBindings {
                owner,
                flags,
                layer,
                table: BindingTableId::dynamic(owner, len, revision),
                start,
                len,
            });
        }
        None
    }

    fn push_all(&mut self, more: &[BindingDescriptor])
        requires
            old(self).spec_descriptors().len() + more@.len() <= usize::MAX,
        ensures
            final(self).spec_tables() == old(self).spec_tables(),
            final(self).spec_descriptors() == old(self).spec_descriptors() + more@,
    {
        let mut i: usize = 0;
        while i < more.len()
            invariant
                self.tables@ == old(self).tables@,
                i <= more@.len(),
                self.descriptors@ == old(self).descriptors@ + more@.take(i as int),
            decreases more@.len() - i,
        {
            self.descriptors.push(more[i]);
            proof {
                assert(more@.take(i as int + 1) =~= more@.take(i as int).push(more@[i as int]));
            }
            i = i + 1;
        }
        proof {
            assert(more@.take(more@.len() as int) =~= more@);
        }
    }

    /// The last publication of `owner` and its descriptors.
    pub fn get(&self, owner: Id) -> (r: Option<(PublishedBindings, &[BindingDescriptor])>)
        ensures
            match lookup(self.spec_tables(), self.spec_descriptors(), owner) {
                Some((p, d)) => r matches Some((q, e)) && q == p && e@ == d,
                None => r is None,
            },
    {
        let mut n: usize = self.tables.len();
        while n > 0
            invariant
                n <= self.tables@.len(),
                last_table(self.tables@, owner, self.tables@.len() as int) == last_table(self.tables@, owner, n as int),
            decreases n,
        {
            let p = self.tables[n - 1];
            if p.owner == owner {
                let end = p.start.saturating_add(p.len);
                if end > self.descriptors.len() {
                    return None;
                }
                let ds = vstd::slice::slice_subrange(self.descriptors.as_slice(), p.start, end);
                return Some((p, ds));
            }
            n = n - 1;
        }
        None
    }
}


// ---------------------------------------------------------------------------
// Dynamic binding snapshots.
// ---------------------------------------------------------------------------

/// `TypeId` equality: the same command type.
#[verifier::external_body]
fn type_id_eq(a: TypeId, b: TypeId) -> (r: bool)
    ensures
        r == (a == b),
{
    a == b
}

/// Whether two table identities are the same.
fn table_id_eq(a: &BindingTableId, b: &BindingTableId) -> (r: bool)
    ensures
        r == (*a == *b),
{
    match (a, b) {
        (
            BindingTableId::Static { command_type: t1, address: a1, len: l1 },
            BindingTableId::Static { command_type: t2, address: a2, len: l2 },
        ) => type_id_eq(*t1, *t2) && *a1 == *a2 && *l1 == *l2,
        (BindingTableId::Dynamic { revision: r1, len: l1 }, BindingTableId::Dynamic { revision: r2, len: l2 }) => {
            *r1 == *r2 && *l1 == *l2
        },
        _ => false,
    }
}

fn opt_table_id_eq(a: &Option<BindingTableId>, b: &Option<BindingTableId>) -> (r: bool)
    ensures
        r == (*a == *b),
{
    match (a, b) {
        (Some(x), Some(y)) => table_id_eq(x, y),
        (None, None) => true,
        _ => false,
    }
}

/// The descriptor of a dynamic `(action, chord)` pair: no label, no
/// priority, hidden.
pub open spec fn dynamic_descriptor(p: (ActionKey, Option<Chord>)) -> BindingDescriptor {
    BindingDescriptor { action: p.0, chord: p.1, label: "", priority: 0, visible: false }
}

/// Whether a descriptor carries the given action and chord.
pub open spec fn carries(d: BindingDescriptor, p: (ActionKey, Option<Chord>)) -> bool {
    d.action == p.0 && d.chord == p.1
}

/// Whether the descriptors carry exactly the given actions and chords.
fn same_pairs(ds: &[BindingDescriptor], ps: &[(ActionKey, Option<Chord>)]) -> (r: bool)
    ensures
        r == (ds@.len() == ps@.len() && forall|i: int| 0 <= i < ps@.len() ==> #[trigger] carries(ds@[i], ps@[i])),
{
    if ds.len() != ps.len() {
        return false;
    }
    let mut i: usize = 0;
    while i < ps.len()
        invariant
            ds@.len() == ps@.len(),
            i <= ps@.len(),
            forall|k: int| 0 <= k < i ==> #[trigger] carries(ds@[k], ps@[k]),
        decreases ps@.len() - i,
    {
        let d = ds[i];
        let p = ps[i];
        let chord_same = match (d.chord, p.1) {
            (Some(x), Some(y)) => x == y,
            (None, None) => true,
            _ => false,
        };
        if !(d.action == p.0 && chord_same) {
            assert(!carries(ds@[i as int], ps@[i as int]));
            return false;
        }
        assert(carries(ds@[i as int], ps@[i as int]));
        i = i + 1;
    }
    true
}

proof fn lemma_last_table_update(ts: Seq<PublishedBindings>, k: int, v: PublishedBindings, o: Id, m: int)
    requires
        0 <= k < ts.len(),
        v.owner == ts[k].owner,
        0 <= m <= ts.len(),
    ensures
        last_table(ts.update(k, v), o, m) == last_table(ts, o, m),
    decreases m,
{
    if m > 0 {
        lemma_last_table_update(ts, k, v, o, m - 1);
    }
}

proof fn lemma_last_table_push(ts: Seq<PublishedBindings>, v: PublishedBindings, o: Id, m: int)
    requires
        0 <= m <= ts.len(),
    ensures
        last_table(ts.push(v), o, m) == last_table(ts, o, m),
    decreases m,
{
    if m > 0 {
        lemma_last_table_push(ts, v, o, m - 1);
    }
}

/// A dynamic publication that is not refused is what a later lookup of its
/// owner finds: the owner's prior descriptors followed by the dynamic ones,
/// under a dynamic table of the new revision, state and layer. A refused
/// one changes nothing, and a lookup of any other owner finds what it
/// found before.
pub proof fn law_publish_dynamic_then_lookup(
    ts: Seq<PublishedBindings>,
    ds: Seq<BindingDescriptor>,
    owner: Id,
    flags: StateFlags,
    layer: LayerId,
    dynamic: Seq<BindingDescriptor>,
    revision: u64,
    other: Id,
)
    requires
        tables_fit(ts, ds),
        ds.len() + prior_len(ts, owner) + dynamic.len() <= usize::MAX,
    ensures
        ({
            let (r, ts2, ds2) = published(ts, ds, owner, flags, layer, dynamic, revision);
            let len = lookup_descriptors(ts, ds, owner).len() + dynamic.len();
            &&& r is Some ==> ts2 == ts && ds2 == ds
            &&& r is None ==> (lookup(ts2, ds2, owner) matches Some((p, d)) && {
                &&& p.owner == owner
                &&& p.flags == flags
                &&& p.layer == layer
                &&& p.table == (BindingTableId::Dynamic { revision, len: len as usize })
                &&& p.len == len
                &&& d == lookup_descriptors(ts, ds, owner) + dynamic
            })
            &&& other != owner ==> lookup(ts2, ds2, other) == lookup(ts, ds, other)
        }),
{
    let n = ts.len() as int;
    let k = last_table(ts, owner, n);
    let (lo, hi) = prior_range(ts, ds, owner);
    lemma_last_table_range(ts, owner, n);
    lemma_last_table_range(ts, other, n);
    let ko = last_table(ts, other, n);
    if k >= 0 {
        assert(ts[k].start + ts[k].len <= ds.len());
        assert(lookup_descriptors(ts, ds, owner) == ds.subrange(lo, hi));
    } else {
        assert(lookup_descriptors(ts, ds, owner) =~= ds.subrange(lo, hi));
    }
    if ko >= 0 {
        assert(ts[ko].start + ts[ko].len <= ds.len());
    }
    let (r, ts2, ds2) = published(ts, ds, owner, flags, layer, dynamic, revision);
    if first_clash(ds, lo, hi, dynamic, 0) >= 0 {
    } else if k >= 0 && k == n - 1 && hi == ds.len() {
        let v = ts2[k];
        assert(ts2 == ts.update(k, v));
        assert(last_table(ts2, owner, n) == k);
        assert(ds2.subrange(lo, ds2.len() as int) =~= ds.subrange(lo, hi) + dynamic);
        if other != owner {
            lemma_last_table_update(ts, k, v, other, n);
            if ko >= 0 {
                assert(ko != k);
                assert(ds2.subrange(ts[ko].start as int, ts[ko].start + ts[ko].len) =~= ds.subrange(
                    ts[ko].start as int,
                    ts[ko].start + ts[ko].len,
                ));
            }
        }
    } else {
        let v = ts2[n];
        assert(ts2 == ts.push(v));
        assert(last_table(ts2, owner, n + 1) == n);
        assert(hi - lo == prior_len(ts, owner));
        assert(ds2.subrange(ds.len() as int, ds2.len() as int) =~= ds.subrange(lo, hi) + dynamic);
        if other != owner {
            lemma_last_table_push(ts, v, other, n);
            if ko >= 0 {
                assert(ds2.subrange(ts[ko].start as int, ts[ko].start + ts[ko].len) =~= ds.subrange(
                    ts[ko].start as int,
                    ts[ko].start + ts[ko].len,
                ));
            }
        }
    }
}

/// What [`DynamicBindingRegistry::update`] leaves and answers, from the
/// snapshot and the last revision before it: the new snapshot, the new last
/// revision, the descriptors and the revision returned. An unchanged
/// snapshot (same owner, same base, the same actions and chords in order)
/// keeps its revision; anything else is rebuilt under the next revision,
/// which wraps.
pub open spec fn update_result(
    current: Option<(Id, Option<BindingTableId>, Seq<BindingDescriptor>, u64)>,
    next_revision: u64,
    owner: Id,
    base: Option<BindingTableId>,
    bindings: Seq<(ActionKey, Option<Chord>)>,
) -> (Option<(Id, Option<BindingTableId>, Seq<BindingDescriptor>, u64)>, u64, Seq<BindingDescriptor>, u64) {
    let wanted = bindings.map_values(|p: (ActionKey, Option<Chord>)| dynamic_descriptor(p));
    let next = vstd::wrapping::u64_specs::wrapping_add(next_revision, 1);
    let fresh = (Some((owner, base, wanted, next)), next, wanted, next);
    match current {
        Some(c) => if c.0 == owner && c.1 == base && c.2.len() == bindings.len() && forall|i: int|
            0 <= i < bindings.len() ==> #[trigger] carries(c.2[i], bindings[i]) {
            (current, next_revision, c.2, c.3)
        } else {
            fresh
        },
        None => if base is None && bindings.len() == 0 {
            (Some((owner, None, Seq::empty(), 0u64)), next_revision, Seq::empty(), 0u64)
        } else {
            fresh
        },
    }
}

/// A snapshot update answers descriptors carrying exactly the requested
/// actions and chords. Repeating the same update (same owner, base and
/// bindings) keeps the snapshot and its revision; any other update takes
/// the next revision, which wraps, as the new last revision.
pub proof fn law_update_revision(
    current: Option<(Id, Option<BindingTableId>, Seq<BindingDescriptor>, u64)>,
    next_revision: u64,
    owner: Id,
    base: Option<BindingTableId>,
    bindings: Seq<(ActionKey, Option<Chord>)>,
    owner2: Id,
    base2: Option<BindingTableId>,
    bindings2: Seq<(ActionKey, Option<Chord>)>,
)
    ensures
        ({
            let (c1, n1, d1, r1) = update_result(current, next_revision, owner, base, bindings);
            let (c2, n2, d2, r2) = update_result(c1, n1, owner2, base2, bindings2);
            &&& d1.len() == bindings.len()
            &&& forall|i: int| 0 <= i < bindings.len() ==> #[trigger] carries(d1[i], bindings[i])
            &&& (owner2 == owner && base2 == base && bindings2 == bindings) ==> c2 == c1 && n2 == n1 && r2 == r1
                && d2 == d1
            &&& !(owner2 == owner && base2 == base && bindings2 == bindings) ==> r2 == vstd::wrapping::u64_specs::wrapping_add(
                n1,
                1,
            ) && n2 == r2
        }),
{
    let (c1, n1, d1, r1) = update_result(current, next_revision, owner, base, bindings);
    assert(c1 matches Some(c) && c.0 == owner && c.1 == base && c.2 == d1 && c.3 == r1);
    if !(owner2 == owner && base2 == base && bindings2 == bindings) && owner2 == owner && base2 == base {
        if bindings2.len() == bindings.len() {
            assert(exists|i: int| 0 <= i < bindings.len() && bindings2[i] != bindings[i]) by {
                if forall|i: int| 0 <= i < bindings.len() ==> bindings2[i] == bindings[i] {
                    assert(bindings2 =~= bindings);
                }
            }
            let i = choose|i: int| 0 <= i < bindings.len() && bindings2[i] != bindings[i];
            assert(carries(d1[i], bindings[i]));
            assert(!carries(d1[i], bindings2[i]));
        }
    }
}

/// The current dynamic snapshot: its owner, the static table it extends,
/// its descriptors and its revision.
pub struct DynamicBindingSet {
    owner: Id,
    base: Option<BindingTableId>,
    descriptors: Vec<BindingDescriptor>,
    revision: u64,
}

/// One reusable snapshot of a focused component's dynamic bindings; its
/// revision changes exactly when its structure does.
pub struct DynamicBindingRegistry {
    current: Option<DynamicBindingSet>,
    next_revision: u64,
}

impl DynamicBindingRegistry {
    /// The snapshot, if any: owner, base table, descriptors and revision.
    pub closed spec fn spec_current(&self) -> Option<(Id, Option<BindingTableId>, Seq<BindingDescriptor>, u64)> {
        match &self.current {
            Some(set) => Some((set.owner, set.base, set.descriptors@, set.revision)),
            None => None,
        }
    }

    /// The last revision handed out.
    pub closed spec fn spec_next_revision(&self) -> u64 {
        self.next_revision
    }

    /// No snapshot yet; revisions start after `next_revision`.
    pub fn new(next_revision: u64) -> (r: DynamicBindingRegistry)
        ensures
            r.spec_current() is None,
            r.spec_next_revision() == next_revision,
    {
        DynamicBindingRegistry { current: None, next_revision }
    }

    /// How many descriptors the snapshot holds.
    pub fn len(&self) -> (n: Option<usize>)
        ensures
            match self.spec_current() {
                Some(c) => n == Some(c.2.len() as usize),
                None => n is None,
            },
    {
        match &self.current {
            Some(set) => Some(set.descriptors.len()),
            None => None,
        }
    }

    /// Refresh the snapshot for `owner`: unchanged (same owner, same base,
    /// same actions and chords) keeps its revision; anything else is
    /// rebuilt under the next revision, which wraps. Two updates in a row
    /// are [`law_update_revision`].
    pub fn update(
        &mut self,
        owner: Id,
        base: Option<BindingTableId>,
        bindings: &[(ActionKey, Option<Chord>)],
    ) -> (r: (&[BindingDescriptor], u64))
        ensures
            (final(self).spec_current(), final(self).spec_next_revision(), r.0@, r.1) == update_result(
                old(self).spec_current(),
                old(self).spec_next_revision(),
                owner,
                base,
                bindings@,
            ),
    {
        let prior = self.current.take();
        let owner_changed = match &prior {
            Some(set) => set.owner != owner,
            None => false,
        };
        let mut set = match prior {
            Some(set) => set,
            None => DynamicBindingSet { owner, base: None, descriptors: Vec::new(), revision: 0 },
        };
        if owner_changed {
            set.owner = owner;
            set.base = None;
            set.descriptors.clear();
        }
        let same = !owner_changed && opt_table_id_eq(&set.base, &base)
            && same_pairs(set.descriptors.as_slice(), bindings);
        if !same {
            set.base = base;
            set.descriptors.clear();
            let mut j: usize = 0;
            while j < bindings.len()
                invariant
                    j <= bindings@.len(),
                    set.owner == owner,
                    set.base == base,
                    set.descriptors@ == bindings@.take(j as int).map_values(|p: (ActionKey, Option<Chord>)| dynamic_descriptor(p)),
                decreases bindings@.len() - j,
            {
                let pair = bindings[j];
                set.descriptors.push(BindingDescriptor { action: pair.0, chord: pair.1, label: "", priority: 0, visible: false });
                proof {
                    assert(bindings@.take(j as int + 1) =~= bindings@.take(j as int).push(bindings@[j as int]));
                    assert(bindings@.take(j as int + 1).map_values(|p: (ActionKey, Option<Chord>)| dynamic_descriptor(p))
                        =~= bindings@.take(j as int).map_values(|p: (ActionKey, Option<Chord>)| dynamic_descriptor(p))
                            .push(dynamic_descriptor(bindings@[j as int])));
                }
                j = j + 1;
            }
            proof {
                assert(bindings@.take(bindings@.len() as int) =~= bindings@);
            }
            self.next_revision = self.next_revision.wrapping_add(1);
            set.revision = self.next_revision;
        }
        self.current = Some(set);
        match &self.current {
            Some(set) => (set.descriptors.as_slice(), set.revision),
            None => (&[], 0),
        }
    }
}

// ---------------------------------------------------------------------------
// The focused component's hints.
// ---------------------------------------------------------------------------

/// What the focused hints were derived from; they are derived again only
/// when it changes.
#[derive(Clone, Copy, Debug, PartialEq, Eq)]
pub struct FocusedHintKey {
    /// The focused component.
    pub focus: Id,
    /// Its state.
    pub flags: StateFlags,
    /// Its layer.
    pub layer: LayerId,
    /// Its binding table.
    pub table: BindingTableId,
    /// The key map's revision.
    pub keymap_revision: u64,
}

fn hint_key_eq(a: &FocusedHintKey, b: &FocusedHintKey) -> (r: bool)
    ensures
        r == (*a == *b),
{
    a.focus == b.focus && a.flags == b.flags && a.layer == b.layer && table_id_eq(&a.table, &b.table)
        && a.keymap_revision == b.keymap_revision
}

/// The index of the first hint at or after `i` whose priority is below
/// `p`, or the length.
pub open spec fn first_lower(hs: Seq<Hint>, p: u8, i: int) -> int
    decreases hs.len() - i,
{
    if i < 0 || i >= hs.len() {
        hs.len() as int
    } else if hs[i].priority < p {
        i
    } else {
        first_lower(hs, p, i + 1)
    }
}

/// Whether a hint shows `c`.
pub open spec fn shows_chord(hs: Seq<Hint>, c: Chord) -> bool {
    exists|i: int| 0 <= i < hs.len() && #[trigger] hs[i].chord == c
}

/// The hints of the first `n` descriptors of the focused component: each
/// visible one with an effective chord no earlier hint shows, inserted
/// before the first hint of lower priority.
pub open spec fn derived_hints(cs: Seq<ComponentEntry>, focus: Id, t: Seq<BindingDescriptor>, n: int) -> Seq<Hint>
    decreases n,
{
    if n <= 0 {
        Seq::empty()
    } else {
        let hs = derived_hints(cs, focus, t, n - 1);
        let b = t[n - 1];
        if !b.visible {
            hs
        } else {
            match effective(cs, focus, b.action, b.chord) {
                None => hs,
                Some(c) => if shows_chord(hs, c) {
                    hs
                } else {
                    hs.insert(first_lower(hs, b.priority, 0), Hint { chord: c, label: b.label, priority: b.priority })
                },
            }
        }
    }
}

proof fn lemma_first_lower_range(hs: Seq<Hint>, p: u8, i: int)
    requires
        0 <= i <= hs.len(),
    ensures
        i <= first_lower(hs, p, i) <= hs.len(),
    decreases hs.len() - i,
{
    if i < hs.len() && hs[i].priority >= p {
        lemma_first_lower_range(hs, p, i + 1);
    }
}

/// Priorities never increase along the bar.
pub open spec fn by_priority(hs: Seq<Hint>) -> bool {
    forall|i: int, j: int| 0 <= i < j < hs.len() ==> (#[trigger] hs[i]).priority >= (#[trigger] hs[j]).priority
}

/// No two hints show the same chord.
pub open spec fn chords_distinct(hs: Seq<Hint>) -> bool {
    forall|i: int, j: int| 0 <= i < j < hs.len() ==> (#[trigger] hs[i]).chord != (#[trigger] hs[j]).chord
}

proof fn lemma_first_lower_props(hs: Seq<Hint>, p: u8, i: int)
    requires
        0 <= i <= hs.len(),
        forall|k: int| 0 <= k < i ==> (#[trigger] hs[k]).priority >= p,
    ensures
        ({
            let f = first_lower(hs, p, i);
            &&& i <= f <= hs.len()
            &&& forall|k: int| 0 <= k < f ==> (#[trigger] hs[k]).priority >= p
            &&& f < hs.len() ==> hs[f].priority < p
        }),
    decreases hs.len() - i,
{
    if i < hs.len() && hs[i].priority >= p {
        lemma_first_lower_props(hs, p, i + 1);
    }
}

/// The focused component's hints come highest priority first, and no
/// chord is shown twice.
pub proof fn law_focused_hints_sorted_and_distinct(cs: Seq<ComponentEntry>, focus: Id, t: Seq<BindingDescriptor>, n: int)
    requires
        0 <= n <= t.len(),
    ensures
        by_priority(derived_hints(cs, focus, t, n)),
        chords_distinct(derived_hints(cs, focus, t, n)),
    decreases n,
{
    if n > 0 {
        law_focused_hints_sorted_and_distinct(cs, focus, t, n - 1);
        let hs = derived_hints(cs, focus, t, n - 1);
        let b = t[n - 1];
        if b.visible {
            if let Some(c) = effective(cs, focus, b.action, b.chord) {
                if !shows_chord(hs, c) {
                    lemma_first_lower_props(hs, b.priority, 0);
                    let f = first_lower(hs, b.priority, 0);
                    let h = Hint { chord: c, label: b.label, priority: b.priority };
                    let out = hs.insert(f, h);
                    assert forall|i: int, j: int| 0 <= i < j < out.len() implies
                        (#[trigger] out[i]).priority >= (#[trigger] out[j]).priority by {
                        if j < f {
                            assert(out[i] == hs[i] && out[j] == hs[j]);
                        } else if j == f {
                            assert(out[i] == hs[i]);
                        } else if i == f {
                            assert(out[j] == hs[j - 1]);
                            assert(hs[f].priority < b.priority);
                            if j - 1 > f {
                                assert(hs[f].priority >= hs[j - 1].priority);
                            }
                        } else if i < f {
                            assert(out[i] == hs[i] && out[j] == hs[j - 1]);
                        } else {
                            assert(out[i] == hs[i - 1] && out[j] == hs[j - 1]);
                        }
                    }
                    assert forall|i: int, j: int| 0 <= i < j < out.len() implies
                        (#[trigger] out[i]).chord != (#[trigger] out[j]).chord by {
                        if j < f {
                            assert(out[i] == hs[i] && out[j] == hs[j]);
                        } else if j == f {
                            assert(out[i] == hs[i]);
                            assert(hs[i].chord != c);
                        } else if i == f {
                            assert(out[j] == hs[j - 1]);
                            assert(hs[j - 1].chord != c);
                        } else if i < f {
                            assert(out[i] == hs[i] && out[j] == hs[j - 1]);
                        } else {
                            assert(out[i] == hs[i - 1] && out[j] == hs[j - 1]);
                        }
                    }
                }
            }
        }
    }
}

/// The hint bar of the focused component, cached by what it was derived
/// from.
#[derive(Debug, Default)]
pub struct FocusedHints {
    key: Option<FocusedHintKey>,
    /// The derived hints.
    pub layer: HintLayer,
}

impl FocusedHints {
    /// What the hints were derived from, if they are current.
    pub closed spec fn spec_key(&self) -> Option<FocusedHintKey> {
        self.key
    }

    /// The derived hints.
    pub closed spec fn spec_layer(&self) -> HintLayer {
        self.layer
    }

    /// Forget what the hints were derived from, so the next `derive`
    /// rebuilds them.
    pub fn invalidate(&mut self)
        ensures
            final(self).spec_key() is None,
            final(self).spec_layer() == old(self).spec_layer(),
    {
        self.key = None;
    }

    /// Derive the focused component's hints from its descriptors and the
    /// key map, unless they were derived from `key` already.
    pub fn derive(&mut self, key: FocusedHintKey, table: &[BindingDescriptor], keymap: &KeyMap)
        ensures
            old(self).spec_key() == Some(key) ==> final(self).spec_key() == old(self).spec_key()
                && final(self).spec_layer() == old(self).spec_layer(),
            old(self).spec_key() != Some(key) ==> {
                &&& final(self).spec_key() == Some(key)
                &&& final(self).spec_layer().hints@ == derived_hints(keymap.spec_components(), key.focus, table@, table@.len() as int)
                &&& final(self).spec_layer().badge is None
                &&& final(self).spec_layer().status is None
                &&& !final(self).spec_layer().centered
            },
    {
        let same = match &self.key {
            Some(k) => hint_key_eq(k, &key),
            None => false,
        };
        if same {
            return;
        }
        self.key = Some(key);
        self.layer.hints.clear();
        self.layer.badge = None;
        self.layer.status = None;
        self.layer.centered = false;
        let mut i: usize = 0;
        while i < table.len()
            invariant
                i <= table@.len(),
                self.key == Some(key),
                self.layer.badge is None,
                self.layer.status is None,
                !self.layer.centered,
                self.layer.hints@ == derived_hints(keymap.spec_components(), key.focus, table@, i as int),
            decreases table@.len() - i,
        {
            let b = table[i];
            if b.visible {
                if let Some(chord) = keymap.component_chord(key.focus, b.action, b.chord) {
                    let mut seen = false;
                    let mut j: usize = 0;
                    while j < self.layer.hints.len()
                        invariant
                            j <= self.layer.hints@.len(),
                            seen == exists|k: int| 0 <= k < j && #[trigger] self.layer.hints@[k].chord == chord,
                        decreases self.layer.hints@.len() - j,
                    {
                        if self.layer.hints[j].chord == chord {
                            seen = true;
                        }
                        j = j + 1;
                    }
                    if !seen {
                        let mut pos: usize = 0;
                        while pos < self.layer.hints.len() && self.layer.hints[pos].priority >= b.priority
                            invariant
                                pos <= self.layer.hints@.len(),
                                first_lower(self.layer.hints@, b.priority, 0)
                                    == first_lower(self.layer.hints@, b.priority, pos as int),
                            decreases self.layer.hints@.len() - pos,
                        {
                            pos = pos + 1;
                        }
                        self.layer.hints.insert(pos, Hint { chord, label: b.label, priority: b.priority });
                    }
                }
            }
            i = i + 1;
        }
    }
}

} // verus!
