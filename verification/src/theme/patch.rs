//! Style patches and their merge laws: a patch says, slot by slot,
//! nothing, a value, or "clear"; merging lets the upper patch win where it
//! speaks, and a later modifier removal beats an earlier addition.

use vstd::prelude::*;

use crate::response::{bit_set, StateFlags};
use crate::theme::glyph::GlyphRole;
use crate::theme::role::{Align, Role};

verus! {

/// One slot of a patch: say nothing, set, or clear.
#[derive(Clone, Copy, Default, PartialEq, Eq, Structural, Hash, Debug)]
pub enum Slot<T> {
    /// Inherit whatever the lower layer says.
    #[default]
    Inherit,
    /// Set a value.
    Value(T),
    /// Clear: resolve to "no value" (the inherited surface colour).
    Clear,
}

/// `top` over `base`: `top` wins where it speaks.
pub open spec fn layered<T>(top: Slot<T>, base: Slot<T>) -> Slot<T> {
    match top {
        Slot::Inherit => base,
        o => o,
    }
}

impl<T: Copy> Slot<T> {
    /// `self` over `base`: `self` wins where it speaks.
    pub fn over(self, base: Slot<T>) -> (r: Slot<T>)
        ensures
            r == layered(self, base),
    {
        match self {
            Slot::Inherit => base,
            o => o,
        }
    }

    /// The set value, if any.
    pub fn get(self) -> (r: Option<T>)
        ensures
            r == (match self {
                Slot::Value(v) => Some(v),
                _ => None,
            }),
    {
        match self {
            Slot::Value(v) => Some(v),
            _ => None,
        }
    }

    /// Whether the slot speaks.
    pub fn speaks(self) -> (b: bool)
        ensures
            b == !(self is Inherit),
    {
        !matches!(self, Slot::Inherit)
    }
}

/// Layering slots is associative, `Inherit` is its identity on both sides,
/// and a slot that speaks absorbs whatever is below it.
pub proof fn law_slot_layering<T>(a: Slot<T>, b: Slot<T>, c: Slot<T>)
    ensures
        layered(layered(a, b), c) == layered(a, layered(b, c)),
        layered(a, Slot::Inherit) == a,
        layered(Slot::Inherit, a) == a,
        !(a is Inherit) ==> layered(a, b) == a,
{
}

/// Text modifiers, one bit each: bold, dim, italic, underlined, slow
/// blink, rapid blink, reversed, hidden, crossed out.
#[derive(Clone, Copy, Debug, Default, PartialEq, Eq, Structural, Hash)]
pub struct Modifier {
    bits: u16,
}

impl Modifier {
    /// The bits.
    pub closed spec fn spec_bits(self) -> u16 {
        self.bits
    }

    /// The modifier set of `bits`, kept as they are (a spec helper).
    pub open spec fn of(bits: u16) -> Modifier {
        Modifier::spec_from_bits(bits)
    }

    /// The modifier set of `bits`.
    pub closed spec fn spec_from_bits(bits: u16) -> Modifier {
        Modifier { bits }
    }

    /// `spec_from_bits` keeps the bits.
    pub proof fn lemma_from_bits(bits: u16)
        ensures
            Modifier::spec_from_bits(bits).spec_bits() == bits,
            forall|m: Modifier| #[trigger] Modifier::spec_from_bits(m.spec_bits()) == m,
    {
    }

    /// No modifier.
    pub fn empty() -> (m: Modifier)
        ensures
            m.spec_bits() == 0,
    {
        Modifier { bits: 0 }
    }

    /// Bold.
    pub fn bold() -> (m: Modifier)
        ensures
            m.spec_bits() == 1,
    {
        Modifier { bits: 1 }
    }

    /// Dim.
    pub fn dim() -> (m: Modifier)
        ensures
            m.spec_bits() == 2,
    {
        Modifier { bits: 2 }
    }

    /// Italic.
    pub fn italic() -> (m: Modifier)
        ensures
            m.spec_bits() == 4,
    {
        Modifier { bits: 4 }
    }

    /// Underlined.
    pub fn underlined() -> (m: Modifier)
        ensures
            m.spec_bits() == 8,
    {
        Modifier { bits: 8 }
    }

    /// Slow blink.
    pub fn slow_blink() -> (m: Modifier)
        ensures
            m.spec_bits() == 16,
    {
        Modifier { bits: 16 }
    }

    /// Rapid blink.
    pub fn rapid_blink() -> (m: Modifier)
        ensures
            m.spec_bits() == 32,
    {
        Modifier { bits: 32 }
    }

    /// Reversed.
    pub fn reversed() -> (m: Modifier)
        ensures
            m.spec_bits() == 64,
    {
        Modifier { bits: 64 }
    }

    /// Hidden.
    pub fn hidden() -> (m: Modifier)
        ensures
            m.spec_bits() == 128,
    {
        Modifier { bits: 128 }
    }

    /// Crossed out.
    pub fn crossed_out() -> (m: Modifier)
        ensures
            m.spec_bits() == 256,
    {
        Modifier { bits: 256 }
    }

    /// Every modifier.
    pub fn all() -> (m: Modifier)
        ensures
            m.spec_bits() == 511,
    {
        Modifier { bits: 511 }
    }

    /// The modifiers of `bits`, dropping bits that name none.
    pub fn from_bits_truncate(bits: u16) -> (m: Modifier)
        ensures
            m.spec_bits() == bits & 511,
    {
        Modifier { bits: bits & 511 }
    }

    /// The bits.
    pub fn bits(self) -> (b: u16)
        ensures
            b == self.spec_bits(),
    {
        self.bits
    }

    /// The modifiers of either.
    pub fn union(self, other: Modifier) -> (m: Modifier)
        ensures
            m.spec_bits() == self.spec_bits() | other.spec_bits(),
    {
        Modifier { bits: self.bits | other.bits }
    }

    /// The modifiers of `self` not in `other`.
    pub fn difference(self, other: Modifier) -> (m: Modifier)
        ensures
            m.spec_bits() == self.spec_bits() & !other.spec_bits(),
    {
        Modifier { bits: self.bits & !other.bits }
    }

    /// Whether every modifier of `other` is in `self`.
    pub fn contains(self, other: Modifier) -> (b: bool)
        ensures
            b == (self.spec_bits() & other.spec_bits() == other.spec_bits()),
    {
        self.bits & other.bits == other.bits
    }

    /// Whether no modifier is set.
    pub fn is_empty(self) -> (b: bool)
        ensures
            b == (self.spec_bits() == 0),
    {
        self.bits == 0
    }
}

/// A role-level style delta.
#[derive(Clone, Copy, Default, PartialEq, Eq, Hash, Debug)]
pub struct StylePatch {
    /// Foreground role.
    pub fg: Slot<Role>,
    /// Background role.
    pub bg: Slot<Role>,
    /// Underline colour role.
    pub underline: Slot<Role>,
    /// Modifiers to add.
    pub add: Modifier,
    /// Modifiers to remove.
    pub remove: Modifier,
    /// Glyph for the part.
    pub glyph: Slot<GlyphRole>,
    /// Size for the part.
    pub size: Slot<u16>,
    /// Text alignment.
    pub align: Slot<Align>,
}

/// The patch that says nothing.
pub open spec fn empty_patch() -> StylePatch {
    StylePatch {
        fg: Slot::Inherit,
        bg: Slot::Inherit,
        underline: Slot::Inherit,
        add: Modifier::of(0),
        remove: Modifier::of(0),
        glyph: Slot::Inherit,
        size: Slot::Inherit,
        align: Slot::Inherit,
    }
}

/// `over` layered on `base`: every slot of `over` that speaks wins; its
/// additions cancel removals below and its removals cancel additions below.
pub open spec fn merged(base: StylePatch, over: StylePatch) -> StylePatch {
    StylePatch {
        fg: layered(over.fg, base.fg),
        bg: layered(over.bg, base.bg),
        underline: layered(over.underline, base.underline),
        add: Modifier::of((base.add.spec_bits() & !over.remove.spec_bits()) | over.add.spec_bits()),
        remove: Modifier::of((base.remove.spec_bits() & !over.add.spec_bits()) | over.remove.spec_bits()),
        glyph: layered(over.glyph, base.glyph),
        size: layered(over.size, base.size),
        align: layered(over.align, base.align),
    }
}

/// Whether a patch says nothing at all.
pub open spec fn says_nothing(p: StylePatch) -> bool {
    &&& p.fg is Inherit
    &&& p.bg is Inherit
    &&& p.underline is Inherit
    &&& p.add.spec_bits() == 0
    &&& p.remove.spec_bits() == 0
    &&& p.glyph is Inherit
    &&& p.size is Inherit
    &&& p.align is Inherit
}

impl StylePatch {
    /// The empty patch.
    pub fn new() -> (p: StylePatch)
        ensures
            p == empty_patch(),
    {
        proof {
            Modifier::lemma_from_bits(0);
        }
        StylePatch {
            fg: Slot::Inherit,
            bg: Slot::Inherit,
            underline: Slot::Inherit,
            add: Modifier::empty(),
            remove: Modifier::empty(),
            glyph: Slot::Inherit,
            size: Slot::Inherit,
            align: Slot::Inherit,
        }
    }

    /// Set the foreground role.
    pub fn set_fg(self, r: Role) -> (p: StylePatch)
        ensures
            p == (StylePatch { fg: Slot::Value(r), ..self }),
    {
        StylePatch { fg: Slot::Value(r), ..self }
    }

    /// Clear the foreground.
    pub fn clear_fg(self) -> (p: StylePatch)
        ensures
            p == (StylePatch { fg: Slot::Clear, ..self }),
    {
        StylePatch { fg: Slot::Clear, ..self }
    }

    /// Set the background role.
    pub fn set_bg(self, r: Role) -> (p: StylePatch)
        ensures
            p == (StylePatch { bg: Slot::Value(r), ..self }),
    {
        StylePatch { bg: Slot::Value(r), ..self }
    }

    /// Clear the background.
    pub fn clear_bg(self) -> (p: StylePatch)
        ensures
            p == (StylePatch { bg: Slot::Clear, ..self }),
    {
        StylePatch { bg: Slot::Clear, ..self }
    }

    /// Set the underline colour role.
    pub fn set_underline(self, r: Role) -> (p: StylePatch)
        ensures
            p == (StylePatch { underline: Slot::Value(r), ..self }),
    {
        StylePatch { underline: Slot::Value(r), ..self }
    }

    /// Add modifiers (and stop removing them).
    pub fn add(self, m: Modifier) -> (p: StylePatch)
        ensures
            p == (StylePatch {
                add: Modifier::of(self.add.spec_bits() | m.spec_bits()),
                remove: Modifier::of(self.remove.spec_bits() & !m.spec_bits()),
                ..self
            }),
    {
        let add = self.add.union(m);
        let remove = self.remove.difference(m);
        proof {
            Modifier::lemma_from_bits(add.spec_bits());
            Modifier::lemma_from_bits(remove.spec_bits());
        }
        StylePatch { add, remove, ..self }
    }

    /// Remove modifiers (and stop adding them).
    pub fn remove(self, m: Modifier) -> (p: StylePatch)
        ensures
            p == (StylePatch {
                remove: Modifier::of(self.remove.spec_bits() | m.spec_bits()),
                add: Modifier::of(self.add.spec_bits() & !m.spec_bits()),
                ..self
            }),
    {
        let remove = self.remove.union(m);
        let add = self.add.difference(m);
        proof {
            Modifier::lemma_from_bits(add.spec_bits());
            Modifier::lemma_from_bits(remove.spec_bits());
        }
        StylePatch { add, remove, ..self }
    }

    /// Set the glyph.
    pub fn set_glyph(self, g: GlyphRole) -> (p: StylePatch)
        ensures
            p == (StylePatch { glyph: Slot::Value(g), ..self }),
    {
        StylePatch { glyph: Slot::Value(g), ..self }
    }

    /// Clear the glyph while keeping its reserved cell and geometry: a
    /// component that owns the cell paints it blank, unlike a glyph the
    /// patch does not mention.
    pub fn clear_glyph(self) -> (p: StylePatch)
        ensures
            p == (StylePatch { glyph: Slot::Clear, ..self }),
    {
        StylePatch { glyph: Slot::Clear, ..self }
    }

    /// Set the size.
    pub fn set_size(self, n: u16) -> (p: StylePatch)
        ensures
            p == (StylePatch { size: Slot::Value(n), ..self }),
    {
        StylePatch { size: Slot::Value(n), ..self }
    }

    /// Set the alignment.
    pub fn set_align(self, a: Align) -> (p: StylePatch)
        ensures
            p == (StylePatch { align: Slot::Value(a), ..self }),
    {
        StylePatch { align: Slot::Value(a), ..self }
    }

    /// `over` wins where it speaks. A later removal beats an earlier
    /// addition and vice versa.
    pub fn merge(self, over: StylePatch) -> (p: StylePatch)
        ensures
            p == merged(self, over),
    {
        let add = self.add.difference(over.remove).union(over.add);
        let remove = self.remove.difference(over.add).union(over.remove);
        proof {
            Modifier::lemma_from_bits(add.spec_bits());
            Modifier::lemma_from_bits(remove.spec_bits());
        }
        StylePatch {
            fg: over.fg.over(self.fg),
            bg: over.bg.over(self.bg),
            underline: over.underline.over(self.underline),
            add,
            remove,
            glyph: over.glyph.over(self.glyph),
            size: over.size.over(self.size),
            align: over.align.over(self.align),
        }
    }

    /// Whether the patch says nothing at all.
    pub fn is_empty(&self) -> (b: bool)
        ensures
            b == says_nothing(*self),
    {
        !self.fg.speaks() && !self.bg.speaks() && !self.underline.speaks() && self.add.is_empty()
            && self.remove.is_empty() && !self.glyph.speaks() && !self.size.speaks() && !self.align.speaks()
    }
}

/// A state rule: a patch applied when every flag of `when` is live.
#[derive(Clone, Copy, PartialEq, Eq, Debug)]
pub struct StateRule {
    /// The flags that must all be live.
    pub when: StateFlags,
    /// The patch.
    pub patch: StylePatch,
}

/// The number of set bits of `bits` from bit `i` up.
pub open spec fn flag_count(bits: u16, i: int) -> int
    decreases 16 - i,
{
    if i < 0 || i >= 16 {
        0
    } else {
        (if bit_set(bits, i) { 1int } else { 0int }) + flag_count(bits, i + 1)
    }
}

impl StateRule {
    /// Whether the rule applies to the live flags.
    pub fn matches(&self, live: StateFlags) -> (b: bool)
        ensures
            b == (live.spec_bits() & self.when.spec_bits() == self.when.spec_bits()),
    {
        live.contains(self.when)
    }

    /// The specificity: the number of flags required.
    pub fn specificity(&self) -> (n: u32)
        ensures
            n == flag_count(self.when.spec_bits(), 0),
    {
        let bits = self.when.bits();
        let mut n: u32 = 0;
        let mut i: u16 = 0;
        while i < 16
            invariant
                i <= 16,
                bits == self.when.spec_bits(),
                n + flag_count(bits, i as int) == flag_count(bits, 0),
                n <= i,
            decreases 16 - i,
        {
            if (bits >> i) & 1 == 1 {
                n = n + 1;
            }
            i = i + 1;
        }
        n
    }
}

// ---------------------------------------------------------------------------
// Merge laws.
// ---------------------------------------------------------------------------

/// The empty patch is the identity of merging, on either side.
pub proof fn law_merge_identity(a: StylePatch)
    ensures
        merged(a, empty_patch()) == a,
        merged(empty_patch(), a) == a,
{
    Modifier::lemma_from_bits(0);
    let (x, y) = (a.add.spec_bits(), a.remove.spec_bits());
    assert((x & !0u16) | 0u16 == x && (y & !0u16) | 0u16 == y) by (bit_vector);
    assert((0u16 & !y) | x == x && (0u16 & !x) | y == y) by (bit_vector);
    Modifier::lemma_from_bits(x);
    Modifier::lemma_from_bits(y);
}

/// Merging absorbs repetition: a patch over itself is itself, and merging
/// the same patch twice is merging it once.
pub proof fn law_merge_absorption(a: StylePatch, b: StylePatch)
    ensures
        merged(a, a) == a,
        merged(merged(a, b), b) == merged(a, b),
{
    let (aa, ar, ba, br) = (a.add.spec_bits(), a.remove.spec_bits(), b.add.spec_bits(), b.remove.spec_bits());
    assert((aa & !ar) | aa == aa && (ar & !aa) | ar == ar) by (bit_vector);
    assert((((aa & !br) | ba) & !br) | ba == (aa & !br) | ba) by (bit_vector);
    assert((((ar & !ba) | br) & !ba) | br == (ar & !ba) | br) by (bit_vector);
    Modifier::lemma_from_bits(aa);
    Modifier::lemma_from_bits(ar);
    Modifier::lemma_from_bits((aa & !br) | ba);
    Modifier::lemma_from_bits((ar & !ba) | br);
}

/// Merging is associative: how a stack of patches is grouped never
/// changes the result.
pub proof fn law_merge_is_associative(a: StylePatch, b: StylePatch, c: StylePatch)
    ensures
        merged(merged(a, b), c) == merged(a, merged(b, c)),
{
    let (aa, ar) = (a.add.spec_bits(), a.remove.spec_bits());
    let (ba, br) = (b.add.spec_bits(), b.remove.spec_bits());
    let (ca, cr) = (c.add.spec_bits(), c.remove.spec_bits());
    assert((((aa & !br) | ba) & !cr) | ca == (aa & !((br & !ca) | cr)) | ((ba & !cr) | ca)) by (bit_vector);
    assert((((ar & !ba) | br) & !ca) | cr == (ar & !((ba & !cr) | ca)) | ((br & !ca) | cr)) by (bit_vector);
    Modifier::lemma_from_bits((aa & !br) | ba);
    Modifier::lemma_from_bits((ar & !ba) | br);
    Modifier::lemma_from_bits((ba & !cr) | ca);
    Modifier::lemma_from_bits((br & !ca) | cr);
}

/// Modifier symmetry: of an addition and a removal of the same
/// modifiers, the later one wins, and the patch never both adds and
/// removes a modifier that the later one named.
pub proof fn law_later_modifier_wins(a: StylePatch, m: Modifier)
    ensures
        merged(a, StylePatch { add: m, ..empty_patch() }).add.spec_bits() & m.spec_bits() == m.spec_bits(),
        merged(a, StylePatch { add: m, ..empty_patch() }).remove.spec_bits() & m.spec_bits() == 0,
        merged(a, StylePatch { remove: m, ..empty_patch() }).remove.spec_bits() & m.spec_bits() == m.spec_bits(),
        merged(a, StylePatch { remove: m, ..empty_patch() }).add.spec_bits() & m.spec_bits() == 0,
{
    Modifier::lemma_from_bits(0);
    let (aa, ar, x) = (a.add.spec_bits(), a.remove.spec_bits(), m.spec_bits());
    assert(((aa & !0u16) | x) & x == x) by (bit_vector);
    assert(((ar & !x) | 0u16) & x == 0u16) by (bit_vector);
    assert(((ar & !0u16) | x) & x == x) by (bit_vector);
    assert(((aa & !x) | 0u16) & x == 0u16) by (bit_vector);
    Modifier::lemma_from_bits((aa & !0u16) | x);
    Modifier::lemma_from_bits((ar & !x) | 0u16);
    Modifier::lemma_from_bits((ar & !0u16) | x);
    Modifier::lemma_from_bits((aa & !x) | 0u16);
}

} // verus!
