//! Part recipes and the sorted part map they are stored in.
//!
//! State rules are stored pre-sorted by specificity (the number of flags a
//! rule requires, ascending; ties by declaration order) when a recipe is
//! built, so resolution is a single scan.

use vstd::prelude::*;

use crate::id::{fnv1a, fnv1a_spec, Part, FNV_OFFSET};
use crate::response::StateFlags;
use crate::theme::glyph::GlyphRole;
use crate::text::unicode::{string_push, string_push_str};
use vstd::string::StringSliceAdditionalSpecFns;
use crate::theme::patch::{empty_patch, flag_count, layered, merged, Slot, StateRule, StylePatch};

verus! {

/// The lowercase hex digit of `d` (below 16).
pub open spec fn hex_digit(d: u16) -> char {
    if d < 10 { (d + 48) as char } else { (d + 87) as char }
}

/// `x` in four lowercase hex digits.
pub open spec fn hex4(x: u16) -> Seq<char> {
    seq![hex_digit((x >> 12u16) & 15u16), hex_digit((x >> 8u16) & 15u16), hex_digit((x >> 4u16) & 15u16), hex_digit(x & 15u16)]
}

fn hex_char(d: u16) -> (c: char)
    requires
        d < 16,
    ensures
        c == hex_digit(d),
{
    if d < 10 {
        (d as u8 + 48) as char
    } else {
        (d as u8 + 87) as char
    }
}

fn push_hex4(s: &mut String, x: u16)
    ensures
        final(s)@ == old(s)@ + hex4(x),
{
    let a = (x >> 12u16) & 15u16;
    let b = (x >> 8u16) & 15u16;
    let c = (x >> 4u16) & 15u16;
    let d = x & 15u16;
    assert(a < 16 && b < 16 && c < 16 && d < 16) by (bit_vector)
        requires
            a == (x >> 12u16) & 15u16,
            b == (x >> 8u16) & 15u16,
            c == (x >> 4u16) & 15u16,
            d == x & 15u16,
    ;
    string_push(s, hex_char(a));
    string_push(s, hex_char(b));
    string_push(s, hex_char(c));
    string_push(s, hex_char(d));
    proof {
        assert(s@ =~= old(s)@ + hex4(x));
    }
}

/// A component family, the first key of a recipe.
#[derive(Clone, Copy, PartialEq, Eq, Structural, Hash, PartialOrd, Ord, Debug)]
pub struct Family(pub u16);

/// The library name of family `raw`, or nothing for a custom one.
pub open spec fn family_name(raw: u16) -> Seq<char> {
    if raw == 0 {
        "BUTTON"@
    } else if raw == 1 {
        "CHOICE"@
    } else if raw == 2 {
        "CHIP"@
    } else if raw == 3 {
        "FIELD"@
    } else if raw == 4 {
        "INPUT"@
    } else if raw == 5 {
        "TEXTAREA"@
    } else if raw == 6 {
        "CODE"@
    } else if raw == 7 {
        "SELECT"@
    } else if raw == 8 {
        "LIST"@
    } else if raw == 9 {
        "TREE"@
    } else if raw == 10 {
        "GRID"@
    } else if raw == 11 {
        "PROPS"@
    } else if raw == 12 {
        "STEPS"@
    } else if raw == 13 {
        "TABS"@
    } else if raw == 14 {
        "PANEL"@
    } else if raw == 15 {
        "SPLIT"@
    } else if raw == 16 {
        "SCROLLBAR"@
    } else if raw == 17 {
        "VIEWPORT"@
    } else if raw == 18 {
        "DIFF"@
    } else if raw == 19 {
        "DIALOG"@
    } else if raw == 20 {
        "OVERLAY"@
    } else if raw == 21 {
        "MENU"@
    } else if raw == 22 {
        "PICKER"@
    } else if raw == 23 {
        "COMPLETION"@
    } else if raw == 24 {
        "FORM"@
    } else if raw == 25 {
        "HELP"@
    } else if raw == 26 {
        "WIZARD"@
    } else if raw == 27 {
        "STATUSBAR"@
    } else if raw == 28 {
        "HINTBAR"@
    } else if raw == 29 {
        "PROGRESS"@
    } else if raw == 30 {
        "METER"@
    } else if raw == 31 {
        "EMPTY"@
    } else if raw == 32 {
        "BRAND"@
    } else if raw == 33 {
        "KEYHINT"@
    } else if raw == 34 {
        "TOO_SMALL"@
    } else {
        Seq::empty()
    }
}

impl Family {
    /// Buttons.
    pub fn button() -> (x: Family)
        ensures
            x.0 == 0,
    {
        Family(0)
    }

    /// Checkbox, toggle, radio group.
    pub fn choice() -> (x: Family)
        ensures
            x.0 == 1,
    {
        Family(1)
    }

    /// Chips.
    pub fn chip() -> (x: Family)
        ensures
            x.0 == 2,
    {
        Family(2)
    }

    /// Field chrome.
    pub fn field() -> (x: Family)
        ensures
            x.0 == 3,
    {
        Family(3)
    }

    /// Text input.
    pub fn input() -> (x: Family)
        ensures
            x.0 == 4,
    {
        Family(4)
    }

    /// Text area.
    pub fn textarea() -> (x: Family)
        ensures
            x.0 == 5,
    {
        Family(5)
    }

    /// Code editor.
    pub fn code() -> (x: Family)
        ensures
            x.0 == 6,
    {
        Family(6)
    }

    /// Select.
    pub fn select() -> (x: Family)
        ensures
            x.0 == 7,
    {
        Family(7)
    }

    /// List.
    pub fn list() -> (x: Family)
        ensures
            x.0 == 8,
    {
        Family(8)
    }

    /// Tree.
    pub fn tree() -> (x: Family)
        ensures
            x.0 == 9,
    {
        Family(9)
    }

    /// Grid.
    pub fn grid() -> (x: Family)
        ensures
            x.0 == 10,
    {
        Family(10)
    }

    /// Props.
    pub fn props() -> (x: Family)
        ensures
            x.0 == 11,
    {
        Family(11)
    }

    /// Steps.
    pub fn steps() -> (x: Family)
        ensures
            x.0 == 12,
    {
        Family(12)
    }

    /// Tabs.
    pub fn tabs() -> (x: Family)
        ensures
            x.0 == 13,
    {
        Family(13)
    }

    /// Panel.
    pub fn panel() -> (x: Family)
        ensures
            x.0 == 14,
    {
        Family(14)
    }

    /// Split pane.
    pub fn split() -> (x: Family)
        ensures
            x.0 == 15,
    {
        Family(15)
    }

    /// Scrollbar.
    pub fn scrollbar() -> (x: Family)
        ensures
            x.0 == 16,
    {
        Family(16)
    }

    /// Text viewport.
    pub fn viewport() -> (x: Family)
        ensures
            x.0 == 17,
    {
        Family(17)
    }

    /// Diff view.
    pub fn diff() -> (x: Family)
        ensures
            x.0 == 18,
    {
        Family(18)
    }

    /// Dialog.
    pub fn dialog() -> (x: Family)
        ensures
            x.0 == 19,
    {
        Family(19)
    }

    /// Overlay chrome.
    pub fn overlay() -> (x: Family)
        ensures
            x.0 == 20,
    {
        Family(20)
    }

    /// Menus.
    pub fn menu() -> (x: Family)
        ensures
            x.0 == 21,
    {
        Family(21)
    }

    /// Picker.
    pub fn picker() -> (x: Family)
        ensures
            x.0 == 22,
    {
        Family(22)
    }

    /// Completion.
    pub fn completion() -> (x: Family)
        ensures
            x.0 == 23,
    {
        Family(23)
    }

    /// Form.
    pub fn form() -> (x: Family)
        ensures
            x.0 == 24,
    {
        Family(24)
    }

    /// Help overlay.
    pub fn help() -> (x: Family)
        ensures
            x.0 == 25,
    {
        Family(25)
    }

    /// Wizard.
    pub fn wizard() -> (x: Family)
        ensures
            x.0 == 26,
    {
        Family(26)
    }

    /// Status bar.
    pub fn statusbar() -> (x: Family)
        ensures
            x.0 == 27,
    {
        Family(27)
    }

    /// Hint bar.
    pub fn hintbar() -> (x: Family)
        ensures
            x.0 == 28,
    {
        Family(28)
    }

    /// Progress.
    pub fn progress() -> (x: Family)
        ensures
            x.0 == 29,
    {
        Family(29)
    }

    /// Meter.
    pub fn meter() -> (x: Family)
        ensures
            x.0 == 30,
    {
        Family(30)
    }

    /// Empty state.
    pub fn empty() -> (x: Family)
        ensures
            x.0 == 31,
    {
        Family(31)
    }

    /// Brand lockup.
    pub fn brand() -> (x: Family)
        ensures
            x.0 == 32,
    {
        Family(32)
    }

    /// Key hint.
    pub fn keyhint() -> (x: Family)
        ensures
            x.0 == 33,
    {
        Family(33)
    }

    /// Below-minimum-size notice.
    pub fn too_small() -> (x: Family)
        ensures
            x.0 == 34,
    {
        Family(34)
    }

    /// Every library value, in declaration order.
    pub fn all() -> (v: Vec<Family>)
        ensures
            v@.len() == 35,
            forall|i: int| 0 <= i < 35 ==> (#[trigger] v@[i]).0 == i,
    {
        let mut v: Vec<Family> = Vec::new();
        let mut i: u16 = 0;
        while i < 35
            invariant
                i <= 35,
                v@.len() == i,
                forall|k: int| 0 <= k < i ==> (#[trigger] v@[k]).0 == k,
            decreases 35 - i,
        {
            v.push(Family(i));
            i = i + 1;
        }
        v
    }

    /// A custom value named by a downstream author; it lands in the high
    /// range.
    pub fn custom(name: &str) -> (x: Family)
        ensures
            x.0 == (0x8000u16 | ((fnv1a_spec(FNV_OFFSET, name.spec_bytes()) as u16) & 0x7FFFu16)),
    {
        let h = fnv1a(FNV_OFFSET, name.as_bytes());
        Family(0x8000u16 | ((h as u16) & 0x7FFFu16))
    }

    /// The library name, or `None` for a custom value.
    pub fn name(self) -> (r: Option<&'static str>)
        ensures
            match r {
                Some(s) => self.0 < 35 && s@ == family_name(self.0),
                None => self.0 >= 35,
            },
    {
        match self.0 {

            0 => Some("BUTTON"),
            1 => Some("CHOICE"),
            2 => Some("CHIP"),
            3 => Some("FIELD"),
            4 => Some("INPUT"),
            5 => Some("TEXTAREA"),
            6 => Some("CODE"),
            7 => Some("SELECT"),
            8 => Some("LIST"),
            9 => Some("TREE"),
            10 => Some("GRID"),
            11 => Some("PROPS"),
            12 => Some("STEPS"),
            13 => Some("TABS"),
            14 => Some("PANEL"),
            15 => Some("SPLIT"),
            16 => Some("SCROLLBAR"),
            17 => Some("VIEWPORT"),
            18 => Some("DIFF"),
            19 => Some("DIALOG"),
            20 => Some("OVERLAY"),
            21 => Some("MENU"),
            22 => Some("PICKER"),
            23 => Some("COMPLETION"),
            24 => Some("FORM"),
            25 => Some("HELP"),
            26 => Some("WIZARD"),
            27 => Some("STATUSBAR"),
            28 => Some("HINTBAR"),
            29 => Some("PROGRESS"),
            30 => Some("METER"),
            31 => Some("EMPTY"),
            32 => Some("BRAND"),
            33 => Some("KEYHINT"),
            34 => Some("TOO_SMALL"),
            _ => None,
        }
    }

    /// The raw number.
    pub fn raw(self) -> (r: u16)
        ensures
            r == self.0,
    {
        self.0
    }

    /// How it prints: `Family::NAME`, or `Family::custom(#hhhh)` with
    /// the raw number in four lowercase hex digits.
    pub fn debug_string(self) -> (s: String)
        ensures
            s@ == "Family::"@ + (if self.0 < 35 { family_name(self.0) } else { "custom(#"@ + hex4(self.0) + ")"@ }),
    {
        let mut s = String::new();
        string_push_str(&mut s, "Family::");
        match self.name() {
            Some(n) => string_push_str(&mut s, n),
            None => {
                string_push_str(&mut s, "custom(#");
                push_hex4(&mut s, self.0);
                string_push_str(&mut s, ")");
            },
        }
        s
    }
}

/// A variant within a family, the second key of a recipe.
#[derive(Clone, Copy, PartialEq, Eq, Structural, Hash, PartialOrd, Ord, Debug)]
pub struct Variant(pub u16);

/// The library name of variant `raw`, or nothing for a custom one.
pub open spec fn variant_name(raw: u16) -> Seq<char> {
    if raw == 0 {
        "DEFAULT"@
    } else if raw == 1 {
        "PRIMARY"@
    } else if raw == 2 {
        "SECONDARY"@
    } else if raw == 3 {
        "SUBTLE"@
    } else if raw == 4 {
        "DANGER"@
    } else if raw == 5 {
        "TOGGLE"@
    } else if raw == 6 {
        "QUIET"@
    } else if raw == 7 {
        "GHOST"@
    } else {
        Seq::empty()
    }
}

impl Variant {
    /// The family's default look.
    pub fn default() -> (x: Variant)
        ensures
            x.0 == 0,
    {
        Variant(0)
    }

    /// Primary emphasis.
    pub fn primary() -> (x: Variant)
        ensures
            x.0 == 1,
    {
        Variant(1)
    }

    /// Secondary emphasis.
    pub fn secondary() -> (x: Variant)
        ensures
            x.0 == 2,
    {
        Variant(2)
    }

    /// Subtle.
    pub fn subtle() -> (x: Variant)
        ensures
            x.0 == 3,
    {
        Variant(3)
    }

    /// Destructive.
    pub fn danger() -> (x: Variant)
        ensures
            x.0 == 4,
    {
        Variant(4)
    }

    /// Toggle.
    pub fn toggle() -> (x: Variant)
        ensures
            x.0 == 5,
    {
        Variant(5)
    }

    /// Quiet.
    pub fn quiet() -> (x: Variant)
        ensures
            x.0 == 6,
    {
        Variant(6)
    }

    /// Ghost.
    pub fn ghost() -> (x: Variant)
        ensures
            x.0 == 7,
    {
        Variant(7)
    }

    /// Every library value, in declaration order.
    pub fn all() -> (v: Vec<Variant>)
        ensures
            v@.len() == 8,
            forall|i: int| 0 <= i < 8 ==> (#[trigger] v@[i]).0 == i,
    {
        let mut v: Vec<Variant> = Vec::new();
        let mut i: u16 = 0;
        while i < 8
            invariant
                i <= 8,
                v@.len() == i,
                forall|k: int| 0 <= k < i ==> (#[trigger] v@[k]).0 == k,
            decreases 8 - i,
        {
            v.push(Variant(i));
            i = i + 1;
        }
        v
    }

    /// A custom value named by a downstream author; it lands in the high
    /// range.
    pub fn custom(name: &str) -> (x: Variant)
        ensures
            x.0 == (0x8000u16 | ((fnv1a_spec(FNV_OFFSET, name.spec_bytes()) as u16) & 0x7FFFu16)),
    {
        let h = fnv1a(FNV_OFFSET, name.as_bytes());
        Variant(0x8000u16 | ((h as u16) & 0x7FFFu16))
    }

    /// The library name, or `None` for a custom value.
    pub fn name(self) -> (r: Option<&'static str>)
        ensures
            match r {
                Some(s) => self.0 < 8 && s@ == variant_name(self.0),
                None => self.0 >= 8,
            },
    {
        match self.0 {

            0 => Some("DEFAULT"),
            1 => Some("PRIMARY"),
            2 => Some("SECONDARY"),
            3 => Some("SUBTLE"),
            4 => Some("DANGER"),
            5 => Some("TOGGLE"),
            6 => Some("QUIET"),
            7 => Some("GHOST"),
            _ => None,
        }
    }

    /// The raw number.
    pub fn raw(self) -> (r: u16)
        ensures
            r == self.0,
    {
        self.0
    }

    /// How it prints: `Variant::NAME`, or `Variant::custom(#hhhh)` with
    /// the raw number in four lowercase hex digits.
    pub fn debug_string(self) -> (s: String)
        ensures
            s@ == "Variant::"@ + (if self.0 < 8 { variant_name(self.0) } else { "custom(#"@ + hex4(self.0) + ")"@ }),
    {
        let mut s = String::new();
        string_push_str(&mut s, "Variant::");
        match self.name() {
            Some(n) => string_push_str(&mut s, n),
            None => {
                string_push_str(&mut s, "custom(#");
                push_hex4(&mut s, self.0);
                string_push_str(&mut s, ")");
            },
        }
        s
    }
}

/// The index of the first entry at or after `i` keyed `p`, or `-1`.
pub open spec fn part_index<T>(es: Seq<(Part, T)>, p: Part, i: int) -> int
    decreases es.len() - i,
{
    if i < 0 || i >= es.len() {
        -1
    } else if es[i].0 == p {
        i
    } else {
        part_index(es, p, i + 1)
    }
}

proof fn lemma_part_index_at<T>(es: Seq<(Part, T)>, p: Part, j: int, i: int)
    requires
        0 <= j <= i < es.len(),
        es[i].0 == p,
        forall|k: int| j <= k < i ==> (#[trigger] es[k]).0.0 < p.0,
    ensures
        part_index(es, p, j) == i,
    decreases i - j,
{
    if j < i {
        lemma_part_index_at(es, p, j + 1, i);
    }
}

proof fn lemma_part_index_none<T>(es: Seq<(Part, T)>, p: Part, j: int)
    requires
        0 <= j,
        forall|k: int| 0 <= k < es.len() ==> (#[trigger] es[k]).0.0 != p.0,
    ensures
        part_index(es, p, j) == -1,
    decreases es.len() - j,
{
    if j < es.len() {
        assert(es[j].0.0 != p.0);
        lemma_part_index_none(es, p, j + 1);
    }
}

proof fn lemma_part_index_facts<T>(es: Seq<(Part, T)>, i: int)
    requires
        0 <= i,
    ensures
        forall|q: Part| #![trigger part_index(es, q, i)]
            part_index(es, q, i) == -1 || (i <= part_index(es, q, i) < es.len() && es[part_index(es, q, i)].0 == q),
{
    assert forall|q: Part| #![trigger part_index(es, q, i)]
        part_index(es, q, i) == -1 || (i <= part_index(es, q, i) < es.len() && es[part_index(es, q, i)].0 == q) by {
        lemma_part_index_one(es, q, i);
    }
}

proof fn lemma_part_index_one<T>(es: Seq<(Part, T)>, q: Part, i: int)
    requires
        0 <= i,
    ensures
        part_index(es, q, i) == -1 || (i <= part_index(es, q, i) < es.len() && es[part_index(es, q, i)].0 == q),
    decreases es.len() - i,
{
    if i < es.len() && es[i].0 != q {
        lemma_part_index_one(es, q, i + 1);
    }
}

/// A small sorted map keyed by [`Part`].
#[derive(Clone, PartialEq, Eq, Debug, Default)]
pub struct PartMap<T> {
    entries: Vec<(Part, T)>,
}

/// The keys strictly increase.
pub open spec fn sorted<T>(es: Seq<(Part, T)>) -> bool {
    forall|i: int, j: int| 0 <= i < j < es.len() ==> (#[trigger] es[i]).0.0 < (#[trigger] es[j]).0.0
}

impl<T> PartMap<T> {
    /// The entries, in part order.
    pub closed spec fn spec_entries(&self) -> Seq<(Part, T)> {
        self.entries@
    }

    /// The keys are sorted and distinct.
    pub open spec fn wf(&self) -> bool {
        sorted(self.spec_entries())
    }

    /// An empty map.
    pub fn new() -> (m: PartMap<T>)
        ensures
            m.wf(),
            m.spec_entries().len() == 0,
    {
        PartMap { entries: Vec::new() }
    }

    /// Binary search: the index of `p`, or where it would go.
    fn search(&self, p: Part) -> (r: Result<usize, usize>)
        requires
            self.wf(),
        ensures
            match r {
                Ok(i) => i < self.spec_entries().len() && self.spec_entries()[i as int].0 == p,
                Err(i) => i <= self.spec_entries().len()
                    && forall|k: int| 0 <= k < self.spec_entries().len() ==>
                        (#[trigger] self.spec_entries()[k]).0.0 != p.0,
            },
            match r {
                Ok(i) => forall|k: int| 0 <= k < i ==> (#[trigger] self.spec_entries()[k]).0.0 < p.0,
                Err(i) => forall|k: int| 0 <= k < i ==> (#[trigger] self.spec_entries()[k]).0.0 < p.0,
            },
            match r {
                Ok(i) => forall|k: int| i < k < self.spec_entries().len() ==> (#[trigger] self.spec_entries()[k]).0.0 > p.0,
                Err(i) => forall|k: int| i <= k < self.spec_entries().len() ==> (#[trigger] self.spec_entries()[k]).0.0 > p.0,
            },
    {
        let mut lo: usize = 0;
        let mut hi: usize = self.entries.len();
        while lo < hi
            invariant
                self.wf(),
                lo <= hi <= self.entries@.len(),
                forall|k: int| 0 <= k < lo ==> (#[trigger] self.entries@[k]).0.0 < p.0,
                forall|k: int| hi <= k < self.entries@.len() ==> (#[trigger] self.entries@[k]).0.0 > p.0,
            decreases hi - lo,
        {
            let mid = lo + (hi - lo) / 2;
            let key = self.entries[mid].0;
            if key.0 == p.0 {
                proof {
                    assert(self.entries@[mid as int].0 == p);
                    assert forall|k: int| 0 <= k < mid implies (#[trigger] self.entries@[k]).0.0 < p.0 by {
                        assert(self.entries@[k].0.0 < self.entries@[mid as int].0.0);
                    }
                    assert forall|k: int| mid < k < self.entries@.len() implies
                        (#[trigger] self.entries@[k]).0.0 > p.0 by {
                        assert(self.entries@[mid as int].0.0 < self.entries@[k].0.0);
                    }
                }
                return Ok(mid);
            } else if key.0 < p.0 {
                proof {
                    assert forall|k: int| 0 <= k < mid + 1 implies (#[trigger] self.entries@[k]).0.0 < p.0 by {
                        if k < mid {
                            assert(self.entries@[k].0.0 < self.entries@[mid as int].0.0);
                        }
                    }
                }
                lo = mid + 1;
            } else {
                proof {
                    assert forall|k: int| mid <= k < self.entries@.len() implies
                        (#[trigger] self.entries@[k]).0.0 > p.0 by {
                        if k > mid {
                            assert(self.entries@[mid as int].0.0 < self.entries@[k].0.0);
                        }
                    }
                }
                hi = mid;
            }
        }
        Err(lo)
    }

    /// Look up a part.
    pub fn get(&self, p: Part) -> (r: Option<&T>)
        requires
            self.wf(),
        ensures
            match r {
                Some(v) => exists|i: int| 0 <= i < self.spec_entries().len()
                    && #[trigger] self.spec_entries()[i].0 == p && self.spec_entries()[i].1 == *v,
                None => forall|i: int| 0 <= i < self.spec_entries().len() ==> (#[trigger] self.spec_entries()[i]).0 != p,
            },
            match r {
                Some(v) => part_in(*self, p) == Some(*v),
                None => part_in(*self, p) is None,
            },
    {
        match self.search(p) {
            Ok(i) => {
                proof {
                    lemma_part_index_at(self.entries@, p, 0, i as int);
                }
                Some(&self.entries[i].1)
            },
            Err(_) => {
                proof {
                    lemma_part_index_none(self.entries@, p, 0);
                }
                None
            },
        }
    }

    /// Look up a part mutably.
    pub fn get_mut(&mut self, p: Part) -> (r: Option<&mut T>)
        requires
            old(self).wf(),
        ensures
            final(self).wf(),
            match r {
                Some(v) => exists|i: int|
                    0 <= i < old(self).spec_entries().len() && #[trigger] old(self).spec_entries()[i].0 == p && *v
                        == old(self).spec_entries()[i].1 && final(self).spec_entries() == old(self).spec_entries().update(
                        i,
                        (p, *final(v)),
                    ),
                None => !has_key(old(self).spec_entries(), p) && final(self).spec_entries() == old(self).spec_entries(),
            },
    {
        match self.search(p) {
            Ok(i) => Some(&mut self.entries[i].1),
            Err(_) => None,
        }
    }

    /// The entry for `p`, created with the default value when absent; the
    /// keys stay sorted.
    pub fn entry(&mut self, p: Part) -> (r: &mut T)
        where
            T: Default,
        requires
            old(self).wf(),
        ensures
            final(self).wf(),
            has_key(old(self).spec_entries(), p) ==> exists|i: int|
                0 <= i < old(self).spec_entries().len() && #[trigger] old(self).spec_entries()[i].0 == p && *r
                    == old(self).spec_entries()[i].1 && final(self).spec_entries() == old(self).spec_entries().update(
                    i,
                    (p, *final(r)),
                ),
            !has_key(old(self).spec_entries(), p) ==> exists|i: int|
                0 <= i <= old(self).spec_entries().len() && final(self).spec_entries() == #[trigger] old(
                    self,
                ).spec_entries().insert(i, (p, *final(r))) && sorted(old(self).spec_entries().insert(i, (p, *r))),
    {
        match self.search(p) {
            Ok(i) => &mut self.entries[i].1,
            Err(i) => {
                let ghost before = self.entries@;
                self.entries.insert(i, (p, T::default()));
                proof {
                    let after = self.entries@;
                    assert forall|a: int, b: int| 0 <= a < b < after.len() implies (#[trigger] after[a]).0.0
                        < (#[trigger] after[b]).0.0 by {
                        if b < i {
                            assert(before[a].0.0 < before[b].0.0);
                        } else if a > i {
                            assert(before[a - 1].0.0 < before[b - 1].0.0);
                        } else if a == i {
                            assert(after[b] == before[b - 1]);
                        } else {
                            assert(after[a] == before[a]);
                            if b > i {
                                assert(after[b] == before[b - 1]);
                            }
                        }
                    }
                    assert(after =~= before.insert(i as int, (p, after[i as int].1)));
                    assert forall|x: T| #[trigger] after.update(i as int, (p, x)) =~= before.insert(i as int, (p, x)) by {}
                }
                &mut self.entries[i].1
            },
        }
    }

    /// Insert or replace; the keys stay sorted.
    pub fn insert(&mut self, p: Part, v: T)
        requires
            old(self).wf(),
        ensures
            final(self).wf(),
            exists|i: int| 0 <= i < final(self).spec_entries().len()
                && #[trigger] final(self).spec_entries()[i] == (p, v),
            forall|q: Part| q != p ==> (
                #[trigger] has_key(final(self).spec_entries(), q) == has_key(old(self).spec_entries(), q)),
            forall|i: int| 0 <= i < old(self).spec_entries().len() && (#[trigger] old(self).spec_entries()[i]).0 != p
                ==> final(self).spec_entries().contains(old(self).spec_entries()[i]),
            final(self).spec_entries().len() == old(self).spec_entries().len() + (if has_key(old(self).spec_entries(), p) { 0int } else { 1int }),
    {
        match self.search(p) {
            Ok(i) => {
                let ghost before = self.entries@;
                self.entries.set(i, (p, v));
                proof {
                    assert(self.entries@[i as int] == (p, v));
                    assert(self.spec_entries()[i as int] == (p, v));
                    assert forall|a: int, b: int| 0 <= a < b < self.entries@.len() implies
                        (#[trigger] self.entries@[a]).0.0 < (#[trigger] self.entries@[b]).0.0 by {
                        assert(before[a].0.0 < before[b].0.0);
                    }
                    assert forall|q: Part| q != p implies
                        #[trigger] has_key(self.entries@, q) == has_key(before, q) by {
                        if has_key(before, q) {
                            let k = choose|k: int| 0 <= k < before.len() && #[trigger] before[k].0 == q;
                            assert(self.entries@[k].0 == q);
                        }
                        if has_key(self.entries@, q) {
                            let k = choose|k: int| 0 <= k < self.entries@.len() && #[trigger] self.entries@[k].0 == q;
                            assert(before[k].0 == q);
                        }
                    }
                    assert(has_key(before, p)) by {
                        assert(before[i as int].0 == p);
                    }
                    assert forall|k: int| 0 <= k < before.len() && (#[trigger] before[k]).0 != p implies
                        self.entries@.contains(before[k]) by {
                        assert(self.entries@[k] == before[k]);
                    }
                }
            },
            Err(i) => {
                let ghost before = self.entries@;
                self.entries.insert(i, (p, v));
                proof {
                    assert(self.entries@ == before.insert(i as int, (p, v)));
                    assert(self.entries@[i as int] == (p, v));
                    assert(self.spec_entries()[i as int] == (p, v));
                    assert forall|a: int, b: int| 0 <= a < b < self.entries@.len() implies
                        (#[trigger] self.entries@[a]).0.0 < (#[trigger] self.entries@[b]).0.0 by {
                        if b < i {
                            assert(before[a].0.0 < before[b].0.0);
                        } else if a > i {
                            assert(before[a - 1].0.0 < before[b - 1].0.0);
                        } else if a == i {
                            assert(self.entries@[b] == before[b - 1]);
                        } else {
                            assert(self.entries@[a] == before[a]);
                            if b > i {
                                assert(self.entries@[b] == before[b - 1]);
                            }
                        }
                    }
                    assert(!has_key(before, p));
                    assert forall|q: Part| q != p implies
                        #[trigger] has_key(self.entries@, q) == has_key(before, q) by {
                        if has_key(before, q) {
                            let k = choose|k: int| 0 <= k < before.len() && #[trigger] before[k].0 == q;
                            if k < i {
                                assert(self.entries@[k].0 == q);
                            } else {
                                assert(self.entries@[k + 1].0 == q);
                            }
                        }
                        if has_key(self.entries@, q) {
                            let k = choose|k: int| 0 <= k < self.entries@.len() && #[trigger] self.entries@[k].0 == q;
                            if k < i {
                                assert(before[k].0 == q);
                            } else {
                                assert(before[k - 1].0 == q);
                            }
                        }
                    }
                    assert forall|k: int| 0 <= k < before.len() && (#[trigger] before[k]).0 != p implies
                        self.entries@.contains(before[k]) by {
                        if k < i {
                            assert(self.entries@[k] == before[k]);
                        } else {
                            assert(self.entries@[k + 1] == before[k]);
                        }
                    }
                }
            },
        }
    }

    /// Append an entry whose part sorts after every part present.
    fn push_last(&mut self, p: Part, v: T)
        requires
            old(self).wf(),
            forall|i: int| 0 <= i < old(self).spec_entries().len() ==> (#[trigger] old(self).spec_entries()[i]).0.0 < p.0,
        ensures
            final(self).wf(),
            final(self).spec_entries() == old(self).spec_entries().push((p, v)),
    {
        self.entries.push((p, v));
    }

    /// The parts and values in part order.
    pub fn iter(&self) -> (v: Vec<(Part, &T)>)
        ensures
            v@.len() == self.spec_entries().len(),
            forall|i: int| 0 <= i < v@.len() ==> (#[trigger] v@[i]).0 == self.spec_entries()[i].0
                && *v@[i].1 == self.spec_entries()[i].1,
    {
        let mut v: Vec<(Part, &T)> = Vec::new();
        let mut i: usize = 0;
        while i < self.entries.len()
            invariant
                i <= self.entries@.len(),
                v@.len() == i,
                forall|k: int| 0 <= k < i ==> (#[trigger] v@[k]).0 == self.entries@[k].0 && *v@[k].1 == self.entries@[k].1,
            decreases self.entries@.len() - i,
        {
            let e = &self.entries[i];
            v.push((e.0, &e.1));
            i = i + 1;
        }
        v
    }

    /// The number of parts.
    pub fn len(&self) -> (n: usize)
        ensures
            n == self.spec_entries().len(),
    {
        self.entries.len()
    }

    /// Whether the map is empty.
    pub fn is_empty(&self) -> (b: bool)
        ensures
            b == (self.spec_entries().len() == 0),
    {
        self.entries.len() == 0
    }
}

/// The value the entries hold for `p`, if any.
pub open spec fn lookup<T>(es: Seq<(Part, T)>, p: Part) -> Option<T> {
    let k = part_index(es, p, 0);
    if k >= 0 { Some(es[k].1) } else { None }
}

/// The value `m` holds for `p`, if any.
pub open spec fn part_in<T>(m: PartMap<T>, p: Part) -> Option<T> {
    lookup(m.spec_entries(), p)
}

proof fn lemma_lookup_at<T>(es: Seq<(Part, T)>, j: int)
    requires
        sorted(es),
        0 <= j < es.len(),
    ensures
        lookup(es, es[j].0) == Some(es[j].1),
{
    assert forall|k: int| 0 <= k < j implies (#[trigger] es[k]).0.0 < es[j].0.0 by {}
    lemma_part_index_at(es, es[j].0, 0, j);
}

proof fn lemma_lookup_absent<T>(es: Seq<(Part, T)>, q: Part)
    requires
        forall|k: int| 0 <= k < es.len() ==> (#[trigger] es[k]).0 != q,
    ensures
        lookup(es, q) is None,
{
    assert forall|k: int| 0 <= k < es.len() implies (#[trigger] es[k]).0.0 != q.0 by {
        assert(es[k].0 != q);
    }
    lemma_part_index_none(es, q, 0);
}

/// In sorted entries, a key's value is the one at its unique position.
pub(crate) proof fn lemma_lookup_sorted<T>(es: Seq<(Part, T)>, q: Part)
    requires
        sorted(es),
    ensures
        lookup(es, q) is None <==> (forall|k: int| 0 <= k < es.len() ==> (#[trigger] es[k]).0 != q),
        forall|k: int| 0 <= k < es.len() && (#[trigger] es[k]).0 == q ==> lookup(es, q) == Some(es[k].1),
{
    if exists|k: int| 0 <= k < es.len() && (#[trigger] es[k]).0 == q {
        let k = choose|k: int| 0 <= k < es.len() && (#[trigger] es[k]).0 == q;
        lemma_lookup_at(es, k);
        assert forall|j: int| 0 <= j < es.len() && (#[trigger] es[j]).0 == q implies lookup(es, q) == Some(es[j].1) by {
            if j != k {
                if j < k {
                    assert(es[j].0.0 < es[k].0.0);
                } else {
                    assert(es[k].0.0 < es[j].0.0);
                }
            }
        }
    } else {
        lemma_lookup_absent(es, q);
    }
}

/// Replacing the value at `p`'s position changes only what `p` looks up.
pub(crate) proof fn lemma_lookup_update<T>(es: Seq<(Part, T)>, i: int, p: Part, v: T, q: Part)
    requires
        sorted(es),
        0 <= i < es.len(),
        es[i].0 == p,
    ensures
        sorted(es.update(i, (p, v))),
        lookup(es.update(i, (p, v)), q) == if q == p { Some(v) } else { lookup(es, q) },
{
    let n = es.update(i, (p, v));
    assert forall|a: int, b: int| 0 <= a < b < n.len() implies (#[trigger] n[a]).0.0 < (#[trigger] n[b]).0.0 by {
        assert(es[a].0.0 < es[b].0.0);
    }
    lemma_lookup_sorted(es, q);
    lemma_lookup_sorted(n, q);
    if q == p {
        lemma_lookup_at(n, i);
    } else {
        assert forall|k: int| 0 <= k < n.len() implies ((#[trigger] n[k]).0 == q) == (es[k].0 == q) by {}
        if exists|k: int| 0 <= k < es.len() && (#[trigger] es[k]).0 == q {
            let k = choose|k: int| 0 <= k < es.len() && (#[trigger] es[k]).0 == q;
            assert(n[k] == es[k]);
        }
    }
}

/// Inserting an absent key changes only what that key looks up.
pub(crate) proof fn lemma_lookup_insert<T>(es: Seq<(Part, T)>, i: int, p: Part, v: T, q: Part)
    requires
        sorted(es.insert(i, (p, v))),
        0 <= i <= es.len(),
        !has_key(es, p),
    ensures
        lookup(es.insert(i, (p, v)), q) == if q == p { Some(v) } else { lookup(es, q) },
{
    let n = es.insert(i, (p, v));
    assert(sorted(es)) by {
        assert forall|a: int, b: int| 0 <= a < b < es.len() implies (#[trigger] es[a]).0.0 < (#[trigger] es[b]).0.0 by {
            let a2 = if a < i { a } else { a + 1 };
            let b2 = if b < i { b } else { b + 1 };
            assert(n[a2] == es[a] && n[b2] == es[b]);
        }
    }
    lemma_lookup_sorted(es, q);
    lemma_lookup_sorted(n, q);
    if q == p {
        lemma_lookup_at(n, i);
    } else {
        if exists|k: int| 0 <= k < es.len() && (#[trigger] es[k]).0 == q {
            let k = choose|k: int| 0 <= k < es.len() && (#[trigger] es[k]).0 == q;
            let k2 = if k < i { k } else { k + 1 };
            assert(n[k2] == es[k]);
        } else {
            assert forall|k: int| 0 <= k < n.len() implies (#[trigger] n[k]).0 != q by {
                if k < i {
                    assert(n[k] == es[k]);
                } else if k > i {
                    assert(n[k] == es[k - 1]);
                }
            }
        }
    }
}

/// Whether some entry has key `q`.
pub open spec fn has_key<T>(es: Seq<(Part, T)>, q: Part) -> bool {
    exists|k: int| 0 <= k < es.len() && #[trigger] es[k].0 == q
}

// ---------------------------------------------------------------------------
// Part recipes.
// ---------------------------------------------------------------------------

/// One part's recipe: a base patch plus state rules pre-sorted by
/// specificity.
#[derive(PartialEq, Eq, Debug, Default)]
pub struct PartRecipe {
    /// The base patch.
    pub base: StylePatch,
    /// The state rules, by ascending specificity, ties in declaration
    /// order.
    pub states: Vec<StateRule>,
    /// The part's glyph.
    pub glyph: Slot<GlyphRole>,
    /// The part's size.
    pub size: Slot<u16>,
}

/// How many flags a rule requires.
pub open spec fn rule_specificity(r: StateRule) -> int {
    flag_count(r.when.spec_bits(), 0)
}

/// The rules are in ascending specificity.
pub open spec fn by_specificity(rs: Seq<StateRule>) -> bool {
    forall|i: int, j: int| 0 <= i <= j < rs.len() ==> rule_specificity(#[trigger] rs[i]) <= rule_specificity(#[trigger] rs[j])
}

/// Where a rule of specificity `s` goes among `rs` (from index `i`): before
/// the first rule that requires more flags, after every rule that requires
/// as many.
pub open spec fn insert_position(rs: Seq<StateRule>, s: int, i: int) -> int
    decreases rs.len() - i,
{
    if i < 0 || i >= rs.len() {
        rs.len() as int
    } else if rule_specificity(rs[i]) > s {
        i
    } else {
        insert_position(rs, s, i + 1)
    }
}

/// `rs` with `r` inserted at its specificity position.
pub open spec fn with_rule(rs: Seq<StateRule>, r: StateRule) -> Seq<StateRule> {
    rs.insert(insert_position(rs, rule_specificity(r), 0), r)
}

/// `rs` with each of `more` inserted in turn.
pub open spec fn with_rules(rs: Seq<StateRule>, more: Seq<StateRule>) -> Seq<StateRule>
    decreases more.len(),
{
    if more.len() == 0 {
        rs
    } else {
        with_rules(with_rule(rs, more[0]), more.skip(1))
    }
}

/// Whether a rule applies to the live flags.
pub open spec fn rule_matches(r: StateRule, live: StateFlags) -> bool {
    live.spec_bits() & r.when.spec_bits() == r.when.spec_bits()
}

/// `acc` with every rule of `rs` that matches `live` merged over it, in
/// order.
pub open spec fn apply_rules(acc: StylePatch, rs: Seq<StateRule>, live: StateFlags) -> StylePatch
    decreases rs.len(),
{
    if rs.len() == 0 {
        acc
    } else {
        let next = if rule_matches(rs[0], live) { merged(acc, rs[0].patch) } else { acc };
        apply_rules(next, rs.skip(1), live)
    }
}

/// `acc` with a recipe's base merged over it and its glyph and size slots
/// layered on top.
pub open spec fn base_applied(r: PartRecipe, acc: StylePatch) -> StylePatch {
    let m = merged(acc, r.base);
    StylePatch { glyph: layered(r.glyph, m.glyph), size: layered(r.size, m.size), ..m }
}

/// Family and variant rules interleaved into one level: ascending by
/// specificity, the family's rule first on a tie.
pub open spec fn merge_by_specificity(f: Seq<StateRule>, v: Seq<StateRule>) -> Seq<StateRule>
    decreases f.len() + v.len(),
{
    if f.len() == 0 {
        v
    } else if v.len() == 0 {
        f
    } else if rule_specificity(f[0]) <= rule_specificity(v[0]) {
        seq![f[0]] + merge_by_specificity(f.skip(1), v)
    } else {
        seq![v[0]] + merge_by_specificity(f, v.skip(1))
    }
}

proof fn lemma_insert_position(rs: Seq<StateRule>, s: int, i: int)
    requires
        0 <= i <= rs.len(),
    ensures
        i <= insert_position(rs, s, i) <= rs.len(),
        forall|k: int| i <= k < insert_position(rs, s, i) ==> rule_specificity(#[trigger] rs[k]) <= s,
        insert_position(rs, s, i) < rs.len() ==> rule_specificity(rs[insert_position(rs, s, i)]) > s,
    decreases rs.len() - i,
{
    if i < rs.len() && rule_specificity(rs[i]) <= s {
        lemma_insert_position(rs, s, i + 1);
    }
}

impl PartRecipe {
    /// Insert a state rule at its specificity position: after the rules
    /// of equal specificity, so declaration order breaks ties.
    pub fn when(&mut self, when: StateFlags, patch: StylePatch) -> (r: &mut PartRecipe)
        ensures
            r.states@ == with_rule(old(self).states@, StateRule { when, patch }),
            r.base == old(self).base,
            r.glyph == old(self).glyph,
            r.size == old(self).size,
            *final(self) == *final(r),
    {
        let rule = StateRule { when, patch };
        let spec = rule.specificity();
        let mut pos: usize = 0;
        while pos < self.states.len()
            invariant
                pos <= self.states@.len(),
                insert_position(self.states@, spec as int, 0) == insert_position(self.states@, spec as int, pos as int),
            ensures
                pos <= self.states@.len(),
                insert_position(self.states@, spec as int, 0) == pos,
            decreases self.states@.len() - pos,
        {
            if self.states[pos].specificity() > spec {
                break;
            }
            pos = pos + 1;
        }
        self.states.insert(pos, rule);
        self
    }

    /// The base patch and the glyph and size slots over `acc`: the family
    /// base and the variant delta precede every state rule.
    pub fn apply_base(&self, acc: StylePatch) -> (r: StylePatch)
        ensures
            r == base_applied(*self, acc),
    {
        let mut acc = acc.merge(self.base);
        acc.glyph = self.glyph.over(acc.glyph);
        acc.size = self.size.over(acc.size);
        acc
    }

    /// Every matching state rule over `acc`, in stored order: one scan.
    pub fn apply_states(&self, acc: StylePatch, live: StateFlags) -> (r: StylePatch)
        ensures
            r == apply_rules(acc, self.states@, live),
    {
        let mut out = acc;
        let mut i: usize = 0;
        proof {
            assert(self.states@.skip(0) =~= self.states@);
        }
        while i < self.states.len()
            invariant
                i <= self.states@.len(),
                apply_rules(acc, self.states@, live) == apply_rules(out, self.states@.skip(i as int), live),
            decreases self.states@.len() - i,
        {
            let r = &self.states[i];
            proof {
                assert(self.states@.skip(i as int)[0] == self.states@[i as int]);
                assert(self.states@.skip(i as int).skip(1) =~= self.states@.skip(i as int + 1));
            }
            if r.matches(live) {
                out = out.merge(r.patch);
            }
            i = i + 1;
        }
        proof {
            assert(self.states@.skip(i as int).len() == 0);
        }
        out
    }

    /// Base then state rules, for a recipe that is a whole precedence
    /// level on its own (a global override).
    pub fn apply(&self, acc: StylePatch, live: StateFlags) -> (r: StylePatch)
        ensures
            r == apply_rules(base_applied(*self, acc), self.states@, live),
    {
        let b = self.apply_base(acc);
        self.apply_states(b, live)
    }

    /// Merge another recipe over this one: its base over this base, its
    /// slots where they speak, and each of its rules inserted at its
    /// specificity position.
    pub fn merge_from(&mut self, other: &PartRecipe)
        ensures
            final(self).base == merged(old(self).base, other.base),
            final(self).glyph == layered(other.glyph, old(self).glyph),
            final(self).size == layered(other.size, old(self).size),
            final(self).states@ == with_rules(old(self).states@, other.states@),
    {
        self.base = self.base.merge(other.base);
        self.glyph = other.glyph.over(self.glyph);
        self.size = other.size.over(self.size);
        let ghost start = self.states@;
        let mut i: usize = 0;
        proof {
            assert(other.states@.skip(0) =~= other.states@);
        }
        while i < other.states.len()
            invariant
                i <= other.states@.len(),
                self.base == merged(old(self).base, other.base),
                self.glyph == layered(other.glyph, old(self).glyph),
                self.size == layered(other.size, old(self).size),
                with_rules(start, other.states@) == with_rules(self.states@, other.states@.skip(i as int)),
            decreases other.states@.len() - i,
        {
            let r = other.states[i];
            proof {
                assert(other.states@.skip(i as int)[0] == other.states@[i as int]);
                assert(other.states@.skip(i as int).skip(1) =~= other.states@.skip(i as int + 1));
            }
            self.when(r.when, r.patch);
            i = i + 1;
        }
        proof {
            assert(other.states@.skip(i as int).len() == 0);
            assert(other.states@.skip(0) =~= other.states@);
        }
    }
}

/// Merge a family's and a variant's state rules over `acc` in one pass,
/// ascending by specificity, the family's rule first on a tie: a single
/// precedence level spanning both lists.
pub fn merge_states(acc: StylePatch, family: &[StateRule], variant: &[StateRule], live: StateFlags) -> (r: StylePatch)
    ensures
        r == apply_rules(acc, merge_by_specificity(family@, variant@), live),
{
    let mut out = acc;
    let mut i: usize = 0;
    let mut j: usize = 0;
    proof {
        assert(family@.skip(0) =~= family@);
        assert(variant@.skip(0) =~= variant@);
    }
    while i < family.len() || j < variant.len()
        invariant
            i <= family@.len(),
            j <= variant@.len(),
            apply_rules(acc, merge_by_specificity(family@, variant@), live) == apply_rules(
                out,
                merge_by_specificity(family@.skip(i as int), variant@.skip(j as int)),
                live,
            ),
        decreases family@.len() - i + variant@.len() - j,
    {
        let ghost f = family@.skip(i as int);
        let ghost v = variant@.skip(j as int);
        let take_family = if i >= family.len() {
            false
        } else if j >= variant.len() {
            true
        } else {
            family[i].specificity() <= variant[j].specificity()
        };
        let r = if take_family { family[i] } else { variant[j] };
        proof {
            let m = merge_by_specificity(f, v);
            if take_family {
                assert(f[0] == family@[i as int]);
                assert(f.skip(1) =~= family@.skip(i as int + 1));
                if v.len() == 0 {
                    assert(m == f);
                    assert(merge_by_specificity(f.skip(1), v) == f.skip(1));
                } else {
                    assert(v[0] == variant@[j as int]);
                    assert(m =~= seq![f[0]] + merge_by_specificity(f.skip(1), v));
                }
                assert(m[0] == r);
                assert(m.skip(1) =~= merge_by_specificity(family@.skip(i as int + 1), v));
            } else {
                assert(v[0] == variant@[j as int]);
                assert(v.skip(1) =~= variant@.skip(j as int + 1));
                if f.len() == 0 {
                    assert(m == v);
                } else {
                    assert(f[0] == family@[i as int]);
                    assert(m =~= seq![v[0]] + merge_by_specificity(f, v.skip(1)));
                }
                assert(m[0] == r);
                assert(m.skip(1) =~= merge_by_specificity(f, variant@.skip(j as int + 1)));
            }
        }
        if r.matches(live) {
            out = out.merge(r.patch);
        }
        if take_family {
            i = i + 1;
        } else {
            j = j + 1;
        }
    }
    proof {
        assert(family@.skip(i as int).len() == 0);
        assert(variant@.skip(j as int).len() == 0);
    }
    out
}

/// Inserting a rule keeps the rules in ascending specificity, puts the new
/// rule after every rule that requires as many flags (declaration order
/// breaks ties), and keeps every other rule.
pub proof fn law_rules_stay_sorted_by_specificity(rs: Seq<StateRule>, r: StateRule)
    requires
        by_specificity(rs),
    ensures
        by_specificity(with_rule(rs, r)),
        with_rule(rs, r).len() == rs.len() + 1,
        ({
            let k = insert_position(rs, rule_specificity(r), 0);
            &&& with_rule(rs, r)[k] == r
            &&& forall|i: int| 0 <= i < k ==> rule_specificity(#[trigger] rs[i]) <= rule_specificity(r)
            &&& with_rule(rs, r).take(k) == rs.take(k)
            &&& with_rule(rs, r).skip(k + 1) == rs.skip(k)
        }),
{
    let s = rule_specificity(r);
    lemma_insert_position(rs, s, 0);
    let k = insert_position(rs, s, 0);
    let out = with_rule(rs, r);
    assert(out.take(k) =~= rs.take(k));
    assert(out.skip(k + 1) =~= rs.skip(k));
    lemma_inserted_sorted(rs, r, k);
}

#[verifier::rlimit(40)]
proof fn lemma_inserted_sorted(rs: Seq<StateRule>, r: StateRule, k: int)
    requires
        by_specificity(rs),
        0 <= k <= rs.len(),
        forall|i: int| 0 <= i < k ==> rule_specificity(#[trigger] rs[i]) <= rule_specificity(r),
        k < rs.len() ==> rule_specificity(rs[k]) > rule_specificity(r),
    ensures
        by_specificity(rs.insert(k, r)),
{
    let out = rs.insert(k, r);
    assert forall|i: int| 0 <= i < out.len() implies #[trigger] rule_specificity(out[i]) == (if i < k {
        rule_specificity(rs[i])
    } else if i == k {
        rule_specificity(r)
    } else {
        rule_specificity(rs[i - 1])
    }) by {}
    assert forall|i: int, j: int| 0 <= i <= j < out.len() implies rule_specificity(#[trigger] out[i]) <= rule_specificity(
        #[trigger] out[j],
    ) by {
        if j < k {
            assert(rule_specificity(rs[i]) <= rule_specificity(rs[j]));
        } else if i > k {
            assert(rule_specificity(rs[i - 1]) <= rule_specificity(rs[j - 1]));
        } else if i == k && j > k {
            assert(rule_specificity(rs[k]) <= rule_specificity(rs[j - 1]));
        } else if i < k && j > k {
            assert(rule_specificity(rs[i]) <= rule_specificity(r));
            assert(rule_specificity(rs[k]) <= rule_specificity(rs[j - 1]));
        }
    }
}

/// Interleaving two specificity-sorted rule lists keeps every rule and
/// stays sorted.
pub proof fn law_merge_states_is_sorted(f: Seq<StateRule>, v: Seq<StateRule>)
    requires
        by_specificity(f),
        by_specificity(v),
    ensures
        by_specificity(merge_by_specificity(f, v)),
        merge_by_specificity(f, v).len() == f.len() + v.len(),
        merge_by_specificity(f, v).len() > 0 ==> (merge_by_specificity(f, v)[0] == (if f.len() > 0 && (v.len() == 0
            || rule_specificity(f[0]) <= rule_specificity(v[0])) { f[0] } else { v[0] })),
    decreases f.len() + v.len(),
{
    if f.len() > 0 && v.len() > 0 {
        if rule_specificity(f[0]) <= rule_specificity(v[0]) {
            let rest = f.skip(1);
            assert(by_specificity(rest)) by {
                assert forall|i: int, j: int| 0 <= i <= j < rest.len() implies rule_specificity(#[trigger] rest[i])
                    <= rule_specificity(#[trigger] rest[j]) by {
                    assert(rest[i] == f[i + 1] && rest[j] == f[j + 1]);
                }
            }
            law_merge_states_is_sorted(rest, v);
            let m = merge_by_specificity(rest, v);
            let out = seq![f[0]] + m;
            assert forall|i: int, j: int| 0 <= i <= j < out.len() implies rule_specificity(#[trigger] out[i])
                <= rule_specificity(#[trigger] out[j]) by {
                if i == 0 && j > 0 {
                    assert(out[j] == m[j - 1]);
                    // every rule of `m` is at least the first of `rest` or of `v`
                    assert(rule_specificity(m[0]) <= rule_specificity(m[j - 1]));
                    if rest.len() > 0 {
                        assert(rule_specificity(f[0]) <= rule_specificity(f[1]));
                    }
                } else if i > 0 {
                    assert(out[i] == m[i - 1] && out[j] == m[j - 1]);
                }
            }
        } else {
            let rest = v.skip(1);
            assert(by_specificity(rest)) by {
                assert forall|i: int, j: int| 0 <= i <= j < rest.len() implies rule_specificity(#[trigger] rest[i])
                    <= rule_specificity(#[trigger] rest[j]) by {
                    assert(rest[i] == v[i + 1] && rest[j] == v[j + 1]);
                }
            }
            law_merge_states_is_sorted(f, rest);
            let m = merge_by_specificity(f, rest);
            let out = seq![v[0]] + m;
            assert forall|i: int, j: int| 0 <= i <= j < out.len() implies rule_specificity(#[trigger] out[i])
                <= rule_specificity(#[trigger] out[j]) by {
                if i == 0 && j > 0 {
                    assert(out[j] == m[j - 1]);
                    assert(rule_specificity(m[0]) <= rule_specificity(m[j - 1]));
                    if rest.len() > 0 {
                        assert(rule_specificity(v[0]) <= rule_specificity(v[1]));
                    }
                } else if i > 0 {
                    assert(out[i] == m[i - 1] && out[j] == m[j - 1]);
                }
            }
        }
    }
}

/// Two recipes say the same: the same base, rules, glyph and size.
pub open spec fn same_recipe(a: PartRecipe, b: PartRecipe) -> bool {
    a.base == b.base && a.states@ == b.states@ && a.glyph == b.glyph && a.size == b.size
}

impl Clone for PartRecipe {
    fn clone(&self) -> (r: PartRecipe)
        ensures
            same_recipe(r, *self),
    {
        let mut states: Vec<StateRule> = Vec::new();
        let mut i: usize = 0;
        while i < self.states.len()
            invariant
                i <= self.states@.len(),
                states@ == self.states@.take(i as int),
            decreases self.states@.len() - i,
        {
            states.push(self.states[i]);
            proof {
                assert(self.states@.take(i as int + 1) =~= self.states@.take(i as int).push(self.states@[i as int]));
            }
            i = i + 1;
        }
        proof {
            assert(self.states@.take(i as int) =~= self.states@);
        }
        PartRecipe { base: self.base, states, glyph: self.glyph, size: self.size }
    }
}

// ---------------------------------------------------------------------------
// Recipes.
// ---------------------------------------------------------------------------

/// A family's recipe: its default variant, base parts and variant deltas.
#[derive(Clone, PartialEq, Eq, Debug)]
pub struct Recipe {
    /// The variant used when an instance names none.
    pub default_variant: Variant,
    /// The base parts.
    pub parts: PartMap<PartRecipe>,
    /// Variant deltas, applied over the base.
    pub variants: Vec<(Variant, PartMap<PartRecipe>)>,
}

impl Default for Recipe {
    fn default() -> (r: Recipe)
        ensures
            r.default_variant == Variant(0),
            r.parts.wf(),
            r.parts.spec_entries().len() == 0,
            r.variants@.len() == 0,
    {
        Recipe { default_variant: Variant(0), parts: PartMap::new(), variants: Vec::new() }
    }
}

/// Every part map of a recipe is sorted.
pub open spec fn recipe_wf(r: Recipe) -> bool {
    &&& r.parts.wf()
    &&& forall|i: int| 0 <= i < r.variants@.len() ==> (#[trigger] r.variants@[i]).1.wf()
}

/// Every declared recipe's part maps are sorted.
pub open spec fn families_wf(fs: Seq<(Family, Recipe)>) -> bool {
    forall|i: int| 0 <= i < fs.len() ==> recipe_wf(#[trigger] fs[i].1)
}

/// The first variant delta at or after `i` keyed `v`, or `-1`.
pub open spec fn variant_index(vs: Seq<(Variant, PartMap<PartRecipe>)>, v: Variant, i: int) -> int
    decreases vs.len() - i,
{
    if i < 0 || i >= vs.len() {
        -1
    } else if vs[i].0 == v {
        i
    } else {
        variant_index(vs, v, i + 1)
    }
}

pub(crate) proof fn lemma_variant_index(vs: Seq<(Variant, PartMap<PartRecipe>)>, v: Variant, i: int)
    requires
        0 <= i,
    ensures
        variant_index(vs, v, i) == -1 || (i <= variant_index(vs, v, i) < vs.len() && vs[variant_index(vs, v, i)].0 == v),
    decreases vs.len() - i,
{
    if i < vs.len() && vs[i].0 != v {
        lemma_variant_index(vs, v, i + 1);
    }
}

impl Recipe {
    /// The variant delta for `v`, if defined.
    pub fn variant(&self, v: Variant) -> (r: Option<&PartMap<PartRecipe>>)
        ensures
            ({
                let k = variant_index(self.variants@, v, 0);
                if k >= 0 { r matches Some(m) && *m == self.variants@[k].1 } else { r is None }
            }),
    {
        let mut i: usize = 0;
        while i < self.variants.len()
            invariant
                i <= self.variants@.len(),
                variant_index(self.variants@, v, 0) == variant_index(self.variants@, v, i as int),
            decreases self.variants@.len() - i,
        {
            if self.variants[i].0 == v {
                return Some(&self.variants[i].1);
            }
            i = i + 1;
        }
        None
    }

    /// The variant delta for `v`, created empty at the end when absent.
    pub fn variant_mut(&mut self, v: Variant) -> (r: &mut PartMap<PartRecipe>)
        ensures
            final(self).default_variant == old(self).default_variant,
            final(self).parts == old(self).parts,
            ({
                let k = variant_index(old(self).variants@, v, 0);
                if k >= 0 {
                    &&& *r == old(self).variants@[k].1
                    &&& final(self).variants@ == old(self).variants@.update(k, (v, *final(r)))
                } else {
                    &&& r.wf()
                    &&& r.spec_entries().len() == 0
                    &&& final(self).variants@ == old(self).variants@.push((v, *final(r)))
                }
            }),
    {
        let mut i: usize = 0;
        while i < self.variants.len()
            invariant
                i <= self.variants@.len(),
                variant_index(self.variants@, v, 0) == variant_index(self.variants@, v, i as int),
            ensures
                i <= self.variants@.len(),
                i < self.variants@.len() ==> variant_index(self.variants@, v, 0) == i && self.variants@[i as int].0 == v,
                i == self.variants@.len() ==> variant_index(self.variants@, v, 0) == -1,
            decreases self.variants@.len() - i,
        {
            if self.variants[i].0 == v {
                break;
            }
            i = i + 1;
        }
        if i == self.variants.len() {
            self.variants.push((v, PartMap::new()));
        }
        proof {
            lemma_variant_index(old(self).variants@, v, 0);
        }
        &mut self.variants[i].1
    }
}

/// A theme-level global override: a family, an optional variant and the
/// parts it restyles.
#[derive(Clone, PartialEq, Eq, Debug)]
pub struct GlobalOverride {
    /// The family.
    pub family: Family,
    /// The variant, or every variant.
    pub variant: Option<Variant>,
    /// The parts.
    pub parts: PartMap<PartRecipe>,
}

/// Every family's recipe plus the global overrides, built once at theme
/// construction and only read at resolution. A family that was never
/// defined resolves through the neutral recipe.
#[derive(Clone, PartialEq, Eq, Debug)]
pub struct Recipes {
    by_family: Vec<(Family, Recipe)>,
    overrides: Vec<GlobalOverride>,
    neutral: Recipe,
    mono: Vec<(Family, Vec<MonoRule>)>,
}

/// One entry of a mono fallback manifest: the part it targets, the state
/// that arms it, and the patch merged when that state is live.
pub type MonoRule = (Part, StateFlags, StylePatch);

/// The first authored mono manifest at or after `i` for `f`, or `-1`.
pub open spec fn mono_index(ms: Seq<(Family, Vec<MonoRule>)>, f: Family, i: int) -> int
    decreases ms.len() - i,
{
    if i < 0 || i >= ms.len() {
        -1
    } else if ms[i].0 == f {
        i
    } else {
        mono_index(ms, f, i + 1)
    }
}

/// The authored mono manifest for `f`, if the theme declares one.
pub open spec fn authored_mono(ms: Seq<(Family, Vec<MonoRule>)>, f: Family) -> Option<Seq<MonoRule>> {
    let k = mono_index(ms, f, 0);
    if k >= 0 { Some(ms[k].1@) } else { None }
}

/// The families strictly ascend.
pub open spec fn families_sorted(fs: Seq<(Family, Recipe)>) -> bool {
    forall|i: int, j: int| 0 <= i < j < fs.len() ==> (#[trigger] fs[i]).0.0 < (#[trigger] fs[j]).0.0
}

/// The first family entry at or after `i` keyed `f`, or `-1`.
pub open spec fn family_index(fs: Seq<(Family, Recipe)>, f: Family, i: int) -> int
    decreases fs.len() - i,
{
    if i < 0 || i >= fs.len() {
        -1
    } else if fs[i].0 == f {
        i
    } else {
        family_index(fs, f, i + 1)
    }
}

/// The first family entry at or after `i` that sorts at or after `f`.
pub open spec fn family_slot(fs: Seq<(Family, Recipe)>, f: Family, i: int) -> int
    decreases fs.len() - i,
{
    if i < 0 || i >= fs.len() {
        fs.len() as int
    } else if fs[i].0.0 >= f.0 {
        i
    } else {
        family_slot(fs, f, i + 1)
    }
}

proof fn lemma_family_slot(fs: Seq<(Family, Recipe)>, f: Family, i: int)
    requires
        0 <= i <= fs.len(),
    ensures
        i <= family_slot(fs, f, i) <= fs.len(),
        forall|k: int| i <= k < family_slot(fs, f, i) ==> (#[trigger] fs[k]).0.0 < f.0,
        family_slot(fs, f, i) < fs.len() ==> fs[family_slot(fs, f, i)].0.0 >= f.0,
    decreases fs.len() - i,
{
    if i < fs.len() && fs[i].0.0 < f.0 {
        lemma_family_slot(fs, f, i + 1);
    }
}

pub(crate) proof fn lemma_family_index(fs: Seq<(Family, Recipe)>, f: Family, i: int)
    requires
        0 <= i,
    ensures
        family_index(fs, f, i) == -1 ==> forall|k: int| i <= k < fs.len() ==> (#[trigger] fs[k]).0 != f,
        family_index(fs, f, i) != -1 ==> i <= family_index(fs, f, i) < fs.len() && fs[family_index(fs, f, i)].0 == f,
    decreases fs.len() - i,
{
    if i < fs.len() && fs[i].0 != f {
        lemma_family_index(fs, f, i + 1);
    }
}

/// `new` is `old` with `f` declared: its entry replaced in place when it
/// was declared, inserted at its sorted position when not; every other
/// family unchanged.
pub open spec fn redeclared(old: Seq<(Family, Recipe)>, new: Seq<(Family, Recipe)>, f: Family) -> bool {
    let k = family_index(old, f, 0);
    if k >= 0 {
        new == old.update(k, (f, new[k].1))
    } else {
        let at = family_slot(old, f, 0);
        new == old.insert(at, (f, new[at].1))
    }
}

/// `new` is `old` with `f`'s default variant set to `v`; a family not
/// declared yet is declared with an otherwise empty recipe at its sorted
/// position.
pub open spec fn with_default_variant(old: Seq<(Family, Recipe)>, new: Seq<(Family, Recipe)>, f: Family, v: Variant) -> bool {
    let k = family_index(old, f, 0);
    if k >= 0 {
        new == old.update(k, (f, Recipe { default_variant: v, ..old[k].1 }))
    } else {
        let at = family_slot(old, f, 0);
        &&& new == old.insert(at, new[at])
        &&& new[at].0 == f
        &&& new[at].1.default_variant == v
        &&& new[at].1.parts.wf()
        &&& new[at].1.parts.spec_entries().len() == 0
        &&& new[at].1.variants@.len() == 0
    }
}

/// The override `o` records edit `e` for `f` and `variant`: the same parts,
/// in part order, each the recipe its editor built.
pub open spec fn edit_recorded(o: GlobalOverride, f: Family, variant: Option<Variant>, e: RecipeEdit) -> bool {
    &&& o.family == f
    &&& o.variant == variant
    &&& o.parts.wf()
    &&& o.parts.spec_entries().len() == e.spec_parts().len()
    &&& forall|i: int| 0 <= i < o.parts.spec_entries().len() ==> (#[trigger] o.parts.spec_entries()[i]).0 == e.spec_parts()[i].0
        && same_recipe(o.parts.spec_entries()[i].1, e.spec_parts()[i].1.spec_recipe())
}

impl Recipes {
    /// The declared families and their recipes, in family order.
    pub closed spec fn spec_families(&self) -> Seq<(Family, Recipe)> {
        self.by_family@
    }

    /// The global overrides, in push order.
    pub closed spec fn spec_overrides(&self) -> Seq<GlobalOverride> {
        self.overrides@
    }

    /// The recipe an undeclared family resolves through.
    pub closed spec fn spec_neutral(&self) -> Recipe {
        self.neutral
    }

    /// The authored mono manifests, one per family, in declaration order.
    pub closed spec fn spec_mono(&self) -> Seq<(Family, Vec<MonoRule>)> {
        self.mono@
    }

    /// The families are sorted and distinct.
    pub open spec fn wf(&self) -> bool {
        families_sorted(self.spec_families())
    }

    /// No family declared, no override, and the neutral recipe.
    pub fn new() -> (rs: Recipes)
        ensures
            rs.wf(),
            rs.spec_families().len() == 0,
            rs.spec_overrides().len() == 0,
            rs.spec_neutral().parts.wf(),
            rs.spec_neutral().variants@.len() == 0,
            rs.spec_mono().len() == 0,
    {
        Recipes {
            by_family: Vec::new(),
            overrides: Vec::new(),
            neutral: crate::theme::builtin::neutral_recipe(),
            mono: Vec::new(),
        }
    }

    /// The recipe for a family, if declared.
    pub fn get(&self, f: Family) -> (r: Option<&Recipe>)
        ensures
            ({
                let k = family_index(self.spec_families(), f, 0);
                if k >= 0 { r matches Some(x) && *x == self.spec_families()[k].1 } else { r is None }
            }),
    {
        let mut i: usize = 0;
        while i < self.by_family.len()
            invariant
                i <= self.by_family@.len(),
                family_index(self.by_family@, f, 0) == family_index(self.by_family@, f, i as int),
            decreases self.by_family@.len() - i,
        {
            if self.by_family[i].0 == f {
                return Some(&self.by_family[i].1);
            }
            i = i + 1;
        }
        None
    }

    /// The recipe an undeclared family starts from: the neutral row-like
    /// set, so a custom family renders instead of resolving to nothing.
    pub fn neutral(&self) -> (r: &Recipe)
        ensures
            *r == self.spec_neutral(),
    {
        &self.neutral
    }

    /// The recipe for a family, falling back to the neutral one.
    pub fn get_or_neutral(&self, f: Family) -> (r: &Recipe)
        ensures
            ({
                let k = family_index(self.spec_families(), f, 0);
                *r == if k >= 0 { self.spec_families()[k].1 } else { self.spec_neutral() }
            }),
    {
        match self.get(f) {
            Some(r) => r,
            None => &self.neutral,
        }
    }

    /// The recipe for a family, created (default) at its sorted position
    /// when absent.
    pub fn get_mut(&mut self, f: Family) -> (r: &mut Recipe)
        requires
            old(self).wf(),
        ensures
            final(self).wf(),
            final(self).spec_overrides() == old(self).spec_overrides(),
            final(self).spec_neutral() == old(self).spec_neutral(),
            final(self).spec_mono() == old(self).spec_mono(),
            ({
                let k = family_index(old(self).spec_families(), f, 0);
                let at = family_slot(old(self).spec_families(), f, 0);
                if k >= 0 {
                    &&& *r == old(self).spec_families()[k].1
                    &&& final(self).spec_families() == old(self).spec_families().update(k, (f, *final(r)))
                } else {
                    &&& r.default_variant == Variant(0)
                    &&& r.parts.wf()
                    &&& r.parts.spec_entries().len() == 0
                    &&& r.variants@.len() == 0
                    &&& final(self).spec_families() == old(self).spec_families().insert(at, (f, *final(r)))
                }
            }),
    {
        let ghost before = self.by_family@;
        let mut i: usize = 0;
        while i < self.by_family.len()
            invariant
                i <= self.by_family@.len(),
                self.by_family@ == before,
                family_slot(before, f, 0) == family_slot(before, f, i as int),
                forall|k: int| 0 <= k < i ==> (#[trigger] before[k]).0.0 < f.0,
            ensures
                i <= before.len(),
                self.by_family@ == before,
                family_slot(before, f, 0) == i,
                forall|k: int| 0 <= k < i ==> (#[trigger] before[k]).0.0 < f.0,
            decreases before.len() - i,
        {
            if self.by_family[i].0.0 >= f.0 {
                break;
            }
            i = i + 1;
        }
        proof {
            lemma_family_index(before, f, 0);
            lemma_family_slot(before, f, 0);
        }
        if i < self.by_family.len() && self.by_family[i].0 == f {
            proof {
                assert(family_index(before, f, 0) == i) by {
                    if family_index(before, f, 0) != i {
                        let k = family_index(before, f, 0);
                        assert(before[k].0 == f);
                        assert(k > i);
                        assert(before[i as int].0.0 < before[k].0.0);
                    }
                }
                assert forall|x: Recipe| #![trigger before.update(i as int, (f, x))] families_sorted(before.update(i as int, (f, x))) by {
                    let u = before.update(i as int, (f, x));
                    assert forall|a: int, b: int| 0 <= a < b < u.len() implies (#[trigger] u[a]).0.0 < (#[trigger] u[b]).0.0 by {
                        assert(before[a].0.0 < before[b].0.0);
                    }
                }
            }
            return &mut self.by_family[i].1;
        }
        proof {
            assert(family_index(before, f, 0) == -1) by {
                if family_index(before, f, 0) != -1 {
                    let k = family_index(before, f, 0);
                    if k < i {
                        assert(before[k].0.0 < f.0);
                    } else if k > i {
                        assert(before[i as int].0.0 < before[k].0.0);
                        assert(before[i as int].0.0 >= f.0);
                    }
                }
            }
        }
        self.by_family.insert(i, (f, Recipe::default()));
        proof {
            let after = self.by_family@;
            assert forall|x: Recipe| #![trigger after.update(i as int, (f, x))] after.update(i as int, (f, x)) =~= before.insert(
                i as int,
                (f, x),
            ) && families_sorted(before.insert(i as int, (f, x))) by {
                let u = before.insert(i as int, (f, x));
                assert forall|a: int, b: int| 0 <= a < b < u.len() implies (#[trigger] u[a]).0.0 < (#[trigger] u[b]).0.0 by {
                    if b < i {
                        assert(before[a].0.0 < before[b].0.0);
                    } else if a > i {
                        assert(before[a - 1].0.0 < before[b - 1].0.0);
                    } else if a == i {
                        assert(u[b] == before[b - 1]);
                        assert(before[i as int].0.0 >= f.0);
                        assert(before[i as int].0.0 <= before[b - 1].0.0);
                        assert(before[i as int].0 != f);
                    } else {
                        assert(u[a] == before[a]);
                        if b > i {
                            assert(u[b] == before[b - 1]);
                            if b - 1 > i {
                                assert(before[i as int].0.0 < before[b - 1].0.0);
                            }
                        }
                    }
                }
            }
        }
        &mut self.by_family[i].1
    }

    /// The declared families and their recipes, in family order.
    pub fn iter(&self) -> (v: Vec<(Family, &Recipe)>)
        ensures
            v@.len() == self.spec_families().len(),
            forall|i: int| 0 <= i < v@.len() ==> (#[trigger] v@[i]).0 == self.spec_families()[i].0
                && *v@[i].1 == self.spec_families()[i].1,
    {
        let mut v: Vec<(Family, &Recipe)> = Vec::new();
        let mut i: usize = 0;
        while i < self.by_family.len()
            invariant
                i <= self.by_family@.len(),
                v@.len() == i,
                forall|k: int| 0 <= k < i ==> (#[trigger] v@[k]).0 == self.by_family@[k].0 && *v@[k].1 == self.by_family@[k].1,
            decreases self.by_family@.len() - i,
        {
            let e = &self.by_family[i];
            v.push((e.0, &e.1));
            i = i + 1;
        }
        v
    }

    /// The number of declared families.
    pub fn len(&self) -> (n: usize)
        ensures
            n == self.spec_families().len(),
    {
        self.by_family.len()
    }

    /// Whether no family is declared.
    pub fn is_empty(&self) -> (b: bool)
        ensures
            b == (self.spec_families().len() == 0),
    {
        self.by_family.len() == 0
    }

    /// The global overrides, in push order.
    pub fn overrides(&self) -> (r: &[GlobalOverride])
        ensures
            r@ == self.spec_overrides(),
    {
        self.overrides.as_slice()
    }

    /// Add a global override after the others.
    pub fn push_override(&mut self, o: GlobalOverride)
        ensures
            final(self).spec_overrides() == old(self).spec_overrides().push(o),
            final(self).spec_families() == old(self).spec_families(),
            final(self).spec_neutral() == old(self).spec_neutral(),
            final(self).spec_mono() == old(self).spec_mono(),
    {
        self.overrides.push(o);
    }

    /// Record a theme-level override of `f`, every variant or one: the
    /// edit's parts become the override's parts, pushed after the others,
    /// and a default variant the edit set becomes `f`'s default (declaring
    /// `f` if it was not).
    fn push_edit(&mut self, f: Family, variant: Option<Variant>, e: RecipeEdit)
        requires
            old(self).wf(),
            e.wf(),
        ensures
            final(self).wf(),
            final(self).spec_neutral() == old(self).spec_neutral(),
            final(self).spec_mono() == old(self).spec_mono(),
            match e.spec_default_variant() {
                Some(v) => with_default_variant(old(self).spec_families(), final(self).spec_families(), f, v),
                None => final(self).spec_families() == old(self).spec_families(),
            },
            final(self).spec_overrides().len() == old(self).spec_overrides().len() + 1,
            final(self).spec_overrides().drop_last() == old(self).spec_overrides(),
            edit_recorded(final(self).spec_overrides().last(), f, variant, e),
    {
        let ghost fams0 = self.spec_families();
        match e.default_variant_set() {
            Some(v) => {
                let r = self.get_mut(f);
                r.default_variant = v;
            },
            None => {},
        }
        proof {
            lemma_family_slot(fams0, f, 0);
            lemma_family_index(fams0, f, 0);
            if e.spec_default_variant() is Some && family_index(fams0, f, 0) < 0 {
                let at = family_slot(fams0, f, 0);
                assert(self.spec_families()[at] == self.spec_families()[at]);
                assert(self.spec_families() =~= fams0.insert(at, self.spec_families()[at]));
            }
        }
        let parts = e.into_parts();
        let o = GlobalOverride { family: f, variant, parts };
        self.push_override(o);
        proof {
            assert(self.spec_overrides().drop_last() =~= old(self).spec_overrides());
        }
    }

    /// A theme-level override applied to every variant of `f`
    /// (precedence 4).
    pub fn override_family(&mut self, f: Family, e: RecipeEdit)
        requires
            old(self).wf(),
            e.wf(),
        ensures
            final(self).wf(),
            final(self).spec_neutral() == old(self).spec_neutral(),
            final(self).spec_mono() == old(self).spec_mono(),
            match e.spec_default_variant() {
                Some(v) => with_default_variant(old(self).spec_families(), final(self).spec_families(), f, v),
                None => final(self).spec_families() == old(self).spec_families(),
            },
            final(self).spec_overrides().len() == old(self).spec_overrides().len() + 1,
            final(self).spec_overrides().drop_last() == old(self).spec_overrides(),
            edit_recorded(final(self).spec_overrides().last(), f, None, e),
    {
        self.push_edit(f, None, e);
    }

    /// A theme-level override applied to variant `v` of `f` (precedence 4).
    pub fn override_variant(&mut self, f: Family, v: Variant, e: RecipeEdit)
        requires
            old(self).wf(),
            e.wf(),
        ensures
            final(self).wf(),
            final(self).spec_neutral() == old(self).spec_neutral(),
            final(self).spec_mono() == old(self).spec_mono(),
            match e.spec_default_variant() {
                Some(dv) => with_default_variant(old(self).spec_families(), final(self).spec_families(), f, dv),
                None => final(self).spec_families() == old(self).spec_families(),
            },
            final(self).spec_overrides().len() == old(self).spec_overrides().len() + 1,
            final(self).spec_overrides().drop_last() == old(self).spec_overrides(),
            edit_recorded(final(self).spec_overrides().last(), f, Some(v), e),
    {
        self.push_edit(f, Some(v), e);
    }

    /// Define (or extend) the base recipe of `f` (precedence 1), declaring
    /// `f` if it was not: each edited part is merged into the part it
    /// already has, and a default variant the edit set becomes `f`'s.
    pub fn define_family(&mut self, f: Family, e: RecipeEdit)
        requires
            old(self).wf(),
            families_wf(old(self).spec_families()),
            e.wf(),
        ensures
            final(self).wf(),
            families_wf(final(self).spec_families()),
            final(self).spec_neutral() == old(self).spec_neutral(),
            final(self).spec_overrides() == old(self).spec_overrides(),
            final(self).spec_mono() == old(self).spec_mono(),
            ({
                let fs = old(self).spec_families();
                let k = family_index(fs, f, 0);
                let at = if k >= 0 { k } else { family_slot(fs, f, 0) };
                let after = final(self).spec_families()[at].1;
                &&& redeclared(fs, final(self).spec_families(), f)
                &&& after.default_variant == match e.spec_default_variant() {
                    Some(v) => v,
                    None => if k >= 0 { fs[k].1.default_variant } else { Variant(0) },
                }
                &&& if k >= 0 { after.variants == fs[k].1.variants } else { after.variants@.len() == 0 }
                &&& parts_merged(
                    if k >= 0 { fs[k].1.parts.spec_entries() } else { Seq::empty() },
                    after.parts.spec_entries(),
                    e.spec_parts(),
                )
            }),
    {
        let ghost fs = self.spec_families();
        let dv = e.default_variant_set();
        let recipe = self.get_mut(f);
        proof {
            lemma_family_index(fs, f, 0);
            lemma_family_slot(fs, f, 0);
        }
        match dv {
            Some(v) => {
                recipe.default_variant = v;
            },
            None => {},
        }
        let ghost p0 = recipe.parts.spec_entries();
        proof {
            if family_index(fs, f, 0) < 0 {
                assert(p0 =~= Seq::<(Part, PartRecipe)>::empty());
            }
        }
        merge_parts(&mut recipe.parts, &e.parts);
        proof {
            let k = family_index(fs, f, 0);
            let at = if k >= 0 { k } else { family_slot(fs, f, 0) };
            let now = self.spec_families();
            if k >= 0 {
                assert(now == fs.update(k, (f, now[k].1)));
            } else {
                assert(now == fs.insert(at, (f, now[at].1)));
            }
            assert(redeclared(fs, now, f));
            let after = now[at].1;
            assert(parts_merged(if k >= 0 { fs[k].1.parts.spec_entries() } else { Seq::empty() }, after.parts.spec_entries(), e.spec_parts()));
        }
    }

    /// Define (or extend) the variant `v` of `f` (precedence 2), declaring
    /// `f` and the variant if they were not: each edited part is merged into
    /// the variant's part, and a default variant the edit set becomes `f`'s.
    pub fn define_variant(&mut self, f: Family, v: Variant, e: RecipeEdit)
        requires
            old(self).wf(),
            families_wf(old(self).spec_families()),
            e.wf(),
        ensures
            final(self).wf(),
            families_wf(final(self).spec_families()),
            final(self).spec_neutral() == old(self).spec_neutral(),
            final(self).spec_overrides() == old(self).spec_overrides(),
            final(self).spec_mono() == old(self).spec_mono(),
            ({
                let fs = old(self).spec_families();
                let k = family_index(fs, f, 0);
                let at = if k >= 0 { k } else { family_slot(fs, f, 0) };
                let after = final(self).spec_families()[at].1;
                let vs: Seq<(Variant, PartMap<PartRecipe>)> = if k >= 0 { fs[k].1.variants@ } else { Seq::empty() };
                let kv = variant_index(vs, v, 0);
                let slot = if kv >= 0 { kv } else { vs.len() as int };
                &&& redeclared(fs, final(self).spec_families(), f)
                &&& after.default_variant == match e.spec_default_variant() {
                    Some(d) => d,
                    None => if k >= 0 { fs[k].1.default_variant } else { Variant(0) },
                }
                &&& if k >= 0 { after.parts == fs[k].1.parts } else { after.parts.spec_entries().len() == 0 }
                &&& if kv >= 0 {
                    after.variants@ == vs.update(kv, after.variants@[kv])
                } else {
                    after.variants@ == vs.push(after.variants@[slot])
                }
                &&& after.variants@[slot].0 == v
                &&& parts_merged(
                    if kv >= 0 { vs[kv].1.spec_entries() } else { Seq::empty() },
                    after.variants@[slot].1.spec_entries(),
                    e.spec_parts(),
                )
            }),
    {
        let ghost fs = self.spec_families();
        let dv = e.default_variant_set();
        let recipe = self.get_mut(f);
        proof {
            lemma_family_index(fs, f, 0);
            lemma_family_slot(fs, f, 0);
        }
        match dv {
            Some(d) => {
                recipe.default_variant = d;
            },
            None => {},
        }
        let ghost vs = recipe.variants@;
        proof {
            lemma_variant_index(vs, v, 0);
        }
        let target = recipe.variant_mut(v);
        let ghost p0 = target.spec_entries();
        proof {
            if variant_index(vs, v, 0) < 0 {
                assert(p0 =~= Seq::<(Part, PartRecipe)>::empty());
            }
        }
        merge_parts(target, &e.parts);
        proof {
            let k = family_index(fs, f, 0);
            let at = if k >= 0 { k } else { family_slot(fs, f, 0) };
            let now = self.spec_families();
            if k >= 0 {
                assert(now == fs.update(k, (f, now[k].1)));
            } else {
                assert(now == fs.insert(at, (f, now[at].1)));
                assert(vs =~= Seq::<(Variant, PartMap<PartRecipe>)>::empty());
            }
            assert(redeclared(fs, now, f));
        }
    }

    /// Declare `f`'s whole mono fallback manifest. It replaces the built-in
    /// targeted set for that family, and a second declaration replaces the
    /// first, so repeating the call cannot accumulate duplicates.
    pub fn set_mono_rules(&mut self, f: Family, rules: Vec<MonoRule>)
        ensures
            final(self).spec_families() == old(self).spec_families(),
            final(self).spec_overrides() == old(self).spec_overrides(),
            final(self).spec_neutral() == old(self).spec_neutral(),
            ({
                let k = mono_index(old(self).spec_mono(), f, 0);
                if k >= 0 {
                    final(self).spec_mono() == old(self).spec_mono().update(k, (f, rules))
                } else {
                    final(self).spec_mono() == old(self).spec_mono().push((f, rules))
                }
            }),
    {
        let mut i: usize = 0;
        while i < self.mono.len()
            invariant
                i <= self.mono@.len(),
                mono_index(self.mono@, f, 0) == mono_index(self.mono@, f, i as int),
            ensures
                i <= self.mono@.len(),
                i < self.mono@.len() ==> mono_index(self.mono@, f, 0) == i && self.mono@[i as int].0 == f,
                i == self.mono@.len() ==> mono_index(self.mono@, f, 0) == -1,
            decreases self.mono@.len() - i,
        {
            if self.mono[i].0 == f {
                break;
            }
            i = i + 1;
        }
        if i < self.mono.len() {
            self.mono.set(i, (f, rules));
        } else {
            self.mono.push((f, rules));
        }
    }

    /// `f`'s authored mono fallback manifest, if the theme declares one.
    pub fn mono_rules(&self, f: Family) -> (r: Option<&[MonoRule]>)
        ensures
            match authored_mono(self.spec_mono(), f) {
                Some(rs) => r matches Some(s) && s@ == rs,
                None => r is None,
            },
    {
        let mut i: usize = 0;
        while i < self.mono.len()
            invariant
                i <= self.mono@.len(),
                mono_index(self.mono@, f, 0) == mono_index(self.mono@, f, i as int),
            decreases self.mono@.len() - i,
        {
            if self.mono[i].0 == f {
                return Some(self.mono[i].1.as_slice());
            }
            i = i + 1;
        }
        None
    }
}

// ---------------------------------------------------------------------------
// Editors.
// ---------------------------------------------------------------------------

/// Editor for one part of a recipe.
#[derive(Clone, PartialEq, Eq, Debug, Default)]
pub struct PartEdit {
    recipe: PartRecipe,
}

impl PartEdit {
    /// The edited recipe (spec).
    pub closed spec fn spec_recipe(&self) -> PartRecipe {
        self.recipe
    }

    /// Merge a patch over the base.
    pub fn base(&mut self, p: StylePatch) -> (r: &mut PartEdit)
        ensures
            r.spec_recipe() == (PartRecipe { base: merged(old(self).spec_recipe().base, p), ..old(self).spec_recipe() }),
            *final(self) == *final(r),
    {
        self.recipe.base = self.recipe.base.merge(p);
        self
    }

    /// Add a state rule at its specificity position.
    pub fn when(&mut self, s: StateFlags, p: StylePatch) -> (r: &mut PartEdit)
        ensures
            r.spec_recipe().states@ == with_rule(old(self).spec_recipe().states@, StateRule { when: s, patch: p }),
            r.spec_recipe().base == old(self).spec_recipe().base,
            r.spec_recipe().glyph == old(self).spec_recipe().glyph,
            r.spec_recipe().size == old(self).spec_recipe().size,
            *final(self) == *final(r),
    {
        self.recipe.when(s, p);
        self
    }

    /// Set the glyph.
    pub fn glyph(&mut self, g: GlyphRole) -> (r: &mut PartEdit)
        ensures
            r.spec_recipe() == (PartRecipe { glyph: Slot::Value(g), ..old(self).spec_recipe() }),
            *final(self) == *final(r),
    {
        self.recipe.glyph = Slot::Value(g);
        self
    }

    /// Set the size.
    pub fn size(&mut self, n: u16) -> (r: &mut PartEdit)
        ensures
            r.spec_recipe() == (PartRecipe { size: Slot::Value(n), ..old(self).spec_recipe() }),
            *final(self) == *final(r),
    {
        self.recipe.size = Slot::Value(n);
        self
    }

    /// The edited recipe.
    pub fn recipe(&self) -> (r: &PartRecipe)
        ensures
            *r == self.spec_recipe(),
    {
        &self.recipe
    }
}

/// Editor for a family's recipe: its default variant and its parts.
#[derive(Clone, PartialEq, Eq, Debug)]
pub struct RecipeEdit {
    default_variant: Option<Variant>,
    parts: PartMap<PartEdit>,
}

impl Default for RecipeEdit {
    fn default() -> (e: RecipeEdit)
        ensures
            e.wf(),
            e.spec_default_variant() is None,
            e.spec_parts().len() == 0,
    {
        RecipeEdit { default_variant: None, parts: PartMap::new() }
    }
}

impl RecipeEdit {
    /// The parts edited so far, in part order.
    pub closed spec fn spec_parts(&self) -> Seq<(Part, PartEdit)> {
        self.parts.spec_entries()
    }

    /// The default variant set, if any.
    pub closed spec fn spec_default_variant(&self) -> Option<Variant> {
        self.default_variant
    }

    /// The parts are sorted and distinct.
    pub open spec fn wf(&self) -> bool {
        sorted(self.spec_parts())
    }

    /// Set the default variant.
    pub fn default_variant(&mut self, v: Variant) -> (r: &mut RecipeEdit)
        ensures
            r.spec_default_variant() == Some(v),
            r.spec_parts() == old(self).spec_parts(),
            *final(self) == *final(r),
    {
        self.default_variant = Some(v);
        self
    }

    /// Edit a part, created empty when not edited yet.
    pub fn part(&mut self, p: Part) -> (r: &mut PartEdit)
        requires
            old(self).wf(),
        ensures
            final(self).wf(),
            final(self).spec_default_variant() == old(self).spec_default_variant(),
            has_key(old(self).spec_parts(), p) ==> exists|i: int|
                0 <= i < old(self).spec_parts().len() && #[trigger] old(self).spec_parts()[i].0 == p && *r
                    == old(self).spec_parts()[i].1 && final(self).spec_parts() == old(self).spec_parts().update(
                    i,
                    (p, *final(r)),
                ),
            !has_key(old(self).spec_parts(), p) ==> exists|i: int|
                0 <= i <= old(self).spec_parts().len() && final(self).spec_parts() == #[trigger] old(
                    self,
                ).spec_parts().insert(i, (p, *final(r))),
    {
        self.parts.entry(p)
    }

    /// The default variant, if set.
    pub fn default_variant_set(&self) -> (r: Option<Variant>)
        ensures
            r == self.spec_default_variant(),
    {
        self.default_variant
    }

    /// The edited parts as recipes.
    pub fn into_parts(self) -> (m: PartMap<PartRecipe>)
        requires
            self.wf(),
        ensures
            m.wf(),
            m.spec_entries().len() == self.spec_parts().len(),
            forall|i: int| 0 <= i < m.spec_entries().len() ==> (#[trigger] m.spec_entries()[i]).0 == self.spec_parts()[i].0
                && same_recipe(m.spec_entries()[i].1, self.spec_parts()[i].1.spec_recipe()),
    {
        let edits = self.parts.iter();
        let mut out: PartMap<PartRecipe> = PartMap::new();
        let mut i: usize = 0;
        while i < edits.len()
            invariant
                i <= edits@.len(),
                edits@.len() == self.spec_parts().len(),
                forall|k: int| 0 <= k < edits@.len() ==> (#[trigger] edits@[k]).0 == self.spec_parts()[k].0
                    && *edits@[k].1 == self.spec_parts()[k].1,
                sorted(self.spec_parts()),
                out.wf(),
                out.spec_entries().len() == i,
                forall|k: int| 0 <= k < i ==> (#[trigger] out.spec_entries()[k]).0 == self.spec_parts()[k].0
                    && same_recipe(out.spec_entries()[k].1, self.spec_parts()[k].1.spec_recipe()),
            decreases edits@.len() - i,
        {
            let (p, e) = edits[i];
            let rec = e.recipe.clone();
            out.push_last(p, rec);
            i = i + 1;
        }
        out
    }
}

/// `x` is the edit `e` merged over `before`: its base over the base, its
/// slots where they speak, and its rules inserted by specificity. A part
/// not declared yet starts as the recipe that says nothing.
pub open spec fn is_merged(x: PartRecipe, before: Option<PartRecipe>, e: PartRecipe) -> bool {
    match before {
        Some(o) => {
            &&& x.base == merged(o.base, e.base)
            &&& x.glyph == layered(e.glyph, o.glyph)
            &&& x.size == layered(e.size, o.size)
            &&& x.states@ == with_rules(o.states@, e.states@)
        },
        None => {
            &&& x.base == merged(empty_patch(), e.base)
            &&& x.glyph == layered(e.glyph, Slot::Inherit)
            &&& x.size == layered(e.size, Slot::Inherit)
            &&& x.states@ == with_rules(Seq::empty(), e.states@)
        },
    }
}

/// After merging the parts `edits` into `before`, giving `after`, part `q`
/// holds the merge when it was edited and what it held otherwise.
pub open spec fn merged_at(before: Seq<(Part, PartRecipe)>, after: Seq<(Part, PartRecipe)>, edits: Seq<(Part, PartEdit)>, q: Part) -> bool {
    match lookup(edits, q) {
        Some(pe) => lookup(after, q) matches Some(x) && is_merged(x, lookup(before, q), pe.spec_recipe()),
        None => lookup(after, q) == lookup(before, q),
    }
}

/// Every part holds what `merged_at` says after merging `edits`.
pub open spec fn parts_merged(before: Seq<(Part, PartRecipe)>, after: Seq<(Part, PartRecipe)>, edits: Seq<(Part, PartEdit)>) -> bool {
    forall|q: Part| #[trigger] merged_at(before, after, edits, q)
}

/// The part recipe that says nothing.
pub(crate) fn blank_part() -> (r: PartRecipe)
    ensures
        r.base == empty_patch(),
        r.states@.len() == 0,
        r.glyph is Inherit,
        r.size is Inherit,
{
    PartRecipe { base: StylePatch::new(), states: Vec::new(), glyph: Slot::Inherit, size: Slot::Inherit }
}

/// Merge each edited part into `target`: over the part it already holds,
/// or over a blank part.
fn merge_parts(target: &mut PartMap<PartRecipe>, edits: &PartMap<PartEdit>)
    requires
        old(target).wf(),
        edits.wf(),
    ensures
        final(target).wf(),
        parts_merged(old(target).spec_entries(), final(target).spec_entries(), edits.spec_entries()),
{
    let items = edits.iter();
    let ghost start = target.spec_entries();
    let ghost es = edits.spec_entries();
    let mut i: usize = 0;
    while i < items.len()
        invariant
            i <= items@.len(),
            items@.len() == es.len(),
            forall|k: int| 0 <= k < items@.len() ==> (#[trigger] items@[k]).0 == es[k].0 && *items@[k].1 == es[k].1,
            sorted(es),
            target.wf(),
            forall|q: Part| {
                let k = #[trigger] part_index(es, q, 0);
                if 0 <= k < i {
                    lookup(target.spec_entries(), q) matches Some(x) && is_merged(x, lookup(start, q), es[k].1.spec_recipe())
                } else {
                    lookup(target.spec_entries(), q) == lookup(start, q)
                }
            },
        decreases items@.len() - i,
    {
        let (p, pe) = items[i];
        let ghost cur = target.spec_entries();
        proof {
            assert forall|k: int| 0 <= k < i implies (#[trigger] es[k]).0.0 < p.0 by {
                assert(es[k].0.0 < es[i as int].0.0);
            }
            lemma_part_index_at(es, p, 0, i as int);
            lemma_part_index_facts(es, 0);
        }
        let er = &pe.recipe;
        proof {
            assert(part_index(es, p, 0) == i);
            assert(lookup(cur, p) == lookup(start, p));
            assert(*er == es[i as int].1.spec_recipe());
        }
        let next: PartRecipe = match target.get(p) {
            Some(x) => {
                let mut y = x.clone();
                y.merge_from(er);
                proof {
                    assert(lookup(start, p) == Some(*x));
                    assert(is_merged(y, Some(*x), *er));
                }
                y
            },
            None => {
                let mut y = blank_part();
                proof {
                    assert(y.states@ =~= Seq::<StateRule>::empty());
                }
                y.merge_from(er);
                proof {
                    assert(lookup(start, p) is None);
                    assert(is_merged(y, None, *er));
                }
                y
            },
        };
        proof {
            assert(is_merged(next, lookup(start, p), es[i as int].1.spec_recipe()));
        }
        let slot = target.entry(p);
        *slot = next;
        proof {
            let now = target.spec_entries();
            assert forall|q: Part| lookup(now, q) == if q == p { Some(next) } else { lookup(cur, q) } by {
                if has_key(cur, p) {
                    let j = choose|j: int| 0 <= j < cur.len() && #[trigger] cur[j].0 == p && now == cur.update(j, (p, next));
                    lemma_lookup_update(cur, j, p, next, q);
                } else {
                    let j = choose|j: int| 0 <= j <= cur.len() && now == #[trigger] cur.insert(j, (p, next));
                    lemma_lookup_insert(cur, j, p, next, q);
                }
            }
            assert forall|q: Part| {
                let k = #[trigger] part_index(es, q, 0);
                if 0 <= k < i + 1 {
                    lookup(target.spec_entries(), q) matches Some(x) && is_merged(x, lookup(start, q), es[k].1.spec_recipe())
                } else {
                    lookup(target.spec_entries(), q) == lookup(start, q)
                }
            } by {
                lemma_part_index_facts(es, 0);
                assert(lookup(now, q) == if q == p { Some(next) } else { lookup(cur, q) });
            }
        }
        i = i + 1;
    }
    proof {
        assert forall|q: Part| #[trigger] merged_at(start, target.spec_entries(), es, q) by {
            lemma_part_index_facts(es, 0);
        }
    }
}

// ---------------------------------------------------------------------------
// Overlays.
// ---------------------------------------------------------------------------

/// One overlay rule: the family, variant and part it restyles, the flags
/// that must be live, and the patch.
pub type OverlayRule = (Family, Variant, Part, StateFlags, StylePatch);

/// A scoped override: borrowed, never mutating the theme.
#[derive(Clone, Copy, PartialEq, Eq, Debug)]
pub struct Overlay {
    rules: &'static [OverlayRule],
}

/// `acc` with every rule of `rules` for `(f, v, p)` whose flags are live
/// merged over it, in order.
pub open spec fn overlay_applied(
    acc: StylePatch,
    rules: Seq<OverlayRule>,
    f: Family,
    v: Variant,
    p: Part,
    live: StateFlags,
) -> StylePatch
    decreases rules.len(),
{
    if rules.len() == 0 {
        acc
    } else {
        let (rf, rv, rp, when, patch) = rules[0];
        let next = if rf == f && rv == v && rp == p && live.spec_bits() & when.spec_bits() == when.spec_bits() {
            merged(acc, patch)
        } else {
            acc
        };
        overlay_applied(next, rules.skip(1), f, v, p, live)
    }
}

impl Overlay {
    /// The rules (spec).
    pub closed spec fn spec_rules(&self) -> Seq<OverlayRule> {
        self.rules@
    }

    /// The empty overlay.
    pub fn empty() -> (o: Overlay)
        ensures
            o.spec_rules().len() == 0,
    {
        Overlay { rules: &[] }
    }

    /// An overlay over a static rule slice.
    pub fn new(rules: &'static [OverlayRule]) -> (o: Overlay)
        ensures
            o.spec_rules() == rules@,
    {
        Overlay { rules }
    }

    /// The rules.
    pub fn rules(&self) -> (r: &'static [OverlayRule])
        ensures
            r@ == self.spec_rules(),
    {
        self.rules
    }

    /// Every rule for `(f, v, p)` whose flags are live, merged over `acc`
    /// in order.
    pub fn apply(&self, acc: StylePatch, f: Family, v: Variant, p: Part, live: StateFlags) -> (r: StylePatch)
        ensures
            r == overlay_applied(acc, self.spec_rules(), f, v, p, live),
    {
        let mut out = acc;
        let mut i: usize = 0;
        proof {
            assert(self.rules@.skip(0) =~= self.rules@);
        }
        while i < self.rules.len()
            invariant
                i <= self.rules@.len(),
                overlay_applied(acc, self.rules@, f, v, p, live) == overlay_applied(out, self.rules@.skip(i as int), f, v, p, live),
            decreases self.rules@.len() - i,
        {
            let (rf, rv, rp, when, patch) = self.rules[i];
            proof {
                assert(self.rules@.skip(i as int)[0] == self.rules@[i as int]);
                assert(self.rules@.skip(i as int).skip(1) =~= self.rules@.skip(i as int + 1));
            }
            if rf == f && rv == v && rp == p && live.contains(when) {
                out = out.merge(patch);
            }
            i = i + 1;
        }
        proof {
            assert(self.rules@.skip(i as int).len() == 0);
        }
        out
    }
}

} // verus!
