//! Identity: a component is named by a stable 64-bit hash of its path.

use vstd::prelude::*;
use vstd::string::StringSliceAdditionalSpecFns;

verus! {

/// The 64-bit FNV offset basis.
pub const FNV_OFFSET: u64 = 0xcbf2_9ce4_8422_2325;

/// The 64-bit FNV prime.
pub const FNV_PRIME: u64 = 0x0000_0100_0000_01b3;

/// One FNV-1a step: xor the byte in, then multiply (wrapping).
pub open spec fn fnv1a_step(h: u64, b: u8) -> u64 {
    vstd::wrapping::u64_specs::wrapping_mul(h ^ (b as u64), FNV_PRIME)
}

/// FNV-1a of `bytes`, starting from `h`.
pub open spec fn fnv1a_spec(h: u64, bytes: Seq<u8>) -> u64
    decreases bytes.len(),
{
    if bytes.len() == 0 { h } else { fnv1a_spec(fnv1a_step(h, bytes[0]), bytes.drop_first()) }
}

/// FNV-1a over `bytes`, starting from `seed`.
pub fn fnv1a(seed: u64, bytes: &[u8]) -> (h: u64)
    ensures
        h == fnv1a_spec(seed, bytes@),
{
    let mut h = seed;
    let mut i: usize = 0;
    assert(bytes@.skip(0) =~= bytes@);
    while i < bytes.len()
        invariant
            i <= bytes@.len(),
            fnv1a_spec(seed, bytes@) == fnv1a_spec(h, bytes@.skip(i as int)),
        decreases bytes@.len() - i,
    {
        assert(bytes@.skip(i as int).drop_first() =~= bytes@.skip(i as int + 1));
        h = (h ^ (bytes[i] as u64)).wrapping_mul(FNV_PRIME);
        i = i + 1;
    }
    assert(bytes@.skip(i as int) =~= Seq::<u8>::empty());
    h
}

/// A component identity.
#[derive(Clone, Copy, Debug, PartialEq, Eq, Structural, Hash)]
pub struct Id(pub u64);

impl Id {
    /// The identity of a top-level component named `name`.
    pub fn root(name: &str) -> (id: Id)
        ensures
            id.0 == fnv1a_spec(FNV_OFFSET, name.spec_bytes()),
    {
        Id(fnv1a(FNV_OFFSET, name.as_bytes()))
    }

    /// The identity of the `i`-th item under this one.
    pub fn index(self, i: usize) -> (id: Id)
        ensures
            id.0 == fnv1a_spec(self.0, le_bytes(i as u64)),
    {
        let bytes = u64_le_bytes(i as u64);
        Id(fnv1a(self.0, bytes.as_slice()))
    }
}

/// The little-endian bytes of a `u16`.
pub open spec fn le_bytes16(x: u16) -> Seq<u8> {
    seq![(x & 0xff) as u8, (x >> 8) as u8]
}

/// The little-endian bytes of a `u16`.
pub fn u16_le_bytes(x: u16) -> (b: [u8; 2])
    ensures
        b@ == le_bytes16(x),
{
    let b = [(x & 0xff) as u8, (x >> 8) as u8];
    assert(b@ =~= le_bytes16(x));
    b
}

/// The little-endian bytes of `x`.
pub open spec fn le_bytes(x: u64) -> Seq<u8> {
    Seq::new(8, |k: int| ((x >> (8 * k) as u64) & 0xff) as u8)
}

/// The little-endian bytes of `x`.
pub fn u64_le_bytes(x: u64) -> (b: Vec<u8>)
    ensures
        b@ == le_bytes(x),
{
    let mut b: Vec<u8> = Vec::new();
    let mut k: u64 = 0;
    while k < 8
        invariant
            k <= 8,
            b@.len() == k,
            forall|j: int| 0 <= j < k ==> b@[j] == ((x >> (8 * j) as u64) & 0xff) as u8,
        decreases 8 - k,
    {
        b.push(((x >> (8 * k)) & 0xff) as u8);
        k = k + 1;
    }
    assert(b@ =~= le_bytes(x));
    b
}

/// A named sub-region of a component (its border, label, thumb, ...).
/// Parts are ordered by their number.
#[derive(Clone, Copy, Debug, PartialEq, Eq, Structural, PartialOrd, Ord, Hash)]
pub struct Part(pub u16);

impl Part {
    /// The whole component.
    pub fn container() -> (p: Part)
        ensures
            p.0 == 0,
    {
        Part(0)
    }

    /// The frame.
    pub fn border() -> (p: Part)
        ensures
            p.0 == 1,
    {
        Part(1)
    }

    /// The focus gutter.
    pub fn gutter() -> (p: Part)
        ensures
            p.0 == 2,
    {
        Part(2)
    }

    /// A state marker.
    pub fn marker() -> (p: Part)
        ensures
            p.0 == 3,
    {
        Part(3)
    }

    /// The label.
    pub fn label() -> (p: Part)
        ensures
            p.0 == 4,
    {
        Part(4)
    }

    /// Secondary text.
    pub fn meta() -> (p: Part)
        ensures
            p.0 == 5,
    {
        Part(5)
    }

    /// A scrollbar or meter track.
    pub fn track() -> (p: Part)
        ensures
            p.0 == 6,
    {
        Part(6)
    }

    /// A scrollbar thumb.
    pub fn thumb() -> (p: Part)
        ensures
            p.0 == 7,
    {
        Part(7)
    }

    /// A header row.
    pub fn header() -> (p: Part)
        ensures
            p.0 == 8,
    {
        Part(8)
    }

    /// The empty-state slot.
    pub fn empty() -> (p: Part)
        ensures
            p.0 == 9,
    {
        Part(9)
    }

    /// An icon.
    pub fn icon() -> (p: Part)
        ensures
            p.0 == 10,
    {
        Part(10)
    }

    /// A text field's plane.
    pub fn field() -> (p: Part)
        ensures
            p.0 == 11,
    {
        Part(11)
    }

    /// A text control's own content.
    pub fn text() -> (p: Part)
        ensures
            p.0 == 12,
    {
        Part(12)
    }

    /// A separating rule.
    pub fn rule() -> (p: Part)
        ensures
            p.0 == 13,
    {
        Part(13)
    }

    /// A grid cell.
    pub fn cell() -> (p: Part)
        ensures
            p.0 == 14,
    {
        Part(14)
    }

    /// A list or grid row.
    pub fn row() -> (p: Part)
        ensures
            p.0 == 15,
    {
        Part(15)
    }

    /// A title.
    pub fn title() -> (p: Part)
        ensures
            p.0 == 16,
    {
        Part(16)
    }

    /// A text control's placeholder.
    pub fn placeholder() -> (p: Part)
        ensures
            p.0 == 17,
    {
        Part(17)
    }

    /// Help text.
    pub fn help() -> (p: Part)
        ensures
            p.0 == 18,
    {
        Part(18)
    }

    /// Detail text.
    pub fn detail() -> (p: Part)
        ensures
            p.0 == 19,
    {
        Part(19)
    }

    /// A container's body.
    pub fn body() -> (p: Part)
        ensures
            p.0 == 20,
    {
        Part(20)
    }

    /// A row of actions.
    pub fn actions() -> (p: Part)
        ensures
            p.0 == 21,
    {
        Part(21)
    }

    /// The backdrop behind a modal.
    pub fn backdrop() -> (p: Part)
        ensures
            p.0 == 22,
    {
        Part(22)
    }

    /// A tab.
    pub fn tab() -> (p: Part)
        ensures
            p.0 == 23,
    {
        Part(23)
    }

    /// A close affordance.
    pub fn close() -> (p: Part)
        ensures
            p.0 == 24,
    {
        Part(24)
    }

    /// An overflow marker.
    pub fn overflow() -> (p: Part)
        ensures
            p.0 == 25,
    {
        Part(25)
    }

    /// The new-tab affordance.
    pub fn new_tab() -> (p: Part)
        ensures
            p.0 == 26,
    {
        Part(26)
    }

    /// A badge.
    pub fn badge() -> (p: Part)
        ensures
            p.0 == 27,
    {
        Part(27)
    }

    /// A key chord.
    pub fn key() -> (p: Part)
        ensures
            p.0 == 28,
    {
        Part(28)
    }

    /// An action's label in a hint.
    pub fn action() -> (p: Part)
        ensures
            p.0 == 29,
    {
        Part(29)
    }

    /// A split's seam.
    pub fn seam() -> (p: Part)
        ensures
            p.0 == 30,
    {
        Part(30)
    }
}

/// A part of a component, optionally of one item of a collection.
#[derive(Clone, Copy, Debug, PartialEq, Eq, Structural, Hash)]
pub struct PartRef {
    /// The part.
    pub part: Part,
    /// The item, for a part of a collection item.
    pub item: Option<u64>,
}

impl PartRef {
    /// The part of the component itself.
    pub fn of(part: Part) -> (r: PartRef)
        ensures
            r == (PartRef { part, item: None }),
    {
        PartRef { part, item: None }
    }
}

} // verus!
