//! Best-effort overwriting of secret bytes before their buffer is released.

use vstd::prelude::*;

verus! {

/// `String::into_bytes`: the string's UTF-8 bytes, by value.
#[verifier::external_body]
pub(crate) fn string_into_bytes(s: String) -> (b: Vec<u8>)
    ensures
        b@ == vstd::utf8::encode_utf8(s@),
{
    s.into_bytes()
}

/// `core::hint::black_box`: keeps the optimiser from treating a zero
/// fill as a dead store. It returns its argument unchanged.
#[verifier::external_body]
pub(crate) fn black_box_ref<T>(x: &T) {
    core::hint::black_box(x);
}

/// Overwrite every byte with zero; the length is unchanged.
pub fn zero_fill(bytes: &mut Vec<u8>)
    ensures
        final(bytes)@.len() == old(bytes)@.len(),
        forall|i: int| 0 <= i < final(bytes)@.len() ==> final(bytes)@[i] == 0,
{
    let mut i: usize = 0;
    while i < bytes.len()
        invariant
            i <= bytes@.len(),
            bytes@.len() == old(bytes)@.len(),
            forall|k: int| 0 <= k < i ==> bytes@[k] == 0,
        decreases bytes@.len() - i,
    {
        bytes.set(i, 0);
        i = i + 1;
    }
}

/// Overwrite every character with NUL; the length is unchanged.
pub fn zero_fill_chars(cs: &mut Vec<char>)
    ensures
        final(cs)@.len() == old(cs)@.len(),
        forall|i: int| 0 <= i < final(cs)@.len() ==> final(cs)@[i] == '\0',
{
    let mut i: usize = 0;
    while i < cs.len()
        invariant
            i <= cs@.len(),
            cs@.len() == old(cs)@.len(),
            forall|k: int| 0 <= k < i ==> cs@[k] == '\0',
        decreases cs@.len() - i,
    {
        cs.set(i, '\0');
        i = i + 1;
    }
}

/// Take the string's buffer, overwrite every byte with zero, then release
/// it; the string is left empty with no allocation.
pub fn zeroize_string(s: &mut String)
    ensures
        final(s)@ == Seq::<char>::empty(),
{
    let mut taken = String::new();
    core::mem::swap(&mut taken, s);
    let mut bytes = string_into_bytes(taken);
    zero_fill(&mut bytes);
    black_box_ref(&bytes);
    crate::fence::compiler_fence_seq_cst();
    bytes.clear();
}

} // verus!
