//! Secrets.
//!
//! `Secret` is not `Clone` and not `PartialEq`; its printed forms redact;
//! `write_mask` paints a synthetic tail derived from the fingerprint, never
//! the real characters; `zeroize` overwrites bytes before they are released.

use vstd::prelude::*;
use vstd::string::StringSliceAdditionalSpecFns;

use crate::id::{fnv1a, fnv1a_spec, le_bytes, FNV_OFFSET};
use crate::text::unicode::{lemma_byte_len_encode, string_push, string_push_str};
use crate::theme::glyph::GlyphRole;
use crate::wipe::zeroize_string;

verus! {

/// A secret string.
pub struct Secret(String);

/// The fingerprint of a value: FNV-1a of its UTF-8 bytes, little-endian.
pub open spec fn fingerprint_of(s: Seq<char>) -> Seq<u8> {
    le_bytes(fnv1a_spec(FNV_OFFSET, vstd::utf8::encode_utf8(s)))
}

/// The synthetic character a fingerprint byte stands for: a digit or a
/// lowercase letter, by the byte modulo 36.
pub open spec fn tail_char(b: u8) -> char {
    let v = b % 36;
    if v < 10 { (48 + v) as char } else { (97 + (v - 10)) as char }
}

/// The synthetic tail of `len` characters derived from a fingerprint: its
/// bytes in order, taken again from the first once all eight are used.
pub open spec fn tail_of(fp: Seq<u8>, len: int) -> Seq<char> {
    Seq::new(len as nat, |k: int| tail_char(fp[k % 8]))
}

fn tail_char_of(b: u8) -> (c: char)
    ensures
        c == tail_char(b),
{
    let v = b % 36;
    if v < 10 {
        (48u8 + v) as char
    } else {
        (97u8 + (v - 10)) as char
    }
}

/// What a masked field paints: `count` mask glyphs, then a synthetic tail
/// that is never made of the real characters.
#[derive(Debug)]
pub struct MaskPaint {
    /// The mask glyph.
    pub mask: GlyphRole,
    /// How many mask glyphs.
    pub count: usize,
    /// The synthetic tail.
    pub tail: String,
}

/// How a masked field paints.
#[derive(Clone, Copy, Debug, PartialEq, Eq, Structural)]
pub struct SecretPolicy {
    /// The mask glyph.
    pub mask: GlyphRole,
    /// Synthetic tail length (never the real characters).
    pub synthetic_tail: usize,
}

impl Default for SecretPolicy {
    /// The library default: the secret-mask glyph and a two-character
    /// synthetic tail. Not the dirty marker: a theme that restyles that
    /// must not thereby restyle password masking.
    fn default() -> (p: SecretPolicy)
        ensures
            p == (SecretPolicy { mask: GlyphRole::SecretMask, synthetic_tail: 2 }),
    {
        SecretPolicy { mask: GlyphRole::SecretMask, synthetic_tail: 2 }
    }
}

impl Secret {
    /// The value.
    pub closed spec fn spec_value(&self) -> Seq<char> {
        self.0@
    }

    /// Wrap a string.
    pub fn new(s: String) -> (r: Secret)
        ensures
            r.spec_value() == s@,
    {
        Secret(s)
    }

    /// The raw value. Deliberately verbose.
    pub fn expose(&self) -> (s: &str)
        ensures
            s@ == self.spec_value(),
    {
        self.0.as_str()
    }

    /// Whether the secret is empty.
    pub fn is_empty(&self) -> (b: bool)
        ensures
            b == (self.spec_value().len() == 0),
    {
        proof {
            lemma_byte_len_encode(self.0@);
            crate::text::buffer::lemma_len_le_byte_len(self.0@);
        }
        self.0.as_str().as_bytes().len() == 0
    }

    /// The byte length.
    pub fn len(&self) -> (n: usize)
        ensures
            n == vstd::utf8::encode_utf8(self.spec_value()).len(),
    {
        self.0.as_str().as_bytes().len()
    }

    /// A stable 8-byte fingerprint (FNV-1a).
    pub fn fingerprint(&self) -> (fp: [u8; 8])
        ensures
            fp@ == fingerprint_of(self.spec_value()),
    {
        let h = fnv1a(FNV_OFFSET, self.0.as_str().as_bytes());
        let fp: [u8; 8] = [
            (h & 0xff) as u8,
            ((h >> 8u64) & 0xff) as u8,
            ((h >> 16u64) & 0xff) as u8,
            ((h >> 24u64) & 0xff) as u8,
            ((h >> 32u64) & 0xff) as u8,
            ((h >> 40u64) & 0xff) as u8,
            ((h >> 48u64) & 0xff) as u8,
            ((h >> 56u64) & 0xff) as u8,
        ];
        proof {
            assert(h >> 0u64 == h) by (bit_vector);
            assert(fp@ =~= le_bytes(h));
        }
        fp
    }

    /// Replace the value, overwriting the old bytes first.
    pub fn set(&mut self, s: &str)
        ensures
            final(self).spec_value() == s@,
    {
        self.zeroize();
        string_push_str(&mut self.0, s);
    }

    /// What a masked field paints for `n` characters: `n` mask glyphs and a
    /// synthetic tail of `policy.synthetic_tail` characters derived from the
    /// fingerprint alone. No copy of the secret is made.
    pub fn write_mask(&self, n: usize, policy: SecretPolicy) -> (m: MaskPaint)
        ensures
            m.mask == policy.mask,
            m.count == n,
            m.tail@ == tail_of(fingerprint_of(self.spec_value()), policy.synthetic_tail as int),
    {
        let tail = policy.synthetic_tail;
        let mut out = String::new();
        if tail == 0 {
            proof {
                assert(out@ =~= tail_of(fingerprint_of(self.spec_value()), 0));
            }
            return MaskPaint { mask: policy.mask, count: n, tail: out };
        }
        let fp = self.fingerprint();
        let mut k: usize = 0;
        while k < tail
            invariant
                k <= tail,
                fp@ == fingerprint_of(self.spec_value()),
                fp@.len() == 8,
                out@ == tail_of(fp@, k as int),
            decreases tail - k,
        {
            let c = tail_char_of(fp[k % 8]);
            string_push(&mut out, c);
            proof {
                assert(out@ =~= tail_of(fp@, k as int + 1));
            }
            k = k + 1;
        }
        MaskPaint { mask: policy.mask, count: n, tail: out }
    }

    /// Overwrite every byte with zero, then release the buffer.
    ///
    /// The fill writes into a buffer that is about to be dropped, and the
    /// optimiser is permitted to remove a dead store; `black_box` and a
    /// sequentially consistent fence make the write observable to it, which
    /// is as far as safe code reaches. What is guaranteed is that the
    /// buffer is released and a fresh `expose()` is empty.
    pub fn zeroize(&mut self)
        ensures
            final(self).spec_value() == Seq::<char>::empty(),
    {
        zeroize_string(&mut self.0);
    }

    /// How the secret prints for debugging: redacted.
    pub fn debug_string(&self) -> (s: &'static str)
        ensures
            s@ == "Secret([redacted])"@,
    {
        "Secret([redacted])"
    }

    /// How the secret displays: redacted.
    pub fn display_string(&self) -> (s: &'static str)
        ensures
            s@ == "[redacted]"@,
    {
        "[redacted]"
    }
}

} // verus!
