//! The Unicode facts the text layer rests on: grapheme segmentation
//! (`unicode-segmentation`), terminal cell widths (`ratatui-core`), a few
//! character classes from `std`, and UTF-8 byte lengths.

use ratatui_core::buffer::CellWidth;
use unicode_segmentation::UnicodeSegmentation;
use vstd::prelude::*;

verus! {

/// The extended grapheme clusters of a string, as `unicode-segmentation`
/// splits it.
pub uninterp spec fn spec_graphemes(s: Seq<char>) -> Seq<Seq<char>>;

/// The cell width `ratatui-core` assigns to a (non-control) grapheme.
pub uninterp spec fn spec_cell_width(g: Seq<char>) -> u16;

/// Whether a character is a control character: in the Unicode general
/// category Cc, which is exactly U+0000–U+001F and U+007F–U+009F.
pub open spec fn spec_is_control(c: char) -> bool {
    (c as u32) < 0x20 || (0x7f <= (c as u32) && (c as u32) <= 0x9f)
}

/// `char::is_alphanumeric`.
pub uninterp spec fn spec_is_alphanumeric(c: char) -> bool;

/// The clusters of `s`, each as a string slice. `unicode-segmentation`
/// walks `s` with a grapheme cursor and hands out consecutive, non-empty
/// slices from the start to the end, so they concatenate back to `s`.
#[verifier::external_body]
pub(crate) fn graphemes(s: &str) -> (r: Vec<&str>)
    ensures
        r@.map_values(|g: &str| g@) == spec_graphemes(s@),
        r@.map_values(|g: &str| g@).flatten() == s@,
        forall|i: int| 0 <= i < r@.len() ==> r@[i]@.len() > 0,
{
    s.graphemes(true).collect()
}

/// `CellWidth::cell_width` on a grapheme. A one-byte string counts one
/// cell; `ratatui-core` debug-asserts that such a byte is not an ASCII
/// control character, so that input is excluded.
#[verifier::external_body]
pub(crate) fn cell_width(g: &str) -> (w: u16)
    requires
        !(g@.len() == 1 && (g@[0] as u32) < 0x80 && ((g@[0] as u32) < 0x20 || g@[0] as u32 == 0x7f)),
    ensures
        w == spec_cell_width(g@),
        g@.len() == 1 && (g@[0] as u32) < 0x80 ==> w == 1,
{
    g.cell_width()
}

/// Whether `c` is a control character (general category Cc), as
/// `char::is_control` answers.
pub(crate) fn is_control(c: char) -> (b: bool)
    ensures
        b == spec_is_control(c),
{
    let u = c as u32;
    u < 0x20 || (0x7f <= u && u <= 0x9f)
}

/// `char::is_alphanumeric`.
#[verifier::external_body]
pub(crate) fn is_alphanumeric(c: char) -> (b: bool)
    ensures
        b == spec_is_alphanumeric(c),
{
    c.is_alphanumeric()
}

/// `String::push`.
#[verifier::external_body]
pub(crate) fn string_push(s: &mut String, c: char)
    ensures
        final(s)@ == old(s)@.push(c),
{
    s.push(c);
}

/// `String::push_str`.
#[verifier::external_body]
pub(crate) fn string_push_str(s: &mut String, t: &str)
    ensures
        final(s)@ == old(s)@ + t@,
{
    s.push_str(t);
}

/// The number of UTF-8 bytes that encode `c`.
pub open spec fn utf8_width(c: char) -> nat {
    if (c as u32) < 0x80 {
        1
    } else if (c as u32) < 0x800 {
        2
    } else if (c as u32) < 0x10000 {
        3
    } else {
        4
    }
}

/// The number of UTF-8 bytes that encode `s`.
pub open spec fn byte_len(s: Seq<char>) -> nat
    decreases s.len(),
{
    if s.len() == 0 { 0 } else { byte_len(s.drop_last()) + utf8_width(s.last()) }
}

/// The byte length of the encoding agrees with `vstd`'s UTF-8 encoder.
pub proof fn lemma_byte_len_encode(s: Seq<char>)
    ensures
        byte_len(s) == vstd::utf8::encode_utf8(s).len(),
    decreases s.len(),
{
    if s.len() > 0 {
        lemma_byte_len_drop_first(s);
        lemma_byte_len_encode(s.drop_first());
        vstd::utf8::char_is_scalar(s[0]);
    }
}

/// `byte_len` peels from the front too.
pub proof fn lemma_byte_len_drop_first(s: Seq<char>)
    requires
        s.len() > 0,
    ensures
        byte_len(s) == utf8_width(s[0]) + byte_len(s.drop_first()),
    decreases s.len(),
{
    if s.len() > 1 {
        lemma_byte_len_drop_first(s.drop_last());
        assert(s.drop_last().drop_first() =~= s.drop_first().drop_last());
    } else {
        assert(s.drop_last() =~= Seq::<char>::empty());
        assert(s.drop_first() =~= Seq::<char>::empty());
    }
}

/// `byte_len` adds over concatenation.
pub proof fn lemma_byte_len_add(a: Seq<char>, b: Seq<char>)
    ensures
        byte_len(a + b) == byte_len(a) + byte_len(b),
    decreases b.len(),
{
    if b.len() > 0 {
        lemma_byte_len_add(a, b.drop_last());
        assert((a + b).drop_last() =~= a + b.drop_last());
    } else {
        assert(a + b =~= a);
    }
}

/// `byte_len` of a prefix grows by one character at a time.
pub proof fn lemma_byte_len_take(s: Seq<char>, k: int)
    requires
        0 <= k < s.len(),
    ensures
        byte_len(s.take(k + 1)) == byte_len(s.take(k)) + utf8_width(s[k]),
{
    assert(s.take(k + 1).drop_last() =~= s.take(k));
}

/// The UTF-8 width of a character.
pub fn char_utf8_len(c: char) -> (n: usize)
    ensures
        n == utf8_width(c),
{
    let v = c as u32;
    if v < 0x80 {
        1
    } else if v < 0x800 {
        2
    } else if v < 0x10000 {
        3
    } else {
        4
    }
}

/// The characters of a string.
pub fn str_chars(s: &str) -> (v: Vec<char>)
    ensures
        v@ == s@,
{
    broadcast use vstd::string::group_string_axioms;
    let mut it = s.chars();
    let mut v: Vec<char> = Vec::new();
    loop
        invariant
            v@ + vstd::std_specs::iter::IteratorSpec::remaining(&it) == s@,
            vstd::std_specs::iter::IteratorSpec::decrease(&it) is Some,
            vstd::std_specs::iter::IteratorSpec::obeys_prophetic_iter_laws(&it),
        ensures
            v@ == s@,
        decreases vstd::std_specs::iter::IteratorSpec::decrease(&it)->0,
    {
        match it.next() {
            Some(c) => {
                let ghost before = v@;
                v.push(c);
                assert(v@ + vstd::std_specs::iter::IteratorSpec::remaining(&it) =~= s@);
            },
            None => {
                break;
            },
        }
    }
    v
}

/// A string holding `cs`.
pub fn string_from_chars(cs: &[char]) -> (s: String)
    ensures
        s@ == cs@,
{
    let mut s = String::new();
    let mut i: usize = 0;
    while i < cs.len()
        invariant
            i <= cs@.len(),
            s@ == cs@.take(i as int),
        decreases cs@.len() - i,
    {
        string_push(&mut s, cs[i]);
        assert(cs@.take(i as int + 1) =~= cs@.take(i as int).push(cs@[i as int]));
        i = i + 1;
    }
    assert(cs@.take(cs@.len() as int) =~= cs@);
    s
}

/// UTF-8 encoding distributes over concatenation.
pub proof fn lemma_encode_concat(a: Seq<char>, b: Seq<char>)
    ensures
        vstd::utf8::encode_utf8(a + b) == vstd::utf8::encode_utf8(a) + vstd::utf8::encode_utf8(b),
    decreases a.len(),
{
    if a.len() == 0 {
        assert(a + b =~= b);
        assert(vstd::utf8::encode_utf8(a) =~= Seq::<u8>::empty());
        assert(vstd::utf8::encode_utf8(a) + vstd::utf8::encode_utf8(b) =~= vstd::utf8::encode_utf8(b));
    } else {
        assert((a + b).drop_first() =~= a.drop_first() + b);
        assert((a + b)[0] == a[0]);
        lemma_encode_concat(a.drop_first(), b);
        let e0 = vstd::utf8::encode_scalar(a[0] as u32);
        assert(vstd::utf8::encode_utf8(a + b) == e0 + vstd::utf8::encode_utf8((a + b).drop_first()));
        assert(vstd::utf8::encode_utf8(a) == e0 + vstd::utf8::encode_utf8(a.drop_first()));
        assert(e0 + (vstd::utf8::encode_utf8(a.drop_first()) + vstd::utf8::encode_utf8(b))
            =~= (e0 + vstd::utf8::encode_utf8(a.drop_first())) + vstd::utf8::encode_utf8(b));
    }
}

/// The encoding of a character prefix ends on a character boundary.
pub proof fn lemma_prefix_boundary(s: Seq<char>, k: int)
    requires
        0 <= k <= s.len(),
    ensures
        vstd::utf8::valid_utf8(vstd::utf8::encode_utf8(s)),
        vstd::utf8::is_char_boundary(vstd::utf8::encode_utf8(s), vstd::utf8::encode_utf8(s.take(k)).len() as int),
    decreases k,
{
    vstd::utf8::encode_utf8_valid_utf8(s);
    let bytes = vstd::utf8::encode_utf8(s);
    if k == 0 {
        assert(s.take(0) =~= Seq::<char>::empty());
        assert(vstd::utf8::encode_utf8(s.take(0)).len() == 0);
    } else {
        vstd::utf8::encode_utf8_first_scalar(s);
        vstd::utf8::char_is_scalar(s[0]);
        let e0 = vstd::utf8::encode_scalar(s[0] as u32);
        let rest = s.drop_first();
        assert(bytes == e0 + vstd::utf8::encode_utf8(rest));
        assert(vstd::utf8::pop_first_scalar(bytes) =~= vstd::utf8::encode_utf8(rest));
        lemma_prefix_boundary(rest, k - 1);
        assert(s.take(k) =~= seq![s[0]] + rest.take(k - 1));
        lemma_encode_concat(seq![s[0]], rest.take(k - 1));
        let one = seq![s[0]];
        assert(one.drop_first() =~= Seq::<char>::empty());
        assert(vstd::utf8::encode_utf8(one.drop_first()) =~= Seq::<u8>::empty());
        assert(vstd::utf8::encode_utf8(one) == e0 + vstd::utf8::encode_utf8(one.drop_first()));
        assert(vstd::utf8::encode_utf8(one) =~= e0);
        assert(s =~= s.take(k) + s.skip(k));
        lemma_encode_concat(s.take(k), s.skip(k));
        assert(e0.len() > 0);
    }
}

/// The suffix and prefix of a split at a character prefix.
proof fn lemma_split_views(s: Seq<char>, k: int)
    requires
        0 <= k <= s.len(),
    ensures
        vstd::utf8::encode_utf8(s).subrange(0, vstd::utf8::encode_utf8(s.take(k)).len() as int) == vstd::utf8::encode_utf8(s.take(k)),
        vstd::utf8::encode_utf8(s).subrange(vstd::utf8::encode_utf8(s.take(k)).len() as int, vstd::utf8::encode_utf8(s).len() as int)
            == vstd::utf8::encode_utf8(s.skip(k)),
{
    assert(s =~= s.take(k) + s.skip(k));
    lemma_encode_concat(s.take(k), s.skip(k));
    let a = vstd::utf8::encode_utf8(s.take(k));
    let b = vstd::utf8::encode_utf8(s.skip(k));
    assert((a + b).subrange(0, a.len() as int) =~= a);
    assert((a + b).subrange(a.len() as int, (a + b).len() as int) =~= b);
}

/// The UTF-8 byte offset of character `k` of `cs`.
pub fn byte_offset(cs: &[char], k: usize) -> (b: usize)
    requires
        k <= cs@.len(),
        byte_len(cs@) <= usize::MAX,
    ensures
        b == byte_len(cs@.take(k as int)),
{
    let mut b: usize = 0;
    let mut i: usize = 0;
    while i < k
        invariant
            k <= cs@.len(),
            byte_len(cs@) <= usize::MAX,
            i <= k,
            b == byte_len(cs@.take(i as int)),
        decreases k - i,
    {
        proof {
            lemma_byte_len_take(cs@, i as int);
            assert(cs@ =~= cs@.take(i as int + 1) + cs@.skip(i as int + 1));
            lemma_byte_len_add(cs@.take(i as int + 1), cs@.skip(i as int + 1));
        }
        b = b + char_utf8_len(cs[i]);
        i = i + 1;
    }
    b
}

/// The characters `from..to` of `s`, as a slice of it; `cs` holds the
/// characters of `s`.
pub fn char_substr<'a>(s: &'a str, cs: &[char], from: usize, to: usize) -> (r: &'a str)
    requires
        cs@ == s@,
        from <= to <= cs@.len(),
    ensures
        r@ == s@.subrange(from as int, to as int),
{
    proof {
        lemma_byte_len_encode(s@);
    }
    let total = s.as_bytes().len();
    proof {
        assert(cs@ =~= cs@.take(to as int) + cs@.skip(to as int));
        lemma_byte_len_add(cs@.take(to as int), cs@.skip(to as int));
    }
    let a = byte_offset(cs, from);
    proof {
        lemma_byte_len_encode(s@.take(from as int));
        lemma_prefix_boundary(s@, from as int);
        lemma_split_views(s@, from as int);
        vstd::utf8::encode_utf8_decode_utf8(s@.skip(from as int));
    }
    let (_, tail) = s.split_at(a);
    proof {
        vstd::utf8::encode_utf8_decode_utf8(tail@);
        assert(tail@ == s@.skip(from as int));
    }
    proof {
        assert(cs@ =~= cs@.take(from as int) + cs@.skip(from as int));
        lemma_byte_len_add(cs@.take(from as int), cs@.skip(from as int));
    }
    let tail_chars = &cs[from..cs.len()];
    assert(tail_chars@ =~= tail@);
    let m = byte_offset(tail_chars, to - from);
    proof {
        lemma_byte_len_encode(tail@.take((to - from) as int));
        lemma_prefix_boundary(tail@, (to - from) as int);
        lemma_split_views(tail@, (to - from) as int);
        vstd::utf8::encode_utf8_decode_utf8(tail@.take((to - from) as int));
    }
    let (head, _) = tail.split_at(m);
    proof {
        vstd::utf8::encode_utf8_decode_utf8(head@);
        assert(head@ == tail@.take((to - from) as int));
        assert(head@ =~= s@.subrange(from as int, to as int));
    }
    head
}

} // verus!
