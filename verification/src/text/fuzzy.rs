//! Fuzzy matching over the graphemes of the original label.
//!
//! Matching compares the lowercased label with the lowercased word: a
//! prefix wins, then a substring on a boundary, then any substring, then a
//! subsequence. Matches are reported as grapheme ordinals of the original
//! label, so a list can bold them while walking the label's graphemes;
//! offsets never address transformed text.

use vstd::prelude::*;

use crate::text::buffer::{byte_of, lemma_flatten_concat};
use crate::text::unicode::{
    byte_len, char_utf8_len, graphemes, lemma_byte_len_add, lemma_byte_len_encode, lemma_byte_len_take,
    spec_graphemes, str_chars,
};

verus! {

/// Which separators give a substring the word-boundary ranking bonus.
#[derive(Debug, Clone, Copy, Default, PartialEq, Eq, Structural)]
pub enum FuzzyBoundary {
    /// Underscore, dot, space and hyphen; the default collection-search
    /// policy.
    #[default]
    Word,
    /// Underscore and dot only, for identifier-oriented ranking.
    Identifier,
}

/// Whether the byte before a substring match earns the boundary bonus.
pub open spec fn precedes(boundary: FuzzyBoundary, b: u8) -> bool {
    b == 95 || b == 46 || (boundary is Word && (b == 32 || b == 45))
}

fn precedes_byte(boundary: FuzzyBoundary, b: u8) -> (r: bool)
    ensures
        r == precedes(boundary, b),
{
    b == 95 || b == 46 || (matches!(boundary, FuzzyBoundary::Word) && (b == 32 || b == 45))
}

/// `str::to_lowercase`: the lowercase form of a whole string.
pub uninterp spec fn spec_lowercase(s: Seq<char>) -> Seq<char>;

/// How many characters `char::to_lowercase` yields for `c`.
pub uninterp spec fn spec_lower_count(c: char) -> usize;

/// `str::to_lowercase`.
#[verifier::external_body]
fn to_lowercase(s: &str) -> (r: String)
    ensures
        r@ == spec_lowercase(s@),
{
    s.to_lowercase()
}

/// The number of characters `char::to_lowercase` yields.
#[verifier::external_body]
fn lower_count(c: char) -> (n: usize)
    ensures
        n == spec_lower_count(c),
{
    c.to_lowercase().count()
}

/// How many characters of the searched text a grapheme accounts for: its
/// characters' lowercase expansions, or its characters.
pub open spec fn expanded_len(g: Seq<char>, lowercase: bool) -> int
    decreases g.len(),
{
    if !lowercase {
        g.len() as int
    } else if g.len() == 0 {
        0
    } else {
        expanded_len(g.drop_last(), true) + spec_lower_count(g.last()) as int
    }
}

/// One source grapheme: its byte span in the searched text, its ordinal in
/// the label and its byte offset in the label.
#[derive(Clone, Copy, Debug, PartialEq, Eq, Structural)]
pub struct Origin {
    /// Where the grapheme starts in the searched text (bytes).
    pub start: usize,
    /// Where it ends in the searched text (bytes).
    pub end: usize,
    /// Its ordinal among the label's graphemes.
    pub ordinal: usize,
    /// Its byte offset in the label.
    pub byte: usize,
}

/// The searched-text characters the first `i` graphemes account for,
/// stopping at the end of the text.
pub open spec fn consumed(gs: Seq<Seq<char>>, t: Seq<char>, lowercase: bool, i: int) -> int
    decreases i,
{
    if i <= 0 {
        0
    } else {
        let c = consumed(gs, t, lowercase, i - 1) + expanded_len(gs[i - 1], lowercase);
        if c < t.len() { c } else { t.len() as int }
    }
}

/// The origins of the first `i` graphemes.
pub open spec fn origins_of(gs: Seq<Seq<char>>, t: Seq<char>, lowercase: bool, i: int) -> Seq<Origin>
    decreases i,
{
    if i <= 0 {
        Seq::empty()
    } else {
        origins_of(gs, t, lowercase, i - 1).push(Origin {
            start: byte_of(t, consumed(gs, t, lowercase, i - 1)) as usize,
            end: byte_of(t, consumed(gs, t, lowercase, i)) as usize,
            ordinal: (i - 1) as usize,
            byte: byte_len(gs.take(i - 1).flatten()) as usize,
        })
    }
}

/// The ordinals of the first `i` origins that overlap the byte range
/// `a..b` of the searched text, each once, in order.
pub open spec fn matched(os: Seq<Origin>, a: int, b: int, i: int) -> Seq<usize>
    decreases i,
{
    if i <= 0 {
        Seq::empty()
    } else {
        let acc = matched(os, a, b, i - 1);
        let o = os[i - 1];
        if o.start < b && a < o.end && !(acc.len() > 0 && acc.last() == o.ordinal) { acc.push(o.ordinal) } else { acc }
    }
}

/// The first origin at or after `i` that holds byte `off`.
pub open spec fn origin_at(os: Seq<Origin>, off: int, i: int) -> Option<Origin>
    decreases os.len() - i,
{
    if i < 0 || i >= os.len() {
        None
    } else if os[i].start <= off && off < os[i].end {
        Some(os[i])
    } else {
        origin_at(os, off, i + 1)
    }
}

/// Whether `w` is a prefix of `t`.
pub open spec fn has_prefix(t: Seq<u8>, w: Seq<u8>) -> bool {
    w.len() <= t.len() && t.take(w.len() as int) == w
}

/// Whether `w` occurs in `t` at byte `p`.
pub open spec fn occurs_at(t: Seq<u8>, w: Seq<u8>, p: int) -> bool {
    0 <= p && p + w.len() <= t.len() && t.subrange(p, p + w.len()) == w
}

/// The first byte at or after `p` where `w` occurs in `t`, or `-1`.
pub open spec fn first_occurrence(t: Seq<u8>, w: Seq<u8>, p: int) -> int
    decreases t.len() + 1 - p,
{
    if p < 0 || p > t.len() {
        -1
    } else if occurs_at(t, w, p) {
        p
    } else {
        first_occurrence(t, w, p + 1)
    }
}

/// The first character index at or after `k` that is `c`, or `-1`.
pub open spec fn next_char(t: Seq<char>, c: char, k: int) -> int
    decreases t.len() - k,
{
    if k < 0 || k >= t.len() {
        -1
    } else if t[k] == c {
        k
    } else {
        next_char(t, c, k + 1)
    }
}

/// The subsequence match of `w[j..]` in `t[k..]`: for each word character
/// the next matching text character; each match adds its origin's ordinal
/// (once) and remembers its origin's label byte. `None` when a character
/// is missing.
pub open spec fn subsequence_from(
    t: Seq<char>,
    os: Seq<Origin>,
    w: Seq<char>,
    j: int,
    k: int,
    acc: Seq<usize>,
    last_byte: usize,
) -> Option<(usize, Seq<usize>)>
    decreases w.len() - j,
{
    if j < 0 || j >= w.len() {
        Some((last_byte, acc))
    } else {
        let q = next_char(t, w[j], k);
        if q < 0 {
            None
        } else {
            match origin_at(os, byte_of(t, q), 0) {
                Some(o) => {
                    let acc2 = if acc.len() > 0 && acc.last() == o.ordinal { acc } else { acc.push(o.ordinal) };
                    subsequence_from(t, os, w, j + 1, q + 1, acc2, o.byte)
                },
                None => subsequence_from(t, os, w, j + 1, q + 1, acc, last_byte),
            }
        }
    }
}

/// `60 + b`, the subsequence penalty, saturating in `u32`.
pub open spec fn subsequence_penalty(b: usize) -> u32 {
    if 60 + (b as u32) > u32::MAX { u32::MAX } else { (60 + (b as u32)) as u32 }
}

/// How a folded word ranks against a folded text `t` whose graphemes map
/// through `os`: a prefix (0), a substring on a boundary (10), any
/// substring (30), or a subsequence (60 plus the label byte of the last
/// matched grapheme), with the ordinals of the matched graphemes.
pub open spec fn rank_spec(t: Seq<char>, os: Seq<Origin>, w: Seq<char>, boundary: FuzzyBoundary) -> Option<(u32, Seq<usize>)> {
    let tb = vstd::utf8::encode_utf8(t);
    let wb = vstd::utf8::encode_utf8(w);
    if has_prefix(tb, wb) {
        Some((0u32, matched(os, 0, wb.len() as int, os.len() as int)))
    } else {
        let p = first_occurrence(tb, wb, 0);
        if p >= 0 {
            let at_boundary = p == 0 || precedes(boundary, tb[p - 1]);
            let end = if p + wb.len() > usize::MAX { usize::MAX as int } else { p + wb.len() };
            Some((if at_boundary { 10u32 } else { 30u32 }, matched(os, p, end, os.len() as int)))
        } else {
            match subsequence_from(t, os, w, 0, 0, Seq::empty(), 0) {
                Some((b, ords)) => Some((subsequence_penalty(b), ords)),
                None => None,
            }
        }
    }
}

/// A word found inside the label, but not at its start, ranks 10 when the
/// byte before it separates words and 30 otherwise. Under the word policy
/// the separators are underscore, dot, space and hyphen; under the
/// identifier policy only underscore and dot.
pub proof fn law_substring_after_a_separator_ranks_on_the_boundary(
    t: Seq<char>,
    os: Seq<Origin>,
    w: Seq<char>,
    boundary: FuzzyBoundary,
)
    requires
        !has_prefix(vstd::utf8::encode_utf8(t), vstd::utf8::encode_utf8(w)),
        first_occurrence(vstd::utf8::encode_utf8(t), vstd::utf8::encode_utf8(w), 0) > 0,
    ensures
        ({
            let tb = vstd::utf8::encode_utf8(t);
            let p = first_occurrence(tb, vstd::utf8::encode_utf8(w), 0);
            let b = tb[p - 1];
            let separator = b == 0x5f || b == 0x2e || (boundary == FuzzyBoundary::Word && (b == 0x20 || b == 0x2d));
            rank_spec(t, os, w, boundary) matches Some((s, _)) && s == (if separator { 10u32 } else { 30u32 })
        }),
{
}

/// What [`fuzzy_with_boundary`] answers for `label` and `word`: the empty
/// word matches with penalty 0 and no graphemes; otherwise the lowercased
/// word ranks against the lowercased label.
pub open spec fn fuzzy_spec(label: Seq<char>, word: Seq<char>, boundary: FuzzyBoundary) -> Option<(u32, Seq<usize>)> {
    if word.len() == 0 {
        Some((0u32, Seq::empty()))
    } else {
        let t = spec_lowercase(label);
        let gs = spec_graphemes(label);
        rank_spec(t, origins_of(gs, t, true, gs.len() as int), spec_lowercase(word), boundary)
    }
}

/// The lowercased label with the map from its graphemes to the searched
/// text.
struct SearchText {
    text: String,
    origins: Vec<Origin>,
}

proof fn lemma_flatten_step(gs: Seq<Seq<char>>, i: int)
    requires
        0 <= i < gs.len(),
    ensures
        gs.take(i + 1).flatten() == gs.take(i).flatten() + gs[i],
        byte_len(gs.take(i + 1).flatten()) == byte_len(gs.take(i).flatten()) + byte_len(gs[i]),
        byte_len(gs.take(i + 1).flatten()) <= byte_len(gs.flatten()),
{
    assert(gs.take(i + 1) =~= gs.take(i).push(gs[i]));
    gs.take(i).lemma_flatten_push(gs[i]);
    lemma_byte_len_add(gs.take(i).flatten(), gs[i]);
    assert(gs =~= gs.take(i + 1) + gs.skip(i + 1));
    lemma_flatten_concat(gs.take(i + 1), gs.skip(i + 1));
    lemma_byte_len_add(gs.take(i + 1).flatten(), gs.skip(i + 1).flatten());
}

proof fn lemma_byte_of_le(t: Seq<char>, k: int)
    requires
        0 <= k <= t.len(),
    ensures
        byte_of(t, k) <= byte_len(t),
{
    assert(t =~= t.take(k) + t.skip(k));
    lemma_byte_len_add(t.take(k), t.skip(k));
}

impl SearchText {
    fn new(source: &str, lowercase: bool) -> (st: SearchText)
        ensures
            st.text@ == (if lowercase { spec_lowercase(source@) } else { source@ }),
            st.origins@ == origins_of(spec_graphemes(source@), st.text@, lowercase, spec_graphemes(source@).len() as int),
    {
        let text: String = if lowercase { to_lowercase(source) } else { source.to_owned() };
        let tc = str_chars(text.as_str());
        let gs = graphemes(source);
        let ghost gv = gs@.map_values(|g: &str| g@);
        proof {
            lemma_byte_len_encode(source@);
            lemma_byte_len_encode(tc@);
        }
        let _ = source.as_bytes().len();
        let _ = text.as_str().as_bytes().len();
        let mut origins: Vec<Origin> = Vec::new();
        let mut taken: usize = 0;
        let mut at: usize = 0;
        let mut src_byte: usize = 0;
        let mut ordinal: usize = 0;
        while ordinal < gs.len()
            invariant
                tc@ == text@,
                gv == gs@.map_values(|g: &str| g@),
                gv == spec_graphemes(source@),
                gv.flatten() == source@,
                byte_len(source@) <= usize::MAX,
                byte_len(tc@) <= usize::MAX,
                ordinal <= gs@.len(),
                taken == consumed(gv, tc@, lowercase, ordinal as int),
                taken <= tc@.len(),
                at == byte_of(tc@, taken as int),
                src_byte == byte_len(gv.take(ordinal as int).flatten()),
                origins@ == origins_of(gv, tc@, lowercase, ordinal as int),
            decreases gs@.len() - ordinal,
        {
            let g = gs[ordinal];
            let gc = str_chars(g);
            let start = at;
            let mut count: usize = 0;
            if lowercase {
                let mut k: usize = 0;
                while k < gc.len()
                    invariant
                        k <= gc@.len(),
                        count == (if expanded_len(gc@.take(k as int), true) > usize::MAX {
                            usize::MAX as int
                        } else {
                            expanded_len(gc@.take(k as int), true)
                        }),
                    decreases gc@.len() - k,
                {
                    proof {
                        assert(gc@.take(k as int + 1).drop_last() =~= gc@.take(k as int));
                    }
                    count = count.saturating_add(lower_count(gc[k]));
                    k = k + 1;
                }
                proof {
                    assert(gc@.take(gc@.len() as int) =~= gc@);
                }
            } else {
                count = gc.len();
            }
            let mut n: usize = 0;
            let ghost base = taken as int;
            while n < count && taken < tc.len()
                invariant
                    tc@ == text@,
                    byte_len(tc@) <= usize::MAX,
                    n <= count,
                    taken <= tc@.len(),
                    at == byte_of(tc@, taken as int),
                    0 <= base <= tc@.len(),
                    taken as int == (if base + n < tc@.len() { base + n } else { tc@.len() as int }),
                decreases count - n,
            {
                proof {
                    lemma_byte_len_take(tc@, taken as int);
                    lemma_byte_of_le(tc@, taken as int + 1);
                }
                at = at + char_utf8_len(tc[taken]);
                taken = taken + 1;
                n = n + 1;
            }
            proof {
                crate::text::buffer::lemma_len_le_byte_len(tc@);
                let full = expanded_len(gv[ordinal as int], lowercase);
                assert(gc@ == gv[ordinal as int]);
                assert(base == consumed(gv, tc@, lowercase, ordinal as int));
                if full <= usize::MAX {
                    assert(count == full);
                    assert(taken == (if base + full < tc@.len() { base + full } else { tc@.len() as int }));
                } else {
                    assert(count == usize::MAX);
                    assert(base + full >= tc@.len());
                }
                assert(taken == consumed(gv, tc@, lowercase, ordinal as int + 1));
                lemma_flatten_step(gv, ordinal as int);
                lemma_byte_len_encode(g@);
            }
            origins.push(Origin { start, end: at, ordinal, byte: src_byte });
            src_byte = src_byte + g.as_bytes().len();
            ordinal = ordinal + 1;
        }
        SearchText { text, origins }
    }

}

/// The ordinals of the origins that overlap bytes `a..b`, each once.
fn matched_ordinals(origins: &[Origin], a: usize, b: usize) -> (r: Vec<usize>)
    ensures
        r@ == matched(origins@, a as int, b as int, origins@.len() as int),
{
    let mut out: Vec<usize> = Vec::new();
    let mut i: usize = 0;
    while i < origins.len()
        invariant
            i <= origins@.len(),
            out@ == matched(origins@, a as int, b as int, i as int),
        decreases origins@.len() - i,
    {
        let o = origins[i];
        let n = out.len();
        let repeat = n > 0 && out[n - 1] == o.ordinal;
        if o.start < b && a < o.end && !repeat {
            out.push(o.ordinal);
        }
        i = i + 1;
    }
    out
}

/// The origin holding byte `off` of the searched text.
fn find_origin(origins: &[Origin], off: usize) -> (r: Option<Origin>)
    ensures
        r == origin_at(origins@, off as int, 0),
{
    let mut i: usize = 0;
    while i < origins.len()
        invariant
            i <= origins@.len(),
            origin_at(origins@, off as int, 0) == origin_at(origins@, off as int, i as int),
        decreases origins@.len() - i,
    {
        let o = origins[i];
        if o.start <= off && off < o.end {
            return Some(o);
        }
        i = i + 1;
    }
    None
}

/// Whether `w` is a prefix of `t`.
fn starts_with(t: &[u8], w: &[u8]) -> (r: bool)
    ensures
        r == has_prefix(t@, w@),
{
    if w.len() > t.len() {
        return false;
    }
    let mut i: usize = 0;
    while i < w.len()
        invariant
            w@.len() <= t@.len(),
            i <= w@.len(),
            forall|k: int| 0 <= k < i ==> t@[k] == w@[k],
        decreases w@.len() - i,
    {
        if t[i] != w[i] {
            assert(t@.take(w@.len() as int)[i as int] != w@[i as int]);
            return false;
        }
        i = i + 1;
    }
    assert(t@.take(w@.len() as int) =~= w@);
    true
}

/// Whether `w` occurs in `t` at byte `p`.
fn occurs(t: &[u8], w: &[u8], p: usize) -> (r: bool)
    requires
        p + w@.len() <= t@.len(),
        t@.len() <= usize::MAX,
    ensures
        r == occurs_at(t@, w@, p as int),
{
    let mut i: usize = 0;
    while i < w.len()
        invariant
            p + w@.len() <= t@.len(),
            t@.len() <= usize::MAX,
            i <= w@.len(),
            forall|k: int| 0 <= k < i ==> t@[p + k] == w@[k],
        decreases w@.len() - i,
    {
        if t[p + i] != w[i] {
            assert(t@.subrange(p as int, p + w@.len())[i as int] != w@[i as int]);
            return false;
        }
        i = i + 1;
    }
    assert(t@.subrange(p as int, p + w@.len()) =~= w@);
    true
}

/// The first byte where `w` occurs in `t`.
fn find(t: &[u8], w: &[u8]) -> (r: Option<usize>)
    ensures
        match r {
            Some(p) => p == first_occurrence(t@, w@, 0),
            None => first_occurrence(t@, w@, 0) == -1,
        },
{
    if w.len() > t.len() {
        proof {
            lemma_no_occurrence(t@, w@, 0);
        }
        return None;
    }
    let n = t.len();
    let last = n - w.len();
    let mut p: usize = 0;
    loop
        invariant
            n == t@.len(),
            last == t@.len() - w@.len(),
            w@.len() <= t@.len(),
            p <= last,
            first_occurrence(t@, w@, 0) == first_occurrence(t@, w@, p as int),
        decreases last - p,
    {
        if occurs(t, w, p) {
            return Some(p);
        }
        if p == last {
            proof {
                lemma_no_occurrence(t@, w@, p as int + 1);
            }
            return None;
        }
        p = p + 1;
    }
}

/// Where the first occurrence is, `w` occurs.
proof fn lemma_first_occurrence(t: Seq<u8>, w: Seq<u8>, p: int)
    requires
        0 <= p,
    ensures
        first_occurrence(t, w, p) >= 0 ==> occurs_at(t, w, first_occurrence(t, w, p)),
    decreases t.len() + 1 - p,
{
    if p <= t.len() && !occurs_at(t, w, p) {
        lemma_first_occurrence(t, w, p + 1);
    }
}

proof fn lemma_no_occurrence(t: Seq<u8>, w: Seq<u8>, p: int)
    requires
        p >= 0,
        p + w.len() > t.len(),
    ensures
        first_occurrence(t, w, p) == -1,
    decreases t.len() + 1 - p,
{
    if p <= t.len() {
        lemma_no_occurrence(t, w, p + 1);
    }
}

proof fn lemma_first_occurrence_finds(t: Seq<u8>, w: Seq<u8>, p: int, q: int)
    requires
        0 <= p <= q,
        occurs_at(t, w, q),
    ensures
        p <= first_occurrence(t, w, p) <= q,
    decreases q - p,
{
    if !occurs_at(t, w, p) {
        lemma_first_occurrence_finds(t, w, p + 1, q);
    }
}

/// A prefix match ranks best (0); otherwise a word found inside the label
/// ranks 10 or 30; a word not found inside it ranks at least 60 as a
/// subsequence, or does not match.
pub proof fn law_prefix_beats_substring_beats_subsequence(
    t: Seq<char>,
    os: Seq<Origin>,
    w: Seq<char>,
    boundary: FuzzyBoundary,
)
    ensures
        ({
            let tb = vstd::utf8::encode_utf8(t);
            let wb = vstd::utf8::encode_utf8(w);
            let r = rank_spec(t, os, w, boundary);
            &&& tb.len() >= wb.len() && tb.take(wb.len() as int) == wb ==> (r matches Some((s, _)) && s == 0)
            &&& !(tb.len() >= wb.len() && tb.take(wb.len() as int) == wb) && (exists|q: int|
                0 <= q && q + wb.len() <= tb.len() && #[trigger] tb.subrange(q, q + wb.len()) == wb) ==> (r matches Some(
                (s, _),
            ) && (s == 10 || s == 30))
            &&& !(exists|q: int| 0 <= q && q + wb.len() <= tb.len() && #[trigger] tb.subrange(q, q + wb.len()) == wb)
                ==> (r is None || (r matches Some((s, _)) && s >= 60))
        }),
{
    let tb = vstd::utf8::encode_utf8(t);
    let wb = vstd::utf8::encode_utf8(w);
    if exists|q: int| 0 <= q && q + wb.len() <= tb.len() && #[trigger] tb.subrange(q, q + wb.len()) == wb {
        let q = choose|q: int| 0 <= q && q + wb.len() <= tb.len() && #[trigger] tb.subrange(q, q + wb.len()) == wb;
        assert(occurs_at(tb, wb, q));
        lemma_first_occurrence_finds(tb, wb, 0, q);
    } else {
        lemma_first_occurrence(tb, wb, 0);
        if has_prefix(tb, wb) {
            assert(tb.subrange(0, wb.len() as int) == wb);
        }
    }
}

fn subsequence(chars: &Vec<char>, origins: &[Origin], w: &Vec<char>) -> (r: Option<(u32, Vec<usize>)>)
    requires
        byte_len(chars@) <= usize::MAX,
    ensures
        match subsequence_from(chars@, origins@, w@, 0, 0, Seq::empty(), 0) {
            Some((b, ords)) => r matches Some((score, v)) && score == subsequence_penalty(b) && v@ == ords,
            None => r is None,
        },
{
    let mut matched: Vec<usize> = Vec::new();
    let mut last_byte: usize = 0;
    let mut k: usize = 0;
    let mut at: usize = 0;
    let mut j: usize = 0;
    while j < w.len()
        invariant
            byte_len(chars@) <= usize::MAX,
            j <= w@.len(),
            k <= chars@.len(),
            at == byte_of(chars@, k as int),
            subsequence_from(chars@, origins@, w@, 0, 0, Seq::empty(), 0)
                == subsequence_from(chars@, origins@, w@, j as int, k as int, matched@, last_byte),
        decreases w@.len() - j,
    {
        let wc = w[j];
        let ghost k0 = k as int;
        loop
            invariant
                    byte_len(chars@) <= usize::MAX,
                j < w@.len(),
                wc == w@[j as int],
                k <= chars@.len(),
                at == byte_of(chars@, k as int),
                next_char(chars@, wc, k as int) == next_char(chars@, wc, k0),
            ensures
                k <= chars@.len(),
                at == byte_of(chars@, k as int),
                k < chars@.len() ==> chars@[k as int] == wc,
                next_char(chars@, wc, k as int) == next_char(chars@, wc, k0),
            decreases chars@.len() - k,
        {
            if k >= chars.len() {
                break;
            }
            if chars[k] == wc {
                break;
            }
            proof {
                lemma_byte_len_take(chars@, k as int);
                lemma_byte_of_le(chars@, k as int + 1);
            }
            at = at + char_utf8_len(chars[k]);
            k = k + 1;
        }
        if k >= chars.len() {
            return None;
        }
        match find_origin(origins, at) {
            Some(o) => {
                let n = matched.len();
                if !(n > 0 && matched[n - 1] == o.ordinal) {
                    matched.push(o.ordinal);
                }
                last_byte = o.byte;
            },
            None => {},
        }
        proof {
            lemma_byte_len_take(chars@, k as int);
            lemma_byte_of_le(chars@, k as int + 1);
        }
        at = at + char_utf8_len(chars[k]);
        k = k + 1;
        j = j + 1;
    }
    let score = 60u32.saturating_add(last_byte as u32);
    Some((score, matched))
}

/// Match `word` against `label` with the default boundary policy.
pub fn fuzzy(label: &str, word: &str) -> (r: Option<(u32, Vec<usize>)>)
    ensures
        match fuzzy_spec(label@, word@, FuzzyBoundary::Word) {
            Some((score, ords)) => r matches Some((s, v)) && s == score && v@ == ords,
            None => r is None,
        },
{
    fuzzy_with_boundary(label, word, FuzzyBoundary::Word)
}

/// Match `word` against `label`: a prefix wins (0), then a substring on a
/// boundary (10), then any substring (30), then a subsequence (60 plus the
/// label byte offset of the last matched grapheme). Returns the penalty
/// (lower is better) and the grapheme ordinals of the original label that
/// matched.
pub fn fuzzy_with_boundary(label: &str, word: &str, boundary: FuzzyBoundary) -> (r: Option<(u32, Vec<usize>)>)
    ensures
        match fuzzy_spec(label@, word@, boundary) {
            Some((score, ords)) => r matches Some((s, v)) && s == score && v@ == ords,
            None => r is None,
        },
{
    proof {
        lemma_byte_len_encode(word@);
        crate::text::buffer::lemma_len_le_byte_len(word@);
    }
    if word.as_bytes().len() == 0 {
        return Some((0, Vec::new()));
    }
    let l = SearchText::new(label, true);
    let w = to_lowercase(word);
    rank(l.text.as_str(), l.origins.as_slice(), w.as_str(), boundary)
}

/// Rank a lowercased `word` against a lowercased label `text` whose source
/// graphemes map through `origins`: a prefix wins (0), then a substring on
/// a boundary (10), then any substring (30), then a subsequence.
pub fn rank(text: &str, origins: &[Origin], word: &str, boundary: FuzzyBoundary) -> (r: Option<(u32, Vec<usize>)>)
    ensures
        match rank_spec(text@, origins@, word@, boundary) {
            Some((score, ords)) => r matches Some((s, v)) && s == score && v@ == ords,
            None => r is None,
        },
{
    let tb = text.as_bytes();
    let wb = word.as_bytes();
    if starts_with(tb, wb) {
        let m = matched_ordinals(origins, 0, wb.len());
        return Some((0, m));
    }
    match find(tb, wb) {
        Some(p) => {
            proof {
                lemma_first_occurrence(tb@, wb@, 0);
                assert(wb@.len() > 0) by {
                    if wb@.len() == 0 {
                        assert(tb@.take(0) =~= wb@);
                    }
                }
            }
            let at_boundary = p == 0 || precedes_byte(boundary, tb[p - 1]);
            let m = matched_ordinals(origins, p, p.saturating_add(wb.len()));
            Some((if at_boundary { 10 } else { 30 }, m))
        },
        None => {
            let tc = str_chars(text);
            let wc = str_chars(word);
            proof {
                lemma_byte_len_encode(tc@);
            }
            let _ = tb.len();
            subsequence(&tc, origins, &wc)
        },
    }
}

} // verus!
