//! The one width function and the non-render text helpers: grapheme
//! widths, truncation, digit grouping and word wrapping.

use vstd::prelude::*;

use crate::geometry::{min_int, sat_add};
use crate::text::clusters::lemma_flatten_split;
use crate::text::unicode::{
    byte_len, cell_width, graphemes, is_alphanumeric, is_control, lemma_byte_len_encode,
    spec_cell_width, spec_graphemes, spec_is_alphanumeric, spec_is_control, str_chars,
    string_push, string_push_str,
};

verus! {

/// Some character of `g` is a control character.
pub open spec fn has_control(g: Seq<char>) -> bool {
    exists|i: int| 0 <= i < g.len() && spec_is_control(g[i])
}

/// Columns one grapheme occupies as painted: `0` for a grapheme carrying a
/// control character, else its cell width.
pub open spec fn spec_grapheme_width(g: Seq<char>) -> int {
    if has_control(g) { 0 } else { spec_cell_width(g) as int }
}

/// The saturating `u16` sum of the widths of `gs[0..i]`.
pub open spec fn width_prefix(gs: Seq<Seq<char>>, i: int) -> int
    decreases i,
{
    if i <= 0 { 0 } else { sat_add(width_prefix(gs, i - 1), spec_grapheme_width(gs[i - 1])) }
}

/// Display width in columns: a one-byte string is one grapheme, anything
/// else is the saturating sum over its graphemes.
pub open spec fn spec_width(s: Seq<char>) -> int {
    if byte_len(s) == 1 {
        spec_grapheme_width(s)
    } else {
        width_prefix(spec_graphemes(s), spec_graphemes(s).len() as int)
    }
}

/// Whether `c` is a word character for word motion.
pub open spec fn spec_is_word_char(c: char) -> bool {
    spec_is_alphanumeric(c) || c == '_'
}

/// The running width stays within `u16`.
pub proof fn lemma_width_prefix_range(gs: Seq<Seq<char>>, j: int)
    ensures
        0 <= width_prefix(gs, j) <= 0xffff,
    decreases j,
{
    if j > 0 {
        lemma_width_prefix_range(gs, j - 1);
    }
}

/// The running width never decreases.
pub proof fn lemma_width_prefix_bounds(gs: Seq<Seq<char>>, i: int, j: int)
    requires
        0 <= i <= j,
    ensures
        0 <= width_prefix(gs, i) <= width_prefix(gs, j) <= 0xffff,
    decreases j - i,
{
    lemma_width_prefix_range(gs, i);
    lemma_width_prefix_range(gs, j);
    if i < j {
        lemma_width_prefix_bounds(gs, i, j - 1);
    }
}

/// Columns one grapheme occupies as painted.
pub fn grapheme_width(g: &str) -> (w: u16)
    ensures
        w == spec_grapheme_width(g@),
{
    let cs = str_chars(g);
    let mut i: usize = 0;
    while i < cs.len()
        invariant
            cs@ == g@,
            i <= cs@.len(),
            forall|k: int| 0 <= k < i ==> !spec_is_control(cs@[k]),
            forall|k: int| 0 <= k < i ==> !((cs@[k] as u32) < 0x20 || cs@[k] as u32 == 0x7f),
        decreases cs@.len() - i,
    {
        if is_control(cs[i]) {
            return 0;
        }
        i = i + 1;
    }
    cell_width(g)
}

/// Display width in columns, as a terminal buffer consumes them.
pub fn width(s: &str) -> (w: u16)
    ensures
        w == spec_width(s@),
{
    proof {
        lemma_byte_len_encode(s@);
    }
    if s.as_bytes().len() == 1 {
        return grapheme_width(s);
    }
    let gs = graphemes(s);
    let ghost gv = gs@.map_values(|g: &str| g@);
    let mut acc: u16 = 0;
    let mut i: usize = 0;
    while i < gs.len()
        invariant
            gv == gs@.map_values(|g: &str| g@),
            gv == spec_graphemes(s@),
            i <= gs@.len(),
            acc == width_prefix(gv, i as int),
        decreases gs@.len() - i,
    {
        proof {
            lemma_width_prefix_bounds(gv, i as int, i as int);
        }
        let gw = grapheme_width(gs[i]);
        acc = acc.saturating_add(gw);
        i = i + 1;
    }
    acc
}

/// Whether `c` is a word character for word motion; one definition shared
/// by the editor core and the viewport.
pub fn is_word_char(c: char) -> (b: bool)
    ensures
        b == spec_is_word_char(c),
{
    is_alphanumeric(c) || c == '_'
}

/// How many leading graphemes fit `budget` columns: the running width of
/// the first `k` stays within the budget, the next one would overflow it.
pub open spec fn fit_count(gs: Seq<Seq<char>>, budget: int, i: int) -> int
    decreases gs.len() - i,
{
    if i >= gs.len() || width_prefix(gs, i + 1) > budget {
        i
    } else {
        fit_count(gs, budget, i + 1)
    }
}

/// The running width of the last `m` graphemes, summed from the end.
pub open spec fn width_suffix(gs: Seq<Seq<char>>, m: int) -> int
    decreases m,
{
    if m <= 0 { 0 } else { sat_add(width_suffix(gs, m - 1), spec_grapheme_width(gs[gs.len() - m])) }
}

/// How many trailing graphemes fit `budget` columns, counted from the end.
pub open spec fn fit_count_back(gs: Seq<Seq<char>>, budget: int, m: int) -> int
    decreases gs.len() - m,
{
    if m >= gs.len() || width_suffix(gs, m + 1) > budget {
        m
    } else {
        fit_count_back(gs, budget, m + 1)
    }
}

/// What [`truncate`] answers.
pub open spec fn spec_truncate(s: Seq<char>, max: int) -> Seq<char> {
    if spec_width(s) <= max {
        s
    } else if max == 0 {
        Seq::empty()
    } else {
        let gs = spec_graphemes(s);
        gs.take(fit_count(gs, max - 1, 0)).flatten().push('\u{2026}')
    }
}

/// What [`truncate_middle`] answers.
pub open spec fn spec_truncate_middle(s: Seq<char>, max: int) -> Seq<char> {
    if spec_width(s) <= max {
        s
    } else if max < 5 {
        spec_truncate(s, max)
    } else {
        let keep_end = (max - 1) / 3;
        let keep_start = max - 1 - keep_end;
        let gs = spec_graphemes(s);
        let head = gs.take(fit_count(gs, keep_start, 0)).flatten();
        let tail = gs.skip(gs.len() - fit_count_back(gs, keep_end, 0)).flatten();
        head.push('\u{2026}') + tail
    }
}

proof fn lemma_fit_count_range(gs: Seq<Seq<char>>, budget: int, i: int)
    requires
        0 <= i <= gs.len(),
    ensures
        i <= fit_count(gs, budget, i) <= gs.len(),
    decreases gs.len() - i,
{
    if i < gs.len() && width_prefix(gs, i + 1) <= budget {
        lemma_fit_count_range(gs, budget, i + 1);
    }
}

proof fn lemma_fit_count_back_range(gs: Seq<Seq<char>>, budget: int, m: int)
    requires
        0 <= m <= gs.len(),
    ensures
        m <= fit_count_back(gs, budget, m) <= gs.len(),
    decreases gs.len() - m,
{
    if m < gs.len() && width_suffix(gs, m + 1) <= budget {
        lemma_fit_count_back_range(gs, budget, m + 1);
    }
}

proof fn lemma_width_suffix_range(gs: Seq<Seq<char>>, m: int)
    ensures
        0 <= width_suffix(gs, m) <= 0xffff,
    decreases m,
{
    if m > 0 {
        lemma_width_suffix_range(gs, m - 1);
    }
}

/// The leading graphemes of `gs` that fit `budget`, concatenated, and how
/// many there are.
fn take_fitting(gs: &Vec<&str>, budget: u16) -> (r: (String, usize))
    ensures
        r.1 == fit_count(gs@.map_values(|g: &str| g@), budget as int, 0),
        r.0@ == gs@.map_values(|g: &str| g@).take(r.1 as int).flatten(),
{
    let ghost gv = gs@.map_values(|g: &str| g@);
    let mut out = String::new();
    let mut w: u16 = 0;
    let mut i: usize = 0;
    while i < gs.len()
        invariant
            gv == gs@.map_values(|g: &str| g@),
            i <= gs@.len(),
            w == width_prefix(gv, i as int),
            w <= budget,
            fit_count(gv, budget as int, 0) == fit_count(gv, budget as int, i as int),
            out@ == gv.take(i as int).flatten(),
        decreases gs@.len() - i,
    {
        proof {
            lemma_width_prefix_range(gv, i as int);
        }
        let gw = grapheme_width(gs[i]);
        let next = w.saturating_add(gw);
        if next > budget {
            return (out, i);
        }
        string_push_str(&mut out, gs[i]);
        proof {
            assert(gv.take(i as int + 1) =~= gv.take(i as int).push(gv[i as int]));
            gv.take(i as int).lemma_flatten_push(gv[i as int]);
        }
        w = next;
        i = i + 1;
    }
    (out, i)
}

/// Truncate to `max` columns, appending `…` when cut.
pub fn truncate(s: &str, max: u16) -> (r: String)
    ensures
        r@ == spec_truncate(s@, max as int),
{
    if width(s) <= max {
        return s.to_owned();
    }
    if max == 0 {
        return String::new();
    }
    let gs = graphemes(s);
    let (mut out, _) = take_fitting(&gs, max - 1);
    string_push(&mut out, '\u{2026}');
    out
}

/// Truncate keeping both ends: `very_long_identifier_name` becomes
/// `very_lon…ame` at twelve columns.
pub fn truncate_middle(s: &str, max: u16) -> (r: String)
    ensures
        r@ == spec_truncate_middle(s@, max as int),
        spec_width(s@) <= max ==> r@ == s@,
        max >= 5 && spec_width(s@) > max ==> exists|h: int, t: int|
            0 <= h <= s@.len() && 0 <= t <= s@.len() && r@ == #[trigger] s@.take(h).push('\u{2026}') + #[trigger] s@.skip(s@.len() - t),
{
    if width(s) <= max {
        return s.to_owned();
    }
    if max < 5 {
        return truncate(s, max);
    }
    let keep_end = (max - 1) / 3;
    let keep_start = max - 1 - keep_end;
    let gs = graphemes(s);
    let ghost gv = gs@.map_values(|g: &str| g@);
    let (mut out, _) = take_fitting(&gs, keep_start);
    string_push(&mut out, '\u{2026}');
    // the tail: walk back from the end while the graphemes fit
    let n = gs.len();
    let mut m: usize = 0;
    let mut w: u16 = 0;
    while m < n
        invariant
            gv == gs@.map_values(|g: &str| g@),
            n == gs@.len(),
            m <= n,
            gv.len() == n,
            w == width_suffix(gv, m as int),
            fit_count_back(gv, keep_end as int, 0) == fit_count_back(gv, keep_end as int, m as int),
        ensures
            m == fit_count_back(gv, keep_end as int, 0),
        decreases n - m,
    {
        proof {
            lemma_width_suffix_range(gv, m as int);
        }
        let gw = grapheme_width(gs[n - 1 - m]);
        let next = w.saturating_add(gw);
        assert(next == width_suffix(gv, m as int + 1));
        if next > keep_end {
            break;
        }
        w = next;
        m = m + 1;
    }
    let ghost fm = fit_count_back(gv, keep_end as int, 0);
    assert(m == fm);
    let mut j: usize = n - m;
    while j < n
        invariant
            gv == gs@.map_values(|g: &str| g@),
            n == gs@.len(),
            gv.len() == n,
            m <= n,
            n - m <= j <= n,
            out@ == gv.take(fit_count(gv, keep_start as int, 0)).flatten().push('\u{2026}')
                + gv.subrange(n - m, j as int).flatten(),
        decreases n - j,
    {
        let ghost before = out@;
        string_push_str(&mut out, gs[j]);
        proof {
            assert(gv.subrange(n - m, j as int + 1) =~= gv.subrange(n - m, j as int).push(gv[j as int]));
            gv.subrange(n - m, j as int).lemma_flatten_push(gv[j as int]);
            assert(out@ =~= gv.take(fit_count(gv, keep_start as int, 0)).flatten().push('\u{2026}')
                + gv.subrange(n - m, j as int + 1).flatten());
        }
        j = j + 1;
    }
    assert(gv.subrange(n - m, n as int) =~= gv.skip(gv.len() - fm));
    proof {
        let fa = fit_count(gv, keep_start as int, 0);
        lemma_fit_count_range(gv, keep_start as int, 0);
        lemma_fit_count_back_range(gv, keep_end as int, 0);
        let head = gv.take(fa).flatten();
        let tail = gv.skip(n - fm).flatten();
        lemma_flatten_split(gv, fa);
        lemma_flatten_split(gv, n - fm);
        assert(s@.take(head.len() as int) =~= head);
        assert(s@.skip(s@.len() - tail.len()) =~= tail);
        assert(out@ == s@.take(head.len() as int).push('\u{2026}') + s@.skip(s@.len() - tail.len()));
    }
    out
}

// ---------------------------------------------------------------------------
// Digit grouping.
// ---------------------------------------------------------------------------

/// The ASCII digit for `d` in `0..10`.
pub open spec fn digit_char(d: int) -> char {
    if d == 0 { '0' } else if d == 1 { '1' } else if d == 2 { '2' } else if d == 3 { '3' }
    else if d == 4 { '4' } else if d == 5 { '5' } else if d == 6 { '6' } else if d == 7 { '7' }
    else if d == 8 { '8' } else { '9' }
}

/// The decimal digits of `n`, most significant first.
pub open spec fn decimal_digits(n: nat) -> Seq<char>
    decreases n,
{
    if n < 10 { seq![digit_char(n as int)] } else { decimal_digits(n / 10).push(digit_char((n % 10) as int)) }
}

/// The first `i` digits of `ds` with a comma before every digit that
/// starts a group of three counted from the right.
pub open spec fn grouped(ds: Seq<char>, i: int) -> Seq<char>
    decreases i,
{
    if i <= 0 {
        Seq::empty()
    } else {
        let sep = if i - 1 > 0 && (ds.len() - (i - 1)) % 3 == 0 { seq![','] } else { Seq::empty() };
        grouped(ds, i - 1) + sep + seq![ds[i - 1]]
    }
}

/// `1203338` becomes `1,203,338`.
pub open spec fn spec_thousands(n: nat) -> Seq<char> {
    grouped(decimal_digits(n), decimal_digits(n).len() as int)
}

fn digit(d: usize) -> (c: char)
    requires
        d < 10,
    ensures
        c == digit_char(d as int),
{
    if d == 0 { '0' } else if d == 1 { '1' } else if d == 2 { '2' } else if d == 3 { '3' }
    else if d == 4 { '4' } else if d == 5 { '5' } else if d == 6 { '6' } else if d == 7 { '7' }
    else if d == 8 { '8' } else { '9' }
}

/// The decimal digits of `n`.
pub fn decimal(n: usize) -> (v: Vec<char>)
    ensures
        v@ == decimal_digits(n as nat),
    decreases n,
{
    if n < 10 {
        let mut v: Vec<char> = Vec::new();
        v.push(digit(n));
        v
    } else {
        let mut v = decimal(n / 10);
        v.push(digit(n % 10));
        v
    }
}

/// Group the decimal digits of `n` in threes with commas.
pub fn thousands(n: usize) -> (r: String)
    ensures
        r@ == spec_thousands(n as nat),
{
    let ds = decimal(n);
    let len = ds.len();
    let mut out = String::new();
    let mut i: usize = 0;
    while i < len
        invariant
            len == ds@.len(),
            ds@ == decimal_digits(n as nat),
            i <= len,
            out@ == grouped(ds@, i as int),
        decreases len - i,
    {
        let ghost before = out@;
        if i > 0 && (len - i) % 3 == 0 {
            string_push(&mut out, ',');
        }
        string_push(&mut out, ds[i]);
        assert(out@ =~= grouped(ds@, i as int + 1));
        i = i + 1;
    }
    out
}

// ---------------------------------------------------------------------------
// Word wrapping.
// ---------------------------------------------------------------------------

/// `s` split at every `sep`, as `str::split` does: `n` separators give
/// `n + 1` pieces.
pub open spec fn split_at_char(s: Seq<char>, sep: char, i: int) -> Seq<Seq<char>>
    decreases i,
{
    if i <= 0 {
        seq![Seq::empty()]
    } else {
        let prev = split_at_char(s, sep, i - 1);
        if s[i - 1] == sep {
            prev.push(Seq::empty())
        } else {
            prev.update(prev.len() - 1, prev.last().push(s[i - 1]))
        }
    }
}

/// The pieces of `s` between the separators `sep`.
pub open spec fn spec_split(s: Seq<char>, sep: char) -> Seq<Seq<char>> {
    split_at_char(s, sep, s.len() as int)
}

proof fn lemma_split_nonempty(s: Seq<char>, sep: char, i: int)
    ensures
        split_at_char(s, sep, i).len() >= 1,
    decreases i,
{
    if i > 0 {
        lemma_split_nonempty(s, sep, i - 1);
    }
}

/// Split `s` at every `sep`.
pub fn split_pieces(s: &str, sep: char) -> (r: Vec<String>)
    ensures
        r@.map_values(|p: String| p@) == spec_split(s@, sep),
{
    let cs = str_chars(s);
    let mut pieces: Vec<String> = Vec::new();
    let mut cur = String::new();
    let mut i: usize = 0;
    while i < cs.len()
        invariant
            cs@ == s@,
            i <= cs@.len(),
            pieces@.map_values(|p: String| p@).push(cur@) == split_at_char(s@, sep, i as int),
        decreases cs@.len() - i,
    {
        proof { lemma_split_nonempty(s@, sep, i as int); }
        let ghost prev = split_at_char(s@, sep, i as int);
        if cs[i] == sep {
            pieces.push(cur);
            cur = String::new();
            assert(pieces@.map_values(|p: String| p@).push(cur@) =~= prev.push(Seq::empty()));
        } else {
            let ghost old_pieces = pieces@;
            string_push(&mut cur, cs[i]);
            assert(pieces@.map_values(|p: String| p@).push(cur@) =~= prev.update(prev.len() - 1, prev.last().push(cs@[i as int])));
        }
        i = i + 1;
    }
    pieces.push(cur);
    assert(pieces@.map_values(|p: String| p@) =~= spec_split(s@, sep));
    pieces
}

/// The wrapper's running state: the finished lines, the open line and its
/// width.
pub struct WrapState {
    /// The finished lines.
    pub lines: Seq<Seq<char>>,
    /// The open line.
    pub line: Seq<char>,
    /// The open line's width.
    pub lw: int,
}

/// Hard-wrap step: place one grapheme, breaking the line first when it
/// would overflow `w`.
pub open spec fn hard_step(st: WrapState, g: Seq<char>, w: int) -> WrapState {
    let gw = spec_grapheme_width(g);
    let broken = sat_add(st.lw, gw) > w;
    let lines = if broken { st.lines.push(st.line) } else { st.lines };
    let line = if broken { Seq::empty() } else { st.line };
    let lw = if broken { 0 } else { st.lw };
    WrapState { lines, line: line + g, lw: sat_add(lw, gw) }
}

/// Hard-wrap the first `i` graphemes of `gs`.
pub open spec fn hard_fold(st: WrapState, gs: Seq<Seq<char>>, w: int, i: int) -> WrapState
    decreases i,
{
    if i <= 0 { st } else { hard_step(hard_fold(st, gs, w, i - 1), gs[i - 1], w) }
}

/// Place a word that starts a line: whole when it fits, else hard-wrapped.
pub open spec fn place_word(st: WrapState, word: Seq<char>, w: int) -> WrapState {
    let ww = spec_width(word);
    if ww <= w {
        WrapState { lines: st.lines, line: st.line + word, lw: ww }
    } else {
        hard_fold(st, spec_graphemes(word), w, spec_graphemes(word).len() as int)
    }
}

/// Word step: append to the open line when the word and a space fit,
/// else break the line and place the word on a fresh one.
pub open spec fn word_step(st: WrapState, word: Seq<char>, w: int) -> WrapState {
    let ww = spec_width(word);
    if st.lw == 0 {
        place_word(st, word, w)
    } else if sat_add(sat_add(st.lw, 1), ww) <= w {
        WrapState { lines: st.lines, line: st.line.push(' ') + word, lw: sat_add(sat_add(st.lw, 1), ww) }
    } else {
        place_word(WrapState { lines: st.lines.push(st.line), line: Seq::empty(), lw: 0 }, word, w)
    }
}

/// Wrap the first `i` words of a paragraph.
pub open spec fn words_fold(st: WrapState, words: Seq<Seq<char>>, w: int, i: int) -> WrapState
    decreases i,
{
    if i <= 0 { st } else { word_step(words_fold(st, words, w, i - 1), words[i - 1], w) }
}

/// Wrap the first `i` paragraphs, each ending its own last line.
pub open spec fn paras_fold(lines: Seq<Seq<char>>, paras: Seq<Seq<char>>, w: int, i: int) -> Seq<Seq<char>>
    decreases i,
{
    if i <= 0 {
        lines
    } else {
        let words = spec_split(paras[i - 1], ' ');
        let st = words_fold(WrapState { lines: paras_fold(lines, paras, w, i - 1), line: Seq::empty(), lw: 0 },
            words, w, words.len() as int);
        st.lines.push(st.line)
    }
}

/// What [`wrap`] answers.
pub open spec fn spec_wrap(s: Seq<char>, w: int) -> Seq<Seq<char>> {
    let w1 = if w < 1 { 1 } else { w };
    let paras = spec_split(s, '\n');
    paras_fold(Seq::empty(), paras, w1, paras.len() as int)
}

/// How many of the first `i` characters of `s` are `c`.
pub open spec fn count_char(s: Seq<char>, c: char, i: int) -> int
    decreases i,
{
    if i <= 0 { 0 } else { count_char(s, c, i - 1) + if s[i - 1] == c { 1int } else { 0int } }
}

proof fn lemma_split_len(s: Seq<char>, sep: char, i: int)
    requires
        0 <= i <= s.len(),
    ensures
        split_at_char(s, sep, i).len() == count_char(s, sep, i) + 1,
    decreases i,
{
    if i > 0 {
        lemma_split_len(s, sep, i - 1);
        lemma_split_nonempty(s, sep, i - 1);
    }
}

proof fn lemma_hard_fold_grows(st: WrapState, gs: Seq<Seq<char>>, w: int, i: int)
    ensures
        hard_fold(st, gs, w, i).lines.len() >= st.lines.len(),
    decreases i,
{
    if i > 0 {
        lemma_hard_fold_grows(st, gs, w, i - 1);
    }
}

proof fn lemma_words_fold_grows(st: WrapState, words: Seq<Seq<char>>, w: int, i: int)
    ensures
        words_fold(st, words, w, i).lines.len() >= st.lines.len(),
    decreases i,
{
    if i > 0 {
        lemma_words_fold_grows(st, words, w, i - 1);
        let prev = words_fold(st, words, w, i - 1);
        let word = words[i - 1];
        lemma_hard_fold_grows(prev, spec_graphemes(word), w, spec_graphemes(word).len() as int);
        let broke = WrapState { lines: prev.lines.push(prev.line), line: Seq::empty(), lw: 0 };
        lemma_hard_fold_grows(broke, spec_graphemes(word), w, spec_graphemes(word).len() as int);
    }
}

proof fn lemma_paras_fold_grows(lines: Seq<Seq<char>>, paras: Seq<Seq<char>>, w: int, i: int)
    requires
        0 <= i,
    ensures
        paras_fold(lines, paras, w, i).len() >= lines.len() + i,
    decreases i,
{
    if i > 0 {
        lemma_paras_fold_grows(lines, paras, w, i - 1);
        let words = spec_split(paras[i - 1], ' ');
        let st = WrapState { lines: paras_fold(lines, paras, w, i - 1), line: Seq::empty(), lw: 0 };
        lemma_words_fold_grows(st, words, w, words.len() as int);
    }
}

/// Wrapping never joins paragraphs: `n` line breaks give at least `n + 1`
/// lines.
pub proof fn law_wrap_keeps_line_breaks(s: Seq<char>, w: int)
    ensures
        spec_wrap(s, w).len() >= count_char(s, '\n', s.len() as int) + 1,
{
    let w1 = if w < 1 { 1 } else { w };
    let paras = spec_split(s, '\n');
    lemma_split_len(s, '\n', s.len() as int);
    lemma_paras_fold_grows(Seq::empty(), paras, w1, paras.len() as int);
}

proof fn lemma_wrap_lw_bound(st: WrapState, gs: Seq<Seq<char>>, w: int, i: int)
    requires
        0 <= st.lw <= 0xffff,
    ensures
        0 <= hard_fold(st, gs, w, i).lw <= 0xffff,
    decreases i,
{
    if i > 0 {
        lemma_wrap_lw_bound(st, gs, w, i - 1);
    }
}

fn hard_wrap(word: &str, w: u16, lines: &mut Vec<String>, line: &mut String, lw: &mut u16)
    ensures
        ({
            let st = hard_fold(WrapState { lines: old(lines)@.map_values(|p: String| p@), line: old(line)@, lw: *old(lw) as int },
                spec_graphemes(word@), w as int, spec_graphemes(word@).len() as int);
            &&& final(lines)@.map_values(|p: String| p@) == st.lines
            &&& final(line)@ == st.line
            &&& *final(lw) as int == st.lw
        }),
{
    let gs = graphemes(word);
    let ghost gv = gs@.map_values(|g: &str| g@);
    let ghost st0 = WrapState { lines: lines@.map_values(|p: String| p@), line: line@, lw: *lw as int };
    let mut i: usize = 0;
    while i < gs.len()
        invariant
            gv == gs@.map_values(|g: &str| g@),
            gv == spec_graphemes(word@),
            i <= gs@.len(),
            ({
                let st = hard_fold(st0, gv, w as int, i as int);
                &&& lines@.map_values(|p: String| p@) == st.lines
                &&& line@ == st.line
                &&& *lw as int == st.lw
            }),
        decreases gs@.len() - i,
    {
        let gw = grapheme_width(gs[i]);
        if lw.saturating_add(gw) > w {
            let mut done = String::new();
            core::mem::swap(&mut done, line);
            lines.push(done);
            *lw = 0;
        }
        string_push_str(line, gs[i]);
        *lw = lw.saturating_add(gw);
        proof {
            let st = hard_fold(st0, gv, w as int, i as int + 1);
            assert(lines@.map_values(|p: String| p@) =~= st.lines);
            assert(line@ =~= st.line);
        }
        i = i + 1;
    }
}

/// Word-wrap into lines of at most `w` columns; hard-wraps overlong words.
pub fn wrap(s: &str, w: u16) -> (r: Vec<String>)
    ensures
        r@.map_values(|p: String| p@) == spec_wrap(s@, w as int),
{
    let w = if w < 1 { 1 } else { w };
    let paras = split_pieces(s, '\n');
    let ghost pv = paras@.map_values(|p: String| p@);
    let mut lines: Vec<String> = Vec::new();
    let mut p: usize = 0;
    while p < paras.len()
        invariant
            pv == paras@.map_values(|p: String| p@),
            pv == spec_split(s@, '\n'),
            p <= paras@.len(),
            w >= 1,
            lines@.map_values(|q: String| q@) == paras_fold(Seq::empty(), pv, w as int, p as int),
        decreases paras@.len() - p,
    {
        let words = split_pieces(paras[p].as_str(), ' ');
        assert(paras[p as int]@ == pv[p as int]);
        let ghost wv = words@.map_values(|q: String| q@);
        let ghost st0 = WrapState { lines: lines@.map_values(|q: String| q@), line: Seq::empty(), lw: 0 };
        let mut line = String::new();
        let mut lw: u16 = 0;
        let mut k: usize = 0;
        while k < words.len()
            invariant
                wv == words@.map_values(|q: String| q@),
                k <= words@.len(),
                w >= 1,
                ({
                    let st = words_fold(st0, wv, w as int, k as int);
                    &&& lines@.map_values(|q: String| q@) == st.lines
                    &&& line@ == st.line
                    &&& lw as int == st.lw
                }),
            decreases words@.len() - k,
        {
            let word = words[k].as_str();
            assert(word@ == wv[k as int]);
            let ghost stk = words_fold(st0, wv, w as int, k as int);
            let ww = width(word);
            if lw == 0 {
                if ww <= w {
                    string_push_str(&mut line, word);
                    lw = ww;
                } else {
                    hard_wrap(word, w, &mut lines, &mut line, &mut lw);
                }
                assert(lines@.map_values(|q: String| q@) =~= place_word(stk, wv[k as int], w as int).lines);
                assert(line@ =~= place_word(stk, wv[k as int], w as int).line);
            } else if lw.saturating_add(1).saturating_add(ww) <= w {
                string_push(&mut line, ' ');
                string_push_str(&mut line, word);
                lw = lw.saturating_add(1).saturating_add(ww);
            } else {
                let mut done = String::new();
                core::mem::swap(&mut done, &mut line);
                lines.push(done);
                lw = 0;
                let ghost fresh = WrapState { lines: stk.lines.push(stk.line), line: Seq::empty(), lw: 0 };
                assert(lines@.map_values(|q: String| q@) =~= fresh.lines);
                assert(line@ =~= fresh.line);
                if ww <= w {
                    string_push_str(&mut line, word);
                    lw = ww;
                } else {
                    hard_wrap(word, w, &mut lines, &mut line, &mut lw);
                }
                assert(lines@.map_values(|q: String| q@) =~= place_word(fresh, wv[k as int], w as int).lines);
                assert(line@ =~= place_word(fresh, wv[k as int], w as int).line);
            }
            proof {
                let st = words_fold(st0, wv, w as int, k as int + 1);
                assert(st == word_step(stk, wv[k as int], w as int));
                assert(lines@.map_values(|q: String| q@) =~= st.lines);
                assert(line@ =~= st.line);
            }
            k = k + 1;
        }
        lines.push(line);
        assert(lines@.map_values(|q: String| q@) =~= paras_fold(Seq::empty(), pv, w as int, p as int + 1));
        p = p + 1;
    }
    lines
}

} // verus!
