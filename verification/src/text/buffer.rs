//! Editable text storage. Text is addressed by byte offset at the API and
//! by character index inside; every cursor movement is grapheme aware and
//! every width is the one width function. `zeroize` overwrites the bytes
//! before they are released.

use core::ops::Range;

use vstd::prelude::*;

use crate::text::measure::{
    decimal, decimal_digits, grapheme_width, is_word_char, spec_grapheme_width, spec_is_word_char, spec_split, spec_width,
    width,
};
use crate::text::unicode::{
    utf8_width, byte_len, byte_offset, char_substr, graphemes, lemma_byte_len_add, lemma_byte_len_encode,
    spec_graphemes, str_chars, string_from_chars, string_push, string_push_str,
};
use crate::wipe::{zero_fill_chars, zeroize_string};

verus! {

/// Cursor as `(line, display column)`.
#[derive(Debug, Clone, Copy, PartialEq, Eq, Structural, Default)]
pub struct CursorPos {
    /// Zero-based line.
    pub line: usize,
    /// Display column within the line, in cells.
    pub col: usize,
}

// ---------------------------------------------------------------------------
// The character-level model.
// ---------------------------------------------------------------------------

/// The byte offset of character index `k`.
pub open spec fn byte_of(t: Seq<char>, k: int) -> int {
    byte_len(t.take(k)) as int
}

/// Where the grapheme ending at `from` starts: the start of the last
/// cluster of the text before `from`, or `0`.
pub open spec fn prev_boundary(t: Seq<char>, from: int) -> int {
    let gs = spec_graphemes(t.take(from));
    if gs.len() == 0 { 0 } else { from - gs.last().len() }
}

/// Where the grapheme starting at `from` ends: `from` plus the length of
/// the first cluster of the text after `from`, or `from` at the end.
pub open spec fn next_boundary(t: Seq<char>, from: int) -> int {
    let gs = spec_graphemes(t.skip(from));
    if gs.len() == 0 { from } else { from + gs[0].len() }
}

/// The start of the line holding `from`: just after the last newline
/// before it.
pub open spec fn line_start(t: Seq<char>, from: int) -> int
    decreases from,
{
    if from <= 0 { 0 } else if t[from - 1] == '\n' { from } else { line_start(t, from - 1) }
}

/// The end of the line holding `from`: the next newline at or after it,
/// or the end of the text.
pub open spec fn line_end(t: Seq<char>, from: int) -> int
    decreases t.len() - from,
{
    if from >= t.len() { t.len() as int } else if t[from] == '\n' { from } else { line_end(t, from + 1) }
}

/// Step back over non-word characters.
pub open spec fn skip_nonword_back(t: Seq<char>, i: int) -> int
    decreases i,
{
    if i <= 0 { 0 } else if spec_is_word_char(t[i - 1]) { i } else { skip_nonword_back(t, i - 1) }
}

/// Step back over word characters.
pub open spec fn skip_word_back(t: Seq<char>, i: int) -> int
    decreases i,
{
    if i <= 0 { 0 } else if !spec_is_word_char(t[i - 1]) { i } else { skip_word_back(t, i - 1) }
}

/// The previous word start: skip the non-word characters before `from`,
/// then the word before them.
pub open spec fn prev_word(t: Seq<char>, from: int) -> int {
    skip_word_back(t, skip_nonword_back(t, from))
}

/// Step forward over non-word characters.
pub open spec fn skip_nonword_fwd(t: Seq<char>, i: int) -> int
    decreases t.len() - i,
{
    if i >= t.len() { t.len() as int } else if spec_is_word_char(t[i]) { i } else { skip_nonword_fwd(t, i + 1) }
}

/// Step forward over word characters.
pub open spec fn skip_word_fwd(t: Seq<char>, i: int) -> int
    decreases t.len() - i,
{
    if i >= t.len() { t.len() as int } else if !spec_is_word_char(t[i]) { i } else { skip_word_fwd(t, i + 1) }
}

/// The next word end: skip to the next word, then past it.
pub open spec fn next_word(t: Seq<char>, from: int) -> int {
    skip_word_fwd(t, skip_nonword_fwd(t, from))
}

/// Newlines among `t[0..k]`.
pub open spec fn count_newlines(t: Seq<char>, k: int) -> int
    decreases k,
{
    if k <= 0 { 0 } else { count_newlines(t, k - 1) + if t[k - 1] == '\n' { 1int } else { 0int } }
}

/// `(line, display column)` of character index `k`.
pub open spec fn pos_of_index(t: Seq<char>, k: int) -> CursorPos {
    CursorPos {
        line: count_newlines(t, k) as usize,
        col: spec_width(t.subrange(line_start(t, k), k)) as usize,
    }
}

/// `a + b`, saturating at `usize::MAX`.
pub open spec fn sat_usize(a: int, b: int) -> int {
    if a + b > usize::MAX { usize::MAX as int } else { a + b }
}

/// The running width of `gs[0..j]` in saturating `usize` arithmetic.
pub open spec fn col_prefix(gs: Seq<Seq<char>>, j: int) -> int
    decreases j,
{
    if j <= 0 { 0 } else { sat_usize(col_prefix(gs, j - 1), spec_grapheme_width(gs[j - 1])) }
}

/// How many graphemes of a line lie wholly left of column `col`.
pub open spec fn col_count(gs: Seq<Seq<char>>, col: int, j: int) -> int
    decreases gs.len() - j,
{
    if j >= gs.len() || col_prefix(gs, j + 1) > col { j } else { col_count(gs, col, j + 1) }
}

/// The text after inserting `ins` in place of `t[a..b]`.
pub open spec fn spliced(t: Seq<char>, a: int, b: int, ins: Seq<char>) -> Seq<char> {
    t.take(a) + ins + t.skip(b)
}

/// The characters a single-line buffer keeps of pasted text.
pub open spec fn strip_newlines(s: Seq<char>) -> Seq<char> {
    s.filter(|c: char| c != '\n' && c != '\r')
}

/// The selection as character indices, if non-empty.
pub open spec fn sel_range(cursor: int, anchor: Option<nat>) -> Option<(int, int)> {
    match anchor {
        Some(a) => if a == cursor {
            None
        } else if a < cursor {
            Some((a as int, cursor))
        } else {
            Some((cursor, a as int))
        },
        None => None,
    }
}

/// The anchor after a motion that does (`select`) or does not extend the
/// selection.
pub open spec fn moved_anchor(anchor: Option<nat>, cursor: int, select: bool) -> Option<nat> {
    if select {
        match anchor {
            Some(a) => Some(a),
            None => Some(cursor as nat),
        }
    } else {
        None
    }
}

/// The character index at byte offset `b`, snapped back to a character
/// boundary: the last index at or before `b`.
pub open spec fn snap_from(t: Seq<char>, b: int, k: int) -> int
    decreases t.len() - k,
{
    if k >= t.len() || byte_of(t, k + 1) > b { k } else { snap_from(t, b, k + 1) }
}

/// The character index whose byte offset is exactly `b`, or `0` when `b`
/// falls inside a character (a slice there would fail).
pub open spec fn find_byte(t: Seq<char>, b: int, k: int) -> int
    decreases t.len() + 1 - k,
{
    if k > t.len() || byte_of(t, k) > b { 0 } else if byte_of(t, k) == b { k } else { find_byte(t, b, k + 1) }
}

/// What [`TextBuffer::pos_of`] answers for byte offset `offset`.
pub open spec fn pos_of_byte(t: Seq<char>, offset: int) -> CursorPos {
    let b = if offset < byte_len(t) { offset } else { byte_len(t) as int };
    pos_of_index(t, find_byte(t, b, 0))
}

/// Byte offset where line `line` starts (saturating).
pub open spec fn piece_start_bytes(pieces: Seq<Seq<char>>, line: int) -> int
    decreases line,
{
    if line <= 0 { 0 } else { sat_usize(sat_usize(piece_start_bytes(pieces, line - 1), byte_len(pieces[line - 1]) as int), 1) }
}

/// Byte offset of `(line, display column)`, clamped to the line; past the
/// last line, the end of the text.
pub open spec fn offset_at_spec(t: Seq<char>, line: int, col: int) -> int {
    let pieces = spec_split(t, '\n');
    if line < pieces.len() {
        let gs = spec_graphemes(pieces[line]);
        sat_usize(piece_start_bytes(pieces, line), byte_len(gs.take(col_count(gs, col, 0)).flatten()) as int)
    } else {
        byte_len(t) as int
    }
}

/// The text and cursor after dropping a non-empty selection.
pub open spec fn after_delete_selection(t: Seq<char>, cursor: int, anchor: Option<nat>) -> (Seq<char>, int) {
    match sel_range(cursor, anchor) {
        Some((a, b)) => (spliced(t, a, b, Seq::empty()), a),
        None => (t, cursor),
    }
}

/// How a buffer prints for debugging: its text redacted.
pub open spec fn buffer_debug_text(t: Seq<char>, cursor: int, anchor: Option<nat>, multiline: bool) -> Seq<char> {
    "TextBuffer { text: \"[redacted]\", len: "@ + decimal_digits(byte_len(t)) + ", cursor: "@
        + decimal_digits(byte_of(t, cursor) as nat) + ", anchor: "@
        + match anchor {
            Some(a) => "Some("@ + decimal_digits(byte_of(t, a as int) as nat) + ")"@,
            None => "None"@,
        }
        + ", multiline: "@ + (if multiline { "true"@ } else { "false"@ }) + " }"@
}

/// Append the characters of `cs`.
pub fn push_chars(s: &mut String, cs: &Vec<char>)
    ensures
        final(s)@ == old(s)@ + cs@,
{
    let mut i: usize = 0;
    while i < cs.len()
        invariant
            i <= cs@.len(),
            s@ == old(s)@ + cs@.take(i as int),
        decreases cs@.len() - i,
    {
        string_push(s, cs[i]);
        assert(cs@.take(i as int + 1) =~= cs@.take(i as int).push(cs@[i as int]));
        i = i + 1;
    }
    assert(cs@.take(cs@.len() as int) =~= cs@);
}

proof fn lemma_piece_le_flatten(gs: Seq<Seq<char>>, i: int)
    requires
        0 <= i < gs.len(),
    ensures
        gs[i].len() <= gs.flatten().len(),
{
    gs.lemma_flatten_length_ge_single_element_length(i);
    gs.lemma_flatten_and_flatten_alt_are_equivalent();
}

/// Text storage with a cursor, an optional selection anchor and the
/// multi-line flag.
pub struct TextBuffer {
    text: String,
    chars: Vec<char>,
    cursor: usize,
    anchor: Option<usize>,
    multiline: bool,
}

impl TextBuffer {
    /// The characters of the text.
    pub closed spec fn spec_text(&self) -> Seq<char> {
        self.chars@
    }

    /// The cursor, as a character index.
    pub closed spec fn spec_cursor(&self) -> int {
        self.cursor as int
    }

    /// The selection anchor, as a character index.
    pub closed spec fn spec_anchor(&self) -> Option<nat> {
        match self.anchor {
            Some(a) => Some(a as nat),
            None => None,
        }
    }

    /// Whether newlines are accepted.
    pub closed spec fn spec_multiline(&self) -> bool {
        self.multiline
    }

    /// The storage agrees with itself and the cursor and anchor lie in
    /// the text.
    pub closed spec fn wf(&self) -> bool {
        &&& self.chars@ == self.text@
        &&& self.cursor <= self.chars@.len()
        &&& (self.anchor matches Some(a) ==> a <= self.chars@.len())
        &&& byte_len(self.chars@) <= usize::MAX
    }

    /// What well-formedness gives a caller: the cursor and the anchor lie
    /// in the text, and its byte count fits a `usize`.
    pub proof fn lemma_wf(&self)
        requires
            self.wf(),
        ensures
            0 <= self.spec_cursor() <= self.spec_text().len(),
            self.spec_anchor() matches Some(a) ==> a <= self.spec_text().len(),
            byte_len(self.spec_text()) <= usize::MAX,
    {
    }

    /// A buffer holding `text` with the cursor at the end.
    fn with_text(text: String, multiline: bool) -> (b: TextBuffer)
        ensures
            b.wf(),
            b.spec_text() == text@,
            b.spec_cursor() == text@.len(),
            b.spec_anchor() is None,
            b.spec_multiline() == multiline,
    {
        let chars = str_chars(text.as_str());
        proof {
            lemma_byte_len_encode(text@);
        }
        let _ = text.as_str().as_bytes().len();
        let n = chars.len();
        TextBuffer { text, chars, cursor: n, anchor: None, multiline }
    }

    /// A single-line buffer with the cursor at the end.
    pub fn single(text: String) -> (b: TextBuffer)
        ensures
            b.wf(),
            b.spec_text() == text@,
            b.spec_cursor() == text@.len(),
            b.spec_anchor() is None,
            !b.spec_multiline(),
    {
        Self::with_text(text, false)
    }

    /// A multi-line buffer with the cursor at the end.
    pub fn multi(text: String) -> (b: TextBuffer)
        ensures
            b.wf(),
            b.spec_text() == text@,
            b.spec_cursor() == text@.len(),
            b.spec_anchor() is None,
            b.spec_multiline(),
    {
        Self::with_text(text, true)
    }

    /// The text.
    pub fn text(&self) -> (s: &str)
        requires
            self.wf(),
        ensures
            s@ == self.spec_text(),
    {
        self.text.as_str()
    }

    /// Whether the text is empty.
    pub fn is_empty(&self) -> (b: bool)
        requires
            self.wf(),
        ensures
            b == (self.spec_text().len() == 0),
    {
        self.chars.len() == 0
    }

    /// Whether newlines are accepted.
    pub fn is_multiline(&self) -> (b: bool)
        ensures
            b == self.spec_multiline(),
    {
        self.multiline
    }

    /// The cursor byte offset.
    pub fn cursor_offset(&self) -> (o: usize)
        requires
            self.wf(),
        ensures
            o == byte_of(self.spec_text(), self.spec_cursor()),
    {
        byte_offset(self.chars.as_slice(), self.cursor)
    }

    /// The allocated capacity of the text, in bytes: at least its length.
    pub fn capacity(&self) -> (c: usize)
        requires
            self.wf(),
        ensures
            c >= byte_len(self.spec_text()),
    {
        string_capacity(&self.text)
    }

    /// Install new text, overwriting the old bytes before they are released.
    fn replace_text(&mut self, next: Vec<char>)
        requires
            old(self).wf(),
        ensures
            final(self).chars@ == next@,
            final(self).text@ == next@,
            byte_len(next@) <= usize::MAX,
            final(self).cursor == old(self).cursor,
            final(self).anchor == old(self).anchor,
            final(self).multiline == old(self).multiline,
    {
        let replacement = string_from_chars(next.as_slice());
        proof {
            lemma_byte_len_encode(next@);
        }
        let _ = replacement.as_str().as_bytes().len();
        zeroize_string(&mut self.text);
        zero_fill_chars(&mut self.chars);
        self.text = replacement;
        self.chars = next;
    }

    /// Overwrite every byte with zero, then clear.
    pub fn zeroize(&mut self)
        requires
            old(self).wf(),
        ensures
            final(self).wf(),
            final(self).spec_text() == Seq::<char>::empty(),
            final(self).spec_cursor() == 0,
            final(self).spec_anchor() is None,
            final(self).spec_multiline() == old(self).spec_multiline(),
    {
        zeroize_string(&mut self.text);
        zero_fill_chars(&mut self.chars);
        self.chars = Vec::new();
        self.cursor = 0;
        self.anchor = None;
    }

    /// How the buffer prints for debugging: the text is redacted, its byte
    /// length, the cursor and the anchor (as byte offsets) and the
    /// multi-line flag are shown.
    pub fn debug_string(&self) -> (s: String)
        requires
            self.wf(),
        ensures
            s@ == buffer_debug_text(self.spec_text(), self.spec_cursor(), self.spec_anchor(), self.spec_multiline()),
    {
        proof {
            lemma_byte_len_encode(self.text@);
        }
        let mut s = String::new();
        string_push_str(&mut s, "TextBuffer { text: \"[redacted]\", len: ");
        push_chars(&mut s, &decimal(self.text.as_str().as_bytes().len()));
        string_push_str(&mut s, ", cursor: ");
        push_chars(&mut s, &decimal(byte_offset(self.chars.as_slice(), self.cursor)));
        string_push_str(&mut s, ", anchor: ");
        match self.anchor {
            Some(a) => {
                string_push_str(&mut s, "Some(");
                push_chars(&mut s, &decimal(byte_offset(self.chars.as_slice(), a)));
                string_push_str(&mut s, ")");
            },
            None => string_push_str(&mut s, "None"),
        }
        string_push_str(&mut s, ", multiline: ");
        string_push_str(&mut s, if self.multiline { "true" } else { "false" });
        string_push_str(&mut s, " }");
        s
    }

    /// A copy of the buffer.
    pub fn clone_plain(&self) -> (c: TextBuffer)
        requires
            self.wf(),
        ensures
            c.wf(),
            c.spec_text() == self.spec_text(),
            c.spec_cursor() == self.spec_cursor(),
            c.spec_anchor() == self.spec_anchor(),
            c.spec_multiline() == self.spec_multiline(),
    {
        let text = string_from_chars(self.chars.as_slice());
        let chars = self.chars.clone();
        assert(chars@ =~= self.chars@);
        TextBuffer { text, chars, cursor: self.cursor, anchor: self.anchor, multiline: self.multiline }
    }

    /// Replace the text; cursor at the end, no selection.
    pub fn set_text(&mut self, text: &str)
        requires
            old(self).wf(),
        ensures
            final(self).wf(),
            final(self).spec_text() == text@,
            final(self).spec_cursor() == text@.len(),
            final(self).spec_anchor() is None,
            final(self).spec_multiline() == old(self).spec_multiline(),
    {
        let next = str_chars(text);
        self.replace_text(next);
        self.cursor = self.chars.len();
        self.anchor = None;
    }

    /// The character index at byte offset `b` (clamped to the text),
    /// snapped back to the nearest character boundary.
    fn snap(&self, b: usize) -> (k: usize)
        requires
            self.wf(),
        ensures
            k == snap_from(self.spec_text(), b as int, 0),
            k <= self.spec_text().len(),
    {
        let mut k: usize = 0;
        let mut at: usize = 0;
        while k < self.chars.len()
            invariant
                self.wf(),
                k <= self.chars@.len(),
                at == byte_of(self.chars@, k as int),
                at <= b,
                snap_from(self.chars@, b as int, 0) == snap_from(self.chars@, b as int, k as int),
            decreases self.chars@.len() - k,
        {
            proof {
                crate::text::unicode::lemma_byte_len_take(self.chars@, k as int);
                assert(self.chars@ =~= self.chars@.take(k as int + 1) + self.chars@.skip(k as int + 1));
                lemma_byte_len_add(self.chars@.take(k as int + 1), self.chars@.skip(k as int + 1));
            }
            let next = at + crate::text::unicode::char_utf8_len(self.chars[k]);
            if next > b {
                return k;
            }
            at = next;
            k = k + 1;
        }
        k
    }

    /// Select `a..b` (byte offsets, either order, each snapped back to a
    /// character boundary), cursor at `b`.
    pub fn select_range(&mut self, a: usize, b: usize)
        requires
            old(self).wf(),
        ensures
            final(self).wf(),
            final(self).spec_text() == old(self).spec_text(),
            final(self).spec_multiline() == old(self).spec_multiline(),
            final(self).spec_anchor() == Some(snap_from(old(self).spec_text(), a as int, 0) as nat),
            final(self).spec_cursor() == snap_from(old(self).spec_text(), b as int, 0),
    {
        let ka = self.snap(a);
        let kb = self.snap(b);
        self.anchor = Some(ka);
        self.cursor = kb;
    }

    fn sel(&self) -> (r: Option<(usize, usize)>)
        requires
            self.wf(),
        ensures
            r == (match sel_range(self.spec_cursor(), self.spec_anchor()) {
                Some((a, b)) => Some((a as usize, b as usize)),
                None => None,
            }),
    {
        match self.anchor {
            Some(a) => if a == self.cursor {
                None
            } else if a < self.cursor {
                Some((a, self.cursor))
            } else {
                Some((self.cursor, a))
            },
            None => None,
        }
    }

    /// The selection as a byte range, if non-empty.
    pub fn selection(&self) -> (r: Option<Range<usize>>)
        requires
            self.wf(),
        ensures
            match sel_range(self.spec_cursor(), self.spec_anchor()) {
                Some((a, b)) => r matches Some(rg) && rg.start == byte_of(self.spec_text(), a)
                    && rg.end == byte_of(self.spec_text(), b),
                None => r is None,
            },
    {
        match self.sel() {
            Some((a, b)) => {
                let s = byte_offset(self.chars.as_slice(), a);
                let e = byte_offset(self.chars.as_slice(), b);
                Some(Range { start: s, end: e })
            },
            None => None,
        }
    }

    /// The selected text, if any.
    pub fn selected_text(&self) -> (r: Option<&str>)
        requires
            self.wf(),
        ensures
            match sel_range(self.spec_cursor(), self.spec_anchor()) {
                Some((a, b)) => r matches Some(s) && s@ == self.spec_text().subrange(a, b),
                None => r is None,
            },
    {
        match self.sel() {
            Some((a, b)) => Some(char_substr(self.text.as_str(), self.chars.as_slice(), a, b)),
            None => None,
        }
    }

    /// Select everything.
    pub fn select_all(&mut self)
        requires
            old(self).wf(),
        ensures
            final(self).wf(),
            final(self).spec_text() == old(self).spec_text(),
            final(self).spec_multiline() == old(self).spec_multiline(),
            final(self).spec_anchor() == Some(0nat),
            final(self).spec_cursor() == old(self).spec_text().len(),
    {
        self.anchor = Some(0);
        self.cursor = self.chars.len();
    }

    /// Drop the selection.
    pub fn clear_selection(&mut self)
        requires
            old(self).wf(),
        ensures
            final(self).wf(),
            final(self).spec_text() == old(self).spec_text(),
            final(self).spec_multiline() == old(self).spec_multiline(),
            final(self).spec_cursor() == old(self).spec_cursor(),
            final(self).spec_anchor() is None,
    {
        self.anchor = None;
    }

    fn begin_move(&mut self, select: bool)
        requires
            old(self).wf(),
        ensures
            final(self).wf(),
            final(self).chars == old(self).chars,
            final(self).text == old(self).text,
            final(self).multiline == old(self).multiline,
            final(self).cursor == old(self).cursor,
            final(self).spec_anchor() == moved_anchor(old(self).spec_anchor(), old(self).spec_cursor(), select),
    {
        if select {
            if self.anchor.is_none() {
                self.anchor = Some(self.cursor);
            }
        } else {
            self.anchor = None;
        }
    }

    fn prev_boundary_of(&self, from: usize) -> (r: usize)
        requires
            self.wf(),
            from <= self.spec_text().len(),
        ensures
            r == prev_boundary(self.spec_text(), from as int),
            r <= from,
    {
        let head = char_substr(self.text.as_str(), self.chars.as_slice(), 0, from);
        let gs = graphemes(head);
        let ghost gv = gs@.map_values(|g: &str| g@);
        assert(head@ =~= self.chars@.take(from as int));
        if gs.len() == 0 {
            return 0;
        }
        let last = gs[gs.len() - 1];
        let n = str_chars(last).len();
        proof {
            assert(gv.last() == last@);
            lemma_piece_le_flatten(gv, gv.len() - 1);
        }
        from - n
    }

    fn next_boundary_of(&self, from: usize) -> (r: usize)
        requires
            self.wf(),
            from <= self.spec_text().len(),
        ensures
            r == next_boundary(self.spec_text(), from as int),
            from <= r <= self.spec_text().len(),
    {
        let tail = char_substr(self.text.as_str(), self.chars.as_slice(), from, self.chars.len());
        let gs = graphemes(tail);
        let ghost gv = gs@.map_values(|g: &str| g@);
        assert(tail@ =~= self.chars@.skip(from as int));
        if gs.len() == 0 {
            return from;
        }
        let n = str_chars(gs[0]).len();
        proof {
            assert(gv[0] == gs@[0]@);
            lemma_piece_le_flatten(gv, 0);
        }
        from + n
    }

    fn line_start_of(&self, from: usize) -> (r: usize)
        requires
            self.wf(),
            from <= self.spec_text().len(),
        ensures
            r == line_start(self.spec_text(), from as int),
            r <= from,
    {
        let mut i = from;
        while i > 0 && self.chars[i - 1] != '\n'
            invariant
                self.wf(),
                i <= from <= self.chars@.len(),
                line_start(self.chars@, from as int) == line_start(self.chars@, i as int),
            decreases i,
        {
            i = i - 1;
        }
        i
    }

    fn line_end_of(&self, from: usize) -> (r: usize)
        requires
            self.wf(),
            from <= self.spec_text().len(),
        ensures
            r == line_end(self.spec_text(), from as int),
            from <= r <= self.spec_text().len(),
    {
        let mut i = from;
        while i < self.chars.len() && self.chars[i] != '\n'
            invariant
                self.wf(),
                from <= i <= self.chars@.len(),
                line_end(self.chars@, from as int) == line_end(self.chars@, i as int),
            decreases self.chars@.len() - i,
        {
            i = i + 1;
        }
        i
    }

    fn prev_word_of(&self, from: usize) -> (r: usize)
        requires
            self.wf(),
            from <= self.spec_text().len(),
        ensures
            r == prev_word(self.spec_text(), from as int),
            r <= from,
    {
        let mut j = from;
        while j > 0 && !is_word_char(self.chars[j - 1])
            invariant
                self.wf(),
                j <= from <= self.chars@.len(),
                skip_nonword_back(self.chars@, from as int) == skip_nonword_back(self.chars@, j as int),
            decreases j,
        {
            j = j - 1;
        }
        let mut k = j;
        while k > 0 && is_word_char(self.chars[k - 1])
            invariant
                self.wf(),
                k <= j <= from <= self.chars@.len(),
                skip_nonword_back(self.chars@, from as int) == j,
                skip_word_back(self.chars@, j as int) == skip_word_back(self.chars@, k as int),
            decreases k,
        {
            k = k - 1;
        }
        k
    }

    fn next_word_of(&self, from: usize) -> (r: usize)
        requires
            self.wf(),
            from <= self.spec_text().len(),
        ensures
            r == next_word(self.spec_text(), from as int),
            from <= r <= self.spec_text().len(),
    {
        let n = self.chars.len();
        let mut j = from;
        while j < n && !is_word_char(self.chars[j])
            invariant
                self.wf(),
                n == self.chars@.len(),
                from <= j <= n,
                skip_nonword_fwd(self.chars@, from as int) == skip_nonword_fwd(self.chars@, j as int),
            decreases n - j,
        {
            j = j + 1;
        }
        let mut k = j;
        while k < n && is_word_char(self.chars[k])
            invariant
                self.wf(),
                n == self.chars@.len(),
                from <= j <= k <= n,
                skip_nonword_fwd(self.chars@, from as int) == j,
                skip_word_fwd(self.chars@, j as int) == skip_word_fwd(self.chars@, k as int),
            decreases n - k,
        {
            k = k + 1;
        }
        k
    }

    /// Move left one grapheme (collapsing a selection to its start).
    pub fn move_left(&mut self, select: bool)
        requires
            old(self).wf(),
        ensures
            final(self).wf(),
            final(self).spec_text() == old(self).spec_text(),
            final(self).spec_multiline() == old(self).spec_multiline(),
            match (select, sel_range(old(self).spec_cursor(), old(self).spec_anchor())) {
                (false, Some((a, b))) => final(self).spec_cursor() == a && final(self).spec_anchor() is None,
                _ => final(self).spec_cursor() == prev_boundary(old(self).spec_text(), old(self).spec_cursor())
                    && final(self).spec_anchor() == moved_anchor(old(self).spec_anchor(), old(self).spec_cursor(), select),
            },
    {
        if !select {
            if let Some((a, _)) = self.sel() {
                self.anchor = None;
                self.cursor = a;
                return;
            }
        }
        self.begin_move(select);
        let c = self.prev_boundary_of(self.cursor);
        self.cursor = c;
    }

    /// Move right one grapheme (collapsing a selection to its end).
    pub fn move_right(&mut self, select: bool)
        requires
            old(self).wf(),
        ensures
            final(self).wf(),
            final(self).spec_text() == old(self).spec_text(),
            final(self).spec_multiline() == old(self).spec_multiline(),
            match (select, sel_range(old(self).spec_cursor(), old(self).spec_anchor())) {
                (false, Some((a, b))) => final(self).spec_cursor() == b && final(self).spec_anchor() is None,
                _ => final(self).spec_cursor() == next_boundary(old(self).spec_text(), old(self).spec_cursor())
                    && final(self).spec_anchor() == moved_anchor(old(self).spec_anchor(), old(self).spec_cursor(), select),
            },
    {
        if !select {
            if let Some((_, b)) = self.sel() {
                self.anchor = None;
                self.cursor = b;
                return;
            }
        }
        self.begin_move(select);
        let c = self.next_boundary_of(self.cursor);
        self.cursor = c;
    }

    /// Move to the previous word start.
    pub fn move_word_left(&mut self, select: bool)
        requires
            old(self).wf(),
        ensures
            final(self).wf(),
            final(self).spec_text() == old(self).spec_text(),
            final(self).spec_multiline() == old(self).spec_multiline(),
            final(self).spec_cursor() == prev_word(old(self).spec_text(), old(self).spec_cursor()),
            final(self).spec_anchor() == moved_anchor(old(self).spec_anchor(), old(self).spec_cursor(), select),
    {
        self.begin_move(select);
        let c = self.prev_word_of(self.cursor);
        self.cursor = c;
    }

    /// Move to the next word end.
    pub fn move_word_right(&mut self, select: bool)
        requires
            old(self).wf(),
        ensures
            final(self).wf(),
            final(self).spec_text() == old(self).spec_text(),
            final(self).spec_multiline() == old(self).spec_multiline(),
            final(self).spec_cursor() == next_word(old(self).spec_text(), old(self).spec_cursor()),
            final(self).spec_anchor() == moved_anchor(old(self).spec_anchor(), old(self).spec_cursor(), select),
    {
        self.begin_move(select);
        let c = self.next_word_of(self.cursor);
        self.cursor = c;
    }

    /// Move to the line start.
    pub fn move_home(&mut self, select: bool)
        requires
            old(self).wf(),
        ensures
            final(self).wf(),
            final(self).spec_text() == old(self).spec_text(),
            final(self).spec_multiline() == old(self).spec_multiline(),
            final(self).spec_cursor() == line_start(old(self).spec_text(), old(self).spec_cursor()),
            final(self).spec_anchor() == moved_anchor(old(self).spec_anchor(), old(self).spec_cursor(), select),
    {
        self.begin_move(select);
        let c = self.line_start_of(self.cursor);
        self.cursor = c;
    }

    /// Move to the line end.
    pub fn move_end(&mut self, select: bool)
        requires
            old(self).wf(),
        ensures
            final(self).wf(),
            final(self).spec_text() == old(self).spec_text(),
            final(self).spec_multiline() == old(self).spec_multiline(),
            final(self).spec_cursor() == line_end(old(self).spec_text(), old(self).spec_cursor()),
            final(self).spec_anchor() == moved_anchor(old(self).spec_anchor(), old(self).spec_cursor(), select),
    {
        self.begin_move(select);
        let c = self.line_end_of(self.cursor);
        self.cursor = c;
    }

    /// Move to the document start.
    pub fn move_doc_start(&mut self, select: bool)
        requires
            old(self).wf(),
        ensures
            final(self).wf(),
            final(self).spec_text() == old(self).spec_text(),
            final(self).spec_multiline() == old(self).spec_multiline(),
            final(self).spec_cursor() == 0,
            final(self).spec_anchor() == moved_anchor(old(self).spec_anchor(), old(self).spec_cursor(), select),
    {
        self.begin_move(select);
        self.cursor = 0;
    }

    /// Move to the document end.
    pub fn move_doc_end(&mut self, select: bool)
        requires
            old(self).wf(),
        ensures
            final(self).wf(),
            final(self).spec_text() == old(self).spec_text(),
            final(self).spec_multiline() == old(self).spec_multiline(),
            final(self).spec_cursor() == old(self).spec_text().len(),
            final(self).spec_anchor() == moved_anchor(old(self).spec_anchor(), old(self).spec_cursor(), select),
    {
        self.begin_move(select);
        self.cursor = self.chars.len();
    }

    fn count_newlines_upto(&self, k: usize) -> (r: usize)
        requires
            self.wf(),
            k <= self.spec_text().len(),
        ensures
            r == count_newlines(self.spec_text(), k as int),
    {
        let mut n: usize = 0;
        let mut i: usize = 0;
        while i < k
            invariant
                self.wf(),
                k <= self.chars@.len(),
                i <= k,
                n == count_newlines(self.chars@, i as int),
                n <= i,
            decreases k - i,
        {
            if self.chars[i] == '\n' {
                n = n + 1;
            }
            i = i + 1;
        }
        n
    }

    /// The line count (one more than the newline count).
    pub fn line_count(&self) -> (r: usize)
        requires
            self.wf(),
        ensures
            r == sat_usize(count_newlines(self.spec_text(), self.spec_text().len() as int), 1),
    {
        let n = self.count_newlines_upto(self.chars.len());
        n.saturating_add(1)
    }

    fn pos_of_chars(text: &str, cs: &[char], k: usize) -> (p: CursorPos)
        requires
            cs@ == text@,
            k <= cs@.len(),
        ensures
            p == pos_of_index(text@, k as int),
    {
        let mut n: usize = 0;
        let mut i: usize = 0;
        while i < k
            invariant
                k <= cs@.len(),
                i <= k,
                n == count_newlines(cs@, i as int),
                n <= i,
            decreases k - i,
        {
            if cs[i] == '\n' {
                n = n + 1;
            }
            i = i + 1;
        }
        let mut ls = k;
        while ls > 0 && cs[ls - 1] != '\n'
            invariant
                ls <= k <= cs@.len(),
                line_start(cs@, k as int) == line_start(cs@, ls as int),
            decreases ls,
        {
            ls = ls - 1;
        }
        let seg = char_substr(text, cs, ls, k);
        let w = width(seg);
        CursorPos { line: n, col: w as usize }
    }

    /// The cursor as `(line, display column)`.
    pub fn cursor_pos(&self) -> (p: CursorPos)
        requires
            self.wf(),
        ensures
            p == pos_of_index(self.spec_text(), self.spec_cursor()),
    {
        Self::pos_of_chars(self.text.as_str(), self.chars.as_slice(), self.cursor)
    }

    /// `(line, display column)` of a byte offset in `text`; an offset past
    /// the end counts as the end, and one inside a character as the start.
    pub fn pos_of(text: &str, offset: usize) -> (p: CursorPos)
        ensures
            p == pos_of_byte(text@, offset as int),
    {
        let cs = str_chars(text);
        proof {
            lemma_byte_len_encode(text@);
        }
        let total = text.as_bytes().len();
        let b = if offset < total { offset } else { total };
        let mut k: usize = 0;
        let mut at: usize = 0;
        let mut found: usize = 0;
        loop
            invariant
                cs@ == text@,
                byte_len(cs@) == total,
                b <= total,
                k <= cs@.len(),
                at == byte_of(cs@, k as int),
                find_byte(cs@, b as int, 0) == find_byte(cs@, b as int, k as int),
            ensures
                found == find_byte(cs@, b as int, 0),
            decreases cs@.len() + 1 - k,
        {
            if at > b {
                found = 0;
                assert(find_byte(cs@, b as int, k as int) == 0);
                break;
            }
            if at == b {
                found = k;
                assert(find_byte(cs@, b as int, k as int) == k);
                break;
            }
            if k == cs.len() {
                found = 0;
                assert(find_byte(cs@, b as int, k as int + 1) == 0);
                assert(find_byte(cs@, b as int, k as int) == 0);
                break;
            }
            proof {
                crate::text::unicode::lemma_byte_len_take(cs@, k as int);
                assert(cs@ =~= cs@.take(k as int + 1) + cs@.skip(k as int + 1));
                lemma_byte_len_add(cs@.take(k as int + 1), cs@.skip(k as int + 1));
            }
            at = at + crate::text::unicode::char_utf8_len(cs[k]);
            k = k + 1;
        }
        proof {
            lemma_find_byte_range(cs@, b as int, 0);
        }
        Self::pos_of_chars(text, cs.as_slice(), found)
    }

    /// Byte offset of `(line, display column)`, clamped to the line.
    pub fn offset_at(&self, line: usize, col: usize) -> (o: usize)
        requires
            self.wf(),
        ensures
            o == offset_at_spec(self.spec_text(), line as int, col as int),
    {
        let pieces = crate::text::measure::split_pieces(self.text.as_str(), '\n');
        let ghost pv = pieces@.map_values(|p: String| p@);
        let mut start: usize = 0;
        let mut i: usize = 0;
        while i < pieces.len()
            invariant
                self.wf(),
                pv == pieces@.map_values(|p: String| p@),
                pv == spec_split(self.spec_text(), '\n'),
                i <= pieces@.len(),
                i <= line,
                start == piece_start_bytes(pv, i as int),
            decreases pieces@.len() - i,
        {
            let l = pieces[i].as_str();
            assert(l@ == pv[i as int]);
            proof {
                lemma_byte_len_encode(l@);
            }
            let llen = l.as_bytes().len();
            if i == line {
                let gs = graphemes(l);
                let ghost gv = gs@.map_values(|g: &str| g@);
                let mut w: usize = 0;
                let mut j: usize = 0;
                let mut off: usize = 0;
                while j < gs.len()
                    invariant
                        gv == gs@.map_values(|g: &str| g@),
                        gv == spec_graphemes(pv[i as int]),
                        gv.flatten() == l@,
                        i == line,
                        i < pv.len(),
                        pv == spec_split(self.spec_text(), '\n'),
                        start == piece_start_bytes(pv, i as int),
                        j <= gs@.len(),
                        w == col_prefix(gv, j as int),
                        w <= col,
                        col_count(gv, col as int, 0) == col_count(gv, col as int, j as int),
                        off == byte_len(gv.take(j as int).flatten()),
                        off <= llen,
                        llen == byte_len(l@),
                    decreases gs@.len() - j,
                {
                    let g = gs[j];
                    assert(g@ == gv[j as int]);
                    let gw = grapheme_width(g) as usize;
                    let next = w.saturating_add(gw);
                    assert(next == col_prefix(gv, j as int + 1));
                    if next > col {
                        assert(col_count(gv, col as int, j as int) == j);
                        assert(i == line);
                        assert(offset_at_spec(self.spec_text(), line as int, col as int)
                            == sat_usize(piece_start_bytes(pv, i as int), byte_len(gv.take(j as int).flatten()) as int));
                        return start.saturating_add(off);
                    }
                    proof {
                        lemma_byte_len_encode(g@);
                        assert(gv.take(j as int + 1) =~= gv.take(j as int).push(gv[j as int]));
                        gv.take(j as int).lemma_flatten_push(gv[j as int]);
                        lemma_byte_len_add(gv.take(j as int).flatten(), gv[j as int]);
                        assert(gv =~= gv.take(j as int + 1) + gv.skip(j as int + 1));
                        lemma_flatten_concat(gv.take(j as int + 1), gv.skip(j as int + 1));
                        lemma_byte_len_add(gv.take(j as int + 1).flatten(), gv.skip(j as int + 1).flatten());
                    }
                    off = off + g.as_bytes().len();
                    w = next;
                    j = j + 1;
                }
                proof {
                    assert(gv.take(gv.len() as int) =~= gv);
                }
                return start.saturating_add(llen);
            }
            start = start.saturating_add(llen).saturating_add(1);
            i = i + 1;
        }
        proof {
            lemma_byte_len_encode(self.text@);
        }
        self.text.as_str().as_bytes().len()
    }

    /// Move to the same display column on the previous line. Returns
    /// whether the cursor could move.
    pub fn move_up(&mut self, select: bool) -> (moved: bool)
        requires
            old(self).wf(),
        ensures
            final(self).wf(),
            final(self).spec_text() == old(self).spec_text(),
            final(self).spec_multiline() == old(self).spec_multiline(),
            ({
                let p = pos_of_index(old(self).spec_text(), old(self).spec_cursor());
                if !old(self).spec_multiline() || p.line == 0 {
                    !moved && final(self).spec_cursor() == old(self).spec_cursor()
                        && final(self).spec_anchor() == old(self).spec_anchor()
                } else {
                    moved && final(self).spec_cursor() == snap_from(old(self).spec_text(),
                        offset_at_spec(old(self).spec_text(), p.line - 1, p.col as int), 0)
                        && final(self).spec_anchor() == moved_anchor(old(self).spec_anchor(), old(self).spec_cursor(), select)
                }
            }),
    {
        if !self.multiline {
            return false;
        }
        let p = self.cursor_pos();
        if p.line == 0 {
            return false;
        }
        self.begin_move(select);
        let o = self.offset_at(p.line - 1, p.col);
        let k = self.snap(o);
        self.cursor = k;
        true
    }

    /// Move to the same display column on the next line. Returns whether
    /// the cursor could move.
    pub fn move_down(&mut self, select: bool) -> (moved: bool)
        requires
            old(self).wf(),
        ensures
            final(self).wf(),
            final(self).spec_text() == old(self).spec_text(),
            final(self).spec_multiline() == old(self).spec_multiline(),
            ({
                let p = pos_of_index(old(self).spec_text(), old(self).spec_cursor());
                let lines = sat_usize(count_newlines(old(self).spec_text(), old(self).spec_text().len() as int), 1);
                if !old(self).spec_multiline() || sat_usize(p.line as int, 1) >= lines {
                    !moved && final(self).spec_cursor() == old(self).spec_cursor()
                        && final(self).spec_anchor() == old(self).spec_anchor()
                } else {
                    moved && final(self).spec_cursor() == snap_from(old(self).spec_text(),
                        offset_at_spec(old(self).spec_text(), p.line + 1, p.col as int), 0)
                        && final(self).spec_anchor() == moved_anchor(old(self).spec_anchor(), old(self).spec_cursor(), select)
                }
            }),
    {
        if !self.multiline {
            return false;
        }
        let p = self.cursor_pos();
        let lines = self.line_count();
        if p.line.saturating_add(1) >= lines {
            return false;
        }
        self.begin_move(select);
        let o = self.offset_at(p.line + 1, p.col);
        let k = self.snap(o);
        self.cursor = k;
        true
    }

    /// Place the cursor at `(line, col)`, dropping the selection.
    pub fn set_cursor_line_col(&mut self, line: usize, col: usize)
        requires
            old(self).wf(),
        ensures
            final(self).wf(),
            final(self).spec_text() == old(self).spec_text(),
            final(self).spec_multiline() == old(self).spec_multiline(),
            final(self).spec_anchor() is None,
            final(self).spec_cursor() == snap_from(old(self).spec_text(),
                offset_at_spec(old(self).spec_text(), line as int, col as int), 0),
    {
        self.anchor = None;
        let o = self.offset_at(line, col);
        let k = self.snap(o);
        self.cursor = k;
    }

    /// First and last line touched by the selection (or the cursor line),
    /// each read from the selection's byte range the way `pos_of` reads it.
    pub fn selection_lines(&self) -> (r: (usize, usize))
        requires
            self.wf(),
        ensures
            match sel_range(self.spec_cursor(), self.spec_anchor()) {
                Some((a, b)) => {
                    let sa = byte_of(self.spec_text(), a);
                    let sb = byte_of(self.spec_text(), b);
                    let last = if sb - 1 > sa { sb - 1 } else { sa };
                    r == (pos_of_byte(self.spec_text(), sa).line, pos_of_byte(self.spec_text(), last).line)
                },
                None => {
                    let l = pos_of_index(self.spec_text(), self.spec_cursor()).line;
                    r == (l, l)
                },
            },
    {
        match self.selection() {
            Some(rg) => {
                let a = Self::pos_of(self.text.as_str(), rg.start).line;
                let e = rg.end.saturating_sub(1);
                let last = if e > rg.start { e } else { rg.start };
                let b = Self::pos_of(self.text.as_str(), last).line;
                (a, b)
            },
            None => {
                let l = self.cursor_pos().line;
                (l, l)
            },
        }
    }

    /// Display width of the whole text.
    pub fn width(&self) -> (w: u16)
        requires
            self.wf(),
        ensures
            w == spec_width(self.spec_text()),
    {
        width(self.text.as_str())
    }

    /// Replace `t[a..b]` by `ins`, keeping cursor and anchor.
    fn splice(&mut self, a: usize, b: usize, ins: &[char])
        requires
            old(self).wf(),
            a <= b <= old(self).spec_text().len(),
            old(self).spec_cursor() <= old(self).spec_text().len() - (b - a) + ins@.len(),
            old(self).spec_anchor() is None,
            byte_len(spliced(old(self).spec_text(), a as int, b as int, ins@)) <= usize::MAX,
        ensures
            final(self).wf(),
            final(self).spec_text() == spliced(old(self).spec_text(), a as int, b as int, ins@),
            final(self).spec_cursor() == old(self).spec_cursor(),
            final(self).spec_anchor() is None,
            final(self).spec_multiline() == old(self).spec_multiline(),
    {
        let mut next: Vec<char> = Vec::new();
        let mut i: usize = 0;
        while i < a
            invariant
                old(self).wf(),
                a <= b <= old(self).chars@.len(),
                self.chars@ == old(self).chars@,
                i <= a,
                next@ == old(self).chars@.take(i as int),
            decreases a - i,
        {
            next.push(self.chars[i]);
            assert(old(self).chars@.take(i as int + 1) =~= old(self).chars@.take(i as int).push(old(self).chars@[i as int]));
            i = i + 1;
        }
        let mut j: usize = 0;
        while j < ins.len()
            invariant
                j <= ins@.len(),
                next@ == old(self).chars@.take(a as int) + ins@.take(j as int),
            decreases ins@.len() - j,
        {
            next.push(ins[j]);
            assert(ins@.take(j as int + 1) =~= ins@.take(j as int).push(ins@[j as int]));
            assert(next@ =~= old(self).chars@.take(a as int) + ins@.take(j as int + 1));
            j = j + 1;
        }
        assert(ins@.take(ins@.len() as int) =~= ins@);
        let n = self.chars.len();
        let mut k: usize = b;
        while k < n
            invariant
                n == old(self).chars@.len(),
                self.chars@ == old(self).chars@,
                b <= k <= n,
                next@ == old(self).chars@.take(a as int) + ins@ + old(self).chars@.subrange(b as int, k as int),
            decreases n - k,
        {
            next.push(self.chars[k]);
            assert(old(self).chars@.subrange(b as int, k as int + 1) =~= old(self).chars@.subrange(b as int, k as int).push(old(self).chars@[k as int]));
            assert(next@ =~= old(self).chars@.take(a as int) + ins@ + old(self).chars@.subrange(b as int, k as int + 1));
            k = k + 1;
        }
        assert(old(self).chars@.subrange(b as int, n as int) =~= old(self).chars@.skip(b as int));
        self.replace_text(next);
    }

    pub fn delete_selection(&mut self) -> (deleted: bool)
        requires
            old(self).wf(),
        ensures
            final(self).wf(),
            final(self).spec_multiline() == old(self).spec_multiline(),
            final(self).spec_anchor() is None,
            (final(self).spec_text(), final(self).spec_cursor())
                == after_delete_selection(old(self).spec_text(), old(self).spec_cursor(), old(self).spec_anchor()),
            deleted == (sel_range(old(self).spec_cursor(), old(self).spec_anchor()) is Some),
    {
        match self.sel() {
            Some((a, b)) => {
                self.anchor = None;
                proof {
                    lemma_spliced_fits(self.chars@, a as int, b as int);
                }
                self.cursor = a;
                self.splice(a, b, &[]);
                true
            },
            None => {
                self.anchor = None;
                false
            },
        }
    }

    /// Insert a character (a newline is rejected in single-line mode).
    /// Returns whether the text changed.
    pub fn insert_char(&mut self, c: char) -> (changed: bool)
        requires
            old(self).wf(),
            byte_len(old(self).spec_text()) + 4 <= usize::MAX,
        ensures
            final(self).wf(),
            final(self).spec_multiline() == old(self).spec_multiline(),
            c == '\n' && !old(self).spec_multiline() ==> !changed && *final(self) == *old(self),
            !(c == '\n' && !old(self).spec_multiline()) ==> {
                let (t1, c1) = after_delete_selection(old(self).spec_text(), old(self).spec_cursor(), old(self).spec_anchor());
                &&& changed
                &&& final(self).spec_text() == spliced(t1, c1, c1, seq![c])
                &&& final(self).spec_cursor() == c1 + 1
                &&& final(self).spec_anchor() is None
            },
    {
        if c == '\n' && !self.multiline {
            return false;
        }
        self.delete_selection();
        let at = self.cursor;
        proof {
            lemma_delete_selection_shrinks(old(self).chars@, old(self).cursor as int, old(self).spec_anchor());
            lemma_spliced_insert_len(self.chars@, at as int, seq![c]);
            assert(seq![c].drop_last() =~= Seq::<char>::empty());
            assert(byte_len(Seq::<char>::empty()) == 0);
            assert(seq![c].last() == c);
            assert(byte_len(seq![c]) == utf8_width(c));
            lemma_len_le_byte_len(spliced(self.chars@, at as int, at as int, seq![c]));
        }
        let mut one: Vec<char> = Vec::new();
        one.push(c);
        assert(one@ =~= seq![c]);
        self.splice(at, at, one.as_slice());
        self.cursor = at + 1;
        true
    }

    /// Insert text (newlines are stripped in single-line mode). Returns
    /// whether any character was inserted.
    pub fn insert_str(&mut self, s: &str) -> (grown: bool)
        requires
            old(self).wf(),
            byte_len(old(self).spec_text()) + byte_len(s@) <= usize::MAX,
        ensures
            final(self).wf(),
            final(self).spec_multiline() == old(self).spec_multiline(),
            final(self).spec_anchor() is None,
            ({
                let (t1, c1) = after_delete_selection(old(self).spec_text(), old(self).spec_cursor(), old(self).spec_anchor());
                let ins = if old(self).spec_multiline() { s@ } else { strip_newlines(s@) };
                &&& final(self).spec_text() == spliced(t1, c1, c1, ins)
                &&& final(self).spec_cursor() == c1 + ins.len()
                &&& grown == (ins.len() > 0)
            }),
    {
        self.delete_selection();
        let all = str_chars(s);
        let mut ins: Vec<char> = Vec::new();
        if self.multiline {
            ins = all;
        } else {
            let mut i: usize = 0;
            while i < all.len()
                invariant
                    all@ == s@,
                    i <= all@.len(),
                    ins@ == strip_newlines(all@.take(i as int)),
                decreases all@.len() - i,
            {
                let ch = all[i];
                proof {
                    lemma_strip_step(all@, i as int);
                }
                if ch != '\n' && ch != '\r' {
                    ins.push(ch);
                }
                i = i + 1;
            }
            assert(all@.take(all@.len() as int) =~= all@);
        }
        let at = self.cursor;
        proof {
            lemma_delete_selection_shrinks(old(self).chars@, old(self).cursor as int, old(self).spec_anchor());
            lemma_strip_byte_len(s@);
            lemma_spliced_insert_len(self.chars@, at as int, ins@);
            lemma_len_le_byte_len(spliced(self.chars@, at as int, at as int, ins@));
        }
        self.splice(at, at, ins.as_slice());
        self.cursor = at + ins.len();
        ins.len() > 0
    }

    /// Remove `t[a..b]` and put the cursor at `a`.
    fn remove_span(&mut self, a: usize, b: usize)
        requires
            old(self).wf(),
            a <= b <= old(self).spec_text().len(),
            old(self).spec_anchor() is None,
        ensures
            final(self).wf(),
            final(self).spec_text() == spliced(old(self).spec_text(), a as int, b as int, Seq::empty()),
            final(self).spec_cursor() == a,
            final(self).spec_anchor() is None,
            final(self).spec_multiline() == old(self).spec_multiline(),
    {
        proof {
            lemma_spliced_fits(self.chars@, a as int, b as int);
        }
        self.cursor = a;
        self.splice(a, b, &[]);
    }

    /// Delete the grapheme before the cursor (or the selection).
    pub fn backspace(&mut self) -> (changed: bool)
        requires
            old(self).wf(),
        ensures
            final(self).wf(),
            final(self).spec_multiline() == old(self).spec_multiline(),
            final(self).spec_anchor() is None,
            ({
                let t = old(self).spec_text();
                let cur = old(self).spec_cursor();
                match sel_range(cur, old(self).spec_anchor()) {
                    Some((a, b)) => changed && final(self).spec_text() == spliced(t, a, b, Seq::empty())
                        && final(self).spec_cursor() == a,
                    None => {
                        let start = prev_boundary(t, cur);
                        if start == cur {
                            !changed && final(self).spec_text() == t && final(self).spec_cursor() == cur
                        } else {
                            changed && final(self).spec_text() == spliced(t, start, cur, Seq::empty())
                                && final(self).spec_cursor() == start
                        }
                    },
                }
            }),
    {
        if self.delete_selection() {
            return true;
        }
        let start = self.prev_boundary_of(self.cursor);
        if start == self.cursor {
            return false;
        }
        let cur = self.cursor;
        self.remove_span(start, cur);
        true
    }

    /// Delete the grapheme after the cursor (or the selection).
    pub fn delete(&mut self) -> (changed: bool)
        requires
            old(self).wf(),
        ensures
            final(self).wf(),
            final(self).spec_multiline() == old(self).spec_multiline(),
            final(self).spec_anchor() is None,
            ({
                let t = old(self).spec_text();
                let cur = old(self).spec_cursor();
                match sel_range(cur, old(self).spec_anchor()) {
                    Some((a, b)) => changed && final(self).spec_text() == spliced(t, a, b, Seq::empty())
                        && final(self).spec_cursor() == a,
                    None => {
                        let end = next_boundary(t, cur);
                        if end == cur {
                            !changed && final(self).spec_text() == t && final(self).spec_cursor() == cur
                        } else {
                            changed && final(self).spec_text() == spliced(t, cur, end, Seq::empty())
                                && final(self).spec_cursor() == cur
                        }
                    },
                }
            }),
    {
        if self.delete_selection() {
            return true;
        }
        let end = self.next_boundary_of(self.cursor);
        if end == self.cursor {
            return false;
        }
        let cur = self.cursor;
        self.remove_span(cur, end);
        true
    }

    /// Delete to the previous word start (or the selection).
    pub fn delete_word_left(&mut self) -> (changed: bool)
        requires
            old(self).wf(),
        ensures
            final(self).wf(),
            final(self).spec_multiline() == old(self).spec_multiline(),
            final(self).spec_anchor() is None,
            ({
                let t = old(self).spec_text();
                let cur = old(self).spec_cursor();
                match sel_range(cur, old(self).spec_anchor()) {
                    Some((a, b)) => changed && final(self).spec_text() == spliced(t, a, b, Seq::empty())
                        && final(self).spec_cursor() == a,
                    None => {
                        let start = prev_word(t, cur);
                        if start == cur {
                            !changed && final(self).spec_text() == t && final(self).spec_cursor() == cur
                        } else {
                            changed && final(self).spec_text() == spliced(t, start, cur, Seq::empty())
                                && final(self).spec_cursor() == start
                        }
                    },
                }
            }),
    {
        if self.delete_selection() {
            return true;
        }
        let start = self.prev_word_of(self.cursor);
        if start == self.cursor {
            return false;
        }
        let cur = self.cursor;
        self.remove_span(start, cur);
        true
    }

    /// Delete to the line end (or the selection).
    pub fn delete_to_line_end(&mut self) -> (changed: bool)
        requires
            old(self).wf(),
        ensures
            final(self).wf(),
            final(self).spec_multiline() == old(self).spec_multiline(),
            final(self).spec_anchor() is None,
            ({
                let t = old(self).spec_text();
                let cur = old(self).spec_cursor();
                match sel_range(cur, old(self).spec_anchor()) {
                    Some((a, b)) => changed && final(self).spec_text() == spliced(t, a, b, Seq::empty())
                        && final(self).spec_cursor() == a,
                    None => {
                        let end = line_end(t, cur);
                        if end == cur {
                            !changed && final(self).spec_text() == t && final(self).spec_cursor() == cur
                        } else {
                            changed && final(self).spec_text() == spliced(t, cur, end, Seq::empty())
                                && final(self).spec_cursor() == cur
                        }
                    },
                }
            }),
    {
        if self.delete_selection() {
            return true;
        }
        let end = self.line_end_of(self.cursor);
        if end == self.cursor {
            return false;
        }
        let cur = self.cursor;
        self.remove_span(cur, end);
        true
    }

    /// Delete to the line start (or the selection).
    pub fn delete_to_line_start(&mut self) -> (changed: bool)
        requires
            old(self).wf(),
        ensures
            final(self).wf(),
            final(self).spec_multiline() == old(self).spec_multiline(),
            final(self).spec_anchor() is None,
            ({
                let t = old(self).spec_text();
                let cur = old(self).spec_cursor();
                match sel_range(cur, old(self).spec_anchor()) {
                    Some((a, b)) => changed && final(self).spec_text() == spliced(t, a, b, Seq::empty())
                        && final(self).spec_cursor() == a,
                    None => {
                        let start = line_start(t, cur);
                        if start == cur {
                            !changed && final(self).spec_text() == t && final(self).spec_cursor() == cur
                        } else {
                            changed && final(self).spec_text() == spliced(t, start, cur, Seq::empty())
                                && final(self).spec_cursor() == start
                        }
                    },
                }
            }),
    {
        if self.delete_selection() {
            return true;
        }
        let start = self.line_start_of(self.cursor);
        if start == self.cursor {
            return false;
        }
        let cur = self.cursor;
        self.remove_span(start, cur);
        true
    }
}

proof fn lemma_spliced_fits(t: Seq<char>, a: int, b: int)
    requires
        0 <= a <= b <= t.len(),
    ensures
        byte_len(spliced(t, a, b, Seq::empty())) <= byte_len(t),
        spliced(t, a, b, Seq::empty()).len() == t.len() - (b - a),
{
    assert(t =~= t.take(a) + (t.subrange(a, b) + t.skip(b)));
    lemma_byte_len_add(t.take(a), t.subrange(a, b) + t.skip(b));
    lemma_byte_len_add(t.subrange(a, b), t.skip(b));
    assert(spliced(t, a, b, Seq::empty()) =~= t.take(a) + t.skip(b));
    lemma_byte_len_add(t.take(a), t.skip(b));
}

proof fn lemma_spliced_insert_len(t: Seq<char>, a: int, ins: Seq<char>)
    requires
        0 <= a <= t.len(),
    ensures
        byte_len(spliced(t, a, a, ins)) == byte_len(t) + byte_len(ins),
        spliced(t, a, a, ins).len() == t.len() + ins.len(),
{
    assert(t =~= t.take(a) + t.skip(a));
    lemma_byte_len_add(t.take(a), t.skip(a));
    lemma_byte_len_add(t.take(a) + ins, t.skip(a));
    lemma_byte_len_add(t.take(a), ins);
}

proof fn lemma_delete_selection_shrinks(t: Seq<char>, cursor: int, anchor: Option<nat>)
    requires
        0 <= cursor <= t.len(),
        anchor matches Some(a) ==> a <= t.len(),
    ensures
        byte_len(after_delete_selection(t, cursor, anchor).0) <= byte_len(t),
        0 <= after_delete_selection(t, cursor, anchor).1 <= after_delete_selection(t, cursor, anchor).0.len(),
{
    match sel_range(cursor, anchor) {
        Some((a, b)) => {
            lemma_spliced_fits(t, a, b);
        },
        None => {},
    }
}

proof fn lemma_strip_step(s: Seq<char>, i: int)
    requires
        0 <= i < s.len(),
    ensures
        strip_newlines(s.take(i + 1)) == if s[i] != '\n' && s[i] != '\r' {
            strip_newlines(s.take(i)).push(s[i])
        } else {
            strip_newlines(s.take(i))
        },
{
    assert(s.take(i + 1) =~= s.take(i).push(s[i]));
    s.take(i).lemma_filter_push(s[i], |c: char| c != '\n' && c != '\r');
}

proof fn lemma_strip_byte_len(s: Seq<char>)
    ensures
        byte_len(strip_newlines(s)) <= byte_len(s),
    decreases s.len(),
{
    if s.len() > 0 {
        let p = s.drop_last();
        let c = s.last();
        lemma_strip_byte_len(p);
        assert(s =~= p.push(c));
        p.lemma_filter_push(c, |c: char| c != '\n' && c != '\r');
        if c != '\n' && c != '\r' {
            let q = strip_newlines(p).push(c);
            assert(q.drop_last() =~= strip_newlines(p));
            assert(byte_len(q) == byte_len(strip_newlines(p)) + utf8_width(c));
        }
    }
}

/// Each character takes at least one byte.
pub proof fn lemma_len_le_byte_len(s: Seq<char>)
    ensures
        s.len() <= byte_len(s),
    decreases s.len(),
{
    if s.len() > 0 {
        lemma_len_le_byte_len(s.drop_last());
    }
}

/// Distinct character indices have distinct byte offsets.
pub proof fn lemma_byte_of_injective(t: Seq<char>, i: int, j: int)
    requires
        0 <= i <= t.len(),
        0 <= j <= t.len(),
        byte_of(t, i) == byte_of(t, j),
    ensures
        i == j,
{
    if i != j {
        let (lo, hi) = if i < j { (i, j) } else { (j, i) };
        assert(t.take(hi) =~= t.take(lo) + t.subrange(lo, hi));
        lemma_byte_len_add(t.take(lo), t.subrange(lo, hi));
        lemma_len_le_byte_len(t.subrange(lo, hi));
    }
}

proof fn lemma_find_byte_range(t: Seq<char>, b: int, k: int)
    requires
        0 <= k,
    ensures
        0 <= find_byte(t, b, k) <= t.len(),
    decreases t.len() + 1 - k,
{
    if k <= t.len() && byte_of(t, k) <= b && byte_of(t, k) != b {
        lemma_find_byte_range(t, b, k + 1);
    }
}

pub proof fn lemma_flatten_concat(a: Seq<Seq<char>>, b: Seq<Seq<char>>)
    ensures
        (a + b).flatten() == a.flatten() + b.flatten(),
    decreases b.len(),
{
    if b.len() == 0 {
        assert(a + b =~= a);
        assert(a.flatten() + b.flatten() =~= a.flatten());
    } else {
        lemma_flatten_concat(a, b.drop_last());
        assert(a + b =~= (a + b.drop_last()).push(b.last()));
        assert(b =~= b.drop_last().push(b.last()));
        (a + b.drop_last()).lemma_flatten_push(b.last());
        b.drop_last().lemma_flatten_push(b.last());
        assert(a.flatten() + b.flatten() =~= (a.flatten() + b.drop_last().flatten()) + b.last());
    }
}

/// `String::capacity`: the bytes allocated, never fewer than the bytes
/// held. How many more the allocator gave is left unsaid.
#[verifier::external_body]
pub(crate) fn string_capacity(s: &String) -> (c: usize)
    ensures
        c >= byte_len(s@),
{
    s.capacity()
}

} // verus!
