//! The one editing core, shared by inputs, text areas, code editors,
//! editable cells and picker queries. [`TextEditorCore::apply`] is the only
//! mutation entry point, so a binding table over [`EditAction`] is the whole
//! key handling of a text control.

use core::ops::Range;

use vstd::prelude::*;

use crate::text::buffer::{
    byte_of, count_newlines, lemma_byte_of_injective, line_end, line_start, moved_anchor, next_boundary,
    next_word, offset_at_spec, pos_of_index, prev_boundary, prev_word, sat_usize, sel_range, snap_from,
    spliced, strip_newlines, after_delete_selection, buffer_debug_text, push_chars, CursorPos, TextBuffer,
};
use crate::text::measure::{decimal, decimal_digits};
use crate::text::unicode::{byte_len, is_control, spec_is_control, str_chars, string_push_str};

verus! {

/// A cursor motion.
#[derive(Clone, Copy, Debug, PartialEq, Eq, Structural)]
pub enum Motion {
    /// One grapheme left.
    Left,
    /// One grapheme right.
    Right,
    /// One word left.
    WordLeft,
    /// One word right.
    WordRight,
    /// Line start.
    Home,
    /// Line end.
    End,
    /// Document start.
    DocStart,
    /// Document end.
    DocEnd,
    /// Previous line, same column.
    Up,
    /// Next line, same column.
    Down,
}

/// Whether a motion extends the selection.
#[derive(Clone, Copy, Debug, PartialEq, Eq, Structural)]
pub enum Extend {
    /// Move the cursor, dropping any selection.
    No,
    /// Extend the selection from its anchor.
    Select,
}

/// An edit command; binding tables can hold it by value.
#[derive(Clone, Copy, Debug, PartialEq, Eq)]
pub enum EditAction<'a> {
    /// Insert a character at the cursor.
    Insert(char),
    /// Insert text at the cursor (paste).
    Paste(&'a str),
    /// Replace the whole text.
    SetText(&'a str),
    /// Move the cursor.
    Move(Motion, Extend),
    /// Delete the grapheme before the cursor.
    Backspace,
    /// Delete the grapheme after the cursor.
    Delete,
    /// Delete the word before the cursor.
    DeleteWordLeft,
    /// Delete to the line end.
    DeleteToLineEnd,
    /// Delete to the line start.
    DeleteToLineStart,
    /// Select everything.
    SelectAll,
    /// Drop the selection.
    ClearSelection,
    /// Insert a newline (multi-line only).
    Newline,
}

/// What an edit did.
#[derive(Clone, Copy, Debug, PartialEq, Eq, Structural)]
pub enum EditOutcome {
    /// The text changed.
    Changed,
    /// Only the cursor or selection moved.
    Moved,
    /// Nothing happened (a no-op at a boundary).
    Ignored,
    /// The action is not allowed here (a newline in single-line mode).
    Rejected,
}

impl EditOutcome {
    /// Whether the text changed.
    pub fn changed(self) -> (b: bool)
        ensures
            b == (self is Changed),
    {
        matches!(self, EditOutcome::Changed)
    }

    /// Whether anything visible changed.
    pub fn is_visible(self) -> (b: bool)
        ensures
            b == (self is Changed || self is Moved),
    {
        matches!(self, EditOutcome::Changed | EditOutcome::Moved)
    }
}

// ---------------------------------------------------------------------------
// The model of an edit.
// ---------------------------------------------------------------------------

/// What an editor holds, as character indices: the text, the cursor, the
/// selection anchor and whether newlines are accepted.
pub struct EditorState {
    pub text: Seq<char>,
    pub cursor: int,
    pub anchor: Option<nat>,
    pub multiline: bool,
}

/// The state with a new text, cursor and anchor.
pub open spec fn edited(s: EditorState, text: Seq<char>, cursor: int, anchor: Option<nat>) -> EditorState {
    EditorState { text, cursor, anchor, multiline: s.multiline }
}

/// Where a motion takes the cursor and the anchor; `None` when a vertical
/// motion has no line to go to.
pub open spec fn motion_target(s: EditorState, m: Motion, select: bool) -> Option<(int, Option<nat>)> {
    let t = s.text;
    let c = s.cursor;
    let keep = moved_anchor(s.anchor, c, select);
    let p = pos_of_index(t, c);
    match m {
        Motion::Left => match (select, sel_range(c, s.anchor)) {
            (false, Some((a, _))) => Some((a, None)),
            _ => Some((prev_boundary(t, c), keep)),
        },
        Motion::Right => match (select, sel_range(c, s.anchor)) {
            (false, Some((_, b))) => Some((b, None)),
            _ => Some((next_boundary(t, c), keep)),
        },
        Motion::WordLeft => Some((prev_word(t, c), keep)),
        Motion::WordRight => Some((next_word(t, c), keep)),
        Motion::Home => Some((line_start(t, c), keep)),
        Motion::End => Some((line_end(t, c), keep)),
        Motion::DocStart => Some((0, keep)),
        Motion::DocEnd => Some((t.len() as int, keep)),
        Motion::Up => if !s.multiline || p.line == 0 {
            None
        } else {
            Some((snap_from(t, offset_at_spec(t, p.line - 1, p.col as int), 0), keep))
        },
        Motion::Down => {
            let lines = sat_usize(count_newlines(t, t.len() as int), 1);
            if !s.multiline || sat_usize(p.line as int, 1) >= lines {
                None
            } else {
                Some((snap_from(t, offset_at_spec(t, p.line + 1, p.col as int), 0), keep))
            }
        },
    }
}

/// A deletion that removes the selection if there is one, else the span
/// between `from` and `to` around the cursor (one of them is the cursor).
pub open spec fn delete_or_selection(s: EditorState, from: int, to: int) -> EditorState {
    match sel_range(s.cursor, s.anchor) {
        Some((a, b)) => edited(s, spliced(s.text, a, b, Seq::empty()), a, None),
        None => if from == to {
            edited(s, s.text, s.cursor, None)
        } else {
            edited(s, spliced(s.text, from, to, Seq::empty()), from, None)
        },
    }
}

/// The state after typing `ins` over the selection.
pub open spec fn typed(s: EditorState, ins: Seq<char>) -> EditorState {
    let (t1, c1) = after_delete_selection(s.text, s.cursor, s.anchor);
    edited(s, spliced(t1, c1, c1, ins), c1 + ins.len(), None)
}

/// The state an action leads to, or `None` when the editor refuses it (a
/// newline in a single-line editor, a control character).
pub open spec fn next_state(s: EditorState, a: EditAction) -> Option<EditorState> {
    let t = s.text;
    let c = s.cursor;
    match a {
        EditAction::Insert(ch) => if ch == '\n' {
            if s.multiline { Some(typed(s, seq!['\n'])) } else { None }
        } else if spec_is_control(ch) {
            None
        } else {
            Some(typed(s, seq![ch]))
        },
        EditAction::Newline => if s.multiline { Some(typed(s, seq!['\n'])) } else { None },
        EditAction::Paste(p) => Some(typed(s, if s.multiline { p@ } else { strip_newlines(p@) })),
        EditAction::SetText(p) => if t == p@ { Some(s) } else { Some(edited(s, p@, p@.len() as int, None)) },
        EditAction::Move(m, ext) => match motion_target(s, m, ext is Select) {
            None => Some(s),
            Some((c2, a2)) => Some(edited(s, t, c2, a2)),
        },
        EditAction::Backspace => Some(delete_or_selection(s, prev_boundary(t, c), c)),
        EditAction::Delete => Some(delete_or_selection(s, c, next_boundary(t, c))),
        EditAction::DeleteWordLeft => Some(delete_or_selection(s, prev_word(t, c), c)),
        EditAction::DeleteToLineEnd => Some(delete_or_selection(s, c, line_end(t, c))),
        EditAction::DeleteToLineStart => Some(delete_or_selection(s, line_start(t, c), c)),
        EditAction::SelectAll => if t.len() == 0 { Some(s) } else { Some(edited(s, t, t.len() as int, Some(0))) },
        EditAction::ClearSelection => if sel_range(c, s.anchor) is None { Some(s) } else { Some(edited(s, t, c, None)) },
    }
}

/// What an accepted edit from `s` to `r` is: `Changed` when the text
/// changed, `Moved` when only the cursor or the selection did, `Ignored`
/// when nothing did.
pub open spec fn outcome_of(s: EditorState, r: EditorState) -> EditOutcome {
    if r.text != s.text {
        EditOutcome::Changed
    } else if r.cursor != s.cursor || sel_range(r.cursor, r.anchor) != sel_range(s.cursor, s.anchor) {
        EditOutcome::Moved
    } else {
        EditOutcome::Ignored
    }
}

/// What [`TextEditorCore::apply`] does to a state, and what it answers.
pub open spec fn apply_result(s: EditorState, a: EditAction) -> (EditorState, EditOutcome) {
    match next_state(s, a) {
        None => (s, EditOutcome::Rejected),
        Some(r) => (r, outcome_of(s, r)),
    }
}

/// The cursor and the anchor lie in the text.
pub open spec fn valid(s: EditorState) -> bool {
    &&& 0 <= s.cursor <= s.text.len()
    &&& s.anchor matches Some(a) ==> a <= s.text.len()
}

/// An action the editor refuses leaves it exactly as it was.
pub proof fn law_rejected_changes_nothing(s: EditorState, a: EditAction)
    ensures
        apply_result(s, a).1 is Rejected ==> apply_result(s, a).0 == s,
{
}

/// An edit reports `Changed` exactly when the text changed.
pub proof fn law_changed_iff_the_text_changed(s: EditorState, a: EditAction)
    ensures
        !(apply_result(s, a).1 is Rejected) ==> ((apply_result(s, a).1 is Changed) <==> apply_result(s, a).0.text != s.text),
{
}

/// An action that reports `Moved` leaves the text as it was and moves the
/// cursor or changes the selection.
pub proof fn law_moved_keeps_text(s: EditorState, a: EditAction)
    ensures
        apply_result(s, a).1 is Moved ==> {
            let r = apply_result(s, a).0;
            &&& r.text == s.text
            &&& (r.cursor != s.cursor || sel_range(r.cursor, r.anchor) != sel_range(s.cursor, s.anchor))
        },
{
}

/// An action that reports `Ignored` changes neither the text, the cursor
/// nor the selection.
pub proof fn law_ignored_changes_nothing_visible(s: EditorState, a: EditAction)
    ensures
        apply_result(s, a).1 is Ignored ==> {
            let r = apply_result(s, a).0;
            &&& r.text == s.text
            &&& r.cursor == s.cursor
            &&& sel_range(r.cursor, r.anchor) == sel_range(s.cursor, s.anchor)
        },
{
}

/// The room an action needs in a `usize` byte count.
pub open spec fn fits(s: EditorState, a: EditAction) -> bool {
    match a {
        EditAction::Insert(_) | EditAction::Newline => byte_len(s.text) + 4 <= usize::MAX,
        EditAction::Paste(p) => byte_len(s.text) + byte_len(p@) <= usize::MAX,
        _ => true,
    }
}

/// The horizontal scroll that keeps column `col` visible in a viewport
/// `width` columns wide, starting from scroll `h`.
pub open spec fn scrolled(h: int, col: int, width: int) -> int {
    if width == 0 || col < h {
        col
    } else if col >= (if h + width > u16::MAX { u16::MAX as int } else { h + width }) {
        let next = if col + 1 > u16::MAX { u16::MAX as int } else { col + 1 };
        if next - width < 0 { 0 } else { next - width }
    } else {
        h
    }
}

/// Buffer, cursor, selection, horizontal scroll and the multi-line flag.
pub struct TextEditorCore {
    buf: TextBuffer,
    hscroll: u16,
}

impl TextEditorCore {
    /// What the editor holds.
    pub closed spec fn state(&self) -> EditorState {
        EditorState {
            text: self.buf.spec_text(),
            cursor: self.buf.spec_cursor(),
            anchor: self.buf.spec_anchor(),
            multiline: self.buf.spec_multiline(),
        }
    }

    /// The horizontal scroll, in columns.
    pub closed spec fn spec_hscroll(&self) -> u16 {
        self.hscroll
    }

    /// The buffer is well formed.
    pub closed spec fn wf(&self) -> bool {
        self.buf.wf()
    }

    /// A single-line editor with the cursor at the end.
    pub fn single(text: &str) -> (e: TextEditorCore)
        ensures
            e.wf(),
            e.state() == (EditorState { text: text@, cursor: text@.len() as int, anchor: None, multiline: false }),
            e.spec_hscroll() == 0,
    {
        TextEditorCore { buf: TextBuffer::single(text.to_owned()), hscroll: 0 }
    }

    /// A multi-line editor with the cursor at the end.
    pub fn multi(text: &str) -> (e: TextEditorCore)
        ensures
            e.wf(),
            e.state() == (EditorState { text: text@, cursor: text@.len() as int, anchor: None, multiline: true }),
            e.spec_hscroll() == 0,
    {
        TextEditorCore { buf: TextBuffer::multi(text.to_owned()), hscroll: 0 }
    }

    /// The text.
    pub fn text(&self) -> (s: &str)
        requires
            self.wf(),
        ensures
            s@ == self.state().text,
    {
        self.buf.text()
    }

    /// Whether the text is empty.
    pub fn is_empty(&self) -> (b: bool)
        requires
            self.wf(),
        ensures
            b == (self.state().text.len() == 0),
    {
        self.buf.is_empty()
    }

    /// Whether newlines are accepted.
    pub fn is_multiline(&self) -> (b: bool)
        ensures
            b == self.state().multiline,
    {
        self.buf.is_multiline()
    }

    /// The selection as a byte range, if non-empty.
    pub fn selection(&self) -> (r: Option<Range<usize>>)
        requires
            self.wf(),
        ensures
            match sel_range(self.state().cursor, self.state().anchor) {
                Some((a, b)) => r matches Some(rg) && rg.start == byte_of(self.state().text, a)
                    && rg.end == byte_of(self.state().text, b),
                None => r is None,
            },
    {
        self.buf.selection()
    }

    /// The selected text, if any.
    pub fn selected_text(&self) -> (r: Option<&str>)
        requires
            self.wf(),
        ensures
            match sel_range(self.state().cursor, self.state().anchor) {
                Some((a, b)) => r matches Some(s) && s@ == self.state().text.subrange(a, b),
                None => r is None,
            },
    {
        self.buf.selected_text()
    }

    /// The cursor as `(line, display column)`.
    pub fn cursor_pos(&self) -> (p: CursorPos)
        requires
            self.wf(),
        ensures
            p == pos_of_index(self.state().text, self.state().cursor),
    {
        self.buf.cursor_pos()
    }

    /// The cursor byte offset.
    pub fn cursor_offset(&self) -> (o: usize)
        requires
            self.wf(),
        ensures
            o == byte_of(self.state().text, self.state().cursor),
    {
        self.buf.cursor_offset()
    }

    /// The horizontal scroll, in columns.
    pub fn hscroll(&self) -> (h: u16)
        ensures
            h == self.spec_hscroll(),
    {
        self.hscroll
    }

    /// Keep the cursor visible inside a viewport `width` columns wide;
    /// returns the resulting horizontal scroll.
    pub fn scroll_into_view(&mut self, width: u16) -> (h: u16)
        requires
            old(self).wf(),
        ensures
            final(self).wf(),
            final(self).state() == old(self).state(),
            h == final(self).spec_hscroll(),
            ({
                let col = pos_of_index(old(self).state().text, old(self).state().cursor).col;
                let c = if col > u16::MAX { u16::MAX as int } else { col as int };
                h == scrolled(old(self).spec_hscroll() as int, c, width as int)
            }),
    {
        let full = self.buf.cursor_pos().col;
        let col: u16 = if full > 0xffff { 0xffff } else { full as u16 };
        if width == 0 || col < self.hscroll {
            self.hscroll = col;
        } else if col >= self.hscroll.saturating_add(width) {
            self.hscroll = col.saturating_add(1).saturating_sub(width);
        }
        self.hscroll
    }

    /// The buffer's line count.
    pub fn line_count(&self) -> (r: usize)
        requires
            self.wf(),
        ensures
            r == sat_usize(count_newlines(self.state().text, self.state().text.len() as int), 1),
    {
        self.buf.line_count()
    }

    /// Byte offset of `(line, display column)`.
    pub fn offset_at(&self, line: usize, col: usize) -> (o: usize)
        requires
            self.wf(),
        ensures
            o == offset_at_spec(self.state().text, line as int, col as int),
    {
        self.buf.offset_at(line, col)
    }

    /// Place the cursor at `(line, col)`.
    pub fn set_cursor_line_col(&mut self, line: usize, col: usize)
        requires
            old(self).wf(),
        ensures
            final(self).wf(),
            final(self).spec_hscroll() == old(self).spec_hscroll(),
            final(self).state() == edited(old(self).state(), old(self).state().text,
                snap_from(old(self).state().text, offset_at_spec(old(self).state().text, line as int, col as int), 0),
                None),
    {
        self.buf.set_cursor_line_col(line, col);
    }

    /// Select `a..b` (byte offsets, either order), cursor at `b`.
    pub fn select_range(&mut self, a: usize, b: usize)
        requires
            old(self).wf(),
        ensures
            final(self).wf(),
            final(self).spec_hscroll() == old(self).spec_hscroll(),
            final(self).state() == edited(old(self).state(), old(self).state().text,
                snap_from(old(self).state().text, b as int, 0),
                Some(snap_from(old(self).state().text, a as int, 0) as nat)),
    {
        self.buf.select_range(a, b);
    }

    /// Overwrite the bytes, then clear; the scroll returns to zero.
    pub fn zeroize(&mut self)
        requires
            old(self).wf(),
        ensures
            final(self).wf(),
            final(self).state() == edited(old(self).state(), Seq::empty(), 0, None),
            final(self).spec_hscroll() == 0,
    {
        self.buf.zeroize();
        self.hscroll = 0;
    }

    /// How the editor prints for debugging: its buffer redacted and its
    /// scroll.
    pub fn debug_string(&self) -> (s: String)
        requires
            self.wf(),
        ensures
            s@ == "TextEditorCore { buf: "@ + buffer_debug_text(self.state().text, self.state().cursor,
                self.state().anchor, self.state().multiline) + ", hscroll: "@
                + decimal_digits(self.spec_hscroll() as nat) + " }"@,
    {
        let mut s = String::new();
        string_push_str(&mut s, "TextEditorCore { buf: ");
        let b = self.buf.debug_string();
        string_push_str(&mut s, b.as_str());
        string_push_str(&mut s, ", hscroll: ");
        push_chars(&mut s, &decimal(self.hscroll as usize));
        string_push_str(&mut s, " }");
        s
    }

    /// A copy of the editor.
    pub fn clone_plain(&self) -> (c: TextEditorCore)
        requires
            self.wf(),
        ensures
            c.wf(),
            c.state() == self.state(),
            c.spec_hscroll() == self.spec_hscroll(),
    {
        TextEditorCore { buf: self.buf.clone_plain(), hscroll: self.hscroll }
    }

    /// The only mutation entry point: `Changed` when the text changed,
    /// `Moved` when only the cursor or the selection moved, `Ignored` when
    /// nothing changed, `Rejected` when the action is refused.
    pub fn apply(&mut self, a: EditAction) -> (out: EditOutcome)
        requires
            old(self).wf(),
            fits(old(self).state(), a),
        ensures
            final(self).wf(),
            final(self).spec_hscroll() == old(self).spec_hscroll(),
            (final(self).state(), out) == apply_result(old(self).state(), a),
    {
        let before = self.clone_plain();
        if self.step(a) {
            return EditOutcome::Rejected;
        }
        outcome_between(&before, self)
    }

    /// Perform an action; `true` when it is refused, which changes nothing.
    fn step(&mut self, a: EditAction) -> (rejected: bool)
        requires
            old(self).wf(),
            fits(old(self).state(), a),
        ensures
            final(self).wf(),
            final(self).spec_hscroll() == old(self).spec_hscroll(),
            rejected == (next_state(old(self).state(), a) is None),
            rejected ==> final(self).state() == old(self).state(),
            !rejected ==> next_state(old(self).state(), a) == Some(final(self).state()),
    {
        match a {
            EditAction::Insert(c) => {
                if c == '\n' {
                    self.newline()
                } else if is_control(c) {
                    true
                } else {
                    self.buf.insert_char(c);
                    false
                }
            },
            EditAction::Newline => self.newline(),
            EditAction::Paste(s) => {
                self.buf.insert_str(s);
                false
            },
            EditAction::SetText(s) => {
                if !str_eq(self.buf.text(), s) {
                    self.buf.set_text(s);
                }
                false
            },
            EditAction::Move(m, ext) => {
                self.motion(m, ext);
                false
            },
            EditAction::Backspace => {
                self.buf.backspace();
                false
            },
            EditAction::Delete => {
                self.buf.delete();
                false
            },
            EditAction::DeleteWordLeft => {
                self.buf.delete_word_left();
                false
            },
            EditAction::DeleteToLineEnd => {
                self.buf.delete_to_line_end();
                false
            },
            EditAction::DeleteToLineStart => {
                self.buf.delete_to_line_start();
                false
            },
            EditAction::SelectAll => {
                if !self.buf.is_empty() {
                    self.buf.select_all();
                }
                false
            },
            EditAction::ClearSelection => {
                if self.buf.selection().is_some() {
                    self.buf.clear_selection();
                }
                false
            },
        }
    }

    fn newline(&mut self) -> (rejected: bool)
        requires
            old(self).wf(),
            byte_len(old(self).state().text) + 4 <= usize::MAX,
        ensures
            final(self).wf(),
            final(self).spec_hscroll() == old(self).spec_hscroll(),
            rejected == (next_state(old(self).state(), EditAction::Newline) is None),
            rejected ==> final(self).state() == old(self).state(),
            !rejected ==> next_state(old(self).state(), EditAction::Newline) == Some(final(self).state()),
    {
        if self.buf.is_multiline() {
            self.buf.insert_char('\n');
            false
        } else {
            true
        }
    }

    fn motion(&mut self, m: Motion, ext: Extend)
        requires
            old(self).wf(),
        ensures
            final(self).wf(),
            final(self).spec_hscroll() == old(self).spec_hscroll(),
            next_state(old(self).state(), EditAction::Move(m, ext)) == Some(final(self).state()),
    {
        let select = match ext {
            Extend::Select => true,
            Extend::No => false,
        };
        match m {
            Motion::Left => self.buf.move_left(select),
            Motion::Right => self.buf.move_right(select),
            Motion::WordLeft => self.buf.move_word_left(select),
            Motion::WordRight => self.buf.move_word_right(select),
            Motion::Home => self.buf.move_home(select),
            Motion::End => self.buf.move_end(select),
            Motion::DocStart => self.buf.move_doc_start(select),
            Motion::DocEnd => self.buf.move_doc_end(select),
            Motion::Up => {
                self.buf.move_up(select);
            },
            Motion::Down => {
                self.buf.move_down(select);
            },
        }
    }
}

/// What an accepted edit from `before` to `after` is.
fn outcome_between(before: &TextEditorCore, after: &TextEditorCore) -> (out: EditOutcome)
    requires
        before.wf(),
        after.wf(),
    ensures
        out == outcome_of(before.state(), after.state()),
{
    if !str_eq(before.text(), after.text()) {
        return EditOutcome::Changed;
    }
    let same = before.cursor_offset() == after.cursor_offset() && same_range(&before.selection(), &after.selection());
    proof {
        let t = before.state().text;
        let s0 = before.state();
        let s1 = after.state();
        before.buf.lemma_wf();
        after.buf.lemma_wf();
        if same {
            lemma_byte_of_injective(t, s0.cursor, s1.cursor);
            match (sel_range(s0.cursor, s0.anchor), sel_range(s1.cursor, s1.anchor)) {
                (Some((a0, b0)), Some((a1, b1))) => {
                    lemma_byte_of_injective(t, a0, a1);
                    lemma_byte_of_injective(t, b0, b1);
                },
                _ => {},
            }
        }
    }
    if same {
        EditOutcome::Ignored
    } else {
        EditOutcome::Moved
    }
}

/// Whether two optional byte ranges are equal.
fn same_range(a: &Option<Range<usize>>, b: &Option<Range<usize>>) -> (r: bool)
    ensures
        r == (match (a, b) {
            (Some(x), Some(y)) => x.start == y.start && x.end == y.end,
            (None, None) => true,
            _ => false,
        }),
{
    match (a, b) {
        (Some(x), Some(y)) => x.start == y.start && x.end == y.end,
        (None, None) => true,
        _ => false,
    }
}

/// Whether two strings hold the same characters.
fn str_eq(a: &str, b: &str) -> (r: bool)
    ensures
        r == (a@ == b@),
{
    let x = str_chars(a);
    let y = str_chars(b);
    if x.len() != y.len() {
        return false;
    }
    let mut i: usize = 0;
    while i < x.len()
        invariant
            x@ == a@,
            y@ == b@,
            x@.len() == y@.len(),
            i <= x@.len(),
            forall|j: int| 0 <= j < i ==> x@[j] == y@[j],
        decreases x@.len() - i,
    {
        if x[i] != y[i] {
            return false;
        }
        i = i + 1;
    }
    assert(x@ =~= y@);
    true
}

} // verus!
