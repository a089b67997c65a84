use junie_tui::text::buffer::{CursorPos, TextBuffer};
use junie_tui::text::editor::{EditAction, EditOutcome, Extend, Motion, TextEditorCore};
use junie_tui::text::measure::{grapheme_width, is_word_char, thousands, truncate, truncate_middle, width, wrap};
use ratatui_core::buffer::CellWidth;
use unicode_segmentation::UnicodeSegmentation;

fn single(s: &str) -> TextBuffer {
    TextBuffer::single(s.to_string())
}

fn multi(s: &str) -> TextBuffer {
    TextBuffer::multi(s.to_string())
}

#[test]
fn insert_and_move_by_grapheme() {
    let mut b = single("");
    for c in "héllo".chars() {
        b.insert_char(c);
    }
    assert_eq!(b.text(), "héllo");
    b.move_left(false);
    b.move_left(false);
    b.insert_char('X');
    assert_eq!(b.text(), "hélXlo");
    b.move_home(false);
    b.delete();
    assert_eq!(b.text(), "élXlo");
    b.move_end(false);
    b.backspace();
    assert_eq!(b.text(), "élXl");
    let mut z = single("e\u{301}!");
    z.move_end(false);
    z.move_left(false);
    z.move_left(false);
    assert_eq!(z.cursor_offset(), 0);
}

#[test]
fn selection_replaces_on_insert() {
    let mut b = single("hello world");
    b.move_home(false);
    for _ in 0..5 {
        b.move_right(true);
    }
    assert_eq!(b.selected_text(), Some("hello"));
    b.insert_str("bye");
    assert_eq!(b.text(), "bye world");
    assert!(b.selection().is_none());
}

#[test]
fn word_motion_and_deletion() {
    let mut b = single("alpha beta  gamma");
    b.move_word_left(false);
    assert_eq!(b.cursor_offset(), 12);
    b.move_word_left(false);
    assert_eq!(b.cursor_offset(), 6);
    b.move_home(false);
    b.move_word_right(false);
    assert_eq!(b.cursor_offset(), 5);
    b.move_end(false);
    b.delete_word_left();
    assert_eq!(b.text(), "alpha beta  ");
}

#[test]
fn word_chars_are_consistent_between_buffer_and_viewport() {
    let mut b = single("snake_case-kebab");
    b.move_home(false);
    b.move_word_right(false);
    assert_eq!(b.cursor_offset(), "snake_case".len());
    assert!(is_word_char('_') && !is_word_char('-'));
}

#[test]
fn multiline_vertical_motion_keeps_column() {
    let mut b = multi("first line\nsecond\nthird line here");
    b.move_doc_start(false);
    b.move_end(false);
    assert_eq!(b.cursor_pos(), CursorPos { line: 0, col: 10 });
    assert!(b.move_down(false));
    assert_eq!(b.cursor_pos(), CursorPos { line: 1, col: 6 });
    assert!(b.move_down(false));
    assert_eq!(b.cursor_pos(), CursorPos { line: 2, col: 6 });
    assert!(!b.move_down(false));
    assert!(b.move_up(false));
    assert!(b.move_up(false));
    assert!(!b.move_up(false));
    assert_eq!(b.selection_lines(), (0, 0));
}

#[test]
fn single_line_rejects_newline() {
    let mut b = single("a");
    assert!(!b.insert_char('\n'));
    assert_eq!(b.text(), "a");
    b.insert_str("b\nc");
    assert_eq!(b.text(), "abc");
    let mut m = multi("a");
    assert!(m.insert_char('\n'));
    assert_eq!(m.line_count(), 2);
    assert!(m.move_up(false));
    assert!(!m.move_up(false));
}

#[test]
fn buffer_wide_characters_count_as_two_columns() {
    let b = single("日本");
    assert_eq!(b.cursor_pos().col, 4);
    assert_eq!(b.offset_at(0, 2), 3);
    assert_eq!(b.offset_at(0, 1), 0);
    assert_eq!(b.width(), 4);
}

#[test]
fn pos_of_and_offset_at_round_trip() {
    let text = "ab\n日本語\ne\u{301}xyz";
    let b = multi(text);
    for (off, _) in text.char_indices() {
        let p = TextBuffer::pos_of(text, off);
        let back = b.offset_at(p.line, p.col);
        let snapped = TextBuffer::pos_of(text, back);
        assert_eq!(snapped, p, "offset {off}");
    }
    assert_eq!(b.offset_at(99, 0), text.len());
}

#[test]
fn buffer_zeroize_overwrites_before_drop() {
    let mut b = single("hunter2");
    b.select_all();
    b.zeroize();
    assert!(b.is_empty());
    assert_eq!(b.cursor_offset(), 0);
    assert!(b.selection().is_none());
    assert!(!single("hunter2").debug_string().contains("hunter2"));
    b.set_text("again");
    assert_eq!(b.text(), "again");
}

fn forced_capacity(text: &str) -> TextBuffer {
    let mut owned = String::with_capacity(128);
    owned.push_str(text);
    TextBuffer::single(owned)
}

fn forced_multiline_capacity(text: &str) -> TextBuffer {
    let mut owned = String::with_capacity(128);
    owned.push_str(text);
    TextBuffer::multi(owned)
}

fn assert_rebuilt(mut buffer: TextBuffer, expected: &str, mutate: impl FnOnce(&mut TextBuffer) -> bool) {
    let old_capacity = buffer.capacity();
    assert!(mutate(&mut buffer));
    assert_eq!(buffer.text(), expected);
    assert!(
        buffer.capacity() < old_capacity,
        "mutation retained old capacity: {} >= {old_capacity}",
        buffer.capacity()
    );
}

#[test]
fn deletion_and_selection_replacement_release_old_capacity() {
    assert_rebuilt(forced_capacity("hunter2"), "hunter", TextBuffer::backspace);
    assert_rebuilt(forced_capacity("hunter2"), "unter2", |b| {
        b.move_doc_start(false);
        b.delete()
    });
    assert_rebuilt(forced_capacity("hunter2"), "", |b| {
        b.select_all();
        b.delete_selection()
    });
    assert_rebuilt(forced_capacity("hunter2"), "x", |b| {
        b.select_all();
        b.insert_str("x")
    });
    assert_rebuilt(forced_capacity("hunter2"), "", TextBuffer::delete_word_left);
    assert_rebuilt(forced_capacity("hunter2"), "x", |b| {
        b.set_text("x");
        true
    });
}

#[test]
fn multiline_deletions_release_old_capacity() {
    assert_rebuilt(forced_multiline_capacity("first\nsecret"), "\nsecret", |b| {
        b.move_doc_start(false);
        b.delete_to_line_end()
    });
    assert_rebuilt(forced_multiline_capacity("first\nsecret"), "first\ncret", |b| {
        b.set_cursor_line_col(1, 2);
        b.delete_to_line_start()
    });
}

#[test]
fn zeroize_releases_capacity_after_deleted_text() {
    let mut b = single("hunter2");
    b.set_text("x");
    b.zeroize();
    assert_eq!(b.text(), "");
    assert_eq!(b.capacity(), 0);
}

#[test]
fn insertion_growth_uses_a_wiped_replacement_allocation() {
    let mut b = single("a");
    let old_capacity = b.capacity();
    b.insert_str(&"x".repeat(old_capacity.saturating_add(1)));
    assert!(b.text().len() > old_capacity);
    assert_eq!(b.text().chars().next(), Some('a'));
}

#[test]
fn buffer_debug_string_shows_lengths_not_text() {
    let mut b = single("hunter2");
    b.select_all();
    assert_eq!(
        b.debug_string(),
        "TextBuffer { text: \"[redacted]\", len: 7, cursor: 7, anchor: Some(0), multiline: false }"
    );
}

#[test]
fn editor_apply_is_the_only_mutation_entry_point() {
    let mut e = TextEditorCore::single("ab");
    assert_eq!(e.apply(EditAction::Insert('c')), EditOutcome::Changed);
    assert_eq!(e.text(), "abc");
    assert_eq!(e.apply(EditAction::Move(Motion::Home, Extend::No)), EditOutcome::Moved);
    assert_eq!(e.apply(EditAction::Move(Motion::Left, Extend::No)), EditOutcome::Ignored);
    assert_eq!(e.apply(EditAction::Newline), EditOutcome::Rejected);
    assert_eq!(e.apply(EditAction::Insert('\u{7}')), EditOutcome::Rejected);
    assert_eq!(e.apply(EditAction::Move(Motion::End, Extend::Select)), EditOutcome::Moved);
    assert_eq!(e.selected_text(), Some("abc"));
    assert_eq!(e.apply(EditAction::Paste("z")), EditOutcome::Changed);
    assert_eq!(e.text(), "z");
    assert_eq!(e.apply(EditAction::SetText("z")), EditOutcome::Ignored);
    assert_eq!(e.apply(EditAction::SetText("long text")), EditOutcome::Changed);
    assert_eq!(e.apply(EditAction::SelectAll), EditOutcome::Moved);
    assert_eq!(e.apply(EditAction::ClearSelection), EditOutcome::Moved);
    assert_eq!(e.apply(EditAction::ClearSelection), EditOutcome::Ignored);
    assert_eq!(e.apply(EditAction::Backspace), EditOutcome::Changed);
    assert_eq!(e.apply(EditAction::DeleteToLineStart), EditOutcome::Changed);
    assert!(e.is_empty());
    assert_eq!(e.apply(EditAction::Delete), EditOutcome::Ignored);
    let mut m = TextEditorCore::multi("a\nb");
    assert_eq!(m.apply(EditAction::Move(Motion::Up, Extend::No)), EditOutcome::Moved);
    assert_eq!(m.apply(EditAction::Move(Motion::Up, Extend::No)), EditOutcome::Ignored);
    assert_eq!(m.apply(EditAction::Newline), EditOutcome::Changed);
    assert_eq!(m.line_count(), 3);
}

#[test]
fn hscroll_follows_the_cursor() {
    let mut e = TextEditorCore::single("0123456789");
    assert_eq!(e.scroll_into_view(4), 7);
    e.apply(EditAction::Move(Motion::Home, Extend::No));
    assert_eq!(e.scroll_into_view(4), 0);
    assert_eq!(e.scroll_into_view(0), 0);
    e.zeroize();
    assert!(e.is_empty() && e.hscroll() == 0);
    assert!(!e.debug_string().contains("0123"));
}

#[test]
fn rejected_and_moved_leave_the_text_alone() {
    let mut e = TextEditorCore::single("abc");
    assert_eq!(e.apply(EditAction::Newline), EditOutcome::Rejected);
    assert_eq!(e.text(), "abc");
    assert_eq!(e.apply(EditAction::Move(Motion::WordLeft, Extend::Select)), EditOutcome::Moved);
    assert_eq!(e.text(), "abc");
    assert_eq!(e.selected_text(), Some("abc"));
    assert_eq!(e.apply(EditAction::Move(Motion::DocStart, Extend::Select)), EditOutcome::Ignored);
    assert!(EditOutcome::Changed.changed() && !EditOutcome::Moved.changed());
    assert!(EditOutcome::Moved.is_visible() && !EditOutcome::Ignored.is_visible());
}

#[test]
fn paste_over_a_selection_with_nothing_to_insert_still_removes_it() {
    let mut e = TextEditorCore::single("abc");
    e.apply(EditAction::SelectAll);
    assert_eq!(e.apply(EditAction::Paste("\n")), EditOutcome::Changed);
    assert_eq!(e.text(), "");
    let mut s = TextEditorCore::single("ab");
    assert_eq!(s.apply(EditAction::SelectAll), EditOutcome::Moved);
    assert_eq!(s.apply(EditAction::SelectAll), EditOutcome::Ignored);
    assert_eq!(s.apply(EditAction::Insert('\u{85}')), EditOutcome::Rejected);
    assert_eq!(s.apply(EditAction::Insert('\u{e9}')), EditOutcome::Changed);
    assert_eq!(s.text(), "\u{e9}");
}

#[test]
fn measure_wide_characters_count_as_two_columns() {
    assert_eq!(width("日本"), 4);
    assert_eq!(grapheme_width("漢"), 2);
}

#[test]
fn combining_marks_are_one_grapheme() {
    assert_eq!("e\u{301}x".graphemes(true).count(), 2);
    assert_eq!(width("e\u{301}"), 1);
}

#[test]
fn zwj_emoji_is_one_grapheme() {
    let fam = "\u{1F468}\u{200D}\u{1F469}\u{200D}\u{1F467}\u{200D}\u{1F466}";
    assert_eq!(fam.graphemes(true).count(), 1);
    assert_eq!(width(fam), 2);
}

#[test]
fn truncates_with_ellipsis_and_middle() {
    assert_eq!(truncate("hello world", 5), "hell…");
    assert_eq!(truncate("hi", 5), "hi");
    assert_eq!(truncate("日本語", 3), "日…");
    assert_eq!(truncate("abc", 0), "");
    assert_eq!(truncate_middle("very_long_identifier_name", 12), "very_lon…ame");
    assert_eq!(truncate_middle("short", 12), "short");
    assert_eq!(truncate_middle("abcdefghij", 4), "abc…");
    assert_eq!(thousands(1_203_338), "1,203,338");
    assert_eq!(thousands(999), "999");
}

#[test]
fn wraps_words_and_hard_wraps_long_tokens() {
    assert_eq!(wrap("aa bb cc", 5), vec!["aa bb", "cc"]);
    assert_eq!(wrap("abcdefgh", 3), vec!["abc", "def", "gh"]);
    assert_eq!(wrap("a\nb", 10), vec!["a", "b"]);
    assert_eq!(wrap("", 10), vec![""]);
    assert_eq!(wrap("日本語です", 4), vec!["日本", "語で", "す"]);
}

#[test]
fn control_characters_take_no_columns() {
    assert_eq!(width("\u{7}"), 0);
    assert_eq!(width("\r\n"), 0);
    assert_eq!(width("a\u{7}b"), 2);
}

/// Columns `Buffer::set_stringn` actually consumes for `s`.
fn consumed(s: &str) -> u16 {
    let mut buf = ratatui_core::buffer::Buffer::empty(ratatui_core::layout::Rect::new(0, 0, 200, 1));
    let (x, _) = buf.set_stringn(0, 0, s, 200, ratatui_core::style::Style::new());
    x
}

#[test]
fn width_matches_ratatui_cell_width() {
    let corpus: &[&str] = &[
        "",
        "a",
        "hello",
        "ｶﾞ",
        "あ",
        "a\u{FF9E}",
        "日本語",
        "\u{1F468}\u{200D}\u{1F469}\u{200D}\u{1F467}\u{200D}\u{1F466}",
        "e\u{301}",
        "\u{00E9}",
        "abc\u{FF9F}x",
    ];
    for s in corpus {
        assert_eq!(width(s), s.cell_width(), "cell_width disagrees on {s:?}");
        assert_eq!(width(s), consumed(s), "set_stringn disagrees on {s:?}");
    }
    // control-bearing strings: the writer drops them; `width` agrees
    // with the writer, which is the columns layout must reserve
    for s in ["\r\n", "\u{7}", "a\u{7}b", "x\r\ny"] {
        assert_eq!(width(s), consumed(s), "set_stringn disagrees on {s:?}");
    }
    assert_eq!(width("\u{7}"), 0);
    assert_eq!(width("\r\n"), 0);
}

#[test]
fn wrapping_keeps_every_line_break_and_truncation_keeps_both_ends() {
    let lines = wrap("a\n\nb c", 1);
    assert_eq!(lines, vec!["a", "", "b", "c"]);
    assert!(lines.len() >= 3);
    let s = "very_long_identifier_name";
    let r = truncate_middle(s, 12);
    let (head, tail) = r.split_once('\u{2026}').expect("an ellipsis");
    assert!(s.starts_with(head) && s.ends_with(tail));
    assert_eq!(r, "very_lon\u{2026}ame");
}
