use junie_tui::theme::glyph::{GlyphRole, GlyphSet, LineSet, ScrollbarSet};
use ratatui_core::symbols::scrollbar;

fn scroll_of(s: scrollbar::Set<'static>) -> ScrollbarSet {
    ScrollbarSet { track: s.track, thumb: s.thumb, begin: s.begin, end: s.end }
}

fn line_of(s: ratatui_core::symbols::line::Set<'static>) -> LineSet {
    LineSet {
        vertical: s.vertical,
        horizontal: s.horizontal,
        top_right: s.top_right,
        top_left: s.top_left,
        bottom_right: s.bottom_right,
        bottom_left: s.bottom_left,
        vertical_left: s.vertical_left,
        vertical_right: s.vertical_right,
        horizontal_down: s.horizontal_down,
        horizontal_up: s.horizontal_up,
        cross: s.cross,
    }
}

#[test]
fn every_role_reads_and_writes_its_slot() {
    let mut g = GlyphSet::new(["x"; 41], scroll_of(scrollbar::VERTICAL), line_of(ratatui_core::symbols::line::NORMAL), line_of(ratatui_core::symbols::line::THICK));
    for r in GlyphRole::all() {
        g.set(r, "y");
        assert_eq!(g.get(r), "y", "{r:?}");
    }
    assert_eq!(g.scrollbar().thumb, "y");
}

#[test]
fn the_symbol_sets_back_the_scrollbar_and_rule_roles() {
    let mut g = GlyphSet::new(["x"; 41], scroll_of(scrollbar::VERTICAL), line_of(ratatui_core::symbols::line::NORMAL), line_of(ratatui_core::symbols::line::THICK));
    assert_eq!(g.get(GlyphRole::ScrollThumb), scrollbar::VERTICAL.thumb);
    assert_eq!(g.get(GlyphRole::RuleQuiet), ratatui_core::symbols::line::NORMAL.horizontal);
    assert_eq!(g.get(GlyphRole::RuleActive), ratatui_core::symbols::line::THICK.horizontal);
    assert_eq!(g.get(GlyphRole::Chosen), "x");
    let ascii = ScrollbarSet { track: "|", thumb: "#", begin: "|", end: "|" };
    g.set_scrollbar(ascii);
    assert_eq!(g.scrollbar(), ascii);
    assert_eq!(g.get(GlyphRole::ScrollTrack), "|");
    let quiet = LineSet { horizontal: "-", ..line_of(ratatui_core::symbols::line::NORMAL) };
    g.set_rule_quiet(quiet);
    g.set_rule_active(LineSet { horizontal: "=", ..line_of(ratatui_core::symbols::line::NORMAL) });
    assert_eq!(g.rule_quiet(), quiet);
    assert_eq!(g.get(GlyphRole::RuleActive), "=");
    assert_eq!(g.rule_active().cross, ratatui_core::symbols::line::NORMAL.cross);
    // setting one role leaves the others alone
    g.set(GlyphRole::Checked, "v");
    assert_eq!(g.get(GlyphRole::Chosen), "x");
    assert_eq!(g.get(GlyphRole::Checked), "v");
}
