use junie_tui::geometry::Rect;
use junie_tui::id::Part;
use junie_tui::text::measure::width;
use junie_tui::theme::border;
use junie_tui::theme::glyph::GlyphRole;
use junie_tui::theme::patch::Slot;
use junie_tui::theme::recipe::PartMap;
use junie_tui::theme::role::{FgStep, Surface};
use junie_tui::theme::tokens::ColorLevel;

#[test]
fn ascii_border_set_is_pure_ascii() {
    let s = border::ascii();
    for g in [
        s.top_left,
        s.top_right,
        s.bottom_left,
        s.bottom_right,
        s.vertical_left,
        s.vertical_right,
        s.horizontal_top,
        s.horizontal_bottom,
    ] {
        assert!(g.is_ascii() && g.len() == 1, "{g:?}");
        assert_eq!(width(g), 1);
    }
    let _ = Rect::zero();
}

#[test]
fn select_roles_are_appended_without_shifting_existing_discriminants() {
    assert_eq!(GlyphRole::all().len(), 41);
    assert_eq!(GlyphRole::SecretMask as usize, 38);
    assert_eq!(GlyphRole::SelectClosed as usize, 39);
    assert_eq!(GlyphRole::SelectOpen as usize, 40);
    for (i, r) in GlyphRole::all().into_iter().enumerate() {
        assert_eq!(r.index(), i);
        assert_eq!(r as usize, i);
    }
}

#[test]
fn slot_over_prefers_the_speaking_side() {
    assert_eq!(Slot::Value(1).over(Slot::Value(2)), Slot::Value(1));
    assert_eq!(Slot::Inherit.over(Slot::Value(2)), Slot::Value(2));
    assert_eq!(Slot::<u8>::Clear.over(Slot::Value(2)), Slot::Clear);
    assert_eq!(Slot::Value(1).over(Slot::Clear), Slot::Value(1));
    assert_eq!(Slot::<u8>::Inherit.over(Slot::Inherit), Slot::Inherit);
    assert_eq!(Slot::Value(3).get(), Some(3));
    assert_eq!(Slot::<u8>::Clear.get(), None);
    assert!(Slot::<u8>::Clear.speaks() && !Slot::<u8>::Inherit.speaks());
}

#[test]
fn part_map_stays_sorted() {
    let mut m: PartMap<u8> = PartMap::new();
    m.insert(Part::thumb(), 1);
    m.insert(Part::border(), 2);
    *m.entry(Part::label()) = 3;
    m.insert(Part::border(), 4);
    let keys: Vec<Part> = m.iter().into_iter().map(|(k, _)| k).collect();
    assert_eq!(keys, vec![Part::border(), Part::label(), Part::thumb()]);
    assert_eq!(m.get(Part::border()), Some(&4));
    assert_eq!(m.get_mut(Part::thumb()).copied(), Some(1));
    assert_eq!(m.get(Part::meta()), None);
    assert_eq!(m.len(), 3);
    assert!(!m.is_empty());
}

#[test]
fn narrow_to_returns_the_poorer_level() {
    const LADDER: [ColorLevel; 4] = [ColorLevel::Mono, ColorLevel::Ansi16, ColorLevel::Ansi256, ColorLevel::TrueColor];
    for (i, a) in LADDER.into_iter().enumerate() {
        for (j, b) in LADDER.into_iter().enumerate() {
            let expected = if i <= j { a } else { b };
            assert_eq!(a.narrow_to(b), expected, "{a:?}.narrow_to({b:?})");
            assert_eq!(a.narrow_to(b), b.narrow_to(a), "{a:?}/{b:?} not symmetric");
        }
        assert_eq!(a.narrow_to(a), a, "{a:?} not idempotent");
        assert_eq!(a.narrow_to(ColorLevel::TrueColor), a, "TrueColor is the identity");
        assert_eq!(a.narrow_to(ColorLevel::Mono), ColorLevel::Mono, "Mono absorbs");
    }
}

#[test]
fn term_dumb_is_mono() {
    assert_eq!(ColorLevel::from_env(None, None, Some("dumb"), Some("truecolor"), true), ColorLevel::Mono);
}

#[test]
fn no_color_triggers_on_any_non_empty_value() {
    for v in ["1", "0", "false", " "] {
        assert_eq!(
            ColorLevel::from_env(None, Some(v.as_bytes()), Some("xterm-256color"), Some("truecolor"), true),
            ColorLevel::Mono,
            "NO_COLOR={v:?} must disable colour"
        );
    }
    for v in [Some("".as_bytes()), None] {
        assert_eq!(
            ColorLevel::from_env(None, v, Some("xterm-256color"), Some("truecolor"), true),
            ColorLevel::TrueColor,
            "NO_COLOR={v:?} must not disable colour"
        );
    }
}

#[test]
fn a_non_tty_stdout_is_mono() {
    assert_eq!(ColorLevel::from_env(None, None, Some("xterm-256color"), Some("truecolor"), false), ColorLevel::Mono);
}

#[test]
fn clicolor_force_overrides_no_color_and_the_tty_check() {
    assert_eq!(
        ColorLevel::from_env(Some(b"1"), Some(b"1"), Some("xterm-256color"), Some("truecolor"), false),
        ColorLevel::TrueColor
    );
    for off in ["", "0"] {
        assert_eq!(
            ColorLevel::from_env(Some(off.as_bytes()), Some(b"1"), Some("xterm-256color"), Some("truecolor"), false),
            ColorLevel::Mono,
            "CLICOLOR_FORCE={off:?} must not force colour"
        );
    }
}

#[test]
fn clicolor_force_does_not_override_term_dumb() {
    assert_eq!(ColorLevel::from_env(Some(b"1"), None, Some("dumb"), Some("truecolor"), true), ColorLevel::Mono);
}

#[test]
fn term_unset_or_empty_is_ansi16() {
    for term in [None, Some("")] {
        assert_eq!(ColorLevel::from_env(None, None, term, None, true), ColorLevel::Ansi16, "TERM={term:?}");
    }
}

#[test]
fn term_families_reach_256_colours() {
    for term in ["xterm-256color", "xterm-ghostty", "xterm-kitty"] {
        assert_eq!(ColorLevel::from_env(None, None, Some(term), None, true), ColorLevel::Ansi256, "{term}");
    }
    assert_eq!(ColorLevel::from_env(None, None, Some("xterm"), Some("24bit"), true), ColorLevel::TrueColor);
    assert_eq!(ColorLevel::from_env(None, None, Some("kitt"), None, true), ColorLevel::Ansi16);
    assert_eq!(ColorLevel::Ansi256.label(), "256 colors");
    assert_eq!(ColorLevel::Mono.label(), "no color");
}

#[test]
fn surface_levels_round_trip() {
    for i in 0..5usize {
        assert_eq!(Surface::from_level(i).level(), Some(i));
    }
    assert_eq!(Surface::from_level(99), Surface::Popover);
    assert_eq!(Surface::Field.level(), None);
    assert_eq!(FgStep::Dimmed.index(), 4);
}
