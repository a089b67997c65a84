use junie_tui::theme::colors::{bind_role, raise, surface_color, ColorTokens, MeterTokens, SyntaxTokens};
use junie_tui::theme::palettes::{junie_256, junie_mono};
use junie_tui::theme::role::{FgStep, MeterRole, Role, Surface, SyntaxRole};
use ratatui_core::style::Color;

fn syntax() -> SyntaxTokens {
    SyntaxTokens {
        keyword: None,
        ident: None,
        string: None,
        number: None,
        operator: None,
        punct: None,
        comment: None,
        plain: None,
        type_ident: None,
        function: None,
        constant: None,
        invalid: None,
        deprecated: None,
        match_bg: None,
        match_current_bg: None,
        bracket_match: None,
        diagnostic_error: None,
        diagnostic_warning: None,
        diagnostic_info: None,
    }
}

fn meter() -> MeterTokens {
    MeterTokens {
        low: None,
        medium: None,
        high: None,
        track: None,
        fill_rest: None,
        stale: None,
        unknown: None,
        series: [None; 6],
    }
}

fn blank() -> ColorTokens {
    ColorTokens {
        surfaces: [None; 5],
        field: None,
        field_hover: None,
        fg: [None; 5],
        on_accent: None,
        on_danger: None,
        on_surface_inverse: None,
        border_subtle: None,
        border_strong: None,
        accent: None,
        accent_hover: None,
        accent_pressed: None,
        accent_tint: None,
        focus: None,
        focus_ring: None,
        selection_bg: None,
        selection_fg: None,
        highlight_bg: None,
        highlight_fg: None,
        highlight_danger_bg: None,
        highlight_danger_fg: None,
        backdrop_fg: None,
        backdrop_bg: None,
        danger: None,
        danger_soft: None,
        danger_tint: None,
        warning: None,
        warning_tint: None,
        success: None,
        info: None,
        disabled_fg: None,
        disabled_bg: None,
        read_only_fg: None,
        syntax: syntax(),
        meter: meter(),
    }
}

#[test]
fn roles_bind_to_their_tokens_against_the_surface() {
    let mut t = blank();
    t.surfaces = [Some(Color::Indexed(16)), Some(Color::Indexed(232)), Some(Color::Indexed(233)), None, Some(Color::Indexed(237))];
    t.field = Some(Color::Indexed(234));
    t.field_hover = Some(Color::Indexed(235));
    t.fg[2] = Some(Color::Indexed(244));
    t.accent = Some(Color::Indexed(78));
    t.syntax.keyword = Some(Color::Indexed(111));
    t.meter.series[1] = Some(Color::Indexed(9));
    assert_eq!(bind_role(&t, Role::CurrentSurface, Surface::Surface, None), Some(Color::Indexed(232)));
    assert_eq!(bind_role(&t, Role::RaisedSurface, Surface::Surface, None), Some(Color::Indexed(233)));
    assert_eq!(bind_role(&t, Role::RaisedSurface, Surface::Popover, None), Some(Color::Indexed(237)));
    assert_eq!(bind_role(&t, Role::RaisedSurface, Surface::Field, None), Some(Color::Indexed(235)));
    assert_eq!(bind_role(&t, Role::Surface(Surface::Overlay), Surface::Canvas, None), None);
    assert_eq!(bind_role(&t, Role::Fg(FgStep::Muted), Surface::Canvas, None), Some(Color::Indexed(244)));
    assert_eq!(bind_role(&t, Role::Accent, Surface::Canvas, None), Some(Color::Indexed(78)));
    assert_eq!(bind_role(&t, Role::Danger, Surface::Canvas, None), None);
    assert_eq!(bind_role(&t, Role::Syntax(SyntaxRole::Keyword), Surface::Canvas, None), Some(Color::Indexed(111)));
    assert_eq!(bind_role(&t, Role::Meter(MeterRole::Series(7)), Surface::Canvas, None), Some(Color::Indexed(9)));
    assert_eq!(
        bind_role(&t, Role::Custom(Color::Rgb(1, 2, 3)), Surface::Canvas, Some(Color::Indexed(17))),
        Some(Color::Indexed(17))
    );
    assert_eq!(raise(Surface::Popover), Surface::Popover);
    assert_eq!(raise(Surface::Canvas), Surface::Surface);
    assert_eq!(surface_color(&t, Surface::FieldHover), Some(Color::Indexed(235)));
}

#[test]
fn the_authored_palettes_bind_their_tables() {
    let t = junie_256();
    assert_eq!(t.surfaces[0], Some(Color::Indexed(16)));
    assert_eq!(t.accent, Some(Color::Indexed(78)));
    assert_eq!(t.meter.series[3], Some(Color::Indexed(147)));
    assert_eq!(bind_role(&t, Role::RaisedSurface, Surface::Canvas, None), Some(Color::Indexed(232)));
    let m = junie_mono();
    assert_eq!(m.fg[0], Some(Color::White));
    assert_eq!(m.surfaces[4], Some(Color::DarkGray));
    assert_eq!(bind_role(&m, Role::Syntax(SyntaxRole::Comment), Surface::Canvas, None), Some(Color::DarkGray));
}
