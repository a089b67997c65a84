//! The colours a theme supplies, and how a role binds to one of them
//! against the surface it is painted on. A token that is `None` supplies no
//! colour (the renderer's reset): the part keeps whatever is underneath.

use ratatui_core::style::Color;
use vstd::prelude::*;

use crate::theme::role::{level_of, surface_at, FgStep, MeterRole, Role, Surface, SyntaxRole};

verus! {

/// Syntax colours.
#[derive(Clone, Copy, PartialEq, Eq, Debug)]
pub struct SyntaxTokens {
    /// Keyword.
    pub keyword: Option<Color>,
    /// Identifier.
    pub ident: Option<Color>,
    /// String literal.
    pub string: Option<Color>,
    /// Number literal.
    pub number: Option<Color>,
    /// Operator.
    pub operator: Option<Color>,
    /// Punctuation.
    pub punct: Option<Color>,
    /// Comment.
    pub comment: Option<Color>,
    /// Plain text.
    pub plain: Option<Color>,
    /// Type name.
    pub type_ident: Option<Color>,
    /// Function name.
    pub function: Option<Color>,
    /// Constant.
    pub constant: Option<Color>,
    /// Invalid token.
    pub invalid: Option<Color>,
    /// Deprecated token.
    pub deprecated: Option<Color>,
    /// Find-match background.
    pub match_bg: Option<Color>,
    /// Current find-match background.
    pub match_current_bg: Option<Color>,
    /// Matching bracket.
    pub bracket_match: Option<Color>,
    /// Error diagnostic.
    pub diagnostic_error: Option<Color>,
    /// Warning diagnostic.
    pub diagnostic_warning: Option<Color>,
    /// Info diagnostic.
    pub diagnostic_info: Option<Color>,
}

/// Meter colours.
#[derive(Clone, Copy, PartialEq, Eq, Debug)]
pub struct MeterTokens {
    /// Healthy.
    pub low: Option<Color>,
    /// Needs attention.
    pub medium: Option<Color>,
    /// Critical.
    pub high: Option<Color>,
    /// The track.
    pub track: Option<Color>,
    /// The unfilled remainder.
    pub fill_rest: Option<Color>,
    /// Stale data.
    pub stale: Option<Color>,
    /// Unknown value.
    pub unknown: Option<Color>,
    /// Series colours.
    pub series: [Option<Color>; 6],
}

/// Every colour a theme supplies.
#[derive(Clone, Copy, PartialEq, Eq, Debug)]
pub struct ColorTokens {
    /// The surface ladder: canvas, surface, elevated, overlay, popover.
    pub surfaces: [Option<Color>; 5],
    /// Text field plane.
    pub field: Option<Color>,
    /// Hovered text field plane.
    pub field_hover: Option<Color>,
    /// The foreground ladder: primary, secondary, muted, faint, dimmed.
    pub fg: [Option<Color>; 5],
    /// Text on an accent fill.
    pub on_accent: Option<Color>,
    /// Text on a danger fill.
    pub on_danger: Option<Color>,
    /// Text on an inverted fill.
    pub on_surface_inverse: Option<Color>,
    /// Subtle border.
    pub border_subtle: Option<Color>,
    /// Strong border.
    pub border_strong: Option<Color>,
    /// Accent.
    pub accent: Option<Color>,
    /// Accent, hovered.
    pub accent_hover: Option<Color>,
    /// Accent, pressed.
    pub accent_pressed: Option<Color>,
    /// Accent tint.
    pub accent_tint: Option<Color>,
    /// Focus indicator.
    pub focus: Option<Color>,
    /// Focus ring.
    pub focus_ring: Option<Color>,
    /// Text selection background.
    pub selection_bg: Option<Color>,
    /// Text selection foreground.
    pub selection_fg: Option<Color>,
    /// Menu highlight background.
    pub highlight_bg: Option<Color>,
    /// Menu highlight foreground.
    pub highlight_fg: Option<Color>,
    /// Destructive menu highlight background.
    pub highlight_danger_bg: Option<Color>,
    /// Destructive menu highlight foreground.
    pub highlight_danger_fg: Option<Color>,
    /// Backdrop foreground.
    pub backdrop_fg: Option<Color>,
    /// Backdrop background.
    pub backdrop_bg: Option<Color>,
    /// Danger.
    pub danger: Option<Color>,
    /// Danger at rest on a neutral plane.
    pub danger_soft: Option<Color>,
    /// Danger tint.
    pub danger_tint: Option<Color>,
    /// Warning.
    pub warning: Option<Color>,
    /// Warning tint.
    pub warning_tint: Option<Color>,
    /// Success.
    pub success: Option<Color>,
    /// Info.
    pub info: Option<Color>,
    /// Disabled foreground.
    pub disabled_fg: Option<Color>,
    /// Disabled background.
    pub disabled_bg: Option<Color>,
    /// Read-only foreground.
    pub read_only_fg: Option<Color>,
    /// Syntax colours.
    pub syntax: SyntaxTokens,
    /// Meter colours.
    pub meter: MeterTokens,
}

/// The index of a foreground step on the ladder.
pub open spec fn fg_index(s: FgStep) -> int {
    match s {
        FgStep::Primary => 0,
        FgStep::Secondary => 1,
        FgStep::Muted => 2,
        FgStep::Faint => 3,
        FgStep::Dimmed => 4,
    }
}

/// The background colour of a surface: the field planes have their own,
/// the ladder surfaces take theirs by level.
pub open spec fn surface_bg(t: ColorTokens, s: Surface) -> Option<Color> {
    match s {
        Surface::Field => t.field,
        Surface::FieldHover => t.field_hover,
        _ => t.surfaces@[level_of(s).unwrap() as int],
    }
}

/// One plane up: a field plane becomes the hovered field; on the ladder,
/// the next level, saturating at the top.
pub open spec fn raised(s: Surface) -> Surface {
    match s {
        Surface::Field | Surface::FieldHover => Surface::FieldHover,
        _ => surface_at((level_of(s).unwrap() + 1) as usize),
    }
}

/// The colour `role` binds to on `surface`; `custom` is a custom colour as
/// the terminal can show it, `None` when it shows none.
pub open spec fn bound_role(t: ColorTokens, role: Role, surface: Surface, custom: Option<Color>) -> Option<Color> {
    match role {
        Role::CurrentSurface => surface_bg(t, surface),
        Role::RaisedSurface => surface_bg(t, raised(surface)),
        Role::Surface(s) => surface_bg(t, s),
        Role::Fg(step) => t.fg@[fg_index(step)],
        Role::OnAccent => t.on_accent,
        Role::OnDanger => t.on_danger,
        Role::OnSurfaceInverse => t.on_surface_inverse,
        Role::BorderSubtle => t.border_subtle,
        Role::BorderStrong => t.border_strong,
        Role::Accent => t.accent,
        Role::AccentHover => t.accent_hover,
        Role::AccentPressed => t.accent_pressed,
        Role::AccentTint => t.accent_tint,
        Role::Focus => t.focus,
        Role::FocusRing => t.focus_ring,
        Role::SelectionBg => t.selection_bg,
        Role::SelectionFg => t.selection_fg,
        Role::HighlightBg => t.highlight_bg,
        Role::HighlightFg => t.highlight_fg,
        Role::HighlightDangerBg => t.highlight_danger_bg,
        Role::HighlightDangerFg => t.highlight_danger_fg,
        Role::BackdropFg => t.backdrop_fg,
        Role::BackdropBg => t.backdrop_bg,
        Role::Danger => t.danger,
        Role::DangerSoft => t.danger_soft,
        Role::DangerTint => t.danger_tint,
        Role::Warning => t.warning,
        Role::WarningTint => t.warning_tint,
        Role::Success => t.success,
        Role::Info => t.info,
        Role::DisabledFg => t.disabled_fg,
        Role::DisabledBg => t.disabled_bg,
        Role::ReadOnlyFg => t.read_only_fg,
        Role::Syntax(s) => match s {
            SyntaxRole::Keyword => t.syntax.keyword,
            SyntaxRole::Ident => t.syntax.ident,
            SyntaxRole::Str => t.syntax.string,
            SyntaxRole::Number => t.syntax.number,
            SyntaxRole::Operator => t.syntax.operator,
            SyntaxRole::Punct => t.syntax.punct,
            SyntaxRole::Comment => t.syntax.comment,
            SyntaxRole::Plain => t.syntax.plain,
            SyntaxRole::TypeName => t.syntax.type_ident,
            SyntaxRole::Function => t.syntax.function,
            SyntaxRole::Constant => t.syntax.constant,
            SyntaxRole::Invalid => t.syntax.invalid,
            SyntaxRole::Deprecated => t.syntax.deprecated,
            SyntaxRole::MatchBg => t.syntax.match_bg,
            SyntaxRole::MatchCurrentBg => t.syntax.match_current_bg,
            SyntaxRole::BracketMatch => t.syntax.bracket_match,
            SyntaxRole::DiagError => t.syntax.diagnostic_error,
            SyntaxRole::DiagWarning => t.syntax.diagnostic_warning,
            SyntaxRole::DiagInfo => t.syntax.diagnostic_info,
        },
        Role::Meter(m) => match m {
            MeterRole::Low => t.meter.low,
            MeterRole::Medium => t.meter.medium,
            MeterRole::High => t.meter.high,
            MeterRole::Track => t.meter.track,
            MeterRole::FillRest => t.meter.fill_rest,
            MeterRole::Stale => t.meter.stale,
            MeterRole::Unknown => t.meter.unknown,
            MeterRole::Series(n) => t.meter.series@[(n % 6) as int],
        },
        Role::Custom(_) => custom,
    }
}

/// Every role but the surface roles and a custom colour binds to its own
/// token, whatever the surface and the custom colour: a warning to the
/// warning token, danger to the danger token, a foreground step to its step
/// of the foreground ladder, and so on. The surface roles bind to the
/// background of the surface (a field plane's own, a ladder surface's by
/// level), one plane up for the raised surface; a custom colour binds to
/// the colour given for it.
pub proof fn law_roles_bind_to_their_tokens(t: ColorTokens, s: Surface, custom: Option<Color>)
    ensures
        bound_role(t, Role::Fg(FgStep::Primary), s, custom) == t.fg[0],
        bound_role(t, Role::Fg(FgStep::Secondary), s, custom) == t.fg[1],
        bound_role(t, Role::Fg(FgStep::Muted), s, custom) == t.fg[2],
        bound_role(t, Role::Fg(FgStep::Faint), s, custom) == t.fg[3],
        bound_role(t, Role::Fg(FgStep::Dimmed), s, custom) == t.fg[4],
        bound_role(t, Role::OnAccent, s, custom) == t.on_accent,
        bound_role(t, Role::OnDanger, s, custom) == t.on_danger,
        bound_role(t, Role::OnSurfaceInverse, s, custom) == t.on_surface_inverse,
        bound_role(t, Role::BorderSubtle, s, custom) == t.border_subtle,
        bound_role(t, Role::BorderStrong, s, custom) == t.border_strong,
        bound_role(t, Role::Accent, s, custom) == t.accent,
        bound_role(t, Role::AccentHover, s, custom) == t.accent_hover,
        bound_role(t, Role::AccentPressed, s, custom) == t.accent_pressed,
        bound_role(t, Role::AccentTint, s, custom) == t.accent_tint,
        bound_role(t, Role::Focus, s, custom) == t.focus,
        bound_role(t, Role::FocusRing, s, custom) == t.focus_ring,
        bound_role(t, Role::SelectionBg, s, custom) == t.selection_bg,
        bound_role(t, Role::SelectionFg, s, custom) == t.selection_fg,
        bound_role(t, Role::HighlightBg, s, custom) == t.highlight_bg,
        bound_role(t, Role::HighlightFg, s, custom) == t.highlight_fg,
        bound_role(t, Role::HighlightDangerBg, s, custom) == t.highlight_danger_bg,
        bound_role(t, Role::HighlightDangerFg, s, custom) == t.highlight_danger_fg,
        bound_role(t, Role::BackdropFg, s, custom) == t.backdrop_fg,
        bound_role(t, Role::BackdropBg, s, custom) == t.backdrop_bg,
        bound_role(t, Role::Danger, s, custom) == t.danger,
        bound_role(t, Role::DangerSoft, s, custom) == t.danger_soft,
        bound_role(t, Role::DangerTint, s, custom) == t.danger_tint,
        bound_role(t, Role::Warning, s, custom) == t.warning,
        bound_role(t, Role::WarningTint, s, custom) == t.warning_tint,
        bound_role(t, Role::Success, s, custom) == t.success,
        bound_role(t, Role::Info, s, custom) == t.info,
        bound_role(t, Role::DisabledFg, s, custom) == t.disabled_fg,
        bound_role(t, Role::DisabledBg, s, custom) == t.disabled_bg,
        bound_role(t, Role::ReadOnlyFg, s, custom) == t.read_only_fg,
        bound_role(t, Role::Syntax(SyntaxRole::Keyword), s, custom) == t.syntax.keyword,
        bound_role(t, Role::Syntax(SyntaxRole::Ident), s, custom) == t.syntax.ident,
        bound_role(t, Role::Syntax(SyntaxRole::Str), s, custom) == t.syntax.string,
        bound_role(t, Role::Syntax(SyntaxRole::Number), s, custom) == t.syntax.number,
        bound_role(t, Role::Syntax(SyntaxRole::Operator), s, custom) == t.syntax.operator,
        bound_role(t, Role::Syntax(SyntaxRole::Punct), s, custom) == t.syntax.punct,
        bound_role(t, Role::Syntax(SyntaxRole::Comment), s, custom) == t.syntax.comment,
        bound_role(t, Role::Syntax(SyntaxRole::Plain), s, custom) == t.syntax.plain,
        bound_role(t, Role::Syntax(SyntaxRole::TypeName), s, custom) == t.syntax.type_ident,
        bound_role(t, Role::Syntax(SyntaxRole::Function), s, custom) == t.syntax.function,
        bound_role(t, Role::Syntax(SyntaxRole::Constant), s, custom) == t.syntax.constant,
        bound_role(t, Role::Syntax(SyntaxRole::Invalid), s, custom) == t.syntax.invalid,
        bound_role(t, Role::Syntax(SyntaxRole::Deprecated), s, custom) == t.syntax.deprecated,
        bound_role(t, Role::Syntax(SyntaxRole::MatchBg), s, custom) == t.syntax.match_bg,
        bound_role(t, Role::Syntax(SyntaxRole::MatchCurrentBg), s, custom) == t.syntax.match_current_bg,
        bound_role(t, Role::Syntax(SyntaxRole::BracketMatch), s, custom) == t.syntax.bracket_match,
        bound_role(t, Role::Syntax(SyntaxRole::DiagError), s, custom) == t.syntax.diagnostic_error,
        bound_role(t, Role::Syntax(SyntaxRole::DiagWarning), s, custom) == t.syntax.diagnostic_warning,
        bound_role(t, Role::Syntax(SyntaxRole::DiagInfo), s, custom) == t.syntax.diagnostic_info,
        bound_role(t, Role::Meter(MeterRole::Low), s, custom) == t.meter.low,
        bound_role(t, Role::Meter(MeterRole::Medium), s, custom) == t.meter.medium,
        bound_role(t, Role::Meter(MeterRole::High), s, custom) == t.meter.high,
        bound_role(t, Role::Meter(MeterRole::Track), s, custom) == t.meter.track,
        bound_role(t, Role::Meter(MeterRole::FillRest), s, custom) == t.meter.fill_rest,
        bound_role(t, Role::Meter(MeterRole::Stale), s, custom) == t.meter.stale,
        bound_role(t, Role::Meter(MeterRole::Unknown), s, custom) == t.meter.unknown,
        forall|n: u8| #[trigger] bound_role(t, Role::Meter(MeterRole::Series(n)), s, custom) == t.meter.series[(n % 6) as int],
        forall|c: Color| #[trigger] bound_role(t, Role::Custom(c), s, custom) == custom,
        bound_role(t, Role::Surface(Surface::Canvas), s, custom) == t.surfaces[0],
        bound_role(t, Role::Surface(Surface::Surface), s, custom) == t.surfaces[1],
        bound_role(t, Role::Surface(Surface::Elevated), s, custom) == t.surfaces[2],
        bound_role(t, Role::Surface(Surface::Overlay), s, custom) == t.surfaces[3],
        bound_role(t, Role::Surface(Surface::Popover), s, custom) == t.surfaces[4],
        bound_role(t, Role::Surface(Surface::Field), s, custom) == t.field,
        bound_role(t, Role::Surface(Surface::FieldHover), s, custom) == t.field_hover,
        bound_role(t, Role::CurrentSurface, s, custom) == bound_role(t, Role::Surface(s), s, custom),
        bound_role(t, Role::RaisedSurface, Surface::Canvas, custom) == t.surfaces[1],
        bound_role(t, Role::RaisedSurface, Surface::Surface, custom) == t.surfaces[2],
        bound_role(t, Role::RaisedSurface, Surface::Elevated, custom) == t.surfaces[3],
        bound_role(t, Role::RaisedSurface, Surface::Overlay, custom) == t.surfaces[4],
        bound_role(t, Role::RaisedSurface, Surface::Popover, custom) == t.surfaces[4],
        bound_role(t, Role::RaisedSurface, Surface::Field, custom) == t.field_hover,
        bound_role(t, Role::RaisedSurface, Surface::FieldHover, custom) == t.field_hover,
{
}

/// The background colour of a surface.
pub fn surface_color(t: &ColorTokens, s: Surface) -> (c: Option<Color>)
    ensures
        c == surface_bg(*t, s),
{
    match s {
        Surface::Field => t.field,
        Surface::FieldHover => t.field_hover,
        _ => {
            let i = match s.level() {
                Some(i) => i,
                None => 0,
            };
            t.surfaces[i]
        },
    }
}

/// One plane up: `Field` to `FieldHover`; on the ladder the next level,
/// saturating at the top. Index arithmetic, never colour equality.
pub fn raise(s: Surface) -> (r: Surface)
    ensures
        r == raised(s),
{
    match s {
        Surface::Field | Surface::FieldHover => Surface::FieldHover,
        _ => {
            let i = match s.level() {
                Some(i) => i,
                None => 0,
            };
            Surface::from_level(i + 1)
        },
    }
}

/// Bind a role to a colour on `surface`. A custom colour binds to
/// `custom`, the colour as the terminal's capability shows it; a token
/// that supplies no colour binds to none.
pub fn bind_role(tokens: &ColorTokens, role: Role, surface: Surface, custom: Option<Color>) -> (c: Option<Color>)
    ensures
        c == bound_role(*tokens, role, surface, custom),
{
    let t = tokens;
    match role {
        Role::CurrentSurface => surface_color(t, surface),
        Role::RaisedSurface => surface_color(t, raise(surface)),
        Role::Surface(s) => surface_color(t, s),
        Role::Fg(step) => t.fg[step.index()],
        Role::OnAccent => t.on_accent,
        Role::OnDanger => t.on_danger,
        Role::OnSurfaceInverse => t.on_surface_inverse,
        Role::BorderSubtle => t.border_subtle,
        Role::BorderStrong => t.border_strong,
        Role::Accent => t.accent,
        Role::AccentHover => t.accent_hover,
        Role::AccentPressed => t.accent_pressed,
        Role::AccentTint => t.accent_tint,
        Role::Focus => t.focus,
        Role::FocusRing => t.focus_ring,
        Role::SelectionBg => t.selection_bg,
        Role::SelectionFg => t.selection_fg,
        Role::HighlightBg => t.highlight_bg,
        Role::HighlightFg => t.highlight_fg,
        Role::HighlightDangerBg => t.highlight_danger_bg,
        Role::HighlightDangerFg => t.highlight_danger_fg,
        Role::BackdropFg => t.backdrop_fg,
        Role::BackdropBg => t.backdrop_bg,
        Role::Danger => t.danger,
        Role::DangerSoft => t.danger_soft,
        Role::DangerTint => t.danger_tint,
        Role::Warning => t.warning,
        Role::WarningTint => t.warning_tint,
        Role::Success => t.success,
        Role::Info => t.info,
        Role::DisabledFg => t.disabled_fg,
        Role::DisabledBg => t.disabled_bg,
        Role::ReadOnlyFg => t.read_only_fg,
        Role::Syntax(s) => match s {
            SyntaxRole::Keyword => t.syntax.keyword,
            SyntaxRole::Ident => t.syntax.ident,
            SyntaxRole::Str => t.syntax.string,
            SyntaxRole::Number => t.syntax.number,
            SyntaxRole::Operator => t.syntax.operator,
            SyntaxRole::Punct => t.syntax.punct,
            SyntaxRole::Comment => t.syntax.comment,
            SyntaxRole::Plain => t.syntax.plain,
            SyntaxRole::TypeName => t.syntax.type_ident,
            SyntaxRole::Function => t.syntax.function,
            SyntaxRole::Constant => t.syntax.constant,
            SyntaxRole::Invalid => t.syntax.invalid,
            SyntaxRole::Deprecated => t.syntax.deprecated,
            SyntaxRole::MatchBg => t.syntax.match_bg,
            SyntaxRole::MatchCurrentBg => t.syntax.match_current_bg,
            SyntaxRole::BracketMatch => t.syntax.bracket_match,
            SyntaxRole::DiagError => t.syntax.diagnostic_error,
            SyntaxRole::DiagWarning => t.syntax.diagnostic_warning,
            SyntaxRole::DiagInfo => t.syntax.diagnostic_info,
        },
        Role::Meter(m) => match m {
            MeterRole::Low => t.meter.low,
            MeterRole::Medium => t.meter.medium,
            MeterRole::High => t.meter.high,
            MeterRole::Track => t.meter.track,
            MeterRole::FillRest => t.meter.fill_rest,
            MeterRole::Stale => t.meter.stale,
            MeterRole::Unknown => t.meter.unknown,
            MeterRole::Series(n) => t.meter.series[(n % 6) as usize],
        },
        Role::Custom(_) => custom,
    }
}

} // verus!
