//! Colour tokens authored for particular terminal capabilities: the
//! built-in theme's xterm-256 and monochrome output, stated table by table
//! rather than converted from its true-colour tokens.

use ratatui_core::style::Color;
use vstd::prelude::*;

use crate::theme::colors::{ColorTokens, MeterTokens, SyntaxTokens};

verus! {

/// The four named terminal colours the monochrome palette uses.
#[derive(Clone, Copy, Debug, PartialEq, Eq, Structural)]
pub enum Named {
    /// Black.
    Black,
    /// Dark gray.
    DarkGray,
    /// Gray.
    Gray,
    /// White.
    White,
}

/// The renderer's named colour.
pub uninterp spec fn spec_named(n: Named) -> Color;

/// The renderer's xterm-256 indexed colour.
pub uninterp spec fn spec_indexed(i: u8) -> Color;

/// `Color::Black`, `Color::DarkGray`, `Color::Gray` or `Color::White`:
/// the renderer's named colour, one variant for each.
#[verifier::external_body]
fn named(n: Named) -> (c: Color)
    ensures
        c == spec_named(n),
{
    match n {
        Named::Black => Color::Black,
        Named::DarkGray => Color::DarkGray,
        Named::Gray => Color::Gray,
        Named::White => Color::White,
    }
}

/// `Color::Indexed`: the renderer's xterm-256 colour `i`.
#[verifier::external_body]
fn indexed(i: u8) -> (c: Color)
    ensures
        c == spec_indexed(i),
{
    Color::Indexed(i)
}

/// The colour tokens of the xterm-256 output of the built-in Junie theme.
pub open spec fn junie_256_tokens() -> ColorTokens {
    ColorTokens {
        surfaces: [
            Some(spec_indexed(16)),
            Some(spec_indexed(232)),
            Some(spec_indexed(233)),
            Some(spec_indexed(235)),
            Some(spec_indexed(237)),
        ],
        field: Some(spec_indexed(234)),
        field_hover: Some(spec_indexed(234)),
        fg: [
            Some(spec_indexed(231)),
            Some(spec_indexed(249)),
            Some(spec_indexed(244)),
            Some(spec_indexed(238)),
            Some(spec_indexed(235)),
        ],
        on_accent: Some(spec_indexed(233)),
        on_danger: Some(spec_indexed(231)),
        on_surface_inverse: Some(spec_indexed(16)),
        border_subtle: Some(spec_indexed(235)),
        border_strong: Some(spec_indexed(238)),
        accent: Some(spec_indexed(78)),
        accent_hover: Some(spec_indexed(77)),
        accent_pressed: Some(spec_indexed(238)),
        accent_tint: Some(spec_indexed(233)),
        focus: Some(spec_indexed(78)),
        focus_ring: Some(spec_indexed(238)),
        selection_bg: Some(spec_indexed(237)),
        selection_fg: Some(spec_indexed(231)),
        highlight_bg: Some(spec_indexed(67)),
        highlight_fg: Some(spec_indexed(231)),
        highlight_danger_bg: Some(spec_indexed(238)),
        highlight_danger_fg: Some(spec_indexed(231)),
        backdrop_fg: Some(spec_indexed(235)),
        backdrop_bg: Some(spec_indexed(16)),
        danger: Some(spec_indexed(167)),
        danger_soft: Some(spec_indexed(181)),
        danger_tint: Some(spec_indexed(233)),
        warning: Some(spec_indexed(214)),
        warning_tint: Some(spec_indexed(234)),
        success: Some(spec_indexed(78)),
        info: Some(spec_indexed(147)),
        disabled_fg: Some(spec_indexed(238)),
        disabled_bg: Some(spec_indexed(235)),
        read_only_fg: Some(spec_indexed(249)),
        
        
        syntax: SyntaxTokens {
            keyword: Some(spec_indexed(231)),
            ident: Some(spec_indexed(231)),
            string: Some(spec_indexed(249)),
            number: Some(spec_indexed(249)),
            operator: Some(spec_indexed(244)),
            punct: Some(spec_indexed(244)),
            comment: Some(spec_indexed(238)),
            plain: Some(spec_indexed(231)),
            type_ident: Some(spec_indexed(231)),
            function: Some(spec_indexed(231)),
            constant: Some(spec_indexed(249)),
            invalid: Some(spec_indexed(167)),
            deprecated: Some(spec_indexed(244)),
            match_bg: Some(spec_indexed(233)),
            match_current_bg: Some(spec_indexed(67)),
            bracket_match: Some(spec_indexed(78)),
            diagnostic_error: Some(spec_indexed(167)),
            diagnostic_warning: Some(spec_indexed(214)),
            diagnostic_info: Some(spec_indexed(147)),
        },
        meter: MeterTokens {
            low: Some(spec_indexed(78)),
            medium: Some(spec_indexed(214)),
            high: Some(spec_indexed(167)),
            track: Some(spec_indexed(235)),
            fill_rest: Some(spec_indexed(238)),
            stale: Some(spec_indexed(244)),
            unknown: Some(spec_indexed(238)),
            series: [
                Some(spec_indexed(78)),
                Some(spec_indexed(214)),
                Some(spec_indexed(167)),
                Some(spec_indexed(147)),
                Some(spec_indexed(249)),
                Some(spec_indexed(244)),
            ],
        },
    }
}

/// The colour tokens of the xterm-256 output of the built-in Junie theme, authored for that capability.
pub fn junie_256() -> (t: ColorTokens)
    ensures
        t == junie_256_tokens(),
{
    ColorTokens {
        surfaces: [
            Some(indexed(16)),
            Some(indexed(232)),
            Some(indexed(233)),
            Some(indexed(235)),
            Some(indexed(237)),
        ],
        field: Some(indexed(234)),
        field_hover: Some(indexed(234)),
        fg: [
            Some(indexed(231)),
            Some(indexed(249)),
            Some(indexed(244)),
            Some(indexed(238)),
            Some(indexed(235)),
        ],
        on_accent: Some(indexed(233)),
        on_danger: Some(indexed(231)),
        on_surface_inverse: Some(indexed(16)),
        border_subtle: Some(indexed(235)),
        border_strong: Some(indexed(238)),
        accent: Some(indexed(78)),
        accent_hover: Some(indexed(77)),
        accent_pressed: Some(indexed(238)),
        accent_tint: Some(indexed(233)),
        focus: Some(indexed(78)),
        focus_ring: Some(indexed(238)),
        selection_bg: Some(indexed(237)),
        selection_fg: Some(indexed(231)),
        highlight_bg: Some(indexed(67)),
        highlight_fg: Some(indexed(231)),
        highlight_danger_bg: Some(indexed(238)),
        highlight_danger_fg: Some(indexed(231)),
        backdrop_fg: Some(indexed(235)),
        backdrop_bg: Some(indexed(16)),
        danger: Some(indexed(167)),
        danger_soft: Some(indexed(181)),
        danger_tint: Some(indexed(233)),
        warning: Some(indexed(214)),
        warning_tint: Some(indexed(234)),
        success: Some(indexed(78)),
        info: Some(indexed(147)),
        disabled_fg: Some(indexed(238)),
        disabled_bg: Some(indexed(235)),
        read_only_fg: Some(indexed(249)),
        
        
        syntax: SyntaxTokens {
            keyword: Some(indexed(231)),
            ident: Some(indexed(231)),
            string: Some(indexed(249)),
            number: Some(indexed(249)),
            operator: Some(indexed(244)),
            punct: Some(indexed(244)),
            comment: Some(indexed(238)),
            plain: Some(indexed(231)),
            type_ident: Some(indexed(231)),
            function: Some(indexed(231)),
            constant: Some(indexed(249)),
            invalid: Some(indexed(167)),
            deprecated: Some(indexed(244)),
            match_bg: Some(indexed(233)),
            match_current_bg: Some(indexed(67)),
            bracket_match: Some(indexed(78)),
            diagnostic_error: Some(indexed(167)),
            diagnostic_warning: Some(indexed(214)),
            diagnostic_info: Some(indexed(147)),
        },
        meter: MeterTokens {
            low: Some(indexed(78)),
            medium: Some(indexed(214)),
            high: Some(indexed(167)),
            track: Some(indexed(235)),
            fill_rest: Some(indexed(238)),
            stale: Some(indexed(244)),
            unknown: Some(indexed(238)),
            series: [
                Some(indexed(78)),
                Some(indexed(214)),
                Some(indexed(167)),
                Some(indexed(147)),
                Some(indexed(249)),
                Some(indexed(244)),
            ],
        },
    }
}

/// The colour tokens of the monochrome output of the built-in Junie theme.
pub open spec fn junie_mono_tokens() -> ColorTokens {
    ColorTokens {
        surfaces: [
            Some(spec_named(Named::Black)),
            Some(spec_named(Named::Black)),
            Some(spec_named(Named::Black)),
            Some(spec_named(Named::Black)),
            Some(spec_named(Named::DarkGray)),
        ],
        field: Some(spec_named(Named::Black)),
        field_hover: Some(spec_named(Named::Black)),
        fg: [
            Some(spec_named(Named::White)),
            Some(spec_named(Named::Gray)),
            Some(spec_named(Named::Gray)),
            Some(spec_named(Named::DarkGray)),
            Some(spec_named(Named::Black)),
        ],
        on_accent: Some(spec_named(Named::Black)),
        on_danger: Some(spec_named(Named::White)),
        on_surface_inverse: Some(spec_named(Named::Black)),
        border_subtle: Some(spec_named(Named::Black)),
        border_strong: Some(spec_named(Named::DarkGray)),
        accent: Some(spec_named(Named::Gray)),
        accent_hover: Some(spec_named(Named::DarkGray)),
        accent_pressed: Some(spec_named(Named::DarkGray)),
        accent_tint: Some(spec_named(Named::Black)),
        focus: Some(spec_named(Named::Gray)),
        focus_ring: Some(spec_named(Named::DarkGray)),
        selection_bg: Some(spec_named(Named::DarkGray)),
        selection_fg: Some(spec_named(Named::White)),
        highlight_bg: Some(spec_named(Named::DarkGray)),
        highlight_fg: Some(spec_named(Named::White)),
        highlight_danger_bg: Some(spec_named(Named::DarkGray)),
        highlight_danger_fg: Some(spec_named(Named::White)),
        backdrop_fg: Some(spec_named(Named::Black)),
        backdrop_bg: Some(spec_named(Named::Black)),
        danger: Some(spec_named(Named::Gray)),
        danger_soft: Some(spec_named(Named::Gray)),
        danger_tint: Some(spec_named(Named::Black)),
        warning: Some(spec_named(Named::Gray)),
        warning_tint: Some(spec_named(Named::Black)),
        success: Some(spec_named(Named::Gray)),
        info: Some(spec_named(Named::Gray)),
        disabled_fg: Some(spec_named(Named::DarkGray)),
        disabled_bg: Some(spec_named(Named::Black)),
        read_only_fg: Some(spec_named(Named::Gray)),
        
        
        syntax: SyntaxTokens {
            keyword: Some(spec_named(Named::White)),
            ident: Some(spec_named(Named::White)),
            string: Some(spec_named(Named::Gray)),
            number: Some(spec_named(Named::Gray)),
            operator: Some(spec_named(Named::Gray)),
            punct: Some(spec_named(Named::Gray)),
            comment: Some(spec_named(Named::DarkGray)),
            plain: Some(spec_named(Named::White)),
            type_ident: Some(spec_named(Named::White)),
            function: Some(spec_named(Named::White)),
            constant: Some(spec_named(Named::Gray)),
            invalid: Some(spec_named(Named::Gray)),
            deprecated: Some(spec_named(Named::Gray)),
            match_bg: Some(spec_named(Named::Black)),
            match_current_bg: Some(spec_named(Named::DarkGray)),
            bracket_match: Some(spec_named(Named::Gray)),
            diagnostic_error: Some(spec_named(Named::Gray)),
            diagnostic_warning: Some(spec_named(Named::Gray)),
            diagnostic_info: Some(spec_named(Named::Gray)),
        },
        meter: MeterTokens {
            low: Some(spec_named(Named::Gray)),
            medium: Some(spec_named(Named::Gray)),
            high: Some(spec_named(Named::Gray)),
            track: Some(spec_named(Named::Black)),
            fill_rest: Some(spec_named(Named::DarkGray)),
            stale: Some(spec_named(Named::Gray)),
            unknown: Some(spec_named(Named::DarkGray)),
            series: [
                Some(spec_named(Named::Gray)),
                Some(spec_named(Named::Gray)),
                Some(spec_named(Named::Gray)),
                Some(spec_named(Named::Gray)),
                Some(spec_named(Named::Gray)),
                Some(spec_named(Named::Gray)),
            ],
        },
    }
}

/// The colour tokens of the monochrome output of the built-in Junie theme, authored for that capability.
pub fn junie_mono() -> (t: ColorTokens)
    ensures
        t == junie_mono_tokens(),
{
    ColorTokens {
        surfaces: [
            Some(named(Named::Black)),
            Some(named(Named::Black)),
            Some(named(Named::Black)),
            Some(named(Named::Black)),
            Some(named(Named::DarkGray)),
        ],
        field: Some(named(Named::Black)),
        field_hover: Some(named(Named::Black)),
        fg: [
            Some(named(Named::White)),
            Some(named(Named::Gray)),
            Some(named(Named::Gray)),
            Some(named(Named::DarkGray)),
            Some(named(Named::Black)),
        ],
        on_accent: Some(named(Named::Black)),
        on_danger: Some(named(Named::White)),
        on_surface_inverse: Some(named(Named::Black)),
        border_subtle: Some(named(Named::Black)),
        border_strong: Some(named(Named::DarkGray)),
        accent: Some(named(Named::Gray)),
        accent_hover: Some(named(Named::DarkGray)),
        accent_pressed: Some(named(Named::DarkGray)),
        accent_tint: Some(named(Named::Black)),
        focus: Some(named(Named::Gray)),
        focus_ring: Some(named(Named::DarkGray)),
        selection_bg: Some(named(Named::DarkGray)),
        selection_fg: Some(named(Named::White)),
        highlight_bg: Some(named(Named::DarkGray)),
        highlight_fg: Some(named(Named::White)),
        highlight_danger_bg: Some(named(Named::DarkGray)),
        highlight_danger_fg: Some(named(Named::White)),
        backdrop_fg: Some(named(Named::Black)),
        backdrop_bg: Some(named(Named::Black)),
        danger: Some(named(Named::Gray)),
        danger_soft: Some(named(Named::Gray)),
        danger_tint: Some(named(Named::Black)),
        warning: Some(named(Named::Gray)),
        warning_tint: Some(named(Named::Black)),
        success: Some(named(Named::Gray)),
        info: Some(named(Named::Gray)),
        disabled_fg: Some(named(Named::DarkGray)),
        disabled_bg: Some(named(Named::Black)),
        read_only_fg: Some(named(Named::Gray)),
        
        
        syntax: SyntaxTokens {
            keyword: Some(named(Named::White)),
            ident: Some(named(Named::White)),
            string: Some(named(Named::Gray)),
            number: Some(named(Named::Gray)),
            operator: Some(named(Named::Gray)),
            punct: Some(named(Named::Gray)),
            comment: Some(named(Named::DarkGray)),
            plain: Some(named(Named::White)),
            type_ident: Some(named(Named::White)),
            function: Some(named(Named::White)),
            constant: Some(named(Named::Gray)),
            invalid: Some(named(Named::Gray)),
            deprecated: Some(named(Named::Gray)),
            match_bg: Some(named(Named::Black)),
            match_current_bg: Some(named(Named::DarkGray)),
            bracket_match: Some(named(Named::Gray)),
            diagnostic_error: Some(named(Named::Gray)),
            diagnostic_warning: Some(named(Named::Gray)),
            diagnostic_info: Some(named(Named::Gray)),
        },
        meter: MeterTokens {
            low: Some(named(Named::Gray)),
            medium: Some(named(Named::Gray)),
            high: Some(named(Named::Gray)),
            track: Some(named(Named::Black)),
            fill_rest: Some(named(Named::DarkGray)),
            stale: Some(named(Named::Gray)),
            unknown: Some(named(Named::DarkGray)),
            series: [
                Some(named(Named::Gray)),
                Some(named(Named::Gray)),
                Some(named(Named::Gray)),
                Some(named(Named::Gray)),
                Some(named(Named::Gray)),
                Some(named(Named::Gray)),
            ],
        },
    }
}

} // verus!
