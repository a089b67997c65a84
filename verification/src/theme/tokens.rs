//! Design tokens: spacing, sizes, motion, meter thresholds, density and
//! the colour depth a theme is resolved for.

use vstd::prelude::*;

verus! {

/// Spacing tokens, in cells.
#[derive(Clone, Copy, PartialEq, Eq, Structural, Debug)]
pub struct SpaceTokens {
    /// Focus gutter width.
    pub gutter: u16,
    /// Inline gap between a glyph and a label.
    pub inline: u16,
    /// Gap between siblings.
    pub gap: u16,
    /// Gap between columns.
    pub column_gap: u16,
    /// Gap between form rows.
    pub form_gap: u16,
    /// Card inset.
    pub card_inset: u16,
    /// Frame inset.
    pub frame_inset: u16,
    /// Dialog inset.
    pub dialog_inset: u16,
    /// Tree indent per depth.
    pub tree_indent: u16,
}

/// Dimension tokens, in cells.
#[derive(Clone, Copy, PartialEq, Eq, Structural, Debug)]
pub struct SizeTokens {
    /// Field height (label, control, help).
    pub field_height: u16,
    /// Tab strip height.
    pub tabs_height: u16,
    /// Dialog width.
    pub dialog_width: u16,
    /// Wide dialog width.
    pub dialog_width_wide: u16,
    /// Popup maximum rows.
    pub popup_max_rows: u16,
    /// Popup minimum width.
    pub popup_min_width: u16,
    /// Popup maximum width.
    pub popup_max_width: u16,
    /// Minimum terminal width.
    pub min_width: u16,
    /// Minimum terminal height.
    pub min_height: u16,
    /// Scrollbar width.
    pub scrollbar_width: u16,
    /// Meter track length.
    pub meter_track: u16,
    /// Code preview lines.
    pub code_preview_lines: u16,
}

/// Animation cadence tokens.
#[derive(Clone, Copy, PartialEq, Eq, Debug)]
pub struct MotionTokens {
    /// Spinner frames.
    pub spinner_frames: &'static [&'static str],
    /// Tick period while animating, in milliseconds.
    pub tick_ms: u64,
    /// Tick period while idle, in milliseconds.
    pub idle_tick_ms: u64,
    /// Press flash duration, in milliseconds.
    pub press_flash_ms: u64,
    /// Status message duration, in milliseconds.
    pub status_ms: u64,
    /// Rows per wheel notch.
    pub wheel_rows: u16,
    /// Double-click window, in milliseconds.
    pub double_click_ms: u64,
}

/// Meter thresholds, in percent.
#[derive(Clone, Copy, PartialEq, Eq, Structural, Debug)]
pub struct MeterThresholds {
    /// Up to this is healthy.
    pub low_max: u8,
    /// Up to this needs attention; above is critical.
    pub medium_max: u8,
}

/// Row density.
#[derive(Clone, Copy, PartialEq, Eq, Structural, Debug, Default)]
pub enum Density {
    /// The default.
    #[default]
    Comfortable,
    /// Tighter rows.
    Compact,
}

/// The colour depth a theme is resolved for.
#[derive(Clone, Copy, PartialEq, Eq, Structural, Debug, Hash)]
#[non_exhaustive]
pub enum ColorLevel {
    /// 24-bit colour.
    TrueColor,
    /// The 256-colour palette.
    Ansi256,
    /// The 16 ANSI colours.
    Ansi16,
    /// No colour.
    Mono,
}

/// How much colour a level can paint: `Mono` is 0 and `TrueColor` is 3.
pub open spec fn depth(l: ColorLevel) -> int {
    match l {
        ColorLevel::Mono => 0,
        ColorLevel::Ansi16 => 1,
        ColorLevel::Ansi256 => 2,
        ColorLevel::TrueColor => 3,
    }
}

/// The poorer of two levels.
pub open spec fn narrower(a: ColorLevel, b: ColorLevel) -> ColorLevel {
    if depth(a) <= depth(b) { a } else { b }
}

/// Whether `s` holds `pat` as a contiguous run.
pub open spec fn holds(s: Seq<char>, pat: Seq<char>) -> bool {
    exists|i: int| 0 <= i && i + pat.len() <= s.len() && #[trigger] s.subrange(i, i + pat.len()) == pat
}

/// Whether an environment value is present and non-empty.
pub open spec fn set_nonempty(v: Option<Seq<u8>>) -> bool {
    v matches Some(b) && b.len() > 0
}

/// The colour-capability decision table over the raw inputs: the bytes of
/// `CLICOLOR_FORCE` and `NO_COLOR` if set, `TERM` and `COLORTERM` if set,
/// and whether stdout is a terminal.
pub open spec fn level_from_env(
    clicolor_force: Option<Seq<u8>>,
    no_color: Option<Seq<u8>>,
    term: Seq<char>,
    colorterm: Seq<char>,
    stdout_is_terminal: bool,
) -> ColorLevel {
    let forced = clicolor_force matches Some(v) && v.len() > 0 && v != seq![48u8];
    if term == "dumb"@ {
        ColorLevel::Mono
    } else if !forced && set_nonempty(no_color) {
        ColorLevel::Mono
    } else if !forced && !stdout_is_terminal {
        ColorLevel::Mono
    } else if colorterm == "truecolor"@ || colorterm == "24bit"@ {
        ColorLevel::TrueColor
    } else if holds(term, "256color"@) || holds(term, "ghostty"@) || holds(term, "kitty"@) {
        ColorLevel::Ansi256
    } else {
        ColorLevel::Ansi16
    }
}

fn depth_of(l: ColorLevel) -> (d: u8)
    ensures
        d == depth(l),
{
    match l {
        ColorLevel::Mono => 0,
        ColorLevel::Ansi16 => 1,
        ColorLevel::Ansi256 => 2,
        ColorLevel::TrueColor => 3,
    }
}

/// Whether two strings hold the same characters.
fn same_chars(a: &Vec<char>, b: &str) -> (r: bool)
    ensures
        r == (a@ == b@),
{
    let bs = crate::text::unicode::str_chars(b);
    if a.len() != bs.len() {
        return false;
    }
    let mut i: usize = 0;
    while i < a.len()
        invariant
            bs@ == b@,
            a@.len() == bs@.len(),
            i <= a@.len(),
            forall|k: int| 0 <= k < i ==> a@[k] == bs@[k],
        decreases a@.len() - i,
    {
        if a[i] != bs[i] {
            return false;
        }
        i = i + 1;
    }
    assert(a@ =~= bs@);
    true
}

/// Whether `s` holds `pat` as a contiguous run.
fn contains_run(s: &Vec<char>, pat: &str) -> (r: bool)
    ensures
        r == holds(s@, pat@),
{
    let p = crate::text::unicode::str_chars(pat);
    if p.len() > s.len() {
        proof {
            assert forall|i: int| 0 <= i && i + p@.len() <= s@.len() implies
                #[trigger] s@.subrange(i, i + p@.len()) != pat@ by {}
        }
        return false;
    }
    let mut i: usize = 0;
    while i <= s.len() - p.len()
        invariant
            p@ == pat@,
            p@.len() <= s@.len(),
            i <= s@.len() - p@.len() + 1,
            forall|k: int| 0 <= k < i ==> #[trigger] s@.subrange(k, k + p@.len()) != pat@,
        decreases s@.len() - i,
    {
        let mut j: usize = 0;
        let mut ok = true;
        while j < p.len()
            invariant
                p@ == pat@,
                i + p@.len() <= s@.len(),
                s@.len() <= usize::MAX,
                j <= p@.len(),
                ok == forall|k: int| 0 <= k < j ==> s@[i + k] == p@[k],
            decreases p@.len() - j,
        {
            if s[i + j] != p[j] {
                ok = false;
            }
            j = j + 1;
        }
        if ok {
            assert(s@.subrange(i as int, i + p@.len()) =~= pat@);
            return true;
        }
        proof {
            if s@.subrange(i as int, i + p@.len()) == pat@ {
                let k = choose|k: int| 0 <= k < p@.len() && s@[i + k] != p@[k];
                assert(s@.subrange(i as int, i + p@.len())[k] == s@[i + k]);
            }
        }
        i = i + 1;
    }
    proof {
        assert forall|k: int| 0 <= k && k + p@.len() <= s@.len() implies
            #[trigger] s@.subrange(k, k + p@.len()) != pat@ by {
            assert(k < i);
        }
    }
    false
}

impl ColorLevel {
    /// The colour-capability decision table. Pure: no environment, no I/O.
    /// Each input is what the environment holds, as bytes for the two
    /// flags whose value may not be text.
    ///
    /// Precedence, highest first: `term` exactly `"dumb"` is `Mono`;
    /// `clicolor_force` present and neither empty nor `"0"` forces colour,
    /// overriding the next two; `no_color` present and non-empty is `Mono`;
    /// a stdout that is not a terminal is `Mono`; `colorterm` `truecolor`
    /// or `24bit` is `TrueColor`; `term` containing `256color`, `ghostty` or
    /// `kitty` is `Ansi256`; otherwise `Ansi16`, including an absent `term`.
    pub fn from_env(
        clicolor_force: Option<&[u8]>,
        no_color: Option<&[u8]>,
        term: Option<&str>,
        colorterm: Option<&str>,
        stdout_is_terminal: bool,
    ) -> (l: ColorLevel)
        ensures
            l == level_from_env(
                match clicolor_force { Some(v) => Some(v@), None => None },
                match no_color { Some(v) => Some(v@), None => None },
                match term { Some(t) => t@, None => Seq::empty() },
                match colorterm { Some(t) => t@, None => Seq::empty() },
                stdout_is_terminal,
            ),
    {
        let t: Vec<char> = match term {
            Some(s) => crate::text::unicode::str_chars(s),
            None => Vec::new(),
        };
        proof {
            reveal_strlit("dumb");
            reveal_strlit("truecolor");
            reveal_strlit("24bit");
        }
        if same_chars(&t, "dumb") {
            return ColorLevel::Mono;
        }
        let forced = match clicolor_force {
            Some(v) => {
                let zero = v.len() == 1 && v[0] == 48u8;
                proof {
                    if v@ == seq![48u8] {
                        assert(v@.len() == 1 && v@[0] == 48u8);
                    }
                    if v@.len() == 1 && v@[0] == 48u8 {
                        assert(v@ =~= seq![48u8]);
                    }
                }
                v.len() > 0 && !zero
            },
            None => false,
        };
        if !forced {
            let quiet = match no_color {
                Some(v) => v.len() > 0,
                None => false,
            };
            if quiet {
                return ColorLevel::Mono;
            }
            if !stdout_is_terminal {
                return ColorLevel::Mono;
            }
        }
        let c: Vec<char> = match colorterm {
            Some(s) => crate::text::unicode::str_chars(s),
            None => Vec::new(),
        };
        if same_chars(&c, "truecolor") || same_chars(&c, "24bit") {
            return ColorLevel::TrueColor;
        }
        if contains_run(&t, "256color") || contains_run(&t, "ghostty") || contains_run(&t, "kitty") {
            return ColorLevel::Ansi256;
        }
        ColorLevel::Ansi16
    }

    /// The poorer of the two levels.
    pub fn narrow_to(self, other: ColorLevel) -> (l: ColorLevel)
        ensures
            l == narrower(self, other),
    {
        if depth_of(self) <= depth_of(other) {
            self
        } else {
            other
        }
    }

    /// A short label.
    pub fn label(self) -> (s: &'static str)
        ensures
            s@ == (match self {
                ColorLevel::TrueColor => "truecolor"@,
                ColorLevel::Ansi256 => "256 colors"@,
                ColorLevel::Ansi16 => "16 colors"@,
                ColorLevel::Mono => "no color"@,
            }),
    {
        match self {
            ColorLevel::TrueColor => "truecolor",
            ColorLevel::Ansi256 => "256 colors",
            ColorLevel::Ansi16 => "16 colors",
            ColorLevel::Mono => "no color",
        }
    }
}

/// Narrowing is a meet on the colour ladder: commutative, associative and
/// idempotent, never richer than either side, with `TrueColor` its
/// identity and `Mono` absorbing.
pub proof fn law_narrow_is_a_meet(a: ColorLevel, b: ColorLevel, c: ColorLevel)
    ensures
        narrower(a, b) == narrower(b, a),
        narrower(narrower(a, b), c) == narrower(a, narrower(b, c)),
        narrower(a, a) == a,
        depth(narrower(a, b)) <= depth(a) && depth(narrower(a, b)) <= depth(b),
        narrower(a, ColorLevel::TrueColor) == a,
        narrower(a, ColorLevel::Mono) == ColorLevel::Mono,
{
}

/// Terminal capability the theme is resolved for.
#[derive(Clone, Copy, PartialEq, Eq, Structural, Debug)]
pub struct Capability {
    /// Colour depth.
    pub color: ColorLevel,
}

} // verus!
