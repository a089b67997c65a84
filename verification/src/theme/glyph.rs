//! Glyph roles: every glyph of the design system's table, one role each.

use vstd::prelude::*;

verus! {

/// Every glyph in the design system's table, one role each. Roles stay
/// distinct even where Junie maps two to the same glyph, so a theme can
/// separate them.
#[derive(Clone, Copy, PartialEq, Eq, Structural, Hash, Debug)]
pub enum GlyphRole {
    /// Keyboard focus bar.
    FocusBar,
    /// Current or chosen item.
    Chosen,
    /// Checked / selected / completed.
    Checked,
    /// Checkbox on.
    CheckboxOn,
    /// Checkbox off.
    CheckboxOff,
    /// Radio on.
    RadioOn,
    /// Radio off.
    RadioOff,
    /// Switch knob.
    SwitchKnob,
    /// Modified / pending.
    Dirty,
    /// Inserted row.
    Inserted,
    /// Deleted row.
    Deleted,
    /// Error / diagnostic.
    Error,
    /// Warning weight.
    WarningMark,
    /// Collapsed disclosure.
    Collapsed,
    /// Expanded disclosure.
    Expanded,
    /// Sort ascending.
    SortAsc,
    /// Sort descending.
    SortDesc,
    /// Filter applied.
    Filtered,
    /// Primary key.
    PrimaryMark,
    /// List bullet.
    Bullet,
    /// Follows a reference.
    FollowRef,
    /// More rows available.
    MoreRows,
    /// Hidden content to the left.
    OverflowLeft,
    /// Hidden content to the right.
    OverflowRight,
    /// Truncated / clipped.
    Ellipsis,
    /// Close / remove.
    Close,
    /// Path separator.
    PathSep,
    /// Production environment.
    EnvProduction,
    /// Staging environment.
    EnvStaging,
    /// Quiet rule.
    RuleQuiet,
    /// Active rule.
    RuleActive,
    /// Scrollbar track.
    ScrollTrack,
    /// Scrollbar thumb.
    ScrollThumb,
    /// Progress done.
    ProgressDone,
    /// Progress paused.
    ProgressPaused,
    /// New tab affordance.
    NewTab,
    /// Mono `PRESSED` left bracket.
    PressLeft,
    /// Mono `PRESSED` right bracket.
    PressRight,
    /// The mask a secret field paints per character (§11.2, D-11).
    ///
    /// Distinct from [`GlyphRole::Dirty`] even though the Junie theme binds
    /// both to `•`: `Dirty` is the *uncommitted changes* marker and §11.4's
    /// mono rule already binds `MARKER + WARNING/DIRTY` to it, so overloading
    /// it would make a theme that restyles the dirty marker also restyle
    /// password masking.
    SecretMask,
    /// Closed select disclosure.
    SelectClosed,
    /// Open select disclosure.
    SelectOpen,
}

/// The position of a role in declaration order.
pub open spec fn role_index(r: GlyphRole) -> int {
    match r {
        GlyphRole::FocusBar => 0,
        GlyphRole::Chosen => 1,
        GlyphRole::Checked => 2,
        GlyphRole::CheckboxOn => 3,
        GlyphRole::CheckboxOff => 4,
        GlyphRole::RadioOn => 5,
        GlyphRole::RadioOff => 6,
        GlyphRole::SwitchKnob => 7,
        GlyphRole::Dirty => 8,
        GlyphRole::Inserted => 9,
        GlyphRole::Deleted => 10,
        GlyphRole::Error => 11,
        GlyphRole::WarningMark => 12,
        GlyphRole::Collapsed => 13,
        GlyphRole::Expanded => 14,
        GlyphRole::SortAsc => 15,
        GlyphRole::SortDesc => 16,
        GlyphRole::Filtered => 17,
        GlyphRole::PrimaryMark => 18,
        GlyphRole::Bullet => 19,
        GlyphRole::FollowRef => 20,
        GlyphRole::MoreRows => 21,
        GlyphRole::OverflowLeft => 22,
        GlyphRole::OverflowRight => 23,
        GlyphRole::Ellipsis => 24,
        GlyphRole::Close => 25,
        GlyphRole::PathSep => 26,
        GlyphRole::EnvProduction => 27,
        GlyphRole::EnvStaging => 28,
        GlyphRole::RuleQuiet => 29,
        GlyphRole::RuleActive => 30,
        GlyphRole::ScrollTrack => 31,
        GlyphRole::ScrollThumb => 32,
        GlyphRole::ProgressDone => 33,
        GlyphRole::ProgressPaused => 34,
        GlyphRole::NewTab => 35,
        GlyphRole::PressLeft => 36,
        GlyphRole::PressRight => 37,
        GlyphRole::SecretMask => 38,
        GlyphRole::SelectClosed => 39,
        GlyphRole::SelectOpen => 40,
    }
}

impl GlyphRole {
    /// The position of the role in declaration order.
    pub fn index(self) -> (i: usize)
        ensures
            i == role_index(self),
    {
        match self {
            GlyphRole::FocusBar => 0,
            GlyphRole::Chosen => 1,
            GlyphRole::Checked => 2,
            GlyphRole::CheckboxOn => 3,
            GlyphRole::CheckboxOff => 4,
            GlyphRole::RadioOn => 5,
            GlyphRole::RadioOff => 6,
            GlyphRole::SwitchKnob => 7,
            GlyphRole::Dirty => 8,
            GlyphRole::Inserted => 9,
            GlyphRole::Deleted => 10,
            GlyphRole::Error => 11,
            GlyphRole::WarningMark => 12,
            GlyphRole::Collapsed => 13,
            GlyphRole::Expanded => 14,
            GlyphRole::SortAsc => 15,
            GlyphRole::SortDesc => 16,
            GlyphRole::Filtered => 17,
            GlyphRole::PrimaryMark => 18,
            GlyphRole::Bullet => 19,
            GlyphRole::FollowRef => 20,
            GlyphRole::MoreRows => 21,
            GlyphRole::OverflowLeft => 22,
            GlyphRole::OverflowRight => 23,
            GlyphRole::Ellipsis => 24,
            GlyphRole::Close => 25,
            GlyphRole::PathSep => 26,
            GlyphRole::EnvProduction => 27,
            GlyphRole::EnvStaging => 28,
            GlyphRole::RuleQuiet => 29,
            GlyphRole::RuleActive => 30,
            GlyphRole::ScrollTrack => 31,
            GlyphRole::ScrollThumb => 32,
            GlyphRole::ProgressDone => 33,
            GlyphRole::ProgressPaused => 34,
            GlyphRole::NewTab => 35,
            GlyphRole::PressLeft => 36,
            GlyphRole::PressRight => 37,
            GlyphRole::SecretMask => 38,
            GlyphRole::SelectClosed => 39,
            GlyphRole::SelectOpen => 40,
        }
    }

    /// Every role, in declaration order.
    pub fn all() -> (v: Vec<GlyphRole>)
        ensures
            v@.len() == 41,
            forall|i: int| 0 <= i < 41 ==> role_index(#[trigger] v@[i]) == i,
    {
        let mut v: Vec<GlyphRole> = Vec::new();
        v.push(GlyphRole::FocusBar);
        v.push(GlyphRole::Chosen);
        v.push(GlyphRole::Checked);
        v.push(GlyphRole::CheckboxOn);
        v.push(GlyphRole::CheckboxOff);
        v.push(GlyphRole::RadioOn);
        v.push(GlyphRole::RadioOff);
        v.push(GlyphRole::SwitchKnob);
        v.push(GlyphRole::Dirty);
        v.push(GlyphRole::Inserted);
        v.push(GlyphRole::Deleted);
        v.push(GlyphRole::Error);
        v.push(GlyphRole::WarningMark);
        v.push(GlyphRole::Collapsed);
        v.push(GlyphRole::Expanded);
        v.push(GlyphRole::SortAsc);
        v.push(GlyphRole::SortDesc);
        v.push(GlyphRole::Filtered);
        v.push(GlyphRole::PrimaryMark);
        v.push(GlyphRole::Bullet);
        v.push(GlyphRole::FollowRef);
        v.push(GlyphRole::MoreRows);
        v.push(GlyphRole::OverflowLeft);
        v.push(GlyphRole::OverflowRight);
        v.push(GlyphRole::Ellipsis);
        v.push(GlyphRole::Close);
        v.push(GlyphRole::PathSep);
        v.push(GlyphRole::EnvProduction);
        v.push(GlyphRole::EnvStaging);
        v.push(GlyphRole::RuleQuiet);
        v.push(GlyphRole::RuleActive);
        v.push(GlyphRole::ScrollTrack);
        v.push(GlyphRole::ScrollThumb);
        v.push(GlyphRole::ProgressDone);
        v.push(GlyphRole::ProgressPaused);
        v.push(GlyphRole::NewTab);
        v.push(GlyphRole::PressLeft);
        v.push(GlyphRole::PressRight);
        v.push(GlyphRole::SecretMask);
        v.push(GlyphRole::SelectClosed);
        v.push(GlyphRole::SelectOpen);
        v
    }
}

/// A scrollbar's symbols: the track, the thumb and the two end caps.
#[derive(Clone, Copy, Debug, PartialEq, Eq, Hash)]
pub struct ScrollbarSet {
    /// The track.
    pub track: &'static str,
    /// The thumb.
    pub thumb: &'static str,
    /// The start cap.
    pub begin: &'static str,
    /// The end cap.
    pub end: &'static str,
}

/// A line set's symbols: the two strokes and the nine junctions.
#[derive(Clone, Copy, Debug, PartialEq, Eq, Hash)]
pub struct LineSet {
    /// Vertical stroke.
    pub vertical: &'static str,
    /// Horizontal stroke.
    pub horizontal: &'static str,
    /// Top-right corner.
    pub top_right: &'static str,
    /// Top-left corner.
    pub top_left: &'static str,
    /// Bottom-right corner.
    pub bottom_right: &'static str,
    /// Bottom-left corner.
    pub bottom_left: &'static str,
    /// Vertical stroke with a branch to the left.
    pub vertical_left: &'static str,
    /// Vertical stroke with a branch to the right.
    pub vertical_right: &'static str,
    /// Horizontal stroke with a branch down.
    pub horizontal_down: &'static str,
    /// Horizontal stroke with a branch up.
    pub horizontal_up: &'static str,
    /// Crossing.
    pub cross: &'static str,
}

/// One glyph per role. The scrollbar roles read the scrollbar set and the
/// rule roles the horizontal stroke of the two line sets; the other symbols
/// of those sets (caps, verticals, junctions) are named by no role.
#[derive(Clone, Debug, PartialEq, Eq, Hash)]
pub struct GlyphSet {
    glyphs: Vec<&'static str>,
    scroll: ScrollbarSet,
    rule_quiet: LineSet,
    rule_active: LineSet,
}

impl GlyphSet {
    /// One glyph for each role, by role index.
    pub closed spec fn spec_glyphs(&self) -> Seq<&'static str> {
        self.glyphs@
    }

    /// The scrollbar set.
    pub closed spec fn spec_scroll(&self) -> ScrollbarSet {
        self.scroll
    }

    /// The quiet rule set.
    pub closed spec fn spec_rule_quiet(&self) -> LineSet {
        self.rule_quiet
    }

    /// The active rule set.
    pub closed spec fn spec_rule_active(&self) -> LineSet {
        self.rule_active
    }

    /// The set holds a glyph for every role.
    pub open spec fn wf(&self) -> bool {
        self.spec_glyphs().len() == 41
    }

    /// The glyph the set holds for `r`.
    pub open spec fn glyph(&self, r: GlyphRole) -> &'static str {
        match r {
            GlyphRole::ScrollTrack => self.spec_scroll().track,
            GlyphRole::ScrollThumb => self.spec_scroll().thumb,
            GlyphRole::RuleQuiet => self.spec_rule_quiet().horizontal,
            GlyphRole::RuleActive => self.spec_rule_active().horizontal,
            _ => self.spec_glyphs()[role_index(r)],
        }
    }

    /// A set from a full table plus the symbol sets.
    pub fn new(glyphs: [&'static str; 41], scroll: ScrollbarSet, rule_quiet: LineSet, rule_active: LineSet) -> (g: GlyphSet)
        ensures
            g.wf(),
            g.spec_glyphs() == glyphs@,
            g.spec_scroll() == scroll,
            g.spec_rule_quiet() == rule_quiet,
            g.spec_rule_active() == rule_active,
    {
        let mut v: Vec<&'static str> = Vec::new();
        let mut i: usize = 0;
        while i < 41
            invariant
                i <= 41,
                glyphs@.len() == 41,
                v@ == glyphs@.take(i as int),
            decreases 41 - i,
        {
            v.push(glyphs[i]);
            proof {
                assert(glyphs@.take(i as int + 1) =~= glyphs@.take(i as int).push(glyphs@[i as int]));
            }
            i = i + 1;
        }
        proof {
            assert(glyphs@.take(41) =~= glyphs@);
        }
        GlyphSet { glyphs: v, scroll, rule_quiet, rule_active }
    }

    /// The glyph for a role.
    pub fn get(&self, r: GlyphRole) -> (s: &'static str)
        requires
            self.wf(),
        ensures
            s == self.glyph(r),
    {
        proof {
            lemma_role_index_injective(r, r);
        }
        match r {
            GlyphRole::ScrollTrack => self.scroll.track,
            GlyphRole::ScrollThumb => self.scroll.thumb,
            GlyphRole::RuleQuiet => self.rule_quiet.horizontal,
            GlyphRole::RuleActive => self.rule_active.horizontal,
            other => self.glyphs[other.index()],
        }
    }

    /// Replace the glyph for a role: afterwards the role reads `s`, and
    /// every other role reads what it read before.
    pub fn set(&mut self, r: GlyphRole, s: &'static str)
        requires
            old(self).wf(),
        ensures
            final(self).wf(),
            final(self).glyph(r) == s,
            forall|q: GlyphRole| q != r ==> #[trigger] final(self).glyph(q) == old(self).glyph(q),
            final(self).spec_scroll().begin == old(self).spec_scroll().begin,
            final(self).spec_scroll().end == old(self).spec_scroll().end,
    {
        proof {
            lemma_role_index_injective(r, r);
        }
        match r {
            GlyphRole::ScrollTrack => self.scroll.track = s,
            GlyphRole::ScrollThumb => self.scroll.thumb = s,
            GlyphRole::RuleQuiet => self.rule_quiet.horizontal = s,
            GlyphRole::RuleActive => self.rule_active.horizontal = s,
            other => {
                let i = other.index();
                self.glyphs.set(i, s);
            },
        }
        proof {
            assert forall|q: GlyphRole| q != r implies #[trigger] self.glyph(q) == old(self).glyph(q) by {
                lemma_role_index_injective(q, r);
            }
        }
    }

    /// Replace the scrollbar set. Its caps are named by no role and are
    /// reachable only here.
    pub fn set_scrollbar(&mut self, s: ScrollbarSet)
        ensures
            final(self).spec_scroll() == s,
            final(self).spec_glyphs() == old(self).spec_glyphs(),
            final(self).spec_rule_quiet() == old(self).spec_rule_quiet(),
            final(self).spec_rule_active() == old(self).spec_rule_active(),
    {
        self.scroll = s;
    }

    /// Replace the quiet rule set; its verticals and junctions are the seam
    /// glyphs.
    pub fn set_rule_quiet(&mut self, s: LineSet)
        ensures
            final(self).spec_rule_quiet() == s,
            final(self).spec_glyphs() == old(self).spec_glyphs(),
            final(self).spec_scroll() == old(self).spec_scroll(),
            final(self).spec_rule_active() == old(self).spec_rule_active(),
    {
        self.rule_quiet = s;
    }

    /// Replace the active rule set.
    pub fn set_rule_active(&mut self, s: LineSet)
        ensures
            final(self).spec_rule_active() == s,
            final(self).spec_glyphs() == old(self).spec_glyphs(),
            final(self).spec_scroll() == old(self).spec_scroll(),
            final(self).spec_rule_quiet() == old(self).spec_rule_quiet(),
    {
        self.rule_active = s;
    }

    /// The scrollbar set.
    pub fn scrollbar(&self) -> (s: ScrollbarSet)
        ensures
            s == self.spec_scroll(),
    {
        self.scroll
    }

    /// The quiet rule set.
    pub fn rule_quiet(&self) -> (s: LineSet)
        ensures
            s == self.spec_rule_quiet(),
    {
        self.rule_quiet
    }

    /// The active rule set.
    pub fn rule_active(&self) -> (s: LineSet)
        ensures
            s == self.spec_rule_active(),
    {
        self.rule_active
    }
}

proof fn lemma_role_index_injective(a: GlyphRole, b: GlyphRole)
    ensures
        0 <= role_index(a) < 41,
        a != b ==> role_index(a) != role_index(b),
{
}

} // verus!
