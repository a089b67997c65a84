use junie_tui::id::Part;
use junie_tui::response::StateFlags;
use junie_tui::theme::glyph::GlyphRole;
use junie_tui::theme::patch::{Modifier, Slot, StateRule, StylePatch};
use junie_tui::theme::recipe::{
    Family, GlobalOverride, MonoRule, Overlay, OverlayRule, PartMap, PartRecipe, RecipeEdit, Recipes, Variant,
};
use junie_tui::theme::resolve::{
    accumulate, apply_mono_fallback, metrics, metrics_of, mono_rules, mono_rules_extra, targeted_mono_rules, PartMetrics,
    StyleCache, MONO_RULES_PER_FAMILY,
};
use junie_tui::theme::role::{FgStep, Role, Surface};
use junie_tui::theme::tokens::ColorLevel;

/// The precedence fixture: a family base, a family state rule and a
/// variant base, each naming a different role.
fn recipes_over() -> Recipes {
    let mut rs = Recipes::new();
    let r = rs.get_mut(Family::custom("t"));
    r.default_variant = Variant::primary();
    let part = r.parts.entry(Part::label());
    part.base = StylePatch::new().set_fg(Role::Fg(FgStep::Primary));
    part.when(StateFlags::focused(), StylePatch::new().set_fg(Role::Warning));
    r.variant_mut(Variant::primary()).entry(Part::label()).base = StylePatch::new().set_fg(Role::Accent);
    rs
}

fn label_fg(rs: &Recipes, live: StateFlags, ovs: &[Overlay], inst: Option<&StylePatch>) -> Slot<Role> {
    let acc = accumulate(rs, ColorLevel::TrueColor, Family::custom("t"), Variant::default(), Part::label(), live, ovs);
    match inst {
        Some(p) => acc.merge(*p).fg,
        None => acc.fg,
    }
}

fn leak(rules: Vec<OverlayRule>) -> &'static [OverlayRule] {
    Box::leak(rules.into_boxed_slice())
}

#[test]
fn precedence_family_then_variant_then_state_then_global_then_scope_then_instance() {
    let mut rs = recipes_over();
    let f = Family::custom("t");
    // 2 over 1
    assert_eq!(label_fg(&rs, StateFlags::empty(), &[], None), Slot::Value(Role::Accent));
    // 3 over 2: the family's state rule beats the variant's base
    assert_eq!(label_fg(&rs, StateFlags::focused(), &[], None), Slot::Value(Role::Warning));
    // 4 over 3
    let mut parts: PartMap<PartRecipe> = PartMap::new();
    parts.entry(Part::label()).base = StylePatch::new().set_fg(Role::Success);
    rs.push_override(GlobalOverride { family: f, variant: None, parts });
    assert_eq!(label_fg(&rs, StateFlags::focused(), &[], None), Slot::Value(Role::Success));
    // 5 over 4
    let ov = Overlay::new(leak(vec![(
        Family::custom("t"),
        Variant::primary(),
        Part::label(),
        StateFlags::empty(),
        StylePatch::new().set_fg(Role::Info),
    )]));
    assert_eq!(label_fg(&rs, StateFlags::focused(), &[ov], None), Slot::Value(Role::Info));
    // 6 over 5
    let inst = StylePatch::new().set_fg(Role::Danger);
    assert_eq!(label_fg(&rs, StateFlags::focused(), &[ov], Some(&inst)), Slot::Value(Role::Danger));
    // outer then inner: the inner overlay wins
    let ov2 = Overlay::new(leak(vec![(
        Family::custom("t"),
        Variant::primary(),
        Part::label(),
        StateFlags::empty(),
        StylePatch::new().set_fg(Role::Success),
    )]));
    assert_eq!(label_fg(&rs, StateFlags::empty(), &[ov, ov2], None), Slot::Value(Role::Success));
}

#[test]
fn state_rules_beat_a_variant_base() {
    let rs = recipes_over();
    assert_eq!(label_fg(&rs, StateFlags::empty(), &[], None), Slot::Value(Role::Accent));
    assert_eq!(label_fg(&rs, StateFlags::focused(), &[], None), Slot::Value(Role::Warning));
}

#[test]
fn family_and_variant_state_rules_interleave_by_specificity() {
    let mut rs = Recipes::new();
    let f = Family::custom("i");
    {
        let r = rs.get_mut(f);
        r.default_variant = Variant::primary();
        let part = r.parts.entry(Part::label());
        part.when(StateFlags::focused(), StylePatch::new().set_fg(Role::Warning).set_bg(Role::DangerTint));
        part.when(StateFlags::focused() | StateFlags::hovered(), StylePatch::new().set_fg(Role::Info));
        let vp = r.variant_mut(Variant::primary()).entry(Part::label());
        vp.when(StateFlags::focused(), StylePatch::new().set_fg(Role::Success).set_bg(Role::AccentTint));
    }
    let q = |live| accumulate(&rs, ColorLevel::TrueColor, f, Variant::default(), Part::label(), live, &[]);
    assert_eq!(q(StateFlags::focused()).fg, Slot::Value(Role::Success));
    assert_eq!(q(StateFlags::focused()).bg, Slot::Value(Role::AccentTint));
    let both = StateFlags::focused() | StateFlags::hovered();
    assert_eq!(q(both).fg, Slot::Value(Role::Info));
    assert_eq!(q(both).bg, Slot::Value(Role::AccentTint));
}

#[test]
fn a_custom_family_resolves_through_the_neutral_recipe() {
    let rs = Recipes::new();
    let f = Family::custom("segmented");
    assert!(rs.get(f).is_none());
    let container =
        accumulate(&rs, ColorLevel::TrueColor, f, Variant::default(), Part::container(), StateFlags::empty(), &[]);
    assert_eq!(container.fg, Slot::Value(Role::Fg(FgStep::Primary)));
    assert_eq!(container.bg, Slot::Value(Role::CurrentSurface));
    let focused =
        accumulate(&rs, ColorLevel::TrueColor, f, Variant::default(), Part::gutter(), StateFlags::focused(), &[]);
    assert_eq!(focused.glyph, Slot::Value(GlyphRole::FocusBar));
    assert_eq!(focused.fg, Slot::Value(Role::Focus));
}

#[test]
fn cache_hits_after_the_first_query_and_clears_by_generation() {
    let rs = recipes_over();
    let mut c = StyleCache::new();
    let f = Family::custom("t");
    let level = ColorLevel::TrueColor;
    let a = c.accumulate(&rs, level, f, Variant::default(), Part::label(), StateFlags::focused(), &[], 0);
    let b = c.accumulate(&rs, level, f, Variant::default(), Part::label(), StateFlags::focused(), &[], 0);
    assert_eq!(a, b);
    assert_eq!(c.stats(), (1, 1));
    c.clear();
    let _ = c.accumulate(&rs, level, f, Variant::default(), Part::label(), StateFlags::focused(), &[], 0);
    assert_eq!(c.stats(), (1, 2));
    let rule = StateRule { when: StateFlags::focused(), patch: StylePatch::new() };
    assert!(rule.matches(StateFlags::focused()));
    let r = PartRecipe::default();
    assert!(r.apply(StylePatch::new(), StateFlags::empty()).is_empty());
}

#[test]
fn the_memo_answers_like_the_uncached_chain() {
    let rs = recipes_over();
    let mut c = StyleCache::new();
    let f = Family::custom("t");
    let parts = [Part::label(), Part::container(), Part::gutter(), Part::marker()];
    let states = [StateFlags::empty(), StateFlags::focused(), StateFlags::pressed(), StateFlags::disabled()];
    for _ in 0..3 {
        for p in parts {
            for s in states {
                let cached = c.accumulate(&rs, ColorLevel::Mono, f, Variant::default(), p, s, &[], 7);
                let direct = accumulate(&rs, ColorLevel::Mono, f, Variant::default(), p, s, &[]);
                assert_eq!(cached, direct);
            }
        }
    }
    let (hits, misses) = c.stats();
    assert_eq!(hits + misses, 48);
    assert!(hits >= 32);
}

#[test]
fn a_second_query_hits_even_after_a_set_collision() {
    let rs = Recipes::new();
    let mut c = StyleCache::new();
    let f = Family::button();
    // many stack hashes: some land in one set and evict each other
    for h in 0..600u64 {
        let a = c.accumulate(&rs, ColorLevel::TrueColor, f, Variant::default(), Part::label(), StateFlags::empty(), &[], h);
        let (hits, _) = c.stats();
        let b = c.accumulate(&rs, ColorLevel::TrueColor, f, Variant::default(), Part::label(), StateFlags::empty(), &[], h);
        assert_eq!(a, b);
        assert_eq!(c.stats().0, hits + 1);
    }
}

#[test]
fn mono_pressed_inverts_the_container_but_not_the_scrollbar() {
    let rs = Recipes::new();
    let pressed = StateFlags::pressed();
    let button = apply_mono_fallback(StylePatch::new(), &rs, Family::button(), Part::container(), pressed);
    assert_eq!(button.bg, Slot::Value(Role::Fg(FgStep::Primary)));
    assert_eq!(button.fg, Slot::Value(Role::Surface(Surface::Canvas)));
    assert_eq!(button.add, Modifier::bold());
    let bar = apply_mono_fallback(StylePatch::new(), &rs, Family::scrollbar(), Part::container(), pressed);
    assert!(bar.is_empty());
    let thumb = apply_mono_fallback(StylePatch::new(), &rs, Family::scrollbar(), Part::thumb(), pressed);
    assert_eq!(thumb.add, Modifier::bold());
}

#[test]
fn mono_disabled_text_is_dim_and_readable() {
    let rs = Recipes::new();
    let p = apply_mono_fallback(StylePatch::new(), &rs, Family::input(), Part::text(), StateFlags::disabled());
    assert_eq!(p.fg, Slot::Value(Role::Fg(FgStep::Primary)));
    assert_eq!(p.add, Modifier::dim());
    assert_eq!(p.remove.bits(), 511 & !2);
    // the error underline comes after the disabled removal, so it survives
    let both = apply_mono_fallback(
        StylePatch::new(),
        &rs,
        Family::input(),
        Part::field(),
        StateFlags::disabled() | StateFlags::error(),
    );
    assert_eq!(both.add, Modifier::dim().union(Modifier::underlined()));
}

#[test]
fn mono_targeted_rules_follow_the_family_and_an_authored_set_replaces_them() {
    let mut rs = Recipes::new();
    let pressed = StateFlags::pressed();
    let select = apply_mono_fallback(StylePatch::new(), &rs, Family::select(), Part::marker(), pressed);
    assert_eq!(select.glyph, Slot::Value(GlyphRole::PressRight));
    let other = apply_mono_fallback(StylePatch::new(), &rs, Family::list(), Part::marker(), pressed);
    assert_eq!(other.glyph, Slot::Inherit);
    rs.set_mono_rules(Family::select(), vec![]);
    let silenced = apply_mono_fallback(StylePatch::new(), &rs, Family::select(), Part::marker(), pressed);
    assert_eq!(silenced.glyph, Slot::Inherit);
    rs.set_mono_rules(
        Family::select(),
        vec![(Part::marker(), StateFlags::pressed(), StylePatch::new().set_glyph(GlyphRole::Chosen))],
    );
    rs.set_mono_rules(
        Family::select(),
        vec![(Part::marker(), StateFlags::pressed(), StylePatch::new().set_glyph(GlyphRole::Checked))],
    );
    assert_eq!(rs.mono_rules(Family::select()).map(|r| r.len()), Some(1));
    let authored = apply_mono_fallback(StylePatch::new(), &rs, Family::select(), Part::marker(), pressed);
    assert_eq!(authored.glyph, Slot::Value(GlyphRole::Checked));
}

#[test]
fn the_mono_layer_applies_only_at_mono_and_overrides_beat_it() {
    let mut rs = Recipes::new();
    let f = Family::custom("seg");
    let g = |rs: &Recipes, level| {
        accumulate(rs, level, f, Variant::default(), Part::marker(), StateFlags::selected(), &[]).glyph
    };
    // the neutral recipe's selected marker is `Chosen`; mono adds the same
    assert_eq!(g(&rs, ColorLevel::Mono), Slot::Value(GlyphRole::Chosen));
    let lbl = accumulate(&rs, ColorLevel::Mono, f, Variant::default(), Part::label(), StateFlags::focused(), &[]);
    assert_eq!(lbl.add, Modifier::bold());
    let lbl = accumulate(&rs, ColorLevel::Ansi16, f, Variant::default(), Part::label(), StateFlags::focused(), &[]);
    assert_eq!(lbl.add, Modifier::empty());
    let mut parts: PartMap<PartRecipe> = PartMap::new();
    parts.entry(Part::marker()).base = StylePatch::new().set_glyph(GlyphRole::Bullet);
    rs.push_override(GlobalOverride { family: f, variant: None, parts });
    assert_eq!(g(&rs, ColorLevel::Mono), Slot::Value(GlyphRole::Bullet));
}

#[test]
fn metrics_read_the_accumulated_slots() {
    let mut rs = Recipes::new();
    let f = Family::custom("m");
    let part = rs.get_mut(f).parts.entry(Part::label());
    part.size = Slot::Value(3);
    part.when(StateFlags::focused(), StylePatch::new().set_size(5));
    let m = metrics(&rs, ColorLevel::TrueColor, f, Variant::default(), Part::label(), StateFlags::empty());
    assert_eq!(m, PartMetrics { glyph: Slot::Inherit, size: Some(3), align: None });
    let m = metrics(&rs, ColorLevel::TrueColor, f, Variant::default(), Part::label(), StateFlags::focused());
    assert_eq!(m.size, Some(5));
}

/// A theme-level override of every variant of `f`, built by `edit`.
fn override_family(rs: &mut Recipes, f: Family, edit: impl FnOnce(&mut RecipeEdit)) {
    let mut e = RecipeEdit::default();
    edit(&mut e);
    rs.override_family(f, e);
}

fn targeted_tables() -> Vec<MonoRule> {
    let mut all = Vec::new();
    for f in [Family::viewport(), Family::grid(), Family::menu(), Family::help(), Family::picker(), Family::select()] {
        all.extend(targeted_mono_rules(f));
    }
    all
}

/// Every `(part, state)` pair the static mono layer answers for `f`,
/// probed through `apply_mono_fallback`.
fn responding_pairs(recipes: &Recipes, f: Family) -> usize {
    let mut pairs: Vec<(Part, StateFlags)> = mono_rules()
        .iter()
        .chain(mono_rules_extra().iter())
        .chain(targeted_tables().iter())
        .map(|(part, when, _)| (*part, *when))
        .collect();
    pairs.sort_by_key(|(part, when)| (part.0, when.bits()));
    pairs.dedup();
    pairs
        .iter()
        .filter(|(part, when)| apply_mono_fallback(StylePatch::new(), recipes, f, *part, *when) != StylePatch::new())
        .count()
}

#[test]
fn mono_resolver_applies_once_without_recipe_storage() {
    let t = Recipes::new();
    let before = t.clone();
    assert_eq!(MONO_RULES_PER_FAMILY, mono_rules().len() + mono_rules_extra().len());
    // CHECKED wins over SELECTED when both are live
    let acc = accumulate(
        &t,
        ColorLevel::Mono,
        Family::list(),
        Variant::default(),
        Part::marker(),
        StateFlags::selected() | StateFlags::checked(),
        &[],
    );
    assert_eq!(acc.glyph, Slot::Value(GlyphRole::Checked));
    let pressed =
        accumulate(&t, ColorLevel::Mono, Family::button(), Variant::default(), Part::label(), StateFlags::pressed(), &[]);
    assert_eq!(pressed.glyph, Slot::Value(GlyphRole::PressLeft));
    assert!(pressed.add.contains(Modifier::bold()));
    assert_eq!(t, before, "mono fallback leaked into recipe storage");
}

#[test]
fn mono_targeted_fallbacks_declare_omitted_families() {
    let recipes = Recipes::new();
    let selected =
        apply_mono_fallback(StylePatch::new(), &recipes, Family::viewport(), Part::text(), StateFlags::selected());
    assert!(selected.add.contains(Modifier::underlined()));
    let error = apply_mono_fallback(StylePatch::new(), &recipes, Family::grid(), Part::cell(), StateFlags::error());
    assert!(error.add.contains(Modifier::underlined()));
}

#[test]
fn author_override_precedence_beats_the_static_mono_layer() {
    let mut rs = Recipes::new();
    override_family(&mut rs, Family::button(), |recipe| {
        recipe.part(Part::label()).when(StateFlags::pressed(), StylePatch::new().remove(Modifier::bold()));
    });
    let pressed =
        accumulate(&rs, ColorLevel::Mono, Family::button(), Variant::default(), Part::label(), StateFlags::pressed(), &[]);
    assert!(!pressed.add.contains(Modifier::bold()));
    assert!(pressed.remove.contains(Modifier::bold()));
}

#[test]
fn mono_parts_exactly_cover_every_reserved_rule_part() {
    let rules = mono_rules();
    let extra = mono_rules_extra();
    let viewport = targeted_mono_rules(Family::viewport());
    let grid = targeted_mono_rules(Family::grid());
    let menu = targeted_mono_rules(Family::menu());
    let help = targeted_mono_rules(Family::help());
    let picker = targeted_mono_rules(Family::picker());
    let select = targeted_mono_rules(Family::select());
    assert_eq!(rules.len(), 15);
    assert_eq!(extra.len(), 5);
    assert!(extra.iter().any(|(part, when, patch)| {
        *part == Part::icon() && *when == StateFlags::loading() && patch.add.contains(Modifier::underlined())
    }));
    assert_eq!(viewport.len(), 1);
    assert_eq!(grid.len(), 2);
    assert_eq!(menu.len(), 2);
    assert_eq!(help.len(), 2);
    assert_eq!(picker.len(), 3);
    assert_eq!(select.len(), 3);
    assert!(grid
        .iter()
        .any(|(part, when, patch)| *part == Part::row() && *when == StateFlags::pressed() && patch.add.contains(Modifier::bold())));
    assert!(picker.iter().any(|(part, when, patch)| {
        *part == Part::label()
            && *when == StateFlags::pressed()
            && patch.fg == Slot::Value(Role::Surface(Surface::Canvas))
            && patch.bg == Slot::Value(Role::Fg(FgStep::Primary))
            && patch.add.contains(Modifier::bold())
            && patch.add.contains(Modifier::underlined())
            && !patch.add.contains(Modifier::reversed())
    }));
    assert!(select.iter().any(|(part, when, patch)| {
        *part == Part::field()
            && *when == StateFlags::pressed()
            && patch.fg == Slot::Value(Role::Surface(Surface::Canvas))
            && patch.bg == Slot::Value(Role::Fg(FgStep::Primary))
            && patch.add.contains(Modifier::bold())
            && !patch.add.contains(Modifier::reversed())
    }));
    assert!(select.iter().any(|(part, when, patch)| {
        *part == Part::gutter()
            && *when == StateFlags::pressed()
            && patch.glyph == Slot::Value(GlyphRole::PressLeft)
            && patch.add.contains(Modifier::bold())
    }));
    assert!(select.iter().any(|(part, when, patch)| {
        *part == Part::marker()
            && *when == StateFlags::pressed()
            && patch.glyph == Slot::Value(GlyphRole::PressRight)
            && patch.add.contains(Modifier::bold())
    }));
}

#[test]
fn mono_rule_counts_match_the_documented_totals() {
    assert_eq!(MONO_RULES_PER_FAMILY, mono_rules().len() + mono_rules_extra().len());
    let r = Recipes::new();
    assert_eq!(responding_pairs(&r, Family::button()), MONO_RULES_PER_FAMILY);
    assert_eq!(responding_pairs(&r, Family::custom("seg")), MONO_RULES_PER_FAMILY);
    assert_eq!(responding_pairs(&r, Family::scrollbar()), MONO_RULES_PER_FAMILY - 1);
    for (f, pairs) in [
        (Family::viewport(), 21),
        (Family::grid(), 22),
        (Family::menu(), 22),
        (Family::help(), 22),
        (Family::picker(), 22),
        (Family::select(), 23),
    ] {
        assert_eq!(responding_pairs(&r, f), pairs, "{f:?}");
    }
}

#[test]
fn builder_mono_rules_reach_a_custom_family_at_mono_only() {
    let seg = Family::custom("seg");
    let rule = [(Part::marker(), StateFlags::active(), StylePatch::new().set_glyph(GlyphRole::Chosen))];
    let mut base = Recipes::new();
    base.set_mono_rules(seg, rule.to_vec());
    // storage records the manifest, not a family
    assert!(base.get(seg).is_none());
    assert_eq!(base.mono_rules(seg), Some(&rule[..]));
    let at = |rs: &Recipes, level, p: Part, s: StateFlags| accumulate(rs, level, seg, Variant::default(), p, s, &[]);
    // nothing happens above `Mono`: this is a capability fallback layer
    assert_eq!(at(&base, ColorLevel::TrueColor, Part::marker(), StateFlags::active()).glyph, Slot::Inherit);
    assert_eq!(at(&base, ColorLevel::Mono, Part::marker(), StateFlags::active()).glyph, Slot::Value(GlyphRole::Chosen));
    // the generic manifest still applies to the same family
    assert!(at(&base, ColorLevel::Mono, Part::label(), StateFlags::focused()).add.contains(Modifier::bold()));
    // and an author override still beats the static layer
    let mut overridden = base.clone();
    override_family(&mut overridden, seg, |recipe| {
        recipe.part(Part::marker()).when(StateFlags::active(), StylePatch::new().clear_glyph());
    });
    assert_eq!(at(&overridden, ColorLevel::Mono, Part::marker(), StateFlags::active()).glyph, Slot::Clear);
}

#[test]
fn builder_mono_rules_replace_the_whole_targeted_set() {
    let underlined = [(Part::field(), StateFlags::pressed(), StylePatch::new().add(Modifier::underlined()))];
    let mut replaced = Recipes::new();
    replaced.set_mono_rules(Family::select(), underlined.to_vec());
    let at = |t: &Recipes, part: Part| {
        apply_mono_fallback(StylePatch::new(), t, Family::select(), part, StateFlags::pressed())
    };
    // the built-in rules are gone, not merged under the new one
    assert_eq!(at(&replaced, Part::field()), StylePatch::new().add(Modifier::underlined()));
    assert_eq!(at(&replaced, Part::gutter()), StylePatch::new());
    assert_eq!(at(&replaced, Part::marker()).glyph, Slot::Inherit);
    assert_eq!(responding_pairs(&replaced, Family::select()), MONO_RULES_PER_FAMILY + 1);
    // last call wins: no accumulation across repeated calls
    let mut last = Recipes::new();
    last.set_mono_rules(Family::select(), underlined.to_vec());
    last.set_mono_rules(Family::select(), vec![(Part::field(), StateFlags::pressed(), StylePatch::new().add(Modifier::bold()))]);
    assert_eq!(at(&last, Part::field()), StylePatch::new().add(Modifier::bold()));
    // an empty set silences the family's targeted rules and only those
    let mut cleared = Recipes::new();
    cleared.set_mono_rules(Family::select(), vec![]);
    assert_eq!(cleared.mono_rules(Family::select()), Some(&[][..]));
    assert_eq!(at(&cleared, Part::field()), StylePatch::new());
    assert_eq!(responding_pairs(&cleared, Family::select()), MONO_RULES_PER_FAMILY);
    assert_eq!(responding_pairs(&cleared, Family::picker()), responding_pairs(&Recipes::new(), Family::picker()));
}

#[test]
fn metrics_is_the_sizing_path_for_update() {
    let mut t = Recipes::new();
    {
        let r = t.get_mut(Family::field());
        let p = r.parts.entry(Part::field());
        p.size = Slot::Value(3);
        p.glyph = Slot::Value(GlyphRole::FocusBar);
    }
    for st in [StateFlags::empty(), StateFlags::focused(), StateFlags::error()] {
        let m = metrics(&t, ColorLevel::TrueColor, Family::field(), Variant::default(), Part::field(), st);
        assert_eq!(m.size, Some(3));
        assert_eq!(m.glyph, Slot::Value(GlyphRole::FocusBar));
        // painting accumulates the same slots, so it reads the same numbers
        let acc = accumulate(&t, ColorLevel::TrueColor, Family::field(), Variant::default(), Part::field(), st, &[]);
        assert_eq!(metrics_of(&acc), m);
    }
}

#[test]
fn overrides_reach_resolution() {
    let at = |rs: &Recipes, v: Variant, p: Part, s: StateFlags| {
        accumulate(rs, ColorLevel::TrueColor, Family::button(), v, p, s, &[])
    };
    let mut t = Recipes::new();
    override_family(&mut t, Family::button(), |r| {
        r.default_variant(Variant::secondary());
        r.part(Part::gutter()).glyph(GlyphRole::FocusBar);
        r.part(Part::label())
            .base(StylePatch::new().set_fg(Role::Fg(FgStep::Primary)))
            .when(StateFlags::focused(), StylePatch::new().add(Modifier::bold()))
            .when(StateFlags::disabled(), StylePatch::new().set_fg(Role::DisabledFg).remove(Modifier::bold()));
        r.part(Part::container())
            .when(StateFlags::hovered(), StylePatch::new().set_bg(Role::AccentTint))
            .when(
                StateFlags::hovered() | StateFlags::pressed(),
                StylePatch::new().set_bg(Role::AccentPressed).set_fg(Role::OnAccent),
            );
    });
    let r = at(&t, Variant::default(), Part::container(), StateFlags::hovered() | StateFlags::pressed());
    assert_eq!(r.bg, Slot::Value(Role::AccentPressed));
    let g = at(&t, Variant::default(), Part::gutter(), StateFlags::empty());
    assert_eq!(g.glyph, Slot::Value(GlyphRole::FocusBar));
    assert_eq!(t.get(Family::button()).map(|r| r.default_variant), Some(Variant::secondary()));
    let mut v = Recipes::new();
    let mut e = RecipeEdit::default();
    e.part(Part::label()).base(StylePatch::new().set_fg(Role::Info));
    v.override_variant(Family::button(), Variant::danger(), e);
    assert_eq!(at(&v, Variant::danger(), Part::label(), StateFlags::empty()).fg, Slot::Value(Role::Info));
    assert_eq!(at(&v, Variant::primary(), Part::label(), StateFlags::empty()).fg, Slot::Inherit);
    let seg = Family::custom("seg");
    let outline = Variant::custom("outline");
    let mut d = Recipes::new();
    let mut e = RecipeEdit::default();
    e.part(Part::label()).base(StylePatch::new().set_fg(Role::Accent)).size(3);
    d.define_family(seg, e);
    let mut e = RecipeEdit::default();
    e.part(Part::label()).base(StylePatch::new().set_fg(Role::Warning));
    d.define_variant(seg, outline, e);
    let base = accumulate(&d, ColorLevel::TrueColor, seg, Variant::default(), Part::label(), StateFlags::empty(), &[]);
    assert_eq!((base.fg, base.size), (Slot::Value(Role::Accent), Slot::Value(3)));
    let out = accumulate(&d, ColorLevel::TrueColor, seg, outline, Part::label(), StateFlags::empty(), &[]);
    assert_eq!(out.fg, Slot::Value(Role::Warning));
}

#[test]
fn defining_a_family_merges_into_the_parts_it_has() {
    let f = Family::custom("m");
    let mut rs = Recipes::new();
    let mut e = RecipeEdit::default();
    e.part(Part::label()).base(StylePatch::new().set_fg(Role::Accent)).when(StateFlags::focused(), StylePatch::new().add(Modifier::bold()));
    rs.define_family(f, e);
    let mut e = RecipeEdit::default();
    e.default_variant(Variant::subtle());
    e.part(Part::label()).base(StylePatch::new().set_bg(Role::AccentTint)).when(StateFlags::empty(), StylePatch::new().set_fg(Role::Info));
    e.part(Part::meta()).glyph(GlyphRole::Bullet);
    rs.define_family(f, e);
    let r = rs.get(f).expect("declared");
    assert_eq!(r.default_variant, Variant::subtle());
    let label = r.parts.get(Part::label()).expect("label");
    assert_eq!(label.base, StylePatch::new().set_fg(Role::Accent).set_bg(Role::AccentTint));
    // the new rule needs fewer flags, so it goes first
    let specs: Vec<u32> = label.states.iter().map(StateRule::specificity).collect();
    assert_eq!(specs, vec![0, 1]);
    assert_eq!(r.parts.get(Part::meta()).map(|p| p.glyph), Some(Slot::Value(GlyphRole::Bullet)));
    assert_eq!(rs.len(), 1);
    assert!(rs.overrides().is_empty());
}
