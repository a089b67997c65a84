use junie_tui::id::Part;
use junie_tui::response::StateFlags;
use junie_tui::theme::glyph::GlyphRole;
use junie_tui::theme::patch::{Modifier, Slot, StateRule, StylePatch};
use junie_tui::theme::recipe::{
    merge_states, Family, Overlay, OverlayRule, PartMap, PartRecipe, Recipe, RecipeEdit, Recipes, Variant,
};
use junie_tui::theme::role::{FgStep, Role};

#[test]
fn state_rules_are_stored_in_specificity_order() {
    let mut r = PartRecipe::default();
    r.when(StateFlags::hovered() | StateFlags::pressed(), StylePatch::new().set_bg(Role::Accent));
    r.when(StateFlags::focused(), StylePatch::new().set_fg(Role::Focus));
    r.when(StateFlags::empty(), StylePatch::new().set_fg(Role::Info));
    let specs: Vec<u32> = r.states.iter().map(StateRule::specificity).collect();
    assert_eq!(specs, vec![0, 1, 2]);
}

#[test]
fn state_rules_tie_break_by_declaration_order() {
    let mut r = PartRecipe::default();
    r.when(StateFlags::selected(), StylePatch::new().set_glyph(GlyphRole::Chosen));
    r.when(StateFlags::checked(), StylePatch::new().set_glyph(GlyphRole::Checked));
    let live = StateFlags::selected() | StateFlags::checked();
    let acc = r.apply(StylePatch::new(), live);
    assert_eq!(acc.glyph, Slot::Value(GlyphRole::Checked));
    let acc = r.apply(StylePatch::new(), StateFlags::selected());
    assert_eq!(acc.glyph, Slot::Value(GlyphRole::Chosen));
}

#[test]
fn custom_family_and_variant_round_trip() {
    let f = Family::custom("segmented");
    let v = Variant::custom("outline");
    assert!(f.raw() >= 0x8000 && v.raw() >= 0x8000);
    assert_eq!(f, Family::custom("segmented"));
    assert_eq!(Family::button().debug_string(), "Family::BUTTON");
    assert_eq!(v.debug_string(), format!("Variant::custom(#{:04x})", v.raw()));
    let mut rs = Recipes::new();
    rs.get_mut(f).default_variant = v;
    rs.get_mut(f).variant_mut(v).entry(Part::label()).base = StylePatch::new().set_fg(Role::Accent);
    assert_eq!(rs.get(f).map(|r| r.default_variant), Some(v));
    assert!(rs.get(f).and_then(|r| r.variant(v)).and_then(|m| m.get(Part::label())).is_some());
    assert_eq!(rs.len(), 1);
}

#[test]
fn library_names_and_values_are_fixed() {
    let all = Family::all();
    assert_eq!(all.len(), 35);
    assert_eq!(all[34], Family::too_small());
    assert_eq!(Family::too_small().name(), Some("TOO_SMALL"));
    assert_eq!(Family::too_small().debug_string(), "Family::TOO_SMALL");
    assert_eq!(Variant::all().len(), 8);
    assert_eq!(Variant::ghost().raw(), 7);
    assert_eq!(Variant::danger().name(), Some("DANGER"));
    assert_eq!(Variant(8).name(), None);
    assert_eq!(Variant(0xab).debug_string(), "Variant::custom(#00ab)");
    assert!(Family::button() < Family::menu());
}

#[test]
fn families_stay_sorted_and_undeclared_ones_resolve_through_the_neutral_recipe() {
    let mut rs = Recipes::new();
    assert!(rs.is_empty());
    rs.get_mut(Family::menu());
    rs.get_mut(Family::button());
    rs.get_mut(Family::tabs());
    rs.get_mut(Family::button()).default_variant = Variant::primary();
    let order: Vec<Family> = rs.iter().into_iter().map(|(f, _)| f).collect();
    assert_eq!(order, vec![Family::button(), Family::tabs(), Family::menu()]);
    assert_eq!(rs.get_or_neutral(Family::button()).default_variant, Variant::primary());
    let neutral = rs.get_or_neutral(Family::custom("x"));
    assert_eq!(neutral, rs.neutral());
    assert_eq!(neutral.parts.len(), 10);
    let container = neutral.parts.get(Part::container()).map(|r| r.states.len());
    assert_eq!(container, Some(7));
    assert!(rs.get(Family::list()).is_none());
}

#[test]
fn the_neutral_container_presses_to_inverted_bold() {
    let rs = Recipes::new();
    let container = rs.neutral().parts.get(Part::container()).cloned().unwrap_or_default();
    let pressed = container.apply(StylePatch::new(), StateFlags::pressed());
    assert_eq!(pressed.fg, Slot::Value(Role::Surface(junie_tui::theme::role::Surface::Canvas)));
    assert_eq!(pressed.bg, Slot::Value(Role::Fg(FgStep::Primary)));
    assert!(pressed.add.contains(Modifier::bold()));
    let disabled = container.apply(StylePatch::new(), StateFlags::disabled());
    assert_eq!(disabled.fg, Slot::Value(Role::DisabledFg));
    assert!(disabled.remove.contains(Modifier::bold()));
}

#[test]
fn family_and_variant_rules_interleave_by_specificity() {
    let mut fam = PartRecipe::default();
    fam.when(StateFlags::hovered() | StateFlags::focused(), StylePatch::new().set_fg(Role::Warning));
    fam.when(StateFlags::hovered(), StylePatch::new().set_fg(Role::Accent));
    let mut var = PartRecipe::default();
    var.when(StateFlags::hovered(), StylePatch::new().set_fg(Role::Danger));
    let live = StateFlags::hovered() | StateFlags::focused();
    // family HOVERED, then variant HOVERED (tie: family first), then the two-flag rule
    let acc = merge_states(StylePatch::new(), &fam.states, &var.states, live);
    assert_eq!(acc.fg, Slot::Value(Role::Warning));
    let acc = merge_states(StylePatch::new(), &fam.states, &var.states, StateFlags::hovered());
    assert_eq!(acc.fg, Slot::Value(Role::Danger));
}

#[test]
fn merging_recipes_keeps_the_specificity_order() {
    let mut a = PartRecipe::default();
    a.when(StateFlags::hovered() | StateFlags::focused(), StylePatch::new().set_fg(Role::Warning));
    let mut b = PartRecipe::default();
    b.glyph = Slot::Value(GlyphRole::Chosen);
    b.when(StateFlags::focused(), StylePatch::new().set_fg(Role::Accent));
    b.when(StateFlags::empty(), StylePatch::new().set_fg(Role::Info));
    a.merge_from(&b);
    let specs: Vec<u32> = a.states.iter().map(StateRule::specificity).collect();
    assert_eq!(specs, vec![0, 1, 2]);
    assert_eq!(a.glyph, Slot::Value(GlyphRole::Chosen));
    let base = a.apply_base(StylePatch::new().set_size(2));
    assert_eq!(base.size, Slot::Value(2));
    assert_eq!(base.glyph, Slot::Value(GlyphRole::Chosen));
}

#[test]
fn recipe_edits_become_part_recipes() {
    let mut e = RecipeEdit::default();
    e.default_variant(Variant::quiet());
    e.part(Part::label()).base(StylePatch::new().set_fg(Role::Accent)).when(
        StateFlags::hovered(),
        StylePatch::new().add(Modifier::underlined()),
    );
    e.part(Part::marker()).glyph(GlyphRole::Checked).size(2);
    assert_eq!(e.default_variant_set(), Some(Variant::quiet()));
    let parts = e.into_parts();
    let keys: Vec<Part> = parts.iter().into_iter().map(|(k, _)| k).collect();
    assert_eq!(keys, vec![Part::marker(), Part::label()]);
    let label = parts.get(Part::label()).cloned().unwrap_or_default();
    assert_eq!(label.base.fg, Slot::Value(Role::Accent));
    assert_eq!(label.states.len(), 1);
    let marker = parts.get(Part::marker()).cloned().unwrap_or_default();
    assert_eq!((marker.glyph, marker.size), (Slot::Value(GlyphRole::Checked), Slot::Value(2)));
}

#[test]
fn variant_deltas_are_found_or_created() {
    let mut r = Recipe::default();
    assert!(r.variant(Variant::primary()).is_none());
    r.variant_mut(Variant::primary()).insert(Part::label(), PartRecipe::default());
    r.variant_mut(Variant::primary()).insert(Part::meta(), PartRecipe::default());
    assert_eq!(r.variants.len(), 1);
    assert_eq!(r.variant(Variant::primary()).map(PartMap::len), Some(2));
}

#[test]
fn overlay_applies_only_matching_rules() {
    let rules: &'static [OverlayRule] = Box::leak(Box::new([(
        Family::button(),
        Variant::default(),
        Part::label(),
        StateFlags::focused(),
        StylePatch::new().set_fg(Role::Warning),
    )]));
    let ov = Overlay::new(rules);
    let hit = ov.apply(StylePatch::new(), Family::button(), Variant::default(), Part::label(), StateFlags::focused());
    assert_eq!(hit.fg, Slot::Value(Role::Warning));
    let miss = ov.apply(StylePatch::new(), Family::button(), Variant::default(), Part::label(), StateFlags::empty());
    assert!(miss.is_empty());
    let other = ov.apply(StylePatch::new(), Family::menu(), Variant::default(), Part::label(), StateFlags::focused());
    assert!(other.is_empty());
    assert_eq!(ov.rules().len(), 1);
    assert!(Overlay::empty().rules().is_empty());
}
