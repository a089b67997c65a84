use junie_tui::id::Part;
use junie_tui::response::StateFlags;
use junie_tui::theme::builtin::{default_recipes, neutral_recipe};
use junie_tui::theme::glyph::GlyphRole;
use junie_tui::theme::patch::{Modifier, Slot, StateRule, StylePatch};
use junie_tui::theme::recipe::{Family, RecipeEdit, Recipes, Variant};
use junie_tui::theme::resolve::accumulate;
use junie_tui::theme::role::{FgStep, Role, Surface};
use junie_tui::theme::tokens::ColorLevel;

fn p() -> StylePatch {
    StylePatch::new()
}

fn at(rs: &Recipes, level: ColorLevel, f: Family, v: Variant, part: Part, s: StateFlags) -> StylePatch {
    accumulate(rs, level, f, v, part, s, &[])
}

#[test]
fn every_family_has_a_recipe_and_rules_are_sorted() {
    let rs = default_recipes();
    assert_eq!(rs.len(), Family::all().len());
    for (_, r) in rs.iter() {
        for (_, part) in r.parts.iter() {
            let specs: Vec<u32> = part.states.iter().map(StateRule::specificity).collect();
            assert!(specs.windows(2).all(|w| w[0] <= w[1]), "{specs:?}");
        }
    }
}

#[test]
fn chip_and_choice_checked_markers_resolve_to_their_canonical_truecolor_glyphs() {
    let rs = default_recipes();
    let checked = |family| at(&rs, ColorLevel::TrueColor, family, Variant::default(), Part::marker(), StateFlags::checked());
    assert_eq!(checked(Family::chip()).glyph.get(), Some(GlyphRole::Checked));
    assert_eq!(checked(Family::choice()).glyph.get(), Some(GlyphRole::CheckboxOn));
}

#[test]
fn grid_active_cell_keeps_a_non_color_affordance_at_mono() {
    let rs = default_recipes();
    let active = at(&rs, ColorLevel::Mono, Family::grid(), Variant::default(), Part::cell(), StateFlags::active());
    assert!(active.add.contains(Modifier::bold()));
}

#[test]
fn grid_pressed_cell_is_explicit_inversion_after_semantic_cell_states() {
    let rs = default_recipes();
    for level in [ColorLevel::TrueColor, ColorLevel::Mono] {
        let live = StateFlags::active() | StateFlags::error() | StateFlags::dirty() | StateFlags::pressed();
        let pressed = at(&rs, level, Family::grid(), Variant::default(), Part::cell(), live);
        assert_eq!(pressed.fg, Slot::Value(Role::Surface(Surface::Canvas)));
        assert_eq!(pressed.bg, Slot::Value(Role::Fg(FgStep::Primary)));
        assert!(pressed.add.contains(Modifier::bold()));
        assert!(!pressed.add.contains(Modifier::reversed()));
        assert!(pressed.remove.contains(Modifier::reversed()));
    }
}

#[test]
fn menu_pressed_and_help_focused_have_exact_non_color_affordances() {
    let rs = default_recipes();
    for variant in [Variant::default(), Variant::danger()] {
        let row = at(&rs, ColorLevel::TrueColor, Family::menu(), variant, Part::row(), StateFlags::pressed());
        assert!(row.add.contains(Modifier::bold()));
        assert!(!row.add.contains(Modifier::reversed()));
    }
    let title = at(&rs, ColorLevel::TrueColor, Family::menu(), Variant::default(), Part::title(), StateFlags::pressed());
    assert_eq!(title.glyph, Slot::Value(GlyphRole::PressLeft));
    assert!(title.add.contains(Modifier::bold()));
    let border = at(&rs, ColorLevel::TrueColor, Family::help(), Variant::default(), Part::border(), StateFlags::focused());
    assert_eq!(border.fg, Slot::Value(Role::BorderStrong));
    assert!(border.add.contains(Modifier::bold()));
    let help_title =
        at(&rs, ColorLevel::TrueColor, Family::help(), Variant::default(), Part::title(), StateFlags::focused());
    assert!(help_title.add.contains(Modifier::bold().union(Modifier::underlined())));
}

#[test]
fn too_small_recipe_is_isolated_and_has_the_exact_tone_hierarchy() {
    let recipes = default_recipes();
    let recipe = recipes.get(Family::too_small()).expect("TOO_SMALL must have a dedicated built-in recipe");
    let expected = [
        (Part::container(), p().set_fg(Role::Fg(FgStep::Primary)).set_bg(Role::CurrentSurface)),
        (Part::title(), p().set_fg(Role::Fg(FgStep::Primary)).add(Modifier::bold())),
        (Part::detail(), p().set_fg(Role::Fg(FgStep::Secondary))),
        (Part::help(), p().set_fg(Role::Fg(FgStep::Muted))),
        (Part::actions(), p().set_fg(Role::Fg(FgStep::Faint))),
    ];
    assert_eq!(recipe.parts.len(), expected.len());
    for (part, patch) in expected {
        let actual = recipe.parts.get(part).expect("required part is missing");
        assert_eq!(actual.base, patch, "wrong base for {part:?}");
        assert!(actual.states.is_empty(), "{part:?} must have no state rules");
    }
    let actions = |rs: &Recipes, family| {
        at(rs, ColorLevel::TrueColor, family, Variant::default(), Part::actions(), StateFlags::empty())
    };
    let panel_before = actions(&recipes, Family::panel());
    let too_small_before = actions(&recipes, Family::too_small());
    let danger_actions = || {
        let mut e = RecipeEdit::default();
        e.part(Part::actions()).base(StylePatch::new().set_fg(Role::Danger));
        e
    };
    let mut changed_panel = default_recipes();
    changed_panel.override_family(Family::panel(), danger_actions());
    assert_ne!(actions(&changed_panel, Family::panel()), panel_before);
    assert_eq!(actions(&changed_panel, Family::too_small()), too_small_before);
    let mut changed_too_small = default_recipes();
    changed_too_small.override_family(Family::too_small(), danger_actions());
    assert_eq!(actions(&changed_too_small, Family::panel()), panel_before);
    assert_ne!(actions(&changed_too_small, Family::too_small()), too_small_before);
}

#[test]
fn picker_active_focused_label_has_dedicated_focus_affordance_only() {
    let recipes = default_recipes();
    let picker = recipes.get(Family::picker()).expect("PICKER must have a dedicated built-in recipe");
    assert!(picker.parts.get(Part::title()).is_none());
    for level in [ColorLevel::TrueColor, ColorLevel::Mono] {
        let resolve = |part, flags| at(&recipes, level, Family::picker(), Variant::default(), part, flags);
        let active = resolve(Part::label(), StateFlags::active());
        let focused = resolve(Part::label(), StateFlags::focused());
        let both = resolve(Part::label(), StateFlags::active() | StateFlags::focused());
        assert!(!active.add.contains(Modifier::underlined()));
        assert!(!focused.add.contains(Modifier::underlined()));
        assert_eq!(both.fg, Slot::Value(Role::Focus));
        assert!(both.add.contains(Modifier::underlined()));
        assert_eq!(
            resolve(Part::container(), StateFlags::active() | StateFlags::focused()),
            at(&recipes, level, Family::list(), Variant::default(), Part::container(), StateFlags::active() | StateFlags::focused())
        );
    }
}

#[test]
fn the_neutral_recipe_is_the_row_like_set() {
    let n = neutral_recipe();
    let list = default_recipes();
    let list = list.get(Family::list()).expect("LIST is declared");
    assert_eq!(n.default_variant, Variant::default());
    assert!(n.variants.is_empty());
    assert_eq!(n.parts.len(), list.parts.len());
    for (part, r) in n.parts.iter() {
        assert_eq!(list.parts.get(part).map(|l| (l.base, l.states.len())), Some((r.base, r.states.len())));
    }
}
