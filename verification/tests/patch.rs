use junie_tui::response::StateFlags;
use junie_tui::theme::glyph::GlyphRole;
use junie_tui::theme::patch::{Modifier, Slot, StateRule, StylePatch};
use junie_tui::theme::role::{Align, FgStep, Role};

fn a() -> StylePatch {
    StylePatch::new().set_fg(Role::Accent).add(Modifier::bold())
}

fn b() -> StylePatch {
    StylePatch::new().set_bg(Role::Danger).remove(Modifier::bold())
}

fn c() -> StylePatch {
    StylePatch::new().set_fg(Role::Fg(FgStep::Muted)).add(Modifier::italic())
}

#[test]
fn patch_merge_identity() {
    assert_eq!(a().merge(StylePatch::default()), a());
    assert_eq!(StylePatch::default().merge(a()), a());
}

#[test]
fn patch_merge_absorption() {
    assert_eq!(a().merge(a()), a());
    assert_eq!(a().merge(b()).merge(b()), a().merge(b()));
}

#[test]
fn patch_merge_is_associative() {
    assert_eq!(a().merge(b()).merge(c()), a().merge(b().merge(c())));
    assert_eq!(c().merge(a()).merge(b()), c().merge(a().merge(b())));
}

#[test]
fn patch_clear_resolves_to_inherited_surface_fg() {
    let p = a().merge(StylePatch::new().clear_fg());
    assert_eq!(p.fg, Slot::Clear);
    assert_eq!(p.fg.get(), None);
    assert!(p.fg.speaks());
}

#[test]
fn patch_clear_glyph_is_explicit_and_overrides_a_set() {
    let p = StylePatch::new().set_glyph(GlyphRole::Chosen).merge(StylePatch::new().clear_glyph());
    assert_eq!(p.glyph, Slot::Clear);
    assert!(p.glyph.speaks());
    assert_eq!(StylePatch::new().clear_glyph().glyph.get(), None);
}

#[test]
fn modifier_add_then_remove_is_symmetric() {
    let add = StylePatch::new().add(Modifier::bold());
    let rem = StylePatch::new().remove(Modifier::bold());
    let r1 = add.merge(rem);
    assert!(r1.add.is_empty() && r1.remove.contains(Modifier::bold()));
    let r2 = rem.merge(add);
    assert!(r2.remove.is_empty() && r2.add.contains(Modifier::bold()));
    assert_eq!(StylePatch::new().add(Modifier::bold()).remove(Modifier::bold()).add, Modifier::empty());
    assert!(StylePatch::new().is_empty());
    assert!(!add.is_empty());
}

#[test]
fn state_rule_matches_only_when_when_is_a_subset() {
    let r = StateRule { when: StateFlags::hovered() | StateFlags::pressed(), patch: a() };
    assert!(r.matches(StateFlags::hovered() | StateFlags::pressed() | StateFlags::focused()));
    assert!(!r.matches(StateFlags::hovered()));
    assert_eq!(r.specificity(), 2);
}

#[test]
fn later_slots_win_and_every_setter_speaks() {
    let p = StylePatch::new()
        .set_underline(Role::FocusRing)
        .set_size(3)
        .set_align(Align::Right)
        .clear_bg();
    assert_eq!(p.underline.get(), Some(Role::FocusRing));
    assert_eq!(p.size.get(), Some(3));
    assert_eq!(p.align.get(), Some(Align::Right));
    assert_eq!(p.bg, Slot::Clear);
    let over = StylePatch::new().set_size(5).add(Modifier::underlined().union(Modifier::dim()));
    let m = p.merge(over);
    assert_eq!(m.size.get(), Some(5));
    assert_eq!(m.align.get(), Some(Align::Right));
    assert_eq!(m.add.bits(), 8 | 2);
    assert_eq!(StateRule { when: StateFlags::empty(), patch: p }.specificity(), 0);
    assert!(StateRule { when: StateFlags::empty(), patch: p }.matches(StateFlags::empty()));
}

#[test]
fn modifier_bits_match_the_terminal_attribute_order() {
    let all = [
        Modifier::bold(),
        Modifier::dim(),
        Modifier::italic(),
        Modifier::underlined(),
        Modifier::slow_blink(),
        Modifier::rapid_blink(),
        Modifier::reversed(),
        Modifier::hidden(),
        Modifier::crossed_out(),
    ];
    for (i, m) in all.iter().enumerate() {
        assert_eq!(m.bits(), 1u16 << i);
    }
    assert_eq!(Modifier::from_bits_truncate(u16::MAX).bits(), 511);
    assert_eq!(Modifier::bold().union(Modifier::italic()).difference(Modifier::bold()), Modifier::italic());
}
