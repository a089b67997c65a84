use junie_tui::text::span::Span;
use junie_tui::theme::patch::Modifier;
use junie_tui::theme::role::Role;

#[test]
fn a_plain_span_inherits_everything() {
    let s = Span::new("hello");
    assert_eq!(s.text, "hello");
    assert_eq!(s.role, None);
    assert!(s.add.is_empty());
    assert_eq!(Span::from("hello"), s);
}

#[test]
fn roles_and_modifiers_accumulate() {
    let s = Span::new("x").role(Role::Accent).bold().italic();
    assert_eq!(s.role, Some(Role::Accent));
    assert_eq!(s.add, Modifier::bold().union(Modifier::italic()));
    let t = s.underlined().dim().role(Role::Danger);
    assert_eq!(t.role, Some(Role::Danger));
    assert_eq!(t.add.bits(), 1 | 2 | 4 | 8);
    assert_eq!(Span::new("x").modifier(Modifier::reversed()).add, Modifier::reversed());
}
