use junie_tui::diagnostics::Diagnostic;
use junie_tui::geometry::Rect;
use junie_tui::id::Id;
use junie_tui::layer::LayerId;
use junie_tui::response::StateFlags;
use junie_tui::runtime::typing::{
    admissible, editable, flags, resolve, RingEntry, TypingDeclaration, TypingFrame, TypingPolicy, TypingResolved,
};

const FIELD: Id = Id(1);
const OTHER: Id = Id(2);
const BUTTON: Id = Id(3);

fn entry(owner: Id, swallows_typing: bool) -> RingEntry {
    RingEntry {
        owner,
        disabled: false,
        area: Rect::new(0, 0, 10, 1),
        layer: LayerId::page(),
        swallows_typing,
        registered: Some(LayerId::page()),
        in_trap: true,
    }
}

fn editing() -> StateFlags {
    StateFlags::editing()
}

fn frame(typing: Vec<TypingDeclaration>) -> TypingFrame {
    TypingFrame {
        top: LayerId::page(),
        ring: vec![entry(FIELD, true), entry(OTHER, true), entry(BUTTON, false)],
        declared: vec![(FIELD, editing()), (OTHER, editing())],
        typing,
    }
}

fn decl(owner: Id, cursor: bool) -> TypingDeclaration {
    TypingDeclaration { owner, layer: LayerId::page(), cursor }
}

#[test]
fn typing_policy_defaults_to_focused() {
    assert_eq!(TypingPolicy::default(), TypingPolicy::Focused);
}

#[test]
fn admissibility_needs_an_enabled_registered_control_on_the_top_layer() {
    let mut f = frame(Vec::new());
    assert!(admissible(&f, FIELD));
    assert!(!admissible(&f, Id(99)));
    f.ring[0].disabled = true;
    assert!(!admissible(&f, FIELD));
    f.ring[0].disabled = false;
    f.ring[0].area = Rect::new(0, 0, 0, 1);
    assert!(!admissible(&f, FIELD));
    f.ring[0].area = Rect::new(0, 0, 10, 1);
    f.ring[0].registered = Some(LayerId(1));
    assert!(!admissible(&f, FIELD));
    f.ring[0].registered = Some(LayerId::page());
    f.ring[0].in_trap = false;
    assert!(!admissible(&f, FIELD));
    f.ring[0].in_trap = true;
    f.top = LayerId(1);
    assert!(!admissible(&f, FIELD));
}

#[test]
fn editable_needs_an_edit_in_flight_and_no_read_only_or_disabled_flag() {
    let mut f = frame(Vec::new());
    assert!(editable(&f, FIELD));
    assert!(!editable(&f, BUTTON));
    f.declared[0].1 = editing().union(StateFlags::read_only());
    assert!(!editable(&f, FIELD));
    assert_eq!(flags(&f, FIELD).bits(), 4096 | 256);
    f.declared[0].1 = StateFlags::empty();
    assert!(!editable(&f, FIELD));
    assert_eq!(flags(&f, Id(99)).bits(), 0);
}

#[test]
fn a_focused_editor_owns_typing_and_blocks_fallback() {
    let f = frame(vec![decl(OTHER, true)]);
    let mut diags = Vec::new();
    let r = resolve(&f, Some(FIELD), &mut diags);
    assert_eq!(r, TypingResolved { owner: Some(FIELD), fallback: None, cursor: Some(FIELD) });
    assert!(diags.is_empty());
    // a read-only focused editor types nowhere and drops its caret
    let mut f = frame(vec![decl(OTHER, true)]);
    f.declared[0].1 = editing().union(StateFlags::read_only());
    let r = resolve(&f, Some(FIELD), &mut diags);
    assert_eq!(r, TypingResolved { owner: None, fallback: None, cursor: None });
}

#[test]
fn a_single_fallback_editor_types_when_focus_is_not_an_editor() {
    let f = frame(vec![decl(OTHER, true)]);
    let mut diags = Vec::new();
    let r = resolve(&f, Some(BUTTON), &mut diags);
    assert_eq!(r, TypingResolved { owner: Some(OTHER), fallback: Some(OTHER), cursor: Some(OTHER) });
    let f = frame(vec![decl(OTHER, false)]);
    let r = resolve(&f, Some(BUTTON), &mut diags);
    assert_eq!(r, TypingResolved { owner: Some(OTHER), fallback: Some(OTHER), cursor: Some(BUTTON) });
    assert!(diags.is_empty());
}

#[test]
fn two_fallback_editors_are_a_conflict_and_nobody_types() {
    let f = frame(vec![decl(FIELD, false), decl(OTHER, false)]);
    let mut diags = Vec::new();
    let r = resolve(&f, None, &mut diags);
    assert_eq!(r, TypingResolved::default());
    assert_eq!(diags, vec![Diagnostic::TypingTargetConflict { a: FIELD, b: OTHER, layer: LayerId::page() }]);
}

#[test]
fn a_fallback_below_the_top_layer_is_no_candidate() {
    let f = frame(vec![TypingDeclaration { owner: OTHER, layer: LayerId(1), cursor: true }]);
    let mut diags = Vec::new();
    assert_eq!(resolve(&f, None, &mut diags), TypingResolved::default());
    assert!(diags.is_empty());
}
