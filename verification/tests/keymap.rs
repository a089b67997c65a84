use std::any::TypeId;

use junie_tui::action::ActionKey;
use junie_tui::diagnostics::Diagnostic;
use junie_tui::id::Id;
use junie_tui::keymap::{
    binding_conflicts, Binding, BindingDescriptor, BindingRegistry, BindingTableId, DynamicBindingRegistry,
    HintLayer, KeyMap, KeyPhase,
};
use junie_tui::keys::{Chord, Key, KeyCode, KeyModifiers};
use junie_tui::layer::LayerId;
use junie_tui::response::StateFlags;

fn k(code: KeyCode) -> Key {
    Key { code, mods: KeyModifiers::none() }
}

fn static_id<C: 'static>(table: &[Binding<C>]) -> BindingTableId {
    BindingTableId::Static { command_type: TypeId::of::<C>(), address: 0, len: table.len() }
}

#[test]
fn capture_skips_bare_chars_while_typing() {
    let m = KeyMap::new()
        .bind(KeyPhase::Capture, Chord::key(KeyCode::Char('q')), ActionKey::close())
        .bind(KeyPhase::Capture, Chord::with(KeyCode::Char('s'), KeyModifiers::control()), ActionKey::save());
    assert_eq!(m.lookup(KeyPhase::Capture, &k(KeyCode::Char('q')), false), Some(ActionKey::close()));
    assert_eq!(m.lookup(KeyPhase::Capture, &k(KeyCode::Char('q')), true), None);
    let ctrl_s = Key { code: KeyCode::Char('s'), mods: KeyModifiers::control() };
    assert_eq!(m.lookup(KeyPhase::Capture, &ctrl_s, true), Some(ActionKey::save()));
    assert_eq!(m.lookup(KeyPhase::Bubble, &ctrl_s, true), None);
}

#[test]
fn remove_remap_and_conflicts() {
    let mut m = KeyMap::new().bind(KeyPhase::Bubble, Chord::key(KeyCode::F(1)), ActionKey::retry());
    m.remap(KeyPhase::Bubble, Chord::key(KeyCode::F(1)), Chord::key(KeyCode::F(2)));
    assert_eq!(m.lookup(KeyPhase::Bubble, &k(KeyCode::F(2)), false), Some(ActionKey::retry()));
    m.add(KeyPhase::Bubble, Chord::key(KeyCode::F(2)), ActionKey::close());
    assert_eq!(m.conflicts().len(), 1);
    m.remove(KeyPhase::Bubble, Chord::key(KeyCode::F(2)));
    assert!(m.is_empty());
    assert!(KeyMap::new().is_empty());
}

#[derive(Clone, Copy, Debug, PartialEq)]
enum Cmd {
    A,
    B,
}

fn hint_table() -> Vec<Binding<Cmd>> {
    vec![
        Binding {
            action: ActionKey::custom("test.previous"),
            chord: Some(Chord::key(KeyCode::Left)),
            cmd: Cmd::A,
            label: "Prev",
            priority: 40,
            visible: true,
        },
        Binding {
            action: ActionKey::custom("test.select.enter"),
            chord: Some(Chord::key(KeyCode::Enter)),
            cmd: Cmd::B,
            label: "Select",
            priority: 80,
            visible: true,
        },
        Binding {
            action: ActionKey::custom("test.select.space"),
            chord: Some(Chord::key(KeyCode::Char(' '))),
            cmd: Cmd::B,
            label: "Select",
            priority: 80,
            visible: false,
        },
    ]
}

#[test]
fn hints_derive_from_visible_bindings_by_priority() {
    let t = hint_table();
    let h = HintLayer::from_bindings(&t);
    assert_eq!(h.hints.len(), 2);
    assert_eq!(h.hints.first().map(|h| h.label), Some("Select"));
    assert!(matches!(Binding::command(&t, ActionKey::custom("test.select.space")), Some(Cmd::B)));
    assert!(binding_conflicts(Id::root("x"), KeyPhase::Bubble, &t).is_empty());
}

#[test]
fn duplicate_binding_action_is_rejected() {
    let action = ActionKey::custom("test.duplicate-action");
    let table = [
        Binding { action, chord: Some(Chord::key(KeyCode::Left)), cmd: Cmd::A, label: "Left", priority: 1, visible: true },
        Binding { action, chord: Some(Chord::key(KeyCode::Right)), cmd: Cmd::A, label: "Right", priority: 1, visible: true },
    ];
    let mut registry = BindingRegistry::default();
    assert_eq!(
        registry.publish(Id::root("duplicate"), StateFlags::focused(), LayerId::page(), &table, static_id(&table)),
        Some(action)
    );
    assert!(registry.get(Id::root("duplicate")).is_none());
}

#[test]
fn effective_duplicate_chord_including_hidden_is_diagnosed() {
    let visible = ActionKey::custom("test.visible");
    let hidden = ActionKey::custom("test.hidden");
    let table = [
        BindingDescriptor { action: visible, chord: Some(Chord::key(KeyCode::Left)), label: "Visible", priority: 80, visible: true },
        BindingDescriptor { action: hidden, chord: Some(Chord::key(KeyCode::Right)), label: "Hidden", priority: 40, visible: false },
    ];
    let owner = Id::root("effective-conflict");
    let mut keymap = KeyMap::new();
    keymap.remap_component(owner, hidden, Chord::key(KeyCode::Left));
    assert_eq!(keymap.component_conflicts(owner, &table).len(), 1);
}

#[test]
fn dynamic_publication_is_contiguous_after_an_intervening_owner() {
    let static_action = ActionKey::custom("dynamic.static");
    let dynamic_action = ActionKey::custom("dynamic.item");
    let table = [Binding {
        action: static_action,
        chord: Some(Chord::key(KeyCode::Enter)),
        cmd: Cmd::A,
        label: "Run",
        priority: 1,
        visible: true,
    }];
    let a = Id::root("dynamic.a");
    let b = Id::root("dynamic.b");
    let mut registry = BindingRegistry::default();
    assert_eq!(registry.publish(a, StateFlags::focused(), LayerId::page(), &table, static_id(&table)), None);
    assert_eq!(registry.publish(b, StateFlags::focused(), LayerId::page(), &table, static_id(&table)), None);
    let dynamic = [BindingDescriptor {
        action: dynamic_action,
        chord: Some(Chord::key(KeyCode::F(4))),
        label: "",
        priority: 0,
        visible: false,
    }];
    assert_eq!(registry.publish_dynamic(a, StateFlags::focused(), LayerId::page(), &dynamic, 7), None);
    let (_, descriptors) = registry.get(a).expect("A table");
    assert_eq!(descriptors.iter().map(|item| item.action).collect::<Vec<_>>(), vec![static_action, dynamic_action]);
}

#[test]
fn duplicate_dynamic_action_rejects_the_additive_table() {
    let owner = Id::root("dynamic.duplicate");
    let action = ActionKey::custom("dynamic.duplicate.action");
    let descriptors = [
        BindingDescriptor { action, chord: Some(Chord::key(KeyCode::F(1))), label: "", priority: 0, visible: false },
        BindingDescriptor { action, chord: Some(Chord::key(KeyCode::F(2))), label: "", priority: 0, visible: false },
    ];
    let mut registry = BindingRegistry::default();
    assert_eq!(registry.publish_dynamic(owner, StateFlags::focused(), LayerId::page(), &descriptors, 1), Some(action));
    assert!(registry.get(owner).is_none());
}

#[test]
fn dynamic_snapshot_is_bounded_structural_and_wrap_invalidates_identity() {
    let action = ActionKey::custom("dynamic.action");
    let mut snapshots = DynamicBindingRegistry::new(0);
    let (_, first) = snapshots.update(Id::root("first"), None, &[(action, Some(Chord::key(KeyCode::F(1))))]);
    let (_, unchanged) = snapshots.update(Id::root("first"), None, &[(action, Some(Chord::key(KeyCode::F(1))))]);
    assert_eq!(first, unchanged);
    for index in 0..2_000usize {
        let _ = snapshots.update(Id::root("owner").index(index), None, &[(action, Some(Chord::key(KeyCode::F(2))))]);
    }
    assert_eq!(snapshots.len(), Some(1));
    let mut wrapping = DynamicBindingRegistry::new(u64::MAX - 1);
    let (_, max) = wrapping.update(Id::root("wrap"), None, &[(action, Some(Chord::key(KeyCode::F(3))))]);
    let (_, wrapped) = wrapping.update(Id::root("wrap"), None, &[(action, Some(Chord::key(KeyCode::F(4))))]);
    assert_eq!(max, u64::MAX);
    assert_eq!(wrapped, 0);
    assert_ne!(BindingTableId::dynamic(Id::root("wrap"), 1, max), BindingTableId::dynamic(Id::root("wrap"), 1, wrapped));
}

#[test]
fn an_override_reads_back_and_suppression_hides_the_default() {
    let owner = Id::root("list");
    let next = ActionKey::custom("list.next");
    let mut m = KeyMap::new();
    assert_eq!(m.component_chord(owner, next, Some(Chord::key(KeyCode::Down))), Some(Chord::key(KeyCode::Down)));
    m.remap_component(owner, next, Chord::key(KeyCode::Char('j')));
    m.remap_component(owner, next, Chord::key(KeyCode::Char('n')));
    assert_eq!(m.component_chord(owner, next, Some(Chord::key(KeyCode::Down))), Some(Chord::key(KeyCode::Char('n'))));
    m.remove_component(owner, next);
    assert_eq!(m.component_chord(owner, next, Some(Chord::key(KeyCode::Down))), None);
    let table = [BindingDescriptor { action: next, chord: Some(Chord::key(KeyCode::Down)), label: "", priority: 0, visible: true }];
    assert_eq!(m.component_binding(owner, &table, &k(KeyCode::Down)), None);
    let m = KeyMap::new().bind_component(owner, next, Chord::key(KeyCode::Tab));
    assert_eq!(m.component_binding(owner, &table, &k(KeyCode::Tab)), Some((next, Chord::key(KeyCode::Tab))));
}

#[test]
fn conflicts_name_the_keymap_as_owner() {
    let m = KeyMap::new()
        .bind(KeyPhase::Bubble, Chord::key(KeyCode::Esc), ActionKey::close())
        .bind(KeyPhase::Bubble, Chord::key(KeyCode::Esc), ActionKey::save())
        .bind(KeyPhase::Capture, Chord::key(KeyCode::Esc), ActionKey::save());
    let c = m.conflicts();
    assert_eq!(
        c,
        vec![Diagnostic::BindingConflict {
            chord: Chord::key(KeyCode::Esc),
            phase: KeyPhase::Bubble,
            a: KeyMap::owner(),
            b: KeyMap::owner(),
        }]
    );
    assert_eq!(KeyMap::owner(), Id::root("tui.keymap"));
}

#[test]
fn empty_hint_layers() {
    assert!(HintLayer::empty().is_empty());
    let mut h = HintLayer::empty();
    h.status = Some(String::new());
    assert!(h.is_empty());
    h.status = Some("saving".to_string());
    assert!(!h.is_empty());
}

#[test]
fn a_dynamic_publication_leaves_other_owners_alone() {
    let first = ActionKey::custom("alone.first");
    let second = ActionKey::custom("alone.second");
    let a = Id::root("alone.a");
    let b = Id::root("alone.b");
    let d = |action| BindingDescriptor { action, chord: None, label: "", priority: 0, visible: false };
    let mut registry = BindingRegistry::default();
    assert_eq!(registry.publish_dynamic(a, StateFlags::focused(), LayerId::page(), &[d(first)], 3), None);
    assert_eq!(registry.publish_dynamic(b, StateFlags::focused(), LayerId::page(), &[d(second)], 4), None);
    let (pb, before) = registry.get(b).map(|(p, ds)| (p, ds.to_vec())).expect("b");
    assert_eq!(registry.publish_dynamic(a, StateFlags::hovered(), LayerId::page(), &[d(second)], 5), None);
    let (pa, da) = registry.get(a).expect("a");
    assert_eq!(da.iter().map(|x| x.action).collect::<Vec<_>>(), vec![first, second]);
    assert_eq!(pa.table, BindingTableId::Dynamic { revision: 5, len: 2 });
    assert_eq!(pa.flags, StateFlags::hovered());
    let (pb2, after) = registry.get(b).expect("b");
    assert_eq!(pb2, pb);
    assert_eq!(after.to_vec(), before);
    assert_eq!(registry.publish_dynamic(a, StateFlags::focused(), LayerId::page(), &[d(first)], 6), Some(first));
}

#[test]
fn repeating_a_snapshot_update_keeps_its_revision() {
    let action = ActionKey::custom("repeat.action");
    let mut snapshots = DynamicBindingRegistry::new(9);
    let (d, r) = snapshots.update(Id::root("repeat"), None, &[(action, None)]);
    assert_eq!(d.len(), 1);
    assert_eq!(r, 10);
    let (_, again) = snapshots.update(Id::root("repeat"), None, &[(action, None)]);
    assert_eq!(again, 10);
    let (_, changed) = snapshots.update(Id::root("repeat"), None, &[]);
    assert_eq!(changed, 11);
}
