use junie_tui::action::ActionKey;
use junie_tui::geometry::Position;
use junie_tui::id::Id;
use junie_tui::keymap::{KeyMap, KeyPhase};
use junie_tui::keys::{Chord, Key, KeyCode, KeyModifiers};
use junie_tui::layer::{Dismiss, LayerEvent, LayerId, LayerSpec, LayerStack};
use junie_tui::response::{Flow, Invalidate, Response};
use junie_tui::runtime::dispatch::{
    after_resize_pass, bubble_key, open_input, settle_closed, AfterPass, ClosedSettlement, Input, Opening,
    RestoreFocus,
};

fn k(code: KeyCode) -> Key {
    Key { code, mods: KeyModifiers::none() }
}

fn dlg() -> Id {
    Id::root("dlg")
}

fn tip() -> Id {
    Id::root("tip")
}

#[test]
fn consumed_keys_do_not_bubble() {
    let m = KeyMap::new().bind(KeyPhase::Bubble, Chord::key(KeyCode::Esc), ActionKey::close());
    let s = LayerStack::new();
    assert_eq!(bubble_key(&m, &s, Some(k(KeyCode::Esc)), true), AfterPass::Done);
    assert_eq!(bubble_key(&m, &s, None, false), AfterPass::Done);
}

#[test]
fn a_bubble_binding_wins_over_esc_dismissal() {
    let m = KeyMap::new().bind(KeyPhase::Bubble, Chord::key(KeyCode::Esc), ActionKey::close());
    let mut s = LayerStack::new();
    s.open(dlg(), LayerSpec::modal(dlg()), None);
    assert_eq!(bubble_key(&m, &s, Some(k(KeyCode::Esc)), false), AfterPass::Command(ActionKey::close()));
}

#[test]
fn unbound_esc_dismisses_a_dismissable_top_layer() {
    let m = KeyMap::new();
    let mut s = LayerStack::new();
    s.open(dlg(), LayerSpec::modal(dlg()), None);
    assert_eq!(bubble_key(&m, &s, Some(k(KeyCode::Esc)), false), AfterPass::DismissTop);
}

#[test]
fn unbound_esc_reaches_the_app_without_a_dismissable_layer() {
    let m = KeyMap::new();
    let mut s = LayerStack::new();
    assert_eq!(bubble_key(&m, &s, Some(k(KeyCode::Esc)), false), AfterPass::AppEsc);
    s.open(dlg(), LayerSpec::modal(dlg()).dismiss(Dismiss::none()), None);
    assert_eq!(bubble_key(&m, &s, Some(k(KeyCode::Esc)), false), AfterPass::AppEsc);
}

#[test]
fn other_unbound_keys_stop_after_the_pass() {
    let m = KeyMap::new().bind(KeyPhase::Capture, Chord::key(KeyCode::Enter), ActionKey::save());
    let s = LayerStack::new();
    assert_eq!(bubble_key(&m, &s, Some(k(KeyCode::Enter)), false), AfterPass::Done);
}

#[test]
fn closing_the_capture_layer_releases_the_capture() {
    let mut s = LayerStack::new();
    s.open(dlg(), LayerSpec::modal(dlg()), Some(Id::root("opener")));
    s.open(tip(), LayerSpec::tooltip(tip(), Position::new(1, 1)), None);
    let closed = s.close(dlg(), LayerEvent::Closed(ActionKey::close()));
    assert_eq!(closed.len(), 2);
    let st = settle_closed(&closed, Some(LayerId(2)), None);
    assert_eq!(
        st,
        ClosedSettlement {
            release_capture: true,
            restore: Some(RestoreFocus { to: Some(Id::root("opener")), take_saved: false }),
        }
    );
    let other = settle_closed(&closed, Some(LayerId(0)), None);
    assert!(!other.release_capture);
    assert!(!settle_closed(&closed, None, None).release_capture);
}

#[test]
fn restore_falls_back_to_the_saved_target() {
    let mut s = LayerStack::new();
    s.open(dlg(), LayerSpec::modal(dlg()), None);
    let closed = s.close(dlg(), LayerEvent::Closed(ActionKey::close()));
    let st = settle_closed(&closed, None, Some(Id::root("saved")));
    assert_eq!(st.restore, Some(RestoreFocus { to: Some(Id::root("saved")), take_saved: true }));
}

#[test]
fn layers_that_do_not_restore_stage_nothing() {
    let mut s = LayerStack::new();
    s.open(tip(), LayerSpec::tooltip(tip(), Position::new(0, 0)), Some(Id::root("opener")));
    let closed = s.close(tip(), LayerEvent::Closed(ActionKey::close()));
    assert_eq!(settle_closed(&closed, None, Some(Id::root("saved"))).restore, None);
    assert_eq!(settle_closed(&[], Some(LayerId(1)), None), ClosedSettlement { release_capture: false, restore: None });
}

#[test]
fn a_capture_binding_opens_the_call_before_the_focus_ring() {
    let quit = ActionKey::custom("quit");
    let m = KeyMap::new().bind(KeyPhase::Capture, Chord::key(KeyCode::F(10)), quit);
    assert_eq!(open_input(&m, &Input::Key(k(KeyCode::F(10))), false, None, 0, 16), Opening::Capture(quit));
    assert_eq!(open_input(&m, &Input::Key(k(KeyCode::Enter)), false, None, 0, 16), Opening::Key(k(KeyCode::Enter)));
    assert_eq!(
        open_input(&m, &Input::Resize(50, 20), false, None, 0, 16),
        Opening::Resize { width: 50, height: 20 }
    );
}

#[test]
fn a_tick_advances_the_clock_and_a_paste_needs_an_editing_focus() {
    let m = KeyMap::new();
    assert_eq!(open_input(&m, &Input::Tick, false, None, 100, 16), Opening::Tick { now: 116 });
    assert_eq!(open_input(&m, &Input::Tick, false, None, u64::MAX - 3, 16), Opening::Tick { now: u64::MAX });
    let ed = Id::root("ed");
    assert_eq!(open_input(&m, &Input::Paste("hi".to_owned()), false, Some(ed), 0, 16), Opening::PasteTo(ed));
    assert_eq!(open_input(&m, &Input::Paste("no".to_owned()), false, None, 0, 16), Opening::Pass);
}

#[test]
fn a_resize_is_consumed_and_relayouts() {
    let r = after_resize_pass(Response::ignored());
    assert_eq!(r.flow(), Flow::Consumed);
    assert_eq!(r.invalidate(), Invalidate::Layout);
    let r = after_resize_pass(Response::<()>::changed().for_id(dlg()));
    assert_eq!(r.invalidate(), Invalidate::Layout);
    assert_eq!(r.id(), Some(dlg()));
}
