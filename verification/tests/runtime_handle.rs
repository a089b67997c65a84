use junie_tui::action::ActionKey;
use junie_tui::geometry::Rect;
use junie_tui::id::Id;
use junie_tui::keymap::{KeyMap, KeyPhase};
use junie_tui::keys::{Chord, Key, KeyCode, KeyModifiers};
use junie_tui::layer::{resolve_anchor, LayerId, LayerSpec};
use junie_tui::response::{Flow, Invalidate, Response};
use junie_tui::runtime::dispatch::Input;
use junie_tui::runtime::interaction::PointerContext;
use junie_tui::runtime::{App, Cx, FrameFacts, Runtime};

struct Recorder {
    keymap: KeyMap,
    seen: Vec<(Option<ActionKey>, Option<(Id, Key)>, Option<String>)>,
    escs: usize,
    consume: bool,
}

impl App for Recorder {
    fn keymap(&self) -> &KeyMap {
        &self.keymap
    }

    fn update(&mut self, cx: &mut Cx) -> Response<()> {
        self.seen.push((cx.command(), cx.key(), cx.paste().map(|(_, s)| s.clone())));
        if self.consume || cx.command().is_some() { Response::consumed() } else { Response::ignored() }
    }

    fn on_esc(&mut self, _cx: &mut Cx) -> Response<()> {
        self.escs += 1;
        Response::changed()
    }
}

fn facts(editing: bool) -> FrameFacts {
    FrameFacts {
        ring_next: None,
        ring_prev: None,
        swallows_typing: false,
        editing,
        pointer: PointerContext {
            hit: None,
            region: Rect::new(0, 0, 0, 0),
            scroll_hit: None,
            capture: None,
            top: LayerId::page(),
            in_ring: false,
            clock_ms: 0,
            double_click_ms: 400,
            press_flash_ms: 120,
            wheel_rows: 3,
        },
    }
}

fn key(code: KeyCode) -> Key {
    Key { code, mods: KeyModifiers::none() }
}

fn recorder(keymap: KeyMap, consume: bool) -> Recorder {
    Recorder { keymap, seen: Vec::new(), escs: 0, consume }
}

#[test]
fn a_resize_is_consumed_relayouts_and_sets_the_screen() {
    let mut rt = Runtime::new(recorder(KeyMap::new(), false), Rect::new(0, 0, 10, 10), 16, facts(false));
    let r = rt.handle(Input::Resize(50, 20));
    assert_eq!(r.flow(), Flow::Consumed);
    assert_eq!(r.invalidate(), Invalidate::Layout);
    assert_eq!(rt.screen(), Rect::new(0, 0, 50, 20));
    assert_eq!(rt.app().seen.len(), 1);
}

#[test]
fn a_capture_binding_runs_before_the_focus_ring_and_never_bubbles() {
    let quit = ActionKey::custom("quit");
    let km = KeyMap::new()
        .bind(KeyPhase::Capture, Chord::key(KeyCode::F(10)), quit)
        .bind(KeyPhase::Bubble, Chord::key(KeyCode::Enter), ActionKey::close());
    let mut rt = Runtime::new(recorder(km, false), Rect::new(0, 0, 10, 10), 16, facts(false));
    let _ = rt.handle(Input::Key(key(KeyCode::F(10))));
    assert_eq!(rt.app().seen, vec![(Some(quit), None, None)]);
    let _ = rt.handle(Input::Key(key(KeyCode::Enter)));
    assert_eq!(rt.app().seen.len(), 3);
    assert_eq!(rt.app().seen[1].0, None);
    assert_eq!(rt.app().seen[2].0, Some(ActionKey::close()));
}

#[test]
fn an_unconsumed_esc_reaches_the_application_and_a_consumed_key_does_not_bubble() {
    let mut rt = Runtime::new(recorder(KeyMap::new(), false), Rect::new(0, 0, 10, 10), 16, facts(false));
    let r = rt.handle(Input::Key(key(KeyCode::Esc)));
    assert_eq!(rt.app().escs, 1);
    assert_eq!(r.flow(), Flow::Consumed);
    let mut eager = Runtime::new(recorder(KeyMap::new(), true), Rect::new(0, 0, 10, 10), 16, facts(false));
    let _ = eager.handle(Input::Key(key(KeyCode::Esc)));
    assert_eq!(eager.app().escs, 0);
}

#[test]
fn ticks_advance_the_clock_and_pastes_need_an_editing_focus() {
    let mut rt = Runtime::new(recorder(KeyMap::new(), false), Rect::new(0, 0, 10, 10), 16, facts(false));
    let _ = rt.handle(Input::Tick);
    let _ = rt.handle(Input::Tick);
    assert_eq!(rt.clock_ms(), 32);
    let _ = rt.handle(Input::Paste("no".to_owned()));
    assert_eq!(rt.app().seen.last().map(|s| s.2.clone()), Some(None));
}

#[test]
fn a_frame_places_every_open_layer_bottom_first() {
    let mut rt = Runtime::new(recorder(KeyMap::new(), false), Rect::new(0, 0, 10, 10), 16, facts(false));
    let dlg = Id::root("dlg");
    let _ = rt.layers_mut().open(dlg, LayerSpec::modal(dlg), None);
    let rects = rt.begin_frame(Rect::new(0, 0, 80, 24));
    assert_eq!(rt.screen(), Rect::new(0, 0, 80, 24));
    assert_eq!(rects.len(), 1);
    assert_eq!(rects[0].0, dlg);
    let spec = LayerSpec::modal(dlg);
    assert_eq!(rects[0].1, resolve_anchor(Rect::new(0, 0, 80, 24), spec.anchor, spec.size));
}

#[test]
fn a_frame_that_moves_focus_asks_for_another() {
    let mut rt = Runtime::new(recorder(KeyMap::new(), false), Rect::new(0, 0, 10, 10), 16, facts(false));
    let a = Id::root("a");
    assert!(rt.end_frame(facts(true), Some(a)));
    assert_eq!(rt.focus(), Some(a));
    assert!(!rt.end_frame(facts(true), Some(a)));
    let _ = rt.handle(Input::Paste("hi".to_owned()));
    assert_eq!(rt.app().seen.last().map(|s| s.2.clone()), Some(Some("hi".to_owned())));
}
