use junie_tui::diagnostics::Diagnostic;
use junie_tui::geometry::{Position, Rect};
use junie_tui::id::{Id, Part, PartRef};
use junie_tui::keys::{Key, KeyCode, KeyModifiers};
use junie_tui::layer::{Dismiss, DismissReason, LayerEvent, LayerId, LayerSpec, LayerStack};
use junie_tui::response::Invalidate;
use junie_tui::runtime::interaction::{
    dismiss_top, outside_click, pump_layer_events, Axis, CaptureHit, FocusStage, FocusVia, Hit, Interaction, Mouse, MouseKind, Phase,
    PointerContext, Settle, MAX_FOCUS_PASSES,
};

const BUTTON: Id = Id(7);

fn label() -> PartRef {
    PartRef::of(Part::label())
}

fn hit_on(owner: Id, layer: u16) -> Hit {
    Hit { owner, part: label(), layer: LayerId(layer), decorative: false }
}

fn cx(hit: Option<Hit>, clock_ms: u64) -> PointerContext {
    PointerContext {
        hit,
        region: Rect::new(10, 5, 8, 1),
        scroll_hit: None,
        capture: None,
        top: LayerId::page(),
        in_ring: true,
        clock_ms,
        double_click_ms: 400,
        press_flash_ms: 120,
        wheel_rows: 3,
    }
}

fn mouse(kind: MouseKind, x: u16, y: u16) -> Mouse {
    Mouse { kind, pos: Position::new(x, y), mods: KeyModifiers::none() }
}

fn phases(s: &mut Interaction, m: Mouse, c: &PointerContext) -> Vec<Phase> {
    s.enqueue_mouse(m, c).intents.iter().map(|i| i.phase).collect()
}

#[test]
fn press_and_release_on_the_same_target_clicks() {
    let mut s = Interaction::new();
    let c = cx(Some(hit_on(BUTTON, 0)), 1000);
    let fx = s.enqueue_mouse(mouse(MouseKind::Down, 12, 5), &c);
    assert_eq!(fx.intents.len(), 1);
    assert_eq!(fx.intents[0].phase, Phase::Press);
    assert_eq!(fx.intents[0].owner, BUTTON);
    assert_eq!(fx.intents[0].local, Position::new(2, 0));
    assert_eq!(fx.focus, Some(BUTTON));
    assert_eq!(fx.press_pos, Some(Position::new(12, 5)));
    assert_eq!(s.snapshot.pressed, Some(BUTTON));
    assert!(!s.focus_visible);
    assert_eq!(phases(&mut s, mouse(MouseKind::Up, 12, 5), &c), vec![Phase::Release, Phase::Click]);
    assert!(s.press.is_none());
    assert_eq!(s.flash.map(|f| f.until), Some(1120));
    assert_eq!(s.snapshot.pressed, Some(BUTTON));
}

#[test]
fn a_second_click_within_the_window_is_a_double_click_and_a_third_is_single() {
    let mut s = Interaction::new();
    let h = Some(hit_on(BUTTON, 0));
    for (at, expected) in [(1000, Phase::Click), (1300, Phase::DoubleClick), (1400, Phase::Click)] {
        let c = cx(h, at);
        phases(&mut s, mouse(MouseKind::Down, 12, 5), &c);
        assert_eq!(phases(&mut s, mouse(MouseKind::Up, 12, 5), &c), vec![Phase::Release, expected]);
    }
    // too late for a double click
    let c = cx(h, 5000);
    phases(&mut s, mouse(MouseKind::Down, 12, 5), &c);
    assert_eq!(phases(&mut s, mouse(MouseKind::Up, 12, 5), &c), vec![Phase::Release, Phase::Click]);
}

#[test]
fn a_release_elsewhere_does_not_click() {
    let mut s = Interaction::new();
    phases(&mut s, mouse(MouseKind::Down, 12, 5), &cx(Some(hit_on(BUTTON, 0)), 0));
    let other = cx(Some(hit_on(Id(8), 0)), 10);
    assert_eq!(phases(&mut s, mouse(MouseKind::Up, 30, 5), &other), vec![Phase::Release]);
    assert!(s.flash.is_none());
    assert_eq!(s.snapshot.pressed, None);
}

#[test]
fn dragging_starts_once_and_ends_on_release() {
    let mut s = Interaction::new();
    let c = cx(Some(hit_on(BUTTON, 0)), 0);
    phases(&mut s, mouse(MouseKind::Down, 12, 5), &c);
    let fx = s.enqueue_mouse(mouse(MouseKind::Drag, 15, 6), &c);
    assert_eq!(fx.intents.iter().map(|i| i.phase).collect::<Vec<_>>(), vec![Phase::DragStart, Phase::Drag]);
    assert_eq!(fx.intents[1].local, Position::new(5, 1));
    assert_eq!(phases(&mut s, mouse(MouseKind::Drag, 16, 6), &c), vec![Phase::Drag]);
    assert_eq!(phases(&mut s, mouse(MouseKind::Up, 16, 6), &c), vec![Phase::Release, Phase::DragEnd]);
    assert!(s.press.is_none());
    assert!(s.flash.is_none());
}

#[test]
fn a_press_below_the_top_layer_is_an_outside_click() {
    let mut s = Interaction::new();
    let mut c = cx(Some(hit_on(BUTTON, 0)), 0);
    c.top = LayerId(1);
    let fx = s.enqueue_mouse(mouse(MouseKind::Down, 12, 5), &c);
    assert!(fx.outside_click);
    assert!(fx.intents.is_empty());
    assert!(s.press.is_none());
    let fx = s.enqueue_mouse(mouse(MouseKind::Down, 12, 5), &cx(None, 0));
    assert!(fx.outside_click);
    let fx = s.enqueue_mouse(mouse(MouseKind::Secondary, 12, 5), &c);
    assert!(fx.outside_click);
}

#[test]
fn decoration_takes_no_press_and_no_hover() {
    let mut s = Interaction::new();
    let deco = Hit { decorative: true, ..hit_on(BUTTON, 0) };
    let c = cx(Some(deco), 0);
    let fx = s.enqueue_mouse(mouse(MouseKind::Down, 12, 5), &c);
    assert!(fx.intents.is_empty());
    assert!(!fx.outside_click);
    assert_eq!(fx.focus, None);
    s.enqueue_mouse(mouse(MouseKind::Move, 12, 5), &c);
    assert!(s.hover.is_none());
    s.enqueue_mouse(mouse(MouseKind::Move, 12, 5), &cx(Some(hit_on(BUTTON, 0)), 0));
    assert_eq!(s.snapshot.hover, Some(BUTTON));
}

#[test]
fn a_press_on_a_control_outside_the_ring_does_not_focus() {
    let mut s = Interaction::new();
    let mut c = cx(Some(hit_on(BUTTON, 0)), 0);
    c.in_ring = false;
    let fx = s.enqueue_mouse(mouse(MouseKind::Down, 12, 5), &c);
    assert_eq!(fx.focus, None);
    assert_eq!(fx.intents.len(), 1);
}

#[test]
fn the_wheel_scrolls_only_the_top_layer() {
    let mut s = Interaction::new();
    let mut c = cx(None, 0);
    c.top = LayerId(1);
    c.scroll_hit = Some(hit_on(BUTTON, 0));
    let fx = s.enqueue_mouse(mouse(MouseKind::Wheel(Axis::Vertical, 2), 1, 1), &c);
    assert!(fx.wheel.is_none());
    c.scroll_hit = Some(hit_on(BUTTON, 1));
    let fx = s.enqueue_mouse(mouse(MouseKind::Wheel(Axis::Vertical, -2), 1, 1), &c);
    assert_eq!(fx.wheel.map(|w| (w.owner, w.delta)), Some((BUTTON, -6)));
    c.wheel_rows = i16::MAX;
    let fx = s.enqueue_mouse(mouse(MouseKind::Wheel(Axis::Horizontal, 2), 1, 1), &c);
    assert_eq!(fx.wheel.map(|w| w.delta), Some(i16::MAX));
}

#[test]
fn a_capture_takes_every_pointer_event() {
    let mut s = Interaction::new();
    let mut c = cx(Some(hit_on(Id(9), 0)), 0);
    c.capture = Some(CaptureHit { owner: BUTTON, part: label(), local: Position::new(4, 0), inside: true });
    let fx = s.enqueue_mouse(mouse(MouseKind::Move, 40, 9), &c);
    assert_eq!(fx.intents.len(), 1);
    assert_eq!((fx.intents[0].owner, fx.intents[0].phase), (BUTTON, Phase::Drag));
    assert!(s.hover.is_none());
    let fx = s.enqueue_mouse(mouse(MouseKind::Up, 40, 9), &c);
    assert_eq!(fx.intents.iter().map(|i| i.phase).collect::<Vec<_>>(), vec![Phase::Release, Phase::DragEnd, Phase::Click]);
    assert!(fx.release_capture);
    c.capture = Some(CaptureHit { owner: BUTTON, part: label(), local: Position::new(4, 0), inside: false });
    assert_eq!(phases(&mut s, mouse(MouseKind::Up, 40, 9), &c), vec![Phase::Release, Phase::DragEnd]);
    let fx = s.enqueue_mouse(mouse(MouseKind::Down, 40, 9), &c);
    assert_eq!(fx.press_pos, Some(Position::new(40, 9)));
    assert!(!fx.outside_click);
}

#[test]
fn keys_paint_focus_and_tab_moves_it() {
    let mut s = Interaction::new();
    let (focused, next, prev) = (Some(Id(1)), Some(Id(2)), Some(Id(0)));
    let tab = Key { code: KeyCode::Tab, mods: KeyModifiers::none() };
    let d = s.enqueue_key(tab, focused, next, prev);
    assert_eq!((d.focus, d.key_to), (Some(next), None));
    assert!(s.focus_visible && s.hover_suppressed && s.last_input_key);
    let shift_tab = Key { code: KeyCode::Tab, mods: KeyModifiers::shift() };
    assert_eq!(s.enqueue_key(shift_tab, focused, next, prev).focus, Some(prev));
    let back_tab = Key { code: KeyCode::BackTab, mods: KeyModifiers::shift() };
    assert_eq!(s.enqueue_key(back_tab, focused, next, prev).focus, Some(prev));
    let ctrl_tab = Key { code: KeyCode::Tab, mods: KeyModifiers::control() };
    let d = s.enqueue_key(ctrl_tab, focused, next, prev);
    assert_eq!((d.focus, d.key_to), (None, focused));
    let a = Key { code: KeyCode::Char('a'), mods: KeyModifiers::none() };
    assert_eq!(s.enqueue_key(a, None, next, prev).key_to, None);
    // the pointer hides the ring again and a move lifts hover suppression
    s.enqueue_mouse(mouse(MouseKind::Move, 0, 0), &cx(None, 0));
    assert!(!s.focus_visible && !s.hover_suppressed);
}

#[test]
fn the_press_flash_ends_on_the_tick_that_reaches_it() {
    let mut s = Interaction::new();
    let c = cx(Some(hit_on(BUTTON, 0)), 100);
    phases(&mut s, mouse(MouseKind::Down, 12, 5), &c);
    phases(&mut s, mouse(MouseKind::Up, 12, 5), &c);
    assert!(s.wants_tick(false, false, Invalidate::Nothing));
    s.tick(219);
    assert!(s.flash.is_some());
    s.tick(220);
    assert!(s.flash.is_none());
    assert_eq!(s.snapshot.pressed, None);
    assert!(!s.wants_tick(false, false, Invalidate::Nothing));
    assert!(s.wants_tick(false, false, Invalidate::Paint));
    assert!(s.wants_tick(true, false, Invalidate::Nothing));
}

#[test]
fn a_resize_drops_press_and_hover() {
    let mut s = Interaction::new();
    let c = cx(Some(hit_on(BUTTON, 0)), 0);
    s.enqueue_mouse(mouse(MouseKind::Move, 12, 5), &c);
    s.enqueue_mouse(mouse(MouseKind::Down, 12, 5), &c);
    s.resize();
    assert!(s.press.is_none() && s.hover.is_none());
    assert_eq!((s.snapshot.pressed, s.snapshot.hover, s.snapshot.capture), (None, None, None));
}

#[test]
fn esc_dismissal_cancels_the_owner_and_outside_clicks_follow_the_spec() {
    let mut layers = LayerStack::new();
    assert!(dismiss_top(&mut layers, DismissReason::Esc).is_none());
    assert!(outside_click(&mut layers).is_none());
    layers.open(Id(100), LayerSpec::modal(Id(1)), None);
    layers.open(Id(200), LayerSpec::modal(Id(2)).dismiss(Dismiss::esc()), None);
    layers.take_pending();
    // the top layer ignores outside clicks
    assert!(outside_click(&mut layers).is_none());
    assert_eq!(layers.layers().len(), 2);
    let d = dismiss_top(&mut layers, DismissReason::Esc).unwrap_or_else(|| panic!("a layer is open"));
    assert_eq!(d.cancel, Some(Id(2)));
    assert_eq!(d.closed.len(), 1);
    assert_eq!(layers.take_pending(), vec![(Id(200), LayerEvent::Dismissed(DismissReason::Esc))]);
    let d = outside_click(&mut layers).unwrap_or_else(|| panic!("the modal dismisses on outside clicks"));
    assert_eq!(d.cancel, None);
    assert!(layers.layers().is_empty());
}

#[test]
fn staged_focus_applies_once_and_settles_within_the_pass_limit() {
    let mut f = FocusStage::new(Some(Id(1)));
    f.stage(Some(Id(1)), FocusVia::Pointer);
    assert!(!f.moves());
    assert_eq!(f.apply_staged_focus(), None);
    f.stage(Some(Id(2)), FocusVia::Keyboard);
    let c = f.apply_staged_focus().unwrap_or_else(|| panic!("focus moves"));
    assert_eq!((c.from, c.to, c.via), (Some(Id(1)), Some(Id(2)), FocusVia::Keyboard));
    assert_eq!(f.current, Some(Id(2)));
    assert!(f.staged.is_none());

    f.stage(Some(Id(3)), FocusVia::Programmatic);
    assert_eq!(f.settle_pass(true), Settle::Again);
    for _ in 2..MAX_FOCUS_PASSES {
        assert_eq!(f.settle_pass(false), Settle::Again);
    }
    match f.settle_pass(false) {
        Settle::GaveUp { target, change } => {
            assert_eq!(target, Some(Id(3)));
            assert_eq!(change.map(|c| c.to), Some(Some(Id(3))));
        }
        other => panic!("expected to give up, got {other:?}"),
    }
    assert_eq!(f.current, Some(Id(3)));
    assert_eq!(f.settle_pass(false), Settle::Settled);
    let d = Diagnostic::FocusTransitionDidNotSettle { target: Some(Id(3)) };
    assert_ne!(d, Diagnostic::FocusTransitionDidNotSettle { target: None });
}

#[test]
fn layer_events_go_to_the_owner_and_to_the_layer() {
    let mut layers = LayerStack::new();
    layers.open(Id(100), LayerSpec::modal(Id(1)), None);
    layers.open(Id(200), LayerSpec::modal(Id(200)), None);
    let (events, intents) = pump_layer_events(&mut layers);
    assert_eq!(events, vec![(Id(100), LayerEvent::Opened), (Id(200), LayerEvent::Opened)]);
    assert_eq!(
        intents,
        vec![(Id(1), LayerEvent::Opened), (Id(100), LayerEvent::Opened), (Id(200), LayerEvent::Opened)]
    );
    layers.close(Id(100), LayerEvent::Dismissed(DismissReason::Esc));
    let (_, intents) = pump_layer_events(&mut layers);
    // closed layers hear about it themselves
    assert_eq!(
        intents,
        vec![
            (Id(100), LayerEvent::Dismissed(DismissReason::Esc)),
            (Id(200), LayerEvent::Dismissed(DismissReason::Programmatic)),
        ]
    );
    assert!(pump_layer_events(&mut layers).0.is_empty());
}
