use junie_tui::action::ActionKey;
use junie_tui::geometry::{Position, Rect};
use junie_tui::id::Id;
use junie_tui::layer::{
    backdrop_area, resolve_anchor, Anchor, Backdrop, CrossAlign, Dismiss, DismissReason, LayerEvent, LayerId,
    LayerKind, LayerSize, LayerSpec, LayerStack, ScreenAlign, Side,
};

fn dlg() -> Id {
    Id::root("dlg")
}

fn pick() -> Id {
    Id::root("pick")
}

#[test]
fn push_and_pop_maintain_layer_order() {
    let mut s = LayerStack::default();
    assert_eq!(s.top(), LayerId::page());
    assert_eq!(s.open(dlg(), LayerSpec::modal(dlg()), None), Some(LayerId(1)));
    assert_eq!(s.open(pick(), LayerSpec::popover(pick(), Anchor::Point(Position::new(1, 1))), None), Some(LayerId(2)));
    assert_eq!(s.open(pick(), LayerSpec::modal(pick()), None), None);
    assert_eq!(s.top(), LayerId(2));
    let closed = s.close(pick(), LayerEvent::Closed(ActionKey::confirm()));
    assert_eq!(closed.len(), 1);
    assert_eq!(s.top(), LayerId(1));
    s.open(pick(), LayerSpec::modal(pick()), None);
    let closed = s.close(dlg(), LayerEvent::Dismissed(DismissReason::Esc));
    assert_eq!(closed.iter().map(|l| l.id).collect::<Vec<_>>(), vec![dlg(), pick()]);
    assert_eq!(s.top(), LayerId::page());
    let ev = s.take_pending();
    assert!(ev.contains(&(dlg(), LayerEvent::Dismissed(DismissReason::Esc))));
    assert!(ev.contains(&(pick(), LayerEvent::Dismissed(DismissReason::Programmatic))));
}

#[test]
fn modal_pushes_a_trap_and_a_pointer_barrier() {
    let m = LayerSpec::modal(dlg());
    assert_eq!(m.kind, LayerKind::Modal);
    assert!(m.inert_below && m.restore_focus);
    assert!(matches!(m.backdrop, Backdrop::Dim { exclude_footer: true }));
    assert!(!m.dismisses_on_focus_out());
    let mut s = LayerStack::default();
    s.open(dlg(), m, Some(Id::root("opener")));
    assert_eq!(s.inert_floor(), LayerId(1));
    assert_eq!(s.get(dlg()).and_then(|l| l.restore_to), Some(Id::root("opener")));
}

#[test]
fn popover_pushes_a_pointer_barrier_only() {
    let p = LayerSpec::popover(pick(), Anchor::Point(Position::new(0, 0))).dismiss(Dismiss::all());
    assert_eq!(p.kind, LayerKind::Popover);
    assert!(!p.inert_below);
    assert_eq!(p.backdrop, Backdrop::Clear);
    assert!(p.dismisses_on_focus_out());
    let mut s = LayerStack::default();
    s.open(pick(), p, None);
    assert_eq!(s.inert_floor(), LayerId::page());
    assert_eq!(s.top(), LayerId(1));
}

#[test]
fn anchor_rect_flips_then_clamps() {
    let screen = Rect::new(0, 0, 100, 30);
    let anchor = Rect::new(10, 5, 5, 1);
    let below = Anchor::Rect { rect: anchor, side: Side::Below, align: CrossAlign::Start };
    assert_eq!(resolve_anchor(screen, below, LayerSize::Fixed(40, 8)), Rect::new(10, 6, 40, 8));
    let low = Anchor::Rect { rect: Rect::new(10, 26, 5, 1), side: Side::Below, align: CrossAlign::Start };
    assert_eq!(resolve_anchor(screen, low, LayerSize::Fixed(40, 8)), Rect::new(10, 18, 40, 8));
    let right = Anchor::Rect { rect: Rect::new(90, 5, 5, 1), side: Side::Below, align: CrossAlign::Start };
    assert_eq!(resolve_anchor(screen, right, LayerSize::Fixed(40, 8)).right(), 100);
    let tall = resolve_anchor(screen, below, LayerSize::Fixed(40, 60));
    assert!(tall.height <= 30);
    let end = Anchor::Rect { rect: Rect::new(50, 5, 10, 1), side: Side::Above, align: CrossAlign::End };
    assert_eq!(resolve_anchor(screen, end, LayerSize::Fixed(4, 2)), Rect::new(56, 3, 4, 2));
    let side = Anchor::Rect { rect: Rect::new(95, 5, 5, 3), side: Side::Right, align: CrossAlign::Center };
    assert_eq!(resolve_anchor(screen, side, LayerSize::Fixed(10, 1)), Rect::new(85, 6, 10, 1));
}

#[test]
fn anchor_screen_center_sits_in_the_upper_third() {
    let screen = Rect::new(0, 0, 120, 40);
    let r = resolve_anchor(screen, Anchor::Screen(ScreenAlign::Center), LayerSize::Fixed(60, 12));
    assert_eq!(r, Rect::new(30, 9, 60, 12));
    let b = resolve_anchor(screen, Anchor::Screen(ScreenAlign::Bottom), LayerSize::Fixed(60, 12));
    assert_eq!(b.bottom(), 40);
    let u = resolve_anchor(screen, Anchor::Screen(ScreenAlign::UpperThird), LayerSize::Fixed(60, 12));
    assert!(u.y < r.y);
}

#[test]
fn fill_resolves_to_the_whole_screen() {
    let screen = Rect::new(0, 0, 120, 40);
    for anchor in [
        Anchor::Screen(ScreenAlign::Center),
        Anchor::Point(Position::new(3, 3)),
        Anchor::Rect { rect: Rect::new(1, 1, 2, 2), side: Side::Below, align: CrossAlign::Start },
    ] {
        assert_eq!(resolve_anchor(screen, anchor, LayerSize::Fill), screen);
    }
    assert_eq!(LayerSpec::modal(dlg()).size, LayerSize::Fill);
    assert_eq!(LayerSpec::popover(dlg(), Anchor::Screen(ScreenAlign::Center)).size, LayerSize::Fill);
    assert_eq!(LayerSpec::tooltip(dlg(), Position::new(0, 0)).size, LayerSize::Fill);
}

#[test]
fn fixed_size_is_clamped_never_grown() {
    let screen = Rect::new(0, 0, 40, 10);
    let r = resolve_anchor(screen, Anchor::Screen(ScreenAlign::Center), LayerSize::Fixed(54, 20));
    assert_eq!(r, screen);
    assert_eq!(resolve_anchor(screen, Anchor::Screen(ScreenAlign::Center), LayerSize::Fixed(0, 8)), Rect::zero());
    assert_eq!(resolve_anchor(screen, Anchor::Screen(ScreenAlign::Center), LayerSize::Fixed(8, 0)), Rect::zero());
    let small = resolve_anchor(screen, Anchor::Screen(ScreenAlign::Center), LayerSize::Fixed(10, 4));
    assert_eq!((small.width, small.height), (10, 4));
}

#[test]
fn popover_flips_above_when_the_content_does_not_fit_below() {
    let screen = Rect::new(0, 0, 40, 20);
    let below = Anchor::Rect { rect: Rect::new(4, 17, 6, 1), side: Side::Below, align: CrossAlign::Start };
    let r = resolve_anchor(screen, below, LayerSize::Fixed(12, 6));
    assert_eq!(r, Rect::new(4, 11, 12, 6));
    let high = Anchor::Rect { rect: Rect::new(4, 2, 6, 1), side: Side::Below, align: CrossAlign::Start };
    assert_eq!(resolve_anchor(screen, high, LayerSize::Fixed(12, 6)), Rect::new(4, 3, 12, 6));
}

#[test]
fn point_anchor_flips_instead_of_covering_the_pointer() {
    let screen = Rect::new(0, 0, 40, 10);
    let p = resolve_anchor(screen, Anchor::Point(Position::new(38, 9)), LayerSize::Fixed(10, 3));
    assert_eq!(p, Rect::new(28, 6, 10, 3));
    assert!(!p.contains(Position::new(38, 9)));
    let q = resolve_anchor(screen, Anchor::Point(Position::new(2, 1)), LayerSize::Fixed(10, 3));
    assert_eq!(q, Rect::new(2, 2, 10, 3));
    assert!(!q.contains(Position::new(2, 1)));
}

#[test]
fn closed_with_action_key_emits_layer_event_closed() {
    let mut s = LayerStack::default();
    s.open(dlg(), LayerSpec::modal(dlg()), None);
    let _ = s.take_pending();
    s.close(dlg(), LayerEvent::Closed(ActionKey::save()));
    assert_eq!(s.take_pending(), vec![(dlg(), LayerEvent::Closed(ActionKey::save()))]);
}

#[test]
fn dismissed_emits_the_reason() {
    let mut s = LayerStack::default();
    s.open(dlg(), LayerSpec::modal(dlg()), None);
    assert_eq!(s.take_pending(), vec![(dlg(), LayerEvent::Opened)]);
    s.close(dlg(), LayerEvent::Dismissed(DismissReason::OutsideClick));
    assert_eq!(s.take_pending(), vec![(dlg(), LayerEvent::Dismissed(DismissReason::OutsideClick))]);
}

#[test]
fn backdrop_excludes_the_footer_row() {
    let screen = Rect::new(0, 0, 120, 40);
    assert_eq!(backdrop_area(screen, Backdrop::Dim { exclude_footer: true }), Rect::new(0, 0, 120, 39));
    assert_eq!(backdrop_area(screen, Backdrop::Dim { exclude_footer: false }), screen);
    assert_eq!(backdrop_area(screen, Backdrop::Clear), Rect::zero());
}

#[test]
fn every_fixed_layer_stays_on_the_screen() {
    let screen = Rect::new(2, 1, 30, 12);
    for w in [1u16, 5, 29, 30, 31, 200] {
        for h in [1u16, 3, 12, 13] {
            for anchor in [
                Anchor::Screen(ScreenAlign::Center),
                Anchor::Screen(ScreenAlign::Bottom),
                Anchor::Point(Position::new(0, 0)),
                Anchor::Point(Position::new(31, 12)),
                Anchor::Rect { rect: Rect::new(25, 10, 4, 2), side: Side::Below, align: CrossAlign::End },
                Anchor::Rect { rect: Rect::new(3, 2, 4, 2), side: Side::Left, align: CrossAlign::Center },
            ] {
                let r = resolve_anchor(screen, anchor, LayerSize::Fixed(w, h));
                assert!(r.x >= screen.x && r.y >= screen.y && r.right() <= screen.right() && r.bottom() <= screen.bottom());
                assert!(r.width <= w && r.height <= h);
            }
        }
    }
}

#[test]
fn spec_mut_edits_only_the_named_open_layer() {
    let mut stack = LayerStack::new();
    stack.open(Id(1), LayerSpec::modal(Id(1)), None);
    stack.open(Id(2), LayerSpec::modal(Id(2)), None);
    if let Some(spec) = stack.spec_mut(Id(1)) {
        spec.size = LayerSize::Fixed(40, 10);
    }
    assert!(stack.spec_mut(Id(9)).is_none());
    assert_eq!(stack.get(Id(1)).map(|l| l.spec.size), Some(LayerSize::Fixed(40, 10)));
    assert_eq!(stack.get(Id(2)).map(|l| l.spec.size), Some(LayerSize::Fill));
}
