use junie_tui::id::Id;
use junie_tui::response::{Activated, Flow, Invalidate, Response, StateFlags};

#[test]
fn ignored_consumed_changed_action_constructors() {
    let i: Response<u8> = Response::ignored();
    assert!(!i.is_consumed() && !i.is_changed() && i.id().is_none());
    let c: Response<u8> = Response::consumed();
    assert!(c.is_consumed() && !c.is_changed());
    let ch: Response<u8> = Response::changed();
    assert!(ch.is_consumed() && ch.is_changed());
    let a = Response::action(7u8);
    assert!(a.is_consumed() && a.is_changed());
    assert_eq!(a.action_ref(), Some(&7));
    let r = a.for_id(Id::root("x"));
    assert_eq!(r.id(), Some(Id::root("x")));
}

#[test]
fn bitor_takes_consumed_over_ignored() {
    let r = Response::<()>::ignored() | Response::consumed();
    assert!(r.is_consumed());
    let r = Response::<()>::consumed() | Response::ignored();
    assert!(r.is_consumed());
    let mut r = Response::<()>::ignored();
    r |= Response::consumed();
    assert!(r.is_consumed());
}

#[test]
fn bitor_takes_max_invalidate() {
    let r = Response::<()>::consumed() | Response::changed();
    assert_eq!(r.invalidate(), Invalidate::Paint);
    let r = Response::<()>::changed().relayout() | Response::consumed();
    assert_eq!(r.invalidate(), Invalidate::Layout);
    let mut r = Response::<()>::ignored();
    r |= Response::changed();
    assert_eq!(r.invalidate(), Invalidate::Paint);
}

#[test]
fn repaint_raises_relayout_raises_further() {
    let r: Response<()> = Response::consumed().repaint();
    assert_eq!(r.invalidate(), Invalidate::Paint);
    let r = r.relayout();
    assert_eq!(r.invalidate(), Invalidate::Layout);
    assert_eq!(r.repaint().invalidate(), Invalidate::Layout);
}

#[test]
fn layout_is_strictly_greater_than_paint() {
    assert!(Invalidate::Nothing < Invalidate::Paint);
    assert!(Invalidate::Paint < Invalidate::Layout);
}

#[test]
fn no_repaint_lowers_to_none() {
    let r: Response<()> = Response::changed().no_repaint();
    assert!(r.is_consumed());
    assert_eq!(r.invalidate(), Invalidate::Nothing);
    assert!(!r.is_changed());
}

#[test]
fn map_action_preserves_flow_and_invalidate() {
    let r = Response::action(3u8).relayout().for_id(Id::root("m"));
    let m = r.map_action(|n| u32::from(n).saturating_mul(2));
    assert_eq!(m.action_ref(), Some(&6));
    assert_eq!(m.invalidate(), Invalidate::Layout);
    assert!(m.is_consumed());
    assert_eq!(m.id(), Some(Id::root("m")));
}

#[test]
fn erase_drops_the_action_only() {
    let r = Response::action(1u8).with_state(StateFlags::focused()).erase();
    assert!(r.is_consumed() && r.is_changed());
    assert!(r.focused());
    let mut a = Response::action(Activated);
    assert!(a.activated());
    assert_eq!(a.take_action(), Some(Activated));
    assert!(!a.activated());
    let mut fired = false;
    let r = Response::action(Activated).on_activated(|| fired = true);
    assert!(fired && r.is_changed());
}

#[test]
fn state_flags_round_trip() {
    let s = StateFlags::focused() | StateFlags::hovered() | StateFlags::editing();
    assert_eq!(StateFlags::from_bits_truncate(s.bits()), s);
    assert_eq!(s.iter().len(), 3);
    assert_eq!(StateFlags::all().bits(), u16::MAX);
    assert_eq!(s.debug_string(), "StateFlags(FOCUSED | HOVERED | EDITING)");
    let r: Response<()> = Response::consumed().with_state(s);
    assert!(r.focused() && r.hovered() && !r.pressed());
}

#[test]
fn fold_keeps_the_left_id_and_state() {
    let a = Response::<()>::ignored().for_id(Id::root("a")).with_state(StateFlags::pressed());
    let b = Response::<()>::changed().for_id(Id::root("b")).with_state(StateFlags::hovered());
    let r = a | b;
    assert_eq!(r.id(), Some(Id::root("a")));
    assert!(r.pressed() && !r.hovered());
    assert_eq!(r.flow(), Flow::Consumed);
    let r = Response::<()>::ignored() | Response::<()>::ignored().for_id(Id::root("b"));
    assert_eq!(r.id(), None);
    let mut m = Response::<()>::ignored();
    m |= Response::<()>::consumed().for_id(Id::root("b"));
    assert_eq!(m.id(), None);
    assert_eq!(m.flow(), Flow::Consumed);
    assert_eq!(StateFlags::empty().debug_string(), "StateFlags(0x0)");
}

#[test]
fn fold_is_commutative_in_flow_and_invalidate() {
    let all = [
        Response::<()>::ignored(),
        Response::consumed(),
        Response::changed(),
        Response::changed().relayout(),
        Response::ignored().relayout(),
    ];
    for a in &all {
        for b in &all {
            let ab = a.clone() | b.clone();
            let ba = b.clone() | a.clone();
            assert_eq!(ab.flow(), ba.flow());
            assert_eq!(ab.invalidate(), ba.invalidate());
        }
    }
}
