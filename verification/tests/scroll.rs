use junie_tui::scroll::ScrollState;

#[test]
fn clamps_offset_to_content() {
    let mut s = ScrollState::new(100);
    s.set_viewport(10);
    s.scroll_by(500);
    assert_eq!(s.offset(), 90);
    s.scroll_by(-500);
    assert_eq!(s.offset(), 0);
    s.page_down();
    assert_eq!(s.offset(), 10);
    s.jump_end();
    assert_eq!(s.offset(), s.max_offset());
    s.set_content(5);
    assert_eq!(s.offset(), 0);
}

#[test]
fn ensure_visible_moves_minimally() {
    let mut s = ScrollState::new(50);
    s.set_viewport(10);
    s.ensure_visible(25);
    assert_eq!(s.offset(), 16);
    s.ensure_visible(5);
    assert_eq!(s.offset(), 5);
    s.ensure_visible(7);
    assert_eq!(s.offset(), 5);
}

#[test]
fn thumb_covers_track_proportionally() {
    let mut s = ScrollState::new(100);
    s.set_viewport(20);
    assert_eq!(s.thumb(10), (0, 2));
    s.jump_end();
    assert_eq!(s.thumb(10), (8, 2));
    let mut s = ScrollState::new(5);
    s.set_viewport(20);
    assert!(!s.overflows());
    assert_eq!(s.thumb(10), (0, 10));
}

#[test]
fn track_position_round_trips() {
    let mut s = ScrollState::new(200);
    s.set_viewport(20);
    assert_eq!(s.offset_for_track_pos(19, 20), s.max_offset());
    assert_eq!(s.offset_for_track_pos(0, 20), 0);
}

#[test]
fn wheel_at_the_boundary_is_consumed_without_repaint() {
    let mut s = ScrollState::new(30);
    s.set_viewport(10);
    let r = s.wheel(-3);
    assert!(r.is_consumed() && !r.is_changed());
    let r = s.wheel(3);
    assert!(r.is_consumed() && r.is_changed());
    s.jump_end();
    let r = s.wheel(3);
    assert!(r.is_consumed() && !r.is_changed());
    assert!(s.pending_reveal().is_none(), "a wheel never requests a reveal");
}

#[test]
fn ensure_visible_on_next_layout_is_set_only_by_cursor_motion() {
    let mut s = ScrollState::new(50);
    s.set_viewport(10);
    let _ = s.wheel(5);
    assert_eq!(s.pending_reveal(), None);
    s.ensure_visible_on_next_layout(40);
    assert_eq!(s.pending_reveal(), Some(40));
    s.apply_layout(10, 50);
    assert_eq!(s.pending_reveal(), None);
    assert_eq!(s.offset(), 31);
}

#[test]
fn fields_are_private_and_every_mutator_clamps() {
    let mut s = ScrollState::new(3);
    s.set_viewport(10);
    s.scroll_to(99);
    assert_eq!(s.offset(), 0);
    s.page_up();
    assert_eq!(s.offset(), 0);
    s.set_content(100);
    s.scroll_to(99);
    assert_eq!(s.offset(), 90);
    s.set_viewport(200);
    assert_eq!(s.offset(), 0);
    assert_eq!(s.visible_range(), 0..100);
    assert_eq!(s.headroom_v().down, 0);
}

#[test]
fn thumb_stays_on_the_track_and_track_positions_stay_in_range() {
    for content in [0usize, 1, 7, 30, 1000] {
        for viewport in [0usize, 1, 5, 30] {
            for track in [0usize, 1, 3, 10, 50] {
                let mut s = ScrollState::new(content);
                s.set_viewport(viewport);
                for off in [0usize, 1, 5, 1000] {
                    s.scroll_to(off);
                    let (start, len) = s.thumb(track);
                    assert!(start + len <= track);
                    for pos in [0usize, 1, 9, 60] {
                        assert!(s.offset_for_track_pos(pos, track) <= s.max_offset());
                    }
                }
            }
        }
    }
}

#[test]
fn headroom_reports_rows_on_each_side() {
    let mut s = ScrollState::new(100);
    s.set_viewport(10);
    s.scroll_to(40);
    let h = s.headroom_v();
    assert_eq!((h.up, h.down, h.left, h.right), (40, 50, 0, 0));
    assert!(!s.at_start() && !s.at_end());
}
