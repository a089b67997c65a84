use junie_tui::text::clusters::{ClusterFeed, ClusterScratch, INLINE};

#[test]
fn scalars_accumulate_inline_and_spill_past_the_inline_capacity() {
    let mut s = ClusterScratch::new();
    assert!(s.is_empty());
    s.push("e");
    s.push("\u{301}");
    assert_eq!(s.text(), "e\u{301}");
    assert_eq!(s.len(), 3);
    assert_eq!(s.capacity(), 0);
    for _ in 0..40 {
        s.push("\u{301}");
    }
    assert_eq!(s.len(), 3 + 40 * 2);
    assert!(s.len() > INLINE);
    assert_eq!(s.text(), format!("e{}", "\u{301}".repeat(41)));
    assert_eq!(s.peak(), 83);
}

#[test]
fn discarding_an_emitted_prefix_keeps_the_lookahead() {
    let mut s = ClusterScratch::new();
    s.push("a");
    s.push("b");
    s.discard_prefix(1);
    assert_eq!(s.text(), "b");
    // from the heap back inline
    for _ in 0..70 {
        s.push("x");
    }
    assert_eq!(s.len(), 71);
    s.discard_prefix(70);
    assert_eq!(s.text(), "x");
    assert_eq!(s.len(), 1);
    // within the heap
    for _ in 0..100 {
        s.push("y");
    }
    s.discard_prefix(2);
    assert_eq!(s.len(), 99);
    assert_eq!(s.text(), "y".repeat(99));
    assert_eq!(s.peak(), 101);
}

#[test]
fn clearing_keeps_the_heap_capacity_and_reset_forgets_the_peak() {
    let mut s = ClusterScratch::new();
    for _ in 0..100 {
        s.push("z");
    }
    let cap = s.capacity();
    assert!(cap >= 100);
    s.clear();
    assert!(s.is_empty());
    assert_eq!(s.text(), "");
    assert_eq!(s.capacity(), cap);
    assert_eq!(s.peak(), 100);
    s.reset();
    assert_eq!(s.peak(), 0);
}

#[test]
fn a_cluster_spanning_fragments_takes_the_style_of_its_first_byte() {
    let mut feed = ClusterFeed::new(ClusterScratch::new());
    assert!(feed.push("e", 0).is_empty());
    assert_eq!(feed.pending(), "e");
    let out = feed.push("\u{301}x", 1);
    assert_eq!(out, vec![(0, 3, 0)]);
    assert_eq!(feed.pending(), "x");
    assert_eq!(feed.finish(), vec![(0, 1, 1)]);
    assert_eq!(feed.pending(), "");
}

#[test]
fn crlf_split_across_fragments_stays_one_cluster() {
    let mut feed = ClusterFeed::new(ClusterScratch::new());
    assert_eq!(feed.push("a\r", 7), vec![(0, 1, 7)]);
    assert_eq!(feed.push("", 8), Vec::new());
    assert_eq!(feed.push("\nb", 9), vec![(0, 2, 7)]);
    assert_eq!(feed.finish(), vec![(0, 1, 9)]);
    assert!(feed.finish().is_empty());
}

#[test]
fn a_stopped_feed_holds_and_emits_nothing() {
    let mut feed = ClusterFeed::new(ClusterScratch::new());
    assert_eq!(feed.push("ab", 0), vec![(0, 1, 0)]);
    feed.stop();
    assert!(feed.is_done());
    assert_eq!(feed.pending(), "");
    assert!(feed.push("cd", 1).is_empty());
    assert_eq!(feed.pending(), "");
    assert!(feed.finish().is_empty());
    let scratch = feed.into_scratch();
    assert!(scratch.is_empty());
}
