use junie_tui::text::fuzzy::{fuzzy, fuzzy_with_boundary, rank, FuzzyBoundary, Origin};
use unicode_segmentation::UnicodeSegmentation;

#[test]
fn fuzzy_returns_grapheme_indices_into_the_original_label() {
    // `İ` lowercases to two code points, so byte offsets into a lowercased
    // copy would drift; grapheme ordinals of the original do not
    let label = "İstanbul_Ünïted";
    let (score, idx) = fuzzy(label, "ün").unwrap_or((u32::MAX, Vec::new()));
    assert_eq!(score, 10);
    assert_eq!(idx, vec![9, 10]);
    let graphemes: Vec<&str> = label.graphemes(true).collect();
    assert_eq!(graphemes.get(9).copied(), Some("Ü"));
    let fam = "👨‍👩‍👧‍👦";
    let (_, idx) = fuzzy(&format!("{fam}x"), "x").unwrap_or((0, Vec::new()));
    assert_eq!(idx, vec![1]);
}

#[test]
fn fuzzy_ranks_prefix_before_boundary_before_substring_before_subsequence() {
    let p = fuzzy("orders", "ord").map(|m| m.0);
    let b = fuzzy("my_orders", "ord").map(|m| m.0);
    let s = fuzzy("reorders", "ord").map(|m| m.0);
    let q = fuzzy("o r d", "ord").map(|m| m.0);
    assert_eq!(p, Some(0));
    assert_eq!(b, Some(10));
    assert_eq!(s, Some(30));
    assert!(q.is_some_and(|v| v >= 60));
    assert!(p < b && b < s && s < q);
    assert_eq!(fuzzy("abc", "z"), None);
    assert_eq!(fuzzy("abc", ""), Some((0, Vec::new())));
    assert_eq!(fuzzy("ab", "abc"), None);
}

#[test]
fn fuzzy_folds_case_and_reports_matched_ordinals() {
    assert_eq!(fuzzy("Orders", "ORD"), Some((0, vec![0, 1, 2])));
    assert_eq!(fuzzy("my_orders", "ord"), Some((10, vec![3, 4, 5])));
    assert_eq!(fuzzy("reorders", "ord"), Some((30, vec![2, 3, 4])));
}

#[test]
fn fuzzy_subsequence_penalty_counts_the_last_matched_byte() {
    // o at 0, r at 2, d at 4: the last matched grapheme starts at byte 4
    assert_eq!(fuzzy("o r d", "ord"), Some((64, vec![0, 2, 4])));
    // a two-byte grapheme before the match shifts the byte, not the ordinal
    assert_eq!(fuzzy("éxay", "xy"), Some((64, vec![1, 3])));
}

#[test]
fn identifier_boundary_ignores_spaces_and_hyphens() {
    assert_eq!(fuzzy_with_boundary("my order", "ord", FuzzyBoundary::Word), Some((10, vec![3, 4, 5])));
    assert_eq!(fuzzy_with_boundary("my order", "ord", FuzzyBoundary::Identifier), Some((30, vec![3, 4, 5])));
    assert_eq!(fuzzy_with_boundary("my-order", "ord", FuzzyBoundary::Identifier), Some((30, vec![3, 4, 5])));
    assert_eq!(fuzzy_with_boundary("my.order", "ord", FuzzyBoundary::Identifier), Some((10, vec![3, 4, 5])));
    assert_eq!(fuzzy_with_boundary("my_order", "ord", FuzzyBoundary::Identifier), Some((10, vec![3, 4, 5])));
}

#[test]
fn fuzzy_default_boundary_is_word() {
    assert_eq!(FuzzyBoundary::default(), FuzzyBoundary::Word);
    assert_eq!(fuzzy("a-b", "b"), fuzzy_with_boundary("a-b", "b", FuzzyBoundary::Word));
}

fn origins_of_ascii(text: &str) -> Vec<Origin> {
    (0..text.len()).map(|i| Origin { start: i, end: i + 1, ordinal: i, byte: i }).collect()
}

#[test]
fn rank_works_on_an_already_folded_text() {
    let text = "abc_def";
    let os = origins_of_ascii(text);
    assert_eq!(rank(text, &os, "abc", FuzzyBoundary::Word), Some((0, vec![0, 1, 2])));
    assert_eq!(rank(text, &os, "def", FuzzyBoundary::Word), Some((10, vec![4, 5, 6])));
    assert_eq!(rank(text, &os, "bc", FuzzyBoundary::Word), Some((30, vec![1, 2])));
    assert_eq!(rank(text, &os, "ae", FuzzyBoundary::Word), Some((65, vec![0, 5])));
    assert_eq!(rank(text, &os, "z", FuzzyBoundary::Word), None);
    // the folded text is taken as it is: no case folding here
    assert_eq!(rank(text, &os, "ABC", FuzzyBoundary::Word), None);
}

#[test]
fn rank_reports_each_grapheme_once() {
    // one grapheme spanning the whole two-byte text
    let os = vec![Origin { start: 0, end: 2, ordinal: 0, byte: 0 }];
    assert_eq!(rank("ab", &os, "ab", FuzzyBoundary::Word), Some((0, vec![0])));
}
