use junie_tui::secret::{Secret, SecretPolicy};
use junie_tui::theme::glyph::GlyphRole;

#[test]
fn debug_and_display_redact() {
    let s = Secret::new("hunter2".to_owned());
    assert_eq!(s.debug_string(), "Secret([redacted])");
    assert_eq!(s.display_string(), "[redacted]");
    assert_eq!(s.expose(), "hunter2");
    assert_eq!(s.len(), 7);
    assert_eq!(s.fingerprint(), Secret::new("hunter2".to_owned()).fingerprint());
    assert_ne!(s.fingerprint(), Secret::new("hunter3".to_owned()).fingerprint());
}

#[test]
fn secret_zeroize_overwrites_before_drop() {
    let mut s = Secret::new("hunter2".to_owned());
    assert_eq!(s.len(), 7);
    s.zeroize();
    assert!(s.is_empty());
    assert_eq!(s.expose(), "");
    assert_eq!(s.expose().len(), 0, "the buffer is released, not kept");
    s.set("again");
    assert_eq!(s.expose(), "again");
    assert_eq!(SecretPolicy::default().synthetic_tail, 2);
    assert_eq!(SecretPolicy::default().mask, GlyphRole::SecretMask);
    assert_ne!(SecretPolicy::default().mask, GlyphRole::Dirty);
}

#[test]
fn fingerprint_is_fnv1a_of_the_bytes() {
    let s = Secret::new("a".to_owned());
    assert_eq!(u64::from_le_bytes(s.fingerprint()), 0xaf63_dc4c_8601_ec8c);
    let e = Secret::new(String::new());
    assert_eq!(u64::from_le_bytes(e.fingerprint()), 0xcbf2_9ce4_8422_2325);
}

#[test]
fn the_mask_tail_is_synthetic() {
    let s = Secret::new("hunter2".to_owned());
    let m = s.write_mask(7, SecretPolicy::default());
    assert_eq!(m.count, 7);
    assert_eq!(m.mask, GlyphRole::SecretMask);
    assert_eq!(m.tail.chars().count(), 2);
    assert!(m.tail.chars().all(|c| c.is_ascii_digit() || c.is_ascii_lowercase()));
    let fp = s.fingerprint();
    let expect: String = fp[..2]
        .iter()
        .map(|b| {
            let v = b % 36;
            if v < 10 { char::from(b'0' + v) } else { char::from(b'a' + v - 10) }
        })
        .collect();
    assert_eq!(m.tail, expect);
    let long = s.write_mask(3, SecretPolicy { mask: GlyphRole::Dirty, synthetic_tail: 20 });
    assert_eq!(long.tail.chars().count(), 20);
    assert_eq!(&long.tail[..8], &long.tail[8..16]);
    assert!(long.tail.starts_with(&expect));
    let empty = Secret::new(String::new());
    let e = empty.write_mask(0, SecretPolicy::default());
    assert_eq!(e.tail.chars().count(), 2);
    assert_eq!(e.count, 0);
    let none = s.write_mask(4, SecretPolicy { mask: GlyphRole::SecretMask, synthetic_tail: 0 });
    assert!(none.tail.is_empty());
}
