use bytes::Bytes;
use core::cmp::Ordering;
use bytes_text::Text;
use bytes_text::TextMut;

#[test]
fn slice_outlives_the_original() {
    let text = Text::copy_from("hello world");
    let slice = text.get(0..5).unwrap();
    drop(text);
    assert_eq!(slice, "hello");
}

#[test]
fn split_halves_outlive_the_original() {
    let text = Text::copy_from("left|right");
    let (a, b) = text.split_at(5).unwrap();
    drop(a);
    assert_eq!(b, "right");
}

#[test]
fn clones_share_contents() {
    let mut buffer = TextMut::with_capacity(64);
    buffer.push_str("shared");
    let a = buffer.freeze();
    let b = a.clone();
    drop(a);
    assert_eq!(b, "shared");
}

#[test]
fn cross_type_equality() {
    let cases: Vec<&str> = vec!["", "x", "ascii text", "héllo €", "𝄞"];
    for case in cases {
        let text = Text::copy_from(case);
        let buffer = TextMut::copy_from(case);
        assert_eq!(text, buffer);
        assert_eq!(buffer, text);
        assert_eq!(text, case);
        assert_eq!(buffer, case);
        assert!(text.eq_str(case));
        assert!(buffer.eq_str(case));
    }
}

#[test]
fn equality_distinguishes_different_contents() {
    assert_ne!(Text::copy_from("abc"), Text::copy_from("abd"));
    assert_ne!(Text::copy_from("abc"), TextMut::copy_from("ab"));
    assert_ne!(TextMut::copy_from("abc"), TextMut::copy_from(""));
    assert!(!Text::copy_from("abc").eq_str("abd"));
}

#[test]
fn ordering_is_lexicographic() {
    let ab = Text::copy_from("ab");
    let abc = Text::copy_from("abc");
    let abd = Text::copy_from("abd");
    assert_eq!(ab.partial_cmp(&abc), Some(Ordering::Less));
    assert_eq!(abc.partial_cmp(&abd), Some(Ordering::Less));
    assert_eq!(abd.partial_cmp(&abc), Some(Ordering::Greater));
    assert_eq!(abc.partial_cmp(&abc), Some(Ordering::Equal));
    assert!(ab < abc);
    assert!(abc < abd);

    let ab = TextMut::copy_from("ab");
    let abc = TextMut::copy_from("abc");
    assert_eq!(ab.partial_cmp(&abc), Some(Ordering::Less));
    assert!(ab < abc);
}

#[test]
fn ordering_is_consistent_across_types() {
    let text = Text::copy_from("abc");
    let buffer = TextMut::copy_from("abd");
    assert_eq!(text.partial_cmp(&buffer), Some(Ordering::Less));
    assert_eq!(buffer.partial_cmp(&text), Some(Ordering::Greater));
    assert_eq!(text.partial_cmp(&"abc"), Some(Ordering::Equal));
    assert_eq!(text.partial_cmp(&"ab"), Some(Ordering::Greater));
    assert_eq!(buffer.partial_cmp(&"b"), Some(Ordering::Less));
    assert!(text < buffer);
}

#[test]
fn default_values_are_empty() {
    assert!(Text::default().is_empty());
    assert!(TextMut::default().is_empty());
    assert!(Text::new().is_empty());
}

#[test]
fn byte_accessors_expose_the_contents() {
    let text = Text::copy_from("Woah");
    assert_eq!(text.as_bytes(), &Bytes::from_static(b"Woah"));
    let bytes: Bytes = text.into_bytes();
    assert_eq!(bytes, Bytes::from_static(b"Woah"));

    let buffer = TextMut::copy_from("Woah");
    assert_eq!(buffer.as_bytes().as_ref(), b"Woah");
    let raw = buffer.into_bytes_mut();
    assert_eq!(raw.as_ref(), b"Woah");
}

#[test]
fn from_static_does_not_copy_checkably() {
    let text = Text::from_static("Static!");
    assert_eq!(text, "Static!");
    assert_eq!(text.len(), 7);
}
