use bytes_text::Text;
use bytes_text::TextMut;

#[test]
fn text_mut_create() {
    let mut buf = TextMut::new();
    buf.push_str("Hello, ");
    buf.push_str("world!");
    assert_eq!(buf, "Hello, world!");
    buf.push(' ');
    buf.extend_strs(vec!["Woo, ", "unit tests!"]);
    assert_eq!(buf, "Hello, world! Woo, unit tests!");
    buf.extend_strings(vec![String::from(" I'm in a String.")]);
    buf.extend_texts(vec![Text::from_static(" Ooo, text")]);
    assert_eq!(
        buf.to_string(),
        String::from("Hello, world! Woo, unit tests! I'm in a String. Ooo, text")
    );
    buf.clear();
    assert_eq!(buf, "");
}

#[test]
fn push_then_freeze_equals_hello() {
    let mut text = TextMut::with_capacity(64);
    text.push('h');
    text.push('e');
    text.push_str("llo");
    assert_eq!(text, "hello");

    let a = text.freeze();
    let b = a.clone();

    assert_eq!(a, "hello");
    assert_eq!(b, "hello");
}

#[test]
fn push_multi_byte_characters() {
    let mut text = TextMut::new();
    text.push('£');
    text.push('€');
    text.push('𝄞');
    assert_eq!(text, "£€𝄞");
    assert_eq!(text.len(), 2 + 3 + 4);
}

#[test]
fn extend_chars_reserves_and_appends() {
    let mut text = TextMut::copy_from("abc");
    text.extend_chars(vec!['d', 'é', 'f']);
    assert_eq!(text, "abcdéf");
}

#[test]
fn with_capacity_starts_empty() {
    let text = TextMut::with_capacity(24);
    assert!(text.is_empty());
    assert_eq!(text.len(), 0);
    assert!(text.capacity() >= 24);
}

#[test]
fn appends_within_capacity_keep_it() {
    let mut text = TextMut::with_capacity(32);
    let capacity = text.capacity();
    assert!(capacity >= 32);
    text.push_str("rustlang");
    assert_eq!(text.len(), 8);
    assert_eq!(text.capacity(), capacity);
    text.push('!');
    assert_eq!(text.capacity(), capacity);
}

#[test]
fn reserve_grows_capacity() {
    let mut text = TextMut::new();
    text.reserve(24);
    assert!(text.capacity() >= 24);
    text.push_str("rustlang");
    assert_eq!(text.len(), 8);
    text.reserve(100);
    assert!(text.capacity() >= 108);
}

#[test]
fn clear_keeps_capacity() {
    let mut text = TextMut::copy_from("about to be cleared");
    let capacity = text.capacity();
    text.clear();
    assert_eq!(text.len(), 0);
    assert_eq!(text, TextMut::new());
    assert_eq!(text.capacity(), capacity);
    assert!(text.capacity() > 0);
}

#[test]
fn copy_from_owns_its_bytes() {
    let source = String::from("copied text");
    let text = TextMut::copy_from(&source);
    drop(source);
    assert_eq!(text, "copied text");
}

#[test]
fn to_string_decodes_contents() {
    let text = TextMut::copy_from("déjà vu");
    assert_eq!(text.to_string(), String::from("déjà vu"));
    assert_eq!(text.as_str(), "déjà vu");
}
