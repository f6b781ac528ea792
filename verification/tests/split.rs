use bytes_text::Text;
use bytes_text::TextMut;

#[test]
fn split_then_join_reproduces_the_text() {
    let text = TextMut::copy_from("woohoo");
    let (a, b) = text.split_at(3).unwrap();
    assert_eq!(a, "woo");
    assert_eq!(b, "hoo");

    // the halves come from one buffer, so this join merges them in place
    let joined = a.join(b);
    assert_eq!(joined, "woohoo");
}

#[test]
fn join_of_adjacent_halves_reuses_the_allocation() {
    let text = TextMut::copy_from("woohoo");
    let address = text.as_bytes().as_ref().as_ptr();
    let (a, b) = text.split_at(3).unwrap();
    let joined = a.join(b);
    assert_eq!(joined, "woohoo");
    // the halves were adjacent, so the join merged them back in place
    assert_eq!(joined.as_bytes().as_ref().as_ptr(), address);
}

#[test]
fn join_of_unrelated_buffers_copies() {
    let a = TextMut::copy_from("Oh ");
    let b = TextMut::copy_from("heck");
    let joined = a.join(b);
    assert_eq!(joined, "Oh heck");
}

#[test]
fn split_at_every_boundary_and_rejoin() {
    let source = "aé€𝄞z";
    for i in 0..=source.len() {
        let text = Text::copy_from(source);
        match text.split_at(i) {
            Ok((a, b)) => {
                assert!(source.is_char_boundary(i));
                assert_eq!(a.as_str(), &source[..i]);
                assert_eq!(b.as_str(), &source[i..]);
                let mut rejoined = TextMut::copy_from(a.as_str());
                rejoined.push_text(&b);
                assert_eq!(rejoined, source);
            }
            Err(unchanged) => {
                assert!(!source.is_char_boundary(i));
                assert_eq!(unchanged, source);
            }
        }
    }
}

#[test]
fn mid_character_split_leaves_text_unchanged() {
    // 'é' spans bytes 1..3, so offset 2 is inside a character
    let mut text = Text::copy_from("héllo");
    assert!(text.split_off(2).is_none());
    assert_eq!(text, "héllo");
    assert!(text.split_to(2).is_none());
    assert_eq!(text, "héllo");

    let mut buffer = TextMut::copy_from("héllo");
    assert!(buffer.split_off(2).is_none());
    assert_eq!(buffer, "héllo");
    assert!(buffer.split_to(2).is_none());
    assert_eq!(buffer, "héllo");

    let buffer = TextMut::copy_from("héllo");
    let buffer = buffer.split_at(2).unwrap_err();
    assert_eq!(buffer, "héllo");
}

#[test]
fn out_of_range_split_leaves_text_unchanged() {
    let mut text = Text::copy_from("short");
    assert!(text.split_off(6).is_none());
    assert_eq!(text, "short");
}

#[test]
fn split_off_keeps_the_front() {
    let mut text = Text::copy_from("Woo, split!");
    let end = text.split_off(4).unwrap();
    assert_eq!(text, "Woo,");
    assert_eq!(end, " split!");
}

#[test]
fn split_to_keeps_the_back() {
    let mut text = Text::copy_from("Woo, split!");
    let start = text.split_to(4).unwrap();
    assert_eq!(start, "Woo,");
    assert_eq!(text, " split!");

    let mut buffer = TextMut::copy_from("Woo, split!");
    let start = buffer.split_to(4).unwrap();
    assert_eq!(start, "Woo,");
    assert_eq!(buffer, " split!");
}

#[test]
fn get_returns_boundary_aligned_windows() {
    let text = Text::copy_from("Hi, I'm some text!");
    let end = text.get(4..text.len()).unwrap();
    assert_eq!(end, "I'm some text!");
    let middle = text.get(8..12).unwrap();
    assert_eq!(middle, "some");
    let empty = text.get(3..3).unwrap();
    assert_eq!(empty, "");
}

#[test]
fn get_to_and_get_from_cover_open_ended_ranges() {
    let text = Text::copy_from("Hi, I'm some text!");
    let hello = text.get_to(2).unwrap();
    assert_eq!(hello, "Hi");
    let end = text.get_from(4).unwrap();
    assert_eq!(end, "I'm some text!");
    let whole = text.get_from(0).unwrap();
    assert_eq!(whole, "Hi, I'm some text!");
    let empty = text.get_to(0).unwrap();
    assert_eq!(empty, "");

    let multi = Text::copy_from("héllo");
    assert!(multi.get_to(2).is_none()); // inside 'é'
    assert!(multi.get_from(2).is_none());
    assert!(multi.get_from(7).is_none()); // past the end
    assert_eq!(multi.get_from(3).unwrap(), "llo");
}

#[test]
fn get_rejects_bad_ranges() {
    let text = Text::copy_from("héllo");
    assert!(text.get(0..2).is_none()); // ends inside 'é'
    assert!(text.get(2..4).is_none()); // starts inside 'é'
    assert!(text.get(0..7).is_none()); // past the end
    assert!(text.get(4..3).is_none()); // backwards
}
