use bytes::Bytes;
use bytes::BytesMut;
use bytes_text::validate_utf8;
use bytes_text::Text;
use bytes_text::TextMut;

#[test]
fn valid_bytes_round_trip() {
    let cases: Vec<&str> = vec!["", "ascii only", "héllo", "€100", "𝄞 clef", "i'm in a buffer!"];
    for case in cases {
        let text = Text::from_utf8(Bytes::copy_from_slice(case.as_bytes())).unwrap();
        assert_eq!(text.as_str(), case);
        assert_eq!(text.to_string(), String::from(case));
        assert_eq!(text.len(), case.len());
    }
}

#[test]
fn valid_bytes_round_trip_mutable() {
    let mut raw = BytesMut::new();
    raw.extend_from_slice("Hello,".as_bytes());
    let mut text = TextMut::from_utf8(raw).expect("well-formed input was rejected");
    text.push_str(" world!");
    assert_eq!(text, "Hello, world!");
}

#[test]
fn invalid_bytes_report_first_invalid_offset() {
    // (input, offset of the first invalid byte)
    let cases: Vec<(&[u8], usize)> = vec![
        (&[0xff], 0),
        (&[0x68, 0xff, 0x21], 1),
        (&[0x80], 0),                         // continuation byte in lead position
        (&[0xc0, 0x80], 0),                   // overlong 2-byte encoding
        (&[0xc2], 0),                         // truncated 2-byte encoding
        (&[0x61, 0xc2, 0x41], 1),             // lead without continuation
        (&[0xe0, 0x80, 0x80], 0),             // overlong 3-byte encoding
        (&[0xed, 0xa0, 0x80], 0),             // surrogate codepoint
        (&[0x61, 0x62, 0xe2, 0x82], 2),       // truncated 3-byte encoding
        (&[0xf0, 0x80, 0x80, 0x80], 0),       // overlong 4-byte encoding
        (&[0xf4, 0x90, 0x80, 0x80], 0),       // codepoint above 0x10ffff
        (&[0xf8, 0x80, 0x80, 0x80, 0x80], 0), // lead byte out of range
        (&[0x61, 0xf1, 0x80, 0x80], 1),       // truncated 4-byte encoding
    ];
    for (input, expected) in cases {
        let err = validate_utf8(input).unwrap_err();
        assert_eq!(err.valid_up_to, expected);
        // agree with the standard library's validator
        assert_eq!(err.valid_up_to, std::str::from_utf8(input).unwrap_err().valid_up_to());

        let err = Text::from_utf8(Bytes::copy_from_slice(input)).unwrap_err();
        assert_eq!(err.error.valid_up_to, expected);
        // the rejected bytes come back to the caller, untouched
        assert_eq!(err.bytes.as_ref(), input);

        let mut raw = BytesMut::new();
        raw.extend_from_slice(input);
        let err = TextMut::from_utf8(raw).unwrap_err();
        assert_eq!(err.error.valid_up_to, expected);
        assert_eq!(err.bytes.as_ref(), input);
    }
}

#[test]
fn validate_accepts_exactly_what_std_accepts() {
    // every boundary-adjacent lead/continuation combination over two bytes
    let interesting: Vec<u8> = vec![
        0x00, 0x41, 0x7f, 0x80, 0x9f, 0xa0, 0xbf, 0xc0, 0xc1, 0xc2, 0xdf, 0xe0, 0xec, 0xed, 0xee,
        0xef, 0xf0, 0xf3, 0xf4, 0xf5, 0xf7, 0xf8, 0xff,
    ];
    for &a in &interesting {
        for &b in &interesting {
            let input = [a, b];
            assert_eq!(
                validate_utf8(&input).is_ok(),
                std::str::from_utf8(&input).is_ok(),
                "disagreement on {:02x} {:02x}",
                a,
                b
            );
        }
    }
}

#[test]
fn validate_agrees_with_std_on_longer_sequences() {
    let interesting: Vec<u8> = vec![
        0x41, 0x7f, 0x80, 0x8f, 0x90, 0x9f, 0xa0, 0xbf, 0xc2, 0xe0, 0xed, 0xef, 0xf0, 0xf4, 0xf5,
    ];
    for &a in &interesting {
        for &b in &interesting {
            for &c in &interesting {
                let input = [a, b, c];
                let ours = validate_utf8(&input);
                let std_result = std::str::from_utf8(&input);
                assert_eq!(ours.is_ok(), std_result.is_ok(), "on {:02x?}", input);
                if let (Err(e), Err(s)) = (ours, std_result) {
                    assert_eq!(e.valid_up_to, s.valid_up_to(), "on {:02x?}", input);
                }
                let input = [a, b, c, 0x80];
                let ours = validate_utf8(&input);
                let std_result = std::str::from_utf8(&input);
                assert_eq!(ours.is_ok(), std_result.is_ok(), "on {:02x?}", input);
                if let (Err(e), Err(s)) = (ours, std_result) {
                    assert_eq!(e.valid_up_to, s.valid_up_to(), "on {:02x?}", input);
                }
            }
        }
    }
}

#[test]
fn wrap_split_rejoin_buffer_scenario() {
    let raw = Bytes::from_static(&[
        0x69, 0x27, 0x6d, 0x20, 0x69, 0x6e, 0x20, 0x61, 0x20, 0x62, 0x75, 0x66, 0x66, 0x65, 0x72,
        0x21,
    ]);
    let text = Text::from_utf8(raw).unwrap();
    assert_eq!(text, "i'm in a buffer!");

    let (a, b) = text.split_at(4).unwrap();
    assert_eq!(a, "i'm ");
    assert_eq!(b, "in a buffer!");

    let mut rejoined = TextMut::copy_from(a.as_str());
    rejoined.push_text(&b);
    assert_eq!(rejoined.len(), 16);
    assert_eq!(rejoined, "i'm in a buffer!");
    assert_eq!(
        rejoined.freeze().into_bytes(),
        Bytes::from_static(b"i'm in a buffer!")
    );
}

#[test]
fn from_utf8_unchecked_wraps_known_valid_bytes() {
    let text = Text::from_utf8_unchecked(Bytes::from_static(b"known good"));
    assert_eq!(text, "known good");

    let mut raw = BytesMut::new();
    raw.extend_from_slice(b"known good");
    let text = TextMut::from_utf8_unchecked(raw);
    assert_eq!(text, "known good");
}
