use console_io::cstr::{find_terminator, from_cstr, text_of, DecodeError};

#[test]
fn decodes_up_to_the_first_zero() {
    assert_eq!(from_cstr(b"stdout:\0"), Ok("stdout:"));
    assert_eq!(from_cstr(b"abc\0def\0"), Ok("abc"));
    assert_eq!(from_cstr(b"abc\0\xff\xfe"), Ok("abc"));
}

#[test]
fn decodes_the_empty_string() {
    assert_eq!(from_cstr(b"\0"), Ok(""));
    assert_eq!(from_cstr(b"\0rest"), Ok(""));
}

#[test]
fn unterminated_region_is_refused() {
    assert_eq!(from_cstr(b"abc"), Err(DecodeError::NotTerminated));
    assert_eq!(from_cstr(b""), Err(DecodeError::NotTerminated));
    assert_eq!(from_cstr(b"\xff\xfe"), Err(DecodeError::NotTerminated));
}

#[test]
fn invalid_text_is_refused() {
    assert_eq!(from_cstr(b"\xff\0"), Err(DecodeError::InvalidText));
    assert_eq!(from_cstr(b"ab\xc3\0"), Err(DecodeError::InvalidText));
    assert_eq!(from_cstr(b"\xed\xa0\x80\0"), Err(DecodeError::InvalidText));
    assert_eq!(from_cstr(b"\xc0\x80\0"), Err(DecodeError::InvalidText));
}

#[test]
fn round_trip_of_text_without_zero() {
    for text in ["", "a", "stdin:", "hello, world", "héllo", "日本語", "🦀 crab", "\u{1}\u{7f}"] {
        let mut region = text.as_bytes().to_vec();
        region.push(0);
        assert_eq!(from_cstr(&region), Ok(text));
    }
}

#[test]
fn decoded_text_borrows_the_region() {
    let region = b"name\0tail".to_vec();
    let text = from_cstr(&region).unwrap();
    assert_eq!(text.as_ptr(), region.as_ptr());
    assert_eq!(text.len(), 4);
}

#[test]
fn find_terminator_gives_the_first_zero() {
    assert_eq!(find_terminator(b"abc\0"), Some(3));
    assert_eq!(find_terminator(b"\0\0"), Some(0));
    assert_eq!(find_terminator(b"a\0b\0"), Some(1));
    assert_eq!(find_terminator(b"abc"), None);
    assert_eq!(find_terminator(b""), None);
}

#[test]
fn text_of_accepts_exactly_valid_text() {
    assert_eq!(text_of(b"abc"), Ok("abc"));
    assert_eq!(text_of(b""), Ok(""));
    assert_eq!(text_of("héllo ☃".as_bytes()), Ok("héllo ☃"));
    assert_eq!(text_of(b"a\0b"), Ok("a\0b"));
    assert_eq!(text_of(b"\x80"), Err(DecodeError::InvalidText));
    assert_eq!(text_of(b"abc\xe2\x98"), Err(DecodeError::InvalidText));
    assert_eq!(text_of(b"\xf4\x90\x80\x80"), Err(DecodeError::InvalidText));
}
