use actias::error::ErrorKind;
use actias::ids::{fresh_id, id_text, parse_id, require_id};

#[test]
fn identifiers_are_written_hyphenated_in_lower_case() {
    assert_eq!(
        id_text(0x550e8400_e29b_41d4_a716_446655440000),
        "550e8400-e29b-41d4-a716-446655440000"
    );
    assert_eq!(id_text(0), "00000000-0000-0000-0000-000000000000");
}

#[test]
fn identifiers_are_read_in_several_spellings() {
    let id: u128 = 0x550e8400_e29b_41d4_a716_446655440000;
    assert_eq!(parse_id("550e8400-e29b-41d4-a716-446655440000"), Some(id));
    assert_eq!(parse_id("550E8400-E29B-41D4-A716-446655440000"), Some(id));
    assert_eq!(parse_id("550e8400e29b41d4a716446655440000"), Some(id));
}

#[test]
fn what_is_no_identifier_is_refused() {
    assert_eq!(parse_id(""), None);
    assert_eq!(parse_id("not-a-uuid"), None);
    assert_eq!(parse_id("550e8400-e29b-41d4-a716-44665544000"), None);
}

#[test]
fn a_bad_identifier_from_a_caller_is_an_invalid_argument() {
    let status = require_id("nope").unwrap_err();
    assert_eq!(status.kind, ErrorKind::InvalidArgument);
    assert_eq!(status.message, "'id' was not a valid uuid");
    assert_eq!(require_id("00000000-0000-0000-0000-00000000002a"), Ok(42));
}

#[test]
fn identifiers_are_read_back_from_their_text() {
    let samples: Vec<u128> = vec![0, 1, u128::MAX, 0x0123456789abcdef0123456789abcdef];
    for id in samples {
        assert_eq!(parse_id(&id_text(id)), Some(id));
    }
}

#[test]
fn fresh_identifiers_differ() {
    let a = fresh_id();
    let b = fresh_id();
    assert_ne!(a, b);
    assert_eq!(parse_id(&id_text(a)), Some(a));
}

#[test]
fn fresh_identifiers_are_marked_as_random() {
    for _ in 0..64 {
        let id = fresh_id();
        assert_eq!((id >> 76) & 0xf, 4);
        assert_eq!((id >> 62) & 0x3, 2);
        let text = id_text(id);
        assert_eq!(text.as_bytes()[14], b'4');
        assert!(matches!(text.as_bytes()[19], b'8' | b'9' | b'a' | b'b'));
    }
}
