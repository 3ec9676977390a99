use proxmoxy::json::{
    find_member, read_number, read_optional_any_number, read_optional_number, read_optional_text,
    read_text, JsonNumber, JsonValue,
};
use proxmoxy::text::{chars_of, decimal_string, digit, same_chars, same_text};

#[test]
fn numbers_are_written_in_decimal() {
    assert_eq!(decimal_string(0), "0");
    assert_eq!(decimal_string(7), "7");
    assert_eq!(decimal_string(10), "10");
    assert_eq!(decimal_string(99), "99");
    assert_eq!(decimal_string(100), "100");
    assert_eq!(decimal_string(1_203_405_067), "1203405067");
    assert_eq!(decimal_string(4_294_967_295), "4294967295");
    for n in (0..200_000u32).step_by(7) {
        assert_eq!(decimal_string(n), n.to_string());
    }
}

#[test]
fn texts_are_taken_apart_into_characters() {
    assert_eq!(chars_of(""), Vec::<char>::new());
    assert_eq!(chars_of("a:b"), vec!['a', ':', 'b']);
    assert_eq!(chars_of("\u{e9}\u{1f600}z"), vec!['\u{e9}', '\u{1f600}', 'z']);
}

#[test]
fn texts_are_compared_character_by_character() {
    assert!(same_text("", ""));
    assert!(same_text("digest", "digest"));
    assert!(!same_text("digest", "digests"));
    assert!(!same_text("digest", "Digest"));
    assert!(!same_text("e\u{301}", "\u{e9}"));
    assert!(same_chars(&['a', 'b'], &['a', 'b']));
    assert!(!same_chars(&['a', 'b'], &['a']));
    assert!(!same_chars(&['a', 'b'], &['a', 'c']));
}

#[test]
fn the_digits_are_zero_to_nine() {
    for c in '0'..='9' {
        assert!(digit(c));
    }
    for c in ['/', ':', 'a', ' ', '\u{661}', '\u{ff11}'] {
        assert!(!digit(c));
    }
}

#[test]
fn members_are_found_by_name() {
    let members = vec![
        ("a".to_owned(), JsonValue::Bool(true)),
        ("b".to_owned(), JsonValue::Null),
        ("a".to_owned(), JsonValue::Bool(false)),
    ];
    assert_eq!(find_member(&members, "a"), Some(&JsonValue::Bool(true)));
    assert_eq!(find_member(&members, "b"), Some(&JsonValue::Null));
    assert_eq!(find_member(&members, "c"), None);
    assert_eq!(find_member(&Vec::new(), "a"), None);
}

#[test]
fn fields_are_read_by_their_kind() {
    let text = JsonValue::String("x".to_owned());
    let null = JsonValue::Null;
    let small = JsonValue::Number(JsonNumber::PosInt(7));
    let large = JsonValue::Number(JsonNumber::PosInt(u64::MAX));
    let negative = JsonValue::Number(JsonNumber::NegInt(-1));
    let float = JsonValue::Number(JsonNumber::Float(0.5f64.to_bits()));

    assert_eq!(read_text(Some(&text)), Some("x".to_owned()));
    assert_eq!(read_text(Some(&null)), None);
    assert_eq!(read_text(Some(&small)), None);
    assert_eq!(read_text(None), None);

    assert_eq!(read_optional_text(Some(&text)), Some(Some("x".to_owned())));
    assert_eq!(read_optional_text(Some(&null)), Some(None));
    assert_eq!(read_optional_text(None), Some(None));
    assert_eq!(read_optional_text(Some(&small)), None);

    assert_eq!(read_number(Some(&small), 7), Some(7));
    assert_eq!(read_number(Some(&small), 6), None);
    assert_eq!(read_number(Some(&large), u64::MAX), Some(u64::MAX));
    assert_eq!(read_number(Some(&negative), u64::MAX), None);
    assert_eq!(read_number(Some(&float), u64::MAX), None);
    assert_eq!(read_number(Some(&null), u64::MAX), None);
    assert_eq!(read_number(None, u64::MAX), None);

    assert_eq!(read_optional_number(Some(&small), 7), Some(Some(7)));
    assert_eq!(read_optional_number(Some(&small), 6), None);
    assert_eq!(read_optional_number(Some(&null), 6), Some(None));
    assert_eq!(read_optional_number(None, 6), Some(None));
    assert_eq!(read_optional_number(Some(&text), 6), None);

    assert_eq!(
        read_optional_any_number(Some(&float)),
        Some(Some(JsonNumber::Float(0.5f64.to_bits())))
    );
    assert_eq!(read_optional_any_number(Some(&negative)), Some(Some(JsonNumber::NegInt(-1))));
    assert_eq!(read_optional_any_number(Some(&null)), Some(None));
    assert_eq!(read_optional_any_number(None), Some(None));
    assert_eq!(read_optional_any_number(Some(&text)), None);
}
