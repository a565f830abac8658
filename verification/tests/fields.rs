use kafka_bridge::{Bool, CharArray};

fn field10(text: &str) -> (CharArray<10>, bool) {
    CharArray::<10>::encode(text)
}

#[test]
fn short_text_round_trips() {
    let (field, cut) = field10("Alice");
    assert!(!cut);
    assert_eq!(field.as_array(), [b'A', b'l', b'i', b'c', b'e', 0, 0, 0, 0, 0]);
    assert_eq!(field.len(), 5);
    assert_eq!(field.decode(), "Alice");
}

#[test]
fn empty_text_is_all_zeros() {
    let (field, cut) = field10("");
    assert!(!cut);
    assert_eq!(field.as_array(), [0u8; 10]);
    assert_eq!(field.len(), 0);
    assert_eq!(field.decode(), "");
}

#[test]
fn text_of_exactly_the_capacity_fills_the_field() {
    let (field, cut) = field10("0123456789");
    assert!(!cut);
    assert_eq!(field.as_array(), *b"0123456789");
    assert_eq!(field.len(), 10);
    assert_eq!(field.decode(), "0123456789");
}

#[test]
fn long_name_is_cut_to_ten_characters_and_flagged() {
    let (field, cut) = field10("ThisNameIsWayTooLong");
    assert!(cut);
    assert_eq!(field.as_array(), *b"ThisNameIs");
    assert_eq!(field.decode(), "ThisNameIs");
}

#[test]
fn one_character_over_the_capacity_is_flagged() {
    let (field, cut) = field10("0123456789a");
    assert!(cut);
    assert_eq!(field.decode(), "0123456789");
}

#[test]
fn embedded_zero_ends_the_decoded_text() {
    let (field, cut) = field10("ab\0cd");
    assert!(!cut);
    assert_eq!(field.as_array(), [b'a', b'b', 0, b'c', b'd', 0, 0, 0, 0, 0]);
    assert_eq!(field.len(), 2);
    assert_eq!(field.decode(), "ab");
}

#[test]
fn character_with_zero_low_byte_ends_the_decoded_text() {
    let (field, _) = field10("ab\u{100}cd");
    assert_eq!(field.as_array(), [b'a', b'b', 0, b'c', b'd', 0, 0, 0, 0, 0]);
    assert_eq!(field.decode(), "ab");
}

#[test]
fn only_the_low_byte_of_a_character_is_kept() {
    let (field, cut) = field10("\u{141}\u{20ac}");
    assert!(!cut);
    assert_eq!(field.as_array(), [0x41, 0xac, 0, 0, 0, 0, 0, 0, 0, 0]);
}

#[test]
fn characters_are_counted_not_bytes() {
    let (field, cut) = CharArray::<3>::encode("\u{e9}\u{e9}\u{e9}");
    assert!(!cut);
    assert_eq!(field.as_array(), [0xe9, 0xe9, 0xe9]);
    let (_, cut) = CharArray::<3>::encode("\u{e9}\u{e9}\u{e9}\u{e9}");
    assert!(cut);
}

#[test]
fn bytes_that_are_no_utf8_decode_to_the_replacement_character() {
    let (field, _) = field10("\u{e9}");
    assert_eq!(field.decode(), "\u{fffd}");
    let field = CharArray::<4>::from_array([b'a', 0xff, b'b', 0]);
    assert_eq!(field.decode(), "a\u{fffd}b");
}

#[test]
fn valid_utf8_bytes_decode_to_their_characters() {
    let field = CharArray::<4>::from_array([0xc3, 0xa9, b'x', 0]);
    assert_eq!(field.len(), 3);
    assert_eq!(field.decode(), "\u{e9}x");
}

#[test]
fn field_without_zero_byte_uses_all_bytes() {
    let field = CharArray::<3>::from_array(*b"abc");
    assert_eq!(field.len(), 3);
    assert_eq!(field.decode(), "abc");
}

#[test]
fn bytes_after_the_first_zero_are_kept_but_not_decoded() {
    let field = CharArray::<5>::from_array([b'a', 0, b'b', b'c', 0]);
    assert_eq!(field.as_array(), [b'a', 0, b'b', b'c', 0]);
    assert_eq!(field.decode(), "a");
}

#[test]
fn field_of_no_bytes_holds_nothing() {
    let (field, cut) = CharArray::<0>::encode("a");
    assert!(cut);
    assert_eq!(field.len(), 0);
    assert_eq!(field.decode(), "");
}

#[test]
fn flags_encode_to_one_and_zero() {
    assert_eq!(Bool::encode(true).byte(), 1);
    assert_eq!(Bool::encode(false).byte(), 0);
}

#[test]
fn flags_round_trip() {
    assert!(Bool::encode(true).decode());
    assert!(!Bool::encode(false).decode());
}

#[test]
fn every_nonzero_byte_decodes_to_true() {
    assert!(!Bool::from_byte(0).decode());
    for byte in 1..=255u8 {
        assert!(Bool::from_byte(byte).decode());
    }
}

#[test]
fn bytes_other_than_zero_and_one_come_back_as_one() {
    for byte in 0..=255u8 {
        let again = Bool::encode(Bool::from_byte(byte).decode()).byte();
        if byte <= 1 {
            assert_eq!(again, byte);
        } else {
            assert_eq!(again, 1);
        }
    }
}

#[test]
fn plain_text_that_fits_is_held_exactly() {
    for text in ["", "Alice", "a@b.com", "0123456789", "\u{1}\u{7f}"] {
        assert!(CharArray::<10>::holds_exactly(text));
        assert_eq!(CharArray::<10>::encode(text).0.decode(), text);
    }
}

#[test]
fn text_that_is_too_long_or_not_plain_is_not_held_exactly() {
    assert!(!CharArray::<10>::holds_exactly("0123456789a"));
    assert!(!CharArray::<10>::holds_exactly("ab\0cd"));
    assert!(!CharArray::<10>::holds_exactly("\u{e9}"));
    assert!(!CharArray::<10>::holds_exactly("\u{80}"));
    assert!(!CharArray::<10>::holds_exactly("\u{100}"));
}
