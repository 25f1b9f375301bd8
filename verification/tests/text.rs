use mistralrs_sequence::text::decimal_string;
use mistralrs_sequence::text::decode_delta;
use mistralrs_sequence::text::delta_from_decoded;
use mistralrs_sequence::text::trim_start;

#[test]
fn leading_white_space_is_trimmed() {
    assert_eq!(trim_start("  \n\t x y "), "x y ");
    assert_eq!(trim_start("x "), "x ");
    assert_eq!(trim_start("   "), "");
    assert_eq!(trim_start(""), "");
    assert_eq!(trim_start("\u{2003}\u{a0}wide"), "wide");
}

#[test]
fn the_first_delta_loses_its_leading_white_space() {
    assert_eq!(delta_from_decoded(" Hello", true), Some("Hello".to_string()));
    assert_eq!(delta_from_decoded(" Hello", false), Some(" Hello".to_string()));
    assert_eq!(delta_from_decoded("  ", true), Some(String::new()));
}

#[test]
fn text_that_ends_in_a_replacement_character_is_held_back() {
    assert_eq!(delta_from_decoded("abc\u{fffd}", true), None);
    assert_eq!(delta_from_decoded("abc\u{fffd}", false), None);
    assert_eq!(delta_from_decoded("\u{fffd}", false), None);
    assert_eq!(delta_from_decoded("\u{fffd}abc", false), Some("\u{fffd}abc".to_string()));
    assert_eq!(delta_from_decoded("", false), Some(String::new()));
}

#[test]
fn bytes_are_decoded_from_the_cursor_on() {
    assert_eq!(decode_delta(b" Hello", 0), Some("Hello".to_string()));
    assert_eq!(decode_delta(b" Hello world", 6), Some(" world".to_string()));
    assert_eq!(decode_delta("caf\u{e9} au lait".as_bytes(), 3), Some("\u{e9} au lait".to_string()));
}

#[test]
fn nothing_behind_the_cursor_gives_nothing() {
    assert_eq!(decode_delta(b"", 0), None);
    assert_eq!(decode_delta(b"abc", 3), None);
    assert_eq!(decode_delta(b"abc", 9), None);
}

#[test]
fn a_character_cut_short_is_held_back_until_it_is_whole() {
    let euro = "\u{20ac}".as_bytes();
    assert_eq!(euro.len(), 3);
    let mut bytes = b"5 ".to_vec();
    bytes.push(euro[0]);
    assert_eq!(decode_delta(&bytes, 0), None);
    bytes.push(euro[1]);
    assert_eq!(decode_delta(&bytes, 0), None);
    bytes.push(euro[2]);
    assert_eq!(decode_delta(&bytes, 0), Some("5 \u{20ac}".to_string()));
    assert_eq!(decode_delta(&bytes, 2), Some("\u{20ac}".to_string()));
}

#[test]
fn bytes_that_are_no_text_in_the_middle_are_replaced() {
    let bytes = [b'a', 0xff, b'b'];
    assert_eq!(decode_delta(&bytes, 0), Some("a\u{fffd}b".to_string()));
    let bytes = [b'a', b'b', 0xff];
    assert_eq!(decode_delta(&bytes, 0), None);
}

#[test]
fn a_number_is_written_in_decimal_digits() {
    assert_eq!(decimal_string(0), "0");
    assert_eq!(decimal_string(7), "7");
    assert_eq!(decimal_string(10), "10");
    assert_eq!(decimal_string(1234567890), "1234567890");
    assert_eq!(decimal_string(1000), "1000");
    assert_eq!(decimal_string(usize::MAX), format!("{}", usize::MAX));
}
