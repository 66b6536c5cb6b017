use tmx::color::{hex_char_to_number, hex_pair_to_number, hex_rgb_to_rgb};
use tmx::{Color, Error};

#[test]
fn test_hex_char_to_number() {
    assert_eq!(Some(0), hex_char_to_number('0'));
    assert_eq!(Some(1), hex_char_to_number('1'));
    assert_eq!(Some(15), hex_char_to_number('f'));
    assert_eq!(None, hex_char_to_number('g'));
}

#[test]
fn test_hex_pair_to_number() {
    assert_eq!(None, hex_pair_to_number(""));
    assert_eq!(None, hex_pair_to_number("0"));
    assert_eq!(Some(0), hex_pair_to_number("00"));
    assert_eq!(Some(255), hex_pair_to_number("ff"));
    assert_eq!(None, hex_pair_to_number("xy"));
}

#[test]
fn test_hex_rgb_to_rgb() {
    assert_eq!(None, hex_rgb_to_rgb("124"));
    assert_eq!(Some((1u8, 2u8, 4u8)), hex_rgb_to_rgb("010204"));
}

#[test]
fn test_hex_string_to_color() {
    assert!(Color::from_str("").is_err());
    assert!(Color::from_str("010204").is_ok());
    assert!(Color::from_str("#010204").is_ok());
    assert!(Color::from_str("00010204").is_ok());
    assert!(Color::from_str("#00010204").is_ok());
}

#[test]
fn every_hex_digit_has_its_value() {
    let digits = "0123456789abcdef";
    for (value, c) in digits.chars().enumerate() {
        assert_eq!(Some(value as u8), hex_char_to_number(c));
        assert_eq!(Some(value as u8), hex_char_to_number(c.to_ascii_uppercase()));
    }
    for c in ['/', ':', '@', 'G', '`', 'g', ' ', '#', 'é'] {
        assert_eq!(None, hex_char_to_number(c));
    }
}

#[test]
fn pair_is_sixteen_times_high_plus_low() {
    assert_eq!(Some(16 * 10 + 11), hex_pair_to_number("aB"));
    assert_eq!(Some(0x7f), hex_pair_to_number("7F"));
    assert_eq!(Some(0x12), hex_pair_to_number("123"));
    assert_eq!(Some(0x12), hex_pair_to_number("x1y2"));
}

#[test]
fn six_digits_give_an_opaque_color() {
    assert_eq!(Color(255, 1, 2, 4), Color::from_str("010204").unwrap());
    assert_eq!(Color(255, 0xab, 0xcd, 0xef), Color::from_str("ABCDEF").unwrap());
    assert_eq!(Color(255, 0xab, 0xcd, 0xef), Color::from_str("abcdef").unwrap());
}

#[test]
fn eight_digits_give_all_four_channels() {
    assert_eq!(Color(0, 1, 2, 4), Color::from_str("00010204").unwrap());
    assert_eq!(Color(128, 160, 176, 192), Color::from_str("80a0b0c0").unwrap());
}

#[test]
fn leading_hash_changes_nothing() {
    for text in ["010204", "00010204", "ffFFff", "12345678", "", "12", "0001020", "00010g", "xyz"] {
        let with_hash = format!("#{}", text);
        assert_eq!(Color::from_str(text).ok(), Color::from_str(&with_hash).ok());
    }
}

#[test]
fn malformed_colors_are_refused_with_their_text() {
    for text in ["", "12", "#0001020", "#", "0102040", "01020g", "#01020G", "0x0102", "##010204", " 010204", "é10204"] {
        match Color::from_str(text) {
            Err(Error::InvalidColor(refused)) => assert_eq!(text, refused),
            other => panic!("{:?} for {:?}", other, text),
        }
    }
}

#[test]
fn rgb_needs_exactly_six_digits() {
    assert_eq!(None, hex_rgb_to_rgb(""));
    assert_eq!(None, hex_rgb_to_rgb("01020"));
    assert_eq!(None, hex_rgb_to_rgb("0102040"));
    assert_eq!(None, hex_rgb_to_rgb("01020x"));
    assert_eq!(Some((255, 255, 255)), hex_rgb_to_rgb("FFffFF"));
}
