use tmx::number::{parse_i32, parse_u32};
use tmx::{read_num, Decimal, Error};

#[test]
fn unsigned_integers_are_read_as_written() {
    assert_eq!(Some(0), parse_u32("0"));
    assert_eq!(Some(7), parse_u32("+7"));
    assert_eq!(Some(200), parse_u32("200"));
    assert_eq!(Some(12), parse_u32("0012"));
    assert_eq!(Some(4294967295), parse_u32("4294967295"));
    assert_eq!(Some(4294967295), parse_u32("+0004294967295"));
}

#[test]
fn unsigned_integers_refuse_everything_else() {
    for text in ["", "+", "-", "-0", "-1", "4294967296", "99999999999999999999999", "1.0", "1e3", " 1", "1 ", "0x10", "१"] {
        assert_eq!(None, parse_u32(text), "{:?}", text);
    }
}

#[test]
fn signed_integers_are_read_as_written() {
    assert_eq!(Some(0), parse_i32("0"));
    assert_eq!(Some(0), parse_i32("-0"));
    assert_eq!(Some(5), parse_i32("+5"));
    assert_eq!(Some(-5), parse_i32("-5"));
    assert_eq!(Some(2147483647), parse_i32("2147483647"));
    assert_eq!(Some(-2147483648), parse_i32("-2147483648"));
    assert_eq!(Some(-12), parse_i32("-0012"));
}

#[test]
fn signed_integers_refuse_everything_else() {
    for text in ["", "+", "-", "--1", "+-1", "2147483648", "-2147483649", "1.5", " 1", "1 ", "a"] {
        assert_eq!(None, parse_i32(text), "{:?}", text);
    }
}

#[test]
fn integers_agree_with_the_standard_library() {
    let texts = [
        "0", "1", "-1", "+1", "", "+", "-", "00", "-00", "4294967295", "4294967296", "2147483647",
        "2147483648", "-2147483648", "-2147483649", "12a", "a12", "1_000", " 7", "7 ", "+-7", "3.0",
    ];
    for text in texts {
        assert_eq!(text.parse::<u32>().ok(), parse_u32(text), "{:?}", text);
        assert_eq!(text.parse::<i32>().ok(), parse_i32(text), "{:?}", text);
    }
}

#[test]
fn read_num_gives_the_number_or_the_text() {
    assert_eq!(200u32, read_num::<u32>("200").unwrap());
    assert_eq!(-3i32, read_num::<i32>("-3").unwrap());
    assert_eq!("2.5e3", read_num::<Decimal>("2.5e3").unwrap().as_str());
    match read_num::<u32>("-3") {
        Err(Error::InvalidNumber(text)) => assert_eq!("-3", text),
        other => panic!("{:?}", other),
    }
    match read_num::<i32>("three") {
        Err(Error::InvalidNumber(text)) => assert_eq!("three", text),
        other => panic!("{:?}", other),
    }
    match read_num::<Decimal>("1,5") {
        Err(Error::InvalidNumber(text)) => assert_eq!("1,5", text),
        other => panic!("{:?}", other),
    }
}

const DECIMALS: [&str; 30] = [
    "0", "1", "1.0", "-1.0", "+1.5", "3.14", "-3.14", "2.5E10", "2.5e10", "2.5E-10", "5.", ".5",
    "0.5", "inf", "-inf", "+infinity", "NaN", "nan", "-NAN", "InFiNiTy", "1e5", "1E+5", "1e-5",
    "00.00", "1e0007", "123456789012345678901234567890", "0.000000000000000000000000000001",
    "1e400", "1e-400", "-0",
];

const NOT_DECIMALS: [&str; 26] = [
    "", "+", "-", ".", "e5", "1e", "1e+", "1e-", "+.", "-.e1", "1.2.3", "1,5", " 1", "1 ", "1 e5",
    "0x10", "in", "infinit", "infinityy", "na", "nann", "1f", "--1", "+-1", "1e5.0", "１",
];

#[test]
fn decimals_are_the_texts_that_floats_are_read_from() {
    for text in DECIMALS {
        assert!(text.parse::<f64>().is_ok(), "{:?}", text);
        assert!(text.parse::<f32>().is_ok(), "{:?}", text);
        assert_eq!(text, Decimal::parse(text).unwrap().as_str());
    }
    for text in NOT_DECIMALS {
        assert!(text.parse::<f64>().is_err(), "{:?}", text);
        assert!(Decimal::parse(text).is_none(), "{:?}", text);
    }
}

#[test]
fn one_and_zero_are_written_plainly() {
    assert_eq!(1.0, Decimal::one().as_str().parse::<f64>().unwrap());
    assert_eq!(0.0, Decimal::zero().as_str().parse::<f64>().unwrap());
}

fn in_unit_interval(text: &str) -> bool {
    Decimal::parse(text).unwrap().is_in_unit_interval()
}

#[test]
fn numbers_from_zero_to_one_lie_in_the_unit_interval() {
    for text in [
        "0", "0.0", "-0", "-0.0", "+0", "0e5", "-0e-5", "1", "1.0", "+1", "1.000", "0.5", ".5",
        "0.25", "0.999999999999999999999999", "10e-1", "100E-2", "0.1e1", "0.001e3", "5e-1",
        "1e-400", "1e-99999999999999999999999999", "0001", "0.0e99999999999999999999999",
        "00000000000000000000000000000001", "1e0", "1e-0", "1e+0",
    ] {
        assert!(in_unit_interval(text), "{:?}", text);
    }
}

#[test]
fn numbers_outside_lie_outside_the_unit_interval() {
    for text in [
        "1.5", "2", "-1", "-0.5", "-1e-400", "1.000000000000000000000000001", "1e1", "0.11e1",
        "10", "1e99999999999999999999999", "0.00001e99999999999999999999", "inf", "-inf",
        "infinity", "nan", "NaN", "11e-1", "1.01", "101e-2", "-0.000001",
    ] {
        assert!(!in_unit_interval(text), "{:?}", text);
    }
}

#[test]
fn unit_interval_agrees_with_floats_away_from_the_rounding_edge() {
    for text in ["0", "0.5", "1", "1.5", "-0.5", "2e-1", "20e-1", "0.1e1", "0.11e1", "-0", "1e-10", "1e10", "0.99", "1.01"] {
        let value: f64 = text.parse().unwrap();
        assert_eq!((0.0..=1.0).contains(&value), in_unit_interval(text), "{:?}", text);
    }
}

fn texts_over(alphabet: &[char], longest: usize) -> Vec<String> {
    let mut all = vec![String::new()];
    let mut last = vec![String::new()];
    for _ in 0..longest {
        let mut next = Vec::new();
        for text in &last {
            for c in alphabet {
                let mut longer = text.clone();
                longer.push(*c);
                next.push(longer);
            }
        }
        all.extend(next.iter().cloned());
        last = next;
    }
    all
}

#[test]
fn every_short_text_is_a_decimal_exactly_when_a_float_is_read_from_it() {
    let alphabet = ['+', '-', '.', 'e', 'E', '0', '7', 'i', 'n', 'f', 'a', ' '];
    for text in texts_over(&alphabet, 4) {
        assert_eq!(text.parse::<f64>().is_ok(), Decimal::parse(&text).is_some(), "{:?}", text);
    }
    let letters = ['i', 'n', 'f', 't', 'y', 'I', 'N', 'a'];
    for text in texts_over(&letters, 3) {
        for tail in ["", "inity", "INITY", "init", "inityy"] {
            let word = format!("{}{}", text, tail);
            assert_eq!(word.parse::<f32>().is_ok(), Decimal::parse(&word).is_some(), "{:?}", word);
        }
    }
}

#[test]
fn every_short_text_is_an_integer_exactly_when_one_is_read_from_it() {
    let alphabet = ['+', '-', '0', '1', '9', ' ', 'a', '.'];
    for text in texts_over(&alphabet, 5) {
        assert_eq!(text.parse::<u32>().ok(), parse_u32(&text), "{:?}", text);
        assert_eq!(text.parse::<i32>().ok(), parse_i32(&text), "{:?}", text);
    }
    for digits in texts_over(&['0', '2', '4', '9'], 6) {
        for head in ["4294", "2147", "-2147", "+429496", "-214748", "0"] {
            let text = format!("{}{}", head, digits);
            assert_eq!(text.parse::<u32>().ok(), parse_u32(&text), "{:?}", text);
            assert_eq!(text.parse::<i32>().ok(), parse_i32(&text), "{:?}", text);
        }
    }
}

#[test]
fn unit_interval_is_decided_as_in_exact_arithmetic() {
    let wholes = ["", "0", "1", "2", "10", "01", "009", "100", "0000"];
    let fractions = [None, Some(""), Some("0"), Some("1"), Some("05"), Some("10"), Some("001"), Some("999"), Some("000")];
    let exponents = [None, Some(0i32), Some(1), Some(-1), Some(2), Some(-2), Some(3), Some(-3), Some(-6), Some(6)];
    let mut seen = 0;
    for sign in ["", "+", "-"] {
        for whole in wholes {
            for fraction in fractions {
                for exponent in exponents {
                    let digits = format!("{}{}", whole, fraction.unwrap_or(""));
                    if digits.is_empty() {
                        continue;
                    }
                    let mut text = format!("{}{}", sign, whole);
                    if let Some(f) = fraction {
                        text.push('.');
                        text.push_str(f);
                    }
                    if let Some(e) = exponent {
                        text.push_str(&format!("e{}", e));
                    }
                    let mantissa: u128 = digits.parse().unwrap();
                    let scale = exponent.unwrap_or(0) - fraction.unwrap_or("").len() as i32;
                    let at_most_one = if scale >= 0 {
                        mantissa * 10u128.pow(scale as u32) <= 1
                    } else {
                        mantissa <= 10u128.pow((-scale) as u32)
                    };
                    let want = mantissa == 0 || (sign != "-" && at_most_one);
                    assert_eq!(want, in_unit_interval(&text), "{:?}", text);
                    seen += 1;
                }
            }
        }
    }
    assert!(seen > 2000);
}
