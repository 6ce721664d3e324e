use rs621::client::Cursor;
use rs621::text::{parse_u64, parse_u8, u64_to_string, ParseIntError};

#[test]
fn cursor_text_of_each_variant() {
    assert_eq!(Cursor::Page(9).to_string(), "9");
    assert_eq!(Cursor::Before(42).to_string(), "b42");
    assert_eq!(Cursor::After(17).to_string(), "a17");
    assert_eq!(Cursor::Page(0).to_string(), "0");
    assert_eq!(Cursor::Before(u64::MAX).to_string(), "b18446744073709551615");
}

#[test]
fn cursor_parse_of_each_variant() {
    assert_eq!(Cursor::from_str("a17"), Ok(Cursor::After(17)));
    assert_eq!(Cursor::from_str("b42"), Ok(Cursor::Before(42)));
    assert_eq!(Cursor::from_str("9"), Ok(Cursor::Page(9)));
    assert_eq!("a17".parse::<Cursor>(), Ok(Cursor::After(17)));
    assert_eq!("9".parse::<Cursor>(), Ok(Cursor::Page(9)));
}

#[test]
fn cursor_parse_failures() {
    assert_eq!(Cursor::from_str(""), Err(ParseIntError::Empty));
    assert_eq!(Cursor::from_str("a"), Err(ParseIntError::Empty));
    assert_eq!(Cursor::from_str("b"), Err(ParseIntError::Empty));
    assert_eq!(Cursor::from_str("c5"), Err(ParseIntError::InvalidDigit));
    assert_eq!(Cursor::from_str("a-5"), Err(ParseIntError::InvalidDigit));
    assert_eq!(Cursor::from_str("b+"), Err(ParseIntError::InvalidDigit));
    assert_eq!(Cursor::from_str("12 "), Err(ParseIntError::InvalidDigit));
    assert_eq!(Cursor::from_str("18446744073709551616"), Err(ParseIntError::PosOverflow));
    assert_eq!(Cursor::from_str("a18446744073709551616"), Err(ParseIntError::PosOverflow));
}

#[test]
fn cursor_round_trip_on_samples() {
    let ids: [u64; 9] = [0, 1, 9, 10, 99, 100, 2269211, u64::MAX - 1, u64::MAX];
    for id in ids {
        for cursor in [Cursor::Page(id), Cursor::Before(id), Cursor::After(id)] {
            assert_eq!(Cursor::from_str(&cursor.to_string()), Ok(cursor));
        }
    }
}

#[test]
fn cursor_accepts_a_plus_sign_and_leading_zeros() {
    assert_eq!(Cursor::from_str("+7"), Ok(Cursor::Page(7)));
    assert_eq!(Cursor::from_str("a+7"), Ok(Cursor::After(7)));
    assert_eq!(Cursor::from_str("b007"), Ok(Cursor::Before(7)));
}

fn kind(text: &str) -> Option<ParseIntError> {
    match text.parse::<u64>() {
        Ok(_) => None,
        Err(e) => Some(match e.kind() {
            std::num::IntErrorKind::Empty => ParseIntError::Empty,
            std::num::IntErrorKind::InvalidDigit => ParseIntError::InvalidDigit,
            _ => ParseIntError::PosOverflow,
        }),
    }
}

#[test]
fn decimal_parse_agrees_with_std_on_samples() {
    let samples = [
        "", "+", "-", "0", "00", "+0", "-0", "1", "42", "+42", "++42", "4 2", " 42", "42x",
        "18446744073709551615", "18446744073709551616", "99999999999999999999999x",
        "x99999999999999999999999", "１２", "4²", "000000000000000000000000000001",
    ];
    for text in samples {
        assert_eq!(parse_u64(text).ok(), text.parse::<u64>().ok(), "{:?}", text);
        assert_eq!(parse_u64(text).err(), kind(text), "{:?}", text);
    }
}

#[test]
fn decimal_parse_of_a_byte() {
    assert_eq!(parse_u8("255"), Ok(255));
    assert_eq!(parse_u8("256"), Err(ParseIntError::PosOverflow));
    assert_eq!(parse_u8("999x"), Err(ParseIntError::PosOverflow));
    assert_eq!(parse_u8("99x"), Err(ParseIntError::InvalidDigit));
    assert_eq!(parse_u8(""), Err(ParseIntError::Empty));
    for text in ["0", "7", "+8", "255", "256", "999x", "99x", "", "-1"] {
        assert_eq!(parse_u8(text).ok(), text.parse::<u8>().ok(), "{:?}", text);
    }
}

#[test]
fn decimal_text_of_numbers() {
    assert_eq!(u64_to_string(0), "0");
    assert_eq!(u64_to_string(320), "320");
    assert_eq!(u64_to_string(u64::MAX), u64::MAX.to_string());
}
