use fontfor::one_char::{OneChar, ParseError};

#[test]
fn scalar_value_accepts_valid_scalars() {
    assert_eq!(OneChar::from_scalar_value(65), Ok(OneChar('A')));
    assert_eq!(OneChar::from_scalar_value(0x20AC), Ok(OneChar('\u{20AC}')));
    assert_eq!(OneChar::from_scalar_value(0x10FFFF), Ok(OneChar('\u{10FFFF}')));
}

#[test]
fn scalar_value_rejects_surrogates_and_overflow() {
    assert_eq!(
        OneChar::from_scalar_value(0xD800),
        Err(ParseError::InvalidUnicodeScalarValue(0xD800))
    );
    assert_eq!(
        OneChar::from_scalar_value(0x110000),
        Err(ParseError::InvalidUnicodeScalarValue(0x110000))
    );
}

#[test]
fn radix_parsing_in_each_base() {
    assert_eq!(OneChar::from_scalar_value_str_bin("1000001"), Ok(OneChar('A')));
    assert_eq!(OneChar::from_scalar_value_str_oct("101"), Ok(OneChar('A')));
    assert_eq!(OneChar::from_scalar_value_str_dec("65"), Ok(OneChar('A')));
    assert_eq!(OneChar::from_scalar_value_str_hex("41"), Ok(OneChar('A')));
    assert_eq!(OneChar::from_scalar_value_str_hex("20AC"), Ok(OneChar('\u{20AC}')));
}

#[test]
fn radix_parsing_rejects_bad_digits() {
    assert_eq!(
        OneChar::from_scalar_value_str_bin("102"),
        Err(ParseError::InvalidDigitInRadix(2))
    );
    assert_eq!(
        OneChar::from_scalar_value_str_dec(""),
        Err(ParseError::InvalidDigitInRadix(10))
    );
    assert_eq!(
        OneChar::from_scalar_value_str_hex("xyz"),
        Err(ParseError::InvalidDigitInRadix(16))
    );
    // Too large for a u32 at all.
    assert_eq!(
        OneChar::from_scalar_value_str_dec("4294967296"),
        Err(ParseError::InvalidDigitInRadix(10))
    );
}

#[test]
fn radix_parsing_accepts_a_leading_plus() {
    assert_eq!(OneChar::from_scalar_value_str_dec("+65"), Ok(OneChar('A')));
    assert_eq!(
        OneChar::from_scalar_value_str_dec("+"),
        Err(ParseError::InvalidDigitInRadix(10))
    );
}

#[test]
fn utf8_bytes_parsing() {
    assert_eq!(OneChar::from_utf8_bytes("41"), Ok(OneChar('A')));
    assert_eq!(OneChar::from_utf8_bytes("E282AC"), Ok(OneChar('\u{20AC}')));
    assert_eq!(OneChar::from_utf8_bytes(""), Err(ParseError::UTF8BytesEmpty));
    assert_eq!(
        OneChar::from_utf8_bytes("4"),
        Err(ParseError::UTF8BytesStrCantAlignToBytes)
    );
    assert_eq!(OneChar::from_utf8_bytes("zz"), Err(ParseError::InvalidDigitInRadix(16)));
    assert_eq!(OneChar::from_utf8_bytes("FF"), Err(ParseError::UTF8BytesInvalid));
    assert_eq!(
        OneChar::from_utf8_bytes("4142"),
        Err(ParseError::UTF8BytesParseResultMoreThenOneChar)
    );
}

#[test]
fn from_str_dispatches_on_prefix() {
    assert_eq!(OneChar::from_str(""), Err(ParseError::EmptyInput));
    assert_eq!(OneChar::from_str("A"), Ok(OneChar('A')));
    assert_eq!(OneChar::from_str("0b1000001"), Ok(OneChar('A')));
    assert_eq!(OneChar::from_str("0o101"), Ok(OneChar('A')));
    assert_eq!(OneChar::from_str("u+41"), Ok(OneChar('A')));
    assert_eq!(OneChar::from_str("U+41"), Ok(OneChar('A')));
    assert_eq!(OneChar::from_str("0x41"), Ok(OneChar('A')));
    assert_eq!(OneChar::from_str("65"), Ok(OneChar('A')));
    // Two characters with no known prefix fall back to decimal.
    assert_eq!(OneChar::from_str("zz"), Err(ParseError::InvalidDigitInRadix(10)));
}

#[test]
fn description_of_an_ascii_char() {
    assert_eq!(OneChar('A').description(), "\"A\"(U+0041, 65, 0x41)");
}

#[test]
fn description_of_a_multibyte_char() {
    assert_eq!(
        OneChar('\u{20AC}').description(),
        "\"\u{20AC}\"(U+20AC, 8364, 0xE2 0x82 0xAC)"
    );
}

#[test]
fn description_widens_above_ffff() {
    assert_eq!(
        OneChar('\u{1F311}').description(),
        "\"\u{1F311}\"(U+01F311, 127761, 0xF0 0x9F 0x8C 0x91)"
    );
}
