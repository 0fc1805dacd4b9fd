//! The query character and the ways it can be written on the command line:
//! the character itself, a scalar value in binary, octal, decimal or
//! hexadecimal, or the hex bytes of its UTF-8 encoding.

use vstd::prelude::*;
use crate::text::{base_digits, base_digits_padded, push_base_digits, push_char};
use vstd::string::StrSliceExecFns;
use vstd::utf8::{decode_utf8, encode_scalar, is_scalar, valid_utf8};

verus! {

/// The single character the session previews.
#[derive(Debug, Copy, Clone, Eq, PartialEq, Ord, PartialOrd, Hash, Structural)]
pub struct OneChar(pub char);

/// Why an input string does not name one character.
#[derive(Debug, Copy, Clone, Eq, PartialEq, Ord, PartialOrd, Hash, Structural)]
pub enum ParseError {
    /// The input is empty.
    EmptyInput,
    /// The number is not a Unicode scalar value.
    InvalidUnicodeScalarValue(u32),
    /// A character is no digit in the given base.
    InvalidDigitInRadix(u32),
    /// Nothing follows the byte-string prefix.
    UTF8BytesEmpty,
    /// The hex digits do not pair up into whole bytes.
    UTF8BytesStrCantAlignToBytes,
    /// The bytes are not valid UTF-8.
    UTF8BytesInvalid,
    /// The bytes decode to more than one character.
    UTF8BytesParseResultMoreThenOneChar,
}

/// Relies on `char::from_u32`: `Some` exactly for Unicode scalar values,
/// and the character's scalar value is the argument.
#[verifier::external_body]
fn char_from_u32(v: u32) -> (r: Option<char>)
    ensures
        r is Some <==> is_scalar(v),
        (r matches Some(c) ==> c as u32 == v),
{
    char::from_u32(v)
}

/// Relies on `String::from_utf8` and `str::chars`: succeeds exactly on
/// valid UTF-8 and yields the decoded characters.
#[verifier::external_body]
fn utf8_to_chars(bytes: Vec<u8>) -> (r: Option<Vec<char>>)
    ensures
        r is Some <==> valid_utf8(bytes@),
        (r matches Some(cs) ==> cs@ == decode_utf8(bytes@)),
{
    match String::from_utf8(bytes) {
        Ok(t) => Some(t.chars().collect()),
        Err(_) => None,
    }
}

/// The value of `c` as a digit, or 99 when it is none: `0`–`9`, then
/// lower- and upper-case letters from ten up.
pub open spec fn digit_of(c: char) -> int {
    let u = c as u32;
    if 48 <= u <= 57 {
        u - 48
    } else if 97 <= u <= 122 {
        u - 87
    } else if 65 <= u <= 90 {
        u - 55
    } else {
        99
    }
}

/// The number the digit string denotes in the given base.
pub open spec fn radix_value(s: Seq<char>, radix: u32) -> int
    decreases s.len(),
{
    if s.len() == 0 {
        0
    } else {
        radix_value(s.drop_last(), radix) * radix + digit_of(s.last())
    }
}

/// Every character is a digit in the given base.
pub open spec fn all_digits(s: Seq<char>, radix: u32) -> bool {
    forall|i: int| 0 <= i < s.len() ==> digit_of(#[trigger] s[i]) < radix
}

/// The digit part: one optional leading `+` is accepted and skipped.
pub open spec fn strip_plus(s: Seq<char>) -> Seq<char> {
    if s.len() > 0 && s[0] == '+' {
        s.drop_first()
    } else {
        s
    }
}

/// The string denotes a number that fits in a `u32`: at least one digit
/// after the optional sign, all of them in the base, and no overflow.
pub open spec fn parses_as_u32(s: Seq<char>, radix: u32) -> bool {
    &&& strip_plus(s).len() > 0
    &&& all_digits(strip_plus(s), radix)
    &&& radix_value(strip_plus(s), radix) <= u32::MAX
}

fn digit_of_exec(c: char, radix: u32) -> (d: Option<u32>)
    requires
        2 <= radix <= 36,
    ensures
        d is Some <==> digit_of(c) < radix,
        (d matches Some(v) ==> v == digit_of(c) && v < radix),
{
    let u: u32 = c as u32;
    let v: u32 = if 48 <= u && u <= 57 {
        u - 48
    } else if 97 <= u && u <= 122 {
        u - 87
    } else if 65 <= u && u <= 90 {
        u - 55
    } else {
        99
    };
    if v < radix {
        Some(v)
    } else {
        None
    }
}

impl OneChar {
    /// The character for a Unicode scalar value; other numbers are
    /// rejected.
    pub fn from_scalar_value(scalar_value: u32) -> (r: Result<OneChar, ParseError>)
        ensures
            r is Ok <==> is_scalar(scalar_value),
            (r matches Ok(c) ==> c.0 as u32 == scalar_value),
            (r matches Err(e) ==> e == ParseError::InvalidUnicodeScalarValue(scalar_value)),
    {
        match char_from_u32(scalar_value) {
            Some(c) => Ok(OneChar(c)),
            None => Err(ParseError::InvalidUnicodeScalarValue(scalar_value)),
        }
    }

    /// Parse the string as a scalar value in the given base, then convert.
    /// A string that is not a `u32` in that base is reported as an invalid
    /// digit, whatever went wrong.
    pub fn from_scalar_value_str_radix(s: &str, radix: u32) -> (r: Result<OneChar, ParseError>)
        requires
            2 <= radix <= 36,
        ensures
            !parses_as_u32(s@, radix) ==> r == Err::<OneChar, ParseError>(
                ParseError::InvalidDigitInRadix(radix),
            ),
            parses_as_u32(s@, radix) ==> r == OneChar::spec_from_scalar(
                radix_value(strip_plus(s@), radix) as u32,
            ),
    {
        let n: usize = s.unicode_len();
        let start: usize = if n > 0 && s.get_char(0) == '+' {
            1
        } else {
            0
        };
        let ghost digits = strip_plus(s@);
        proof {
            assert(digits =~= s@.subrange(start as int, n as int));
        }
        if n == start {
            return Err(ParseError::InvalidDigitInRadix(radix));
        }
        let mut acc: u32 = 0;
        let mut overflowed = false;
        let mut i: usize = start;
        while i < n
            invariant
                2 <= radix <= 36,
                n == s@.len(),
                start <= i <= n,
                start <= 1,
                digits == strip_plus(s@),
                digits == s@.subrange(start as int, n as int),
                all_digits(s@.subrange(start as int, i as int), radix),
                !overflowed ==> acc == radix_value(s@.subrange(start as int, i as int), radix),
                overflowed ==> radix_value(s@.subrange(start as int, i as int), radix)
                    > u32::MAX,
            decreases n - i,
        {
            let c: char = s.get_char(i);
            let ghost pre = s@.subrange(start as int, i as int);
            let ghost post = s@.subrange(start as int, i + 1);
            proof {
                assert(post.drop_last() =~= pre);
                assert(post.last() == s@[i as int]);
            }
            match digit_of_exec(c, radix) {
                None => {
                    proof {
                        assert(digits[i - start] == s@[i as int]);
                        assert(!all_digits(digits, radix)) by {
                            assert(digit_of(digits[i - start]) >= radix);
                        }
                    }
                    return Err(ParseError::InvalidDigitInRadix(radix));
                },
                Some(d) => {
                    if overflowed {
                        proof {
                            let v = radix_value(pre, radix);
                            assert(v * radix >= v * 2) by (nonlinear_arith)
                                requires
                                    v >= 0,
                                    radix >= 2,
                            ;
                        }
                    } else {
                        // acc * radix + d fits exactly when the value does.
                        if acc > (u32::MAX - d) / radix {
                            overflowed = true;
                            proof {
                                let v = radix_value(pre, radix) as u32;
                                vstd::arithmetic::div_mod::lemma_fundamental_div_mod(
                                    (u32::MAX - d) as int,
                                    radix as int,
                                );
                                assert(v * radix + d > u32::MAX) by (nonlinear_arith)
                                    requires
                                        v > ((u32::MAX - d) as int) / (radix as int),
                                        radix >= 2,
                                        0 <= d < radix,
                                        (u32::MAX - d) as int == (((u32::MAX - d) as int) / (
                                        radix as int)) * radix + ((u32::MAX - d) as int) % (
                                        radix as int),
                                        0 <= ((u32::MAX - d) as int) % (radix as int) < radix,
                                ;
                            }
                        } else {
                            proof {
                                let q = ((u32::MAX - d) as int) / (radix as int);
                                vstd::arithmetic::div_mod::lemma_fundamental_div_mod(
                                    (u32::MAX - d) as int,
                                    radix as int,
                                );
                                assert(acc * radix + d <= u32::MAX) by (nonlinear_arith)
                                    requires
                                        acc <= q,
                                        radix >= 2,
                                        0 <= d < radix,
                                        (u32::MAX - d) as int == q * radix + ((u32::MAX
                                            - d) as int) % (radix as int),
                                        0 <= ((u32::MAX - d) as int) % (radix as int) < radix,
                                ;
                            }
                            acc = acc * radix + d;
                        }
                    }
                },
            }
            i = i + 1;
        }
        proof {
            assert(s@.subrange(start as int, n as int) == digits);
        }
        if overflowed {
            return Err(ParseError::InvalidDigitInRadix(radix));
        }
        Self::from_scalar_value(acc)
    }

    /// What `from_scalar_value` returns, as a value.
    pub open spec fn spec_from_scalar(v: u32) -> Result<OneChar, ParseError> {
        if is_scalar(v) {
            Ok(OneChar((v as char)))
        } else {
            Err(ParseError::InvalidUnicodeScalarValue(v))
        }
    }

    /// Parse a binary scalar value.
    pub fn from_scalar_value_str_bin(s: &str) -> (r: Result<OneChar, ParseError>)
        ensures
            !parses_as_u32(s@, 2) ==> r == Err::<OneChar, ParseError>(
                ParseError::InvalidDigitInRadix(2),
            ),
            parses_as_u32(s@, 2) ==> r == OneChar::spec_from_scalar(
                radix_value(strip_plus(s@), 2) as u32,
            ),
    {
        Self::from_scalar_value_str_radix(s, 2)
    }

    /// Parse an octal scalar value.
    pub fn from_scalar_value_str_oct(s: &str) -> (r: Result<OneChar, ParseError>)
        ensures
            !parses_as_u32(s@, 8) ==> r == Err::<OneChar, ParseError>(
                ParseError::InvalidDigitInRadix(8),
            ),
            parses_as_u32(s@, 8) ==> r == OneChar::spec_from_scalar(
                radix_value(strip_plus(s@), 8) as u32,
            ),
    {
        Self::from_scalar_value_str_radix(s, 8)
    }

    /// Parse a decimal scalar value.
    pub fn from_scalar_value_str_dec(s: &str) -> (r: Result<OneChar, ParseError>)
        ensures
            !parses_as_u32(s@, 10) ==> r == Err::<OneChar, ParseError>(
                ParseError::InvalidDigitInRadix(10),
            ),
            parses_as_u32(s@, 10) ==> r == OneChar::spec_from_scalar(
                radix_value(strip_plus(s@), 10) as u32,
            ),
    {
        Self::from_scalar_value_str_radix(s, 10)
    }

    /// Parse a hexadecimal scalar value.
    pub fn from_scalar_value_str_hex(s: &str) -> (r: Result<OneChar, ParseError>)
        ensures
            !parses_as_u32(s@, 16) ==> r == Err::<OneChar, ParseError>(
                ParseError::InvalidDigitInRadix(16),
            ),
            parses_as_u32(s@, 16) ==> r == OneChar::spec_from_scalar(
                radix_value(strip_plus(s@), 16) as u32,
            ),
    {
        Self::from_scalar_value_str_radix(s, 16)
    }
}

/// Scanning the hex digits into bytes, two digits a byte, left to right:
/// the first trouble spot decides the error.
pub open spec fn hex_scan(s: Seq<char>) -> Result<Seq<u8>, ParseError>
    decreases s.len(),
{
    if s.len() == 0 {
        Ok(Seq::empty())
    } else if s.len() == 1 {
        Err(ParseError::UTF8BytesStrCantAlignToBytes)
    } else if digit_of(s[0]) >= 16 || digit_of(s[1]) >= 16 {
        Err(ParseError::InvalidDigitInRadix(16))
    } else {
        match hex_scan(s.skip(2)) {
            Ok(rest) => Ok(
                seq![((digit_of(s[0]) * 16 + digit_of(s[1])) as u8)] + rest,
            ),
            Err(e) => Err(e),
        }
    }
}

impl OneChar {
    /// Read the string as hex-encoded UTF-8 bytes that must decode to
    /// exactly one character.
    pub fn from_utf8_bytes(s: &str) -> (r: Result<OneChar, ParseError>)
        ensures
            (hex_scan(s@) matches Err(e) ==> r == Err::<OneChar, ParseError>(e)),
            (hex_scan(s@) matches Ok(bytes) ==> {
                if !valid_utf8(bytes) {
                    r == Err::<OneChar, ParseError>(ParseError::UTF8BytesInvalid)
                } else if decode_utf8(bytes).len() == 0 {
                    r == Err::<OneChar, ParseError>(ParseError::UTF8BytesEmpty)
                } else if decode_utf8(bytes).len() == 1 {
                    r == Ok::<OneChar, ParseError>(OneChar(decode_utf8(bytes)[0]))
                } else {
                    r == Err::<OneChar, ParseError>(
                        ParseError::UTF8BytesParseResultMoreThenOneChar,
                    )
                }
            }),
    {
        let n: usize = s.unicode_len();
        let mut bytes: Vec<u8> = Vec::new();
        let mut i: usize = 0;
        proof {
            assert(s@.skip(0) =~= s@);
        }
        while i + 1 < n
            invariant
                n == s@.len(),
                i <= n,
                i % 2 == 0,
                (hex_scan(s@) matches Ok(all) ==> all =~= bytes@ + hex_scan_ok(s@.skip(i as int))),
                hex_scan(s@) is Ok <==> hex_scan(s@.skip(i as int)) is Ok,
                (hex_scan(s@) matches Err(e) ==> hex_scan(s@.skip(i as int)) == Err::<
                    Seq<u8>,
                    ParseError,
                >(e)),
            decreases n - i,
        {
            let c1: char = s.get_char(i);
            let c2: char = s.get_char(i + 1);
            let ghost tail = s@.skip(i as int);
            proof {
                assert(tail.len() >= 2);
                assert(tail[0] == s@[i as int]);
                assert(tail[1] == s@[i + 1]);
                assert(tail.skip(2) =~= s@.skip(i + 2));
            }
            let d1 = digit_of_exec(c1, 16);
            let d2 = digit_of_exec(c2, 16);
            match (d1, d2) {
                (Some(v1), Some(v2)) => {
                    let ghost prev = bytes@;
                    let b: u8 = (v1 * 16 + v2) as u8;
                    bytes.push(b);
                    proof {
                        assert(hex_scan(tail) == match hex_scan(tail.skip(2)) {
                            Ok(rest) => Ok::<Seq<u8>, ParseError>(
                                seq![((digit_of(tail[0]) * 16 + digit_of(tail[1])) as u8)] + rest,
                            ),
                            Err(e) => Err::<Seq<u8>, ParseError>(e),
                        });
                        if hex_scan(s@) is Ok {
                            assert(hex_scan_ok(tail) =~= seq![b] + hex_scan_ok(s@.skip(i + 2)));
                            assert(bytes@ + hex_scan_ok(s@.skip(i + 2)) =~= prev + hex_scan_ok(
                                tail,
                            ));
                        }
                    }
                },
                _ => {
                    return Err(ParseError::InvalidDigitInRadix(16));
                },
            }
            i = i + 2;
        }
        if i < n {
            proof {
                assert(s@.skip(i as int).len() == 1);
            }
            return Err(ParseError::UTF8BytesStrCantAlignToBytes);
        }
        proof {
            assert(s@.skip(i as int).len() == 0);
            assert(hex_scan(s@.skip(i as int)) == Ok::<Seq<u8>, ParseError>(Seq::<u8>::empty()));
            assert(hex_scan(s@) matches Ok(all) ==> all =~= bytes@);
        }
        match utf8_to_chars(bytes) {
            None => Err(ParseError::UTF8BytesInvalid),
            Some(cs) => {
                if cs.len() == 0 {
                    Err(ParseError::UTF8BytesEmpty)
                } else if cs.len() == 1 {
                    Ok(OneChar(cs[0]))
                } else {
                    Err(ParseError::UTF8BytesParseResultMoreThenOneChar)
                }
            },
        }
    }
}

/// The bytes `hex_scan` yields when it succeeds.
pub open spec fn hex_scan_ok(s: Seq<char>) -> Seq<u8> {
    match hex_scan(s) {
        Ok(b) => b,
        Err(_) => Seq::empty(),
    }
}


/// The UTF-8 encoding of the character, computed bit by bit.
fn encode_char_utf8(c: char) -> (r: Vec<u8>)
    ensures
        r@ == encode_scalar(c as u32),
{
    let v: u32 = c as u32;
    proof {
        vstd::utf8::char_is_scalar(c);
    }
    if v <= 0x7f {
        let r = vec![(v & 0x7F) as u8];
        proof {
            assert(r@ =~= encode_scalar(v));
        }
        r
    } else if v <= 0x7ff {
        let r = vec![0xC0 | ((v >> 6u32) & 0x1F) as u8, 0x80 | (v & 0x3F) as u8];
        proof {
            assert(r@ =~= encode_scalar(v));
        }
        r
    } else if v <= 0xffff {
        let r = vec![
            0xE0 | ((v >> 12u32) & 0x0F) as u8,
            0x80 | ((v >> 6u32) & 0x3F) as u8,
            0x80 | (v & 0x3F) as u8,
        ];
        proof {
            assert(r@ =~= encode_scalar(v));
        }
        r
    } else {
        let r = vec![
            0xF0 | ((v >> 18u32) & 0x7) as u8,
            0x80 | ((v >> 12u32) & 0x3F) as u8,
            0x80 | ((v >> 6u32) & 0x3F) as u8,
            0x80 | (v & 0x3F) as u8,
        ];
        proof {
            assert(r@ =~= encode_scalar(v));
        }
        r
    }
}

/// The UTF-8 bytes written in hex, space-separated, `0x` before each.
pub open spec fn bytes_hex_join(bs: Seq<u8>) -> Seq<char>
    decreases bs.len(),
{
    if bs.len() == 0 {
        Seq::empty()
    } else if bs.len() == 1 {
        seq!['0', 'x'] + base_digits(bs[0] as int, 16)
    } else {
        bytes_hex_join(bs.drop_last()) + seq![' ', '0', 'x'] + base_digits(bs.last() as int, 16)
    }
}

/// What `description` prints: the character quoted, its scalar value in
/// hex (four digits, six above `0xFFFF`) and decimal, and its UTF-8 bytes.
pub open spec fn spec_description(c: char) -> Seq<char> {
    let v = c as u32;
    let width: int = if v > 0xFFFF {
        6
    } else {
        4
    };
    seq!['"', c, '"', '(', 'U', '+'] + base_digits_padded(v as int, 16, width) + seq![',', ' ']
        + base_digits(v as int, 10) + seq![',', ' '] + bytes_hex_join(encode_scalar(v)) + seq![')']
}

impl OneChar {
    /// Describe the character: itself, its scalar value in hex and
    /// decimal, and its UTF-8 bytes in hex.
    pub fn description(self) -> (r: String)
        ensures
            r@ == spec_description(self.0),
    {
        let c: char = self.0;
        let v: u32 = c as u32;
        let mut s = String::new();
        push_char(&mut s, '"');
        push_char(&mut s, c);
        push_char(&mut s, '"');
        push_char(&mut s, '(');
        push_char(&mut s, 'U');
        push_char(&mut s, '+');
        let width: usize = if v > 0xFFFF {
            6
        } else {
            4
        };
        push_base_digits(&mut s, v as u64, 16, width);
        push_char(&mut s, ',');
        push_char(&mut s, ' ');
        push_base_digits(&mut s, v as u64, 10, 0);
        push_char(&mut s, ',');
        push_char(&mut s, ' ');
        let bytes = encode_char_utf8(c);
        let ghost mid = s@;
        let n: usize = bytes.len();
        let mut i: usize = 0;
        while i < n
            invariant
                n == bytes@.len(),
                i <= n,
                s@ == mid + bytes_hex_join(bytes@.subrange(0, i as int)),
            decreases n - i,
        {
            if i > 0 {
                push_char(&mut s, ' ');
            }
            push_char(&mut s, '0');
            push_char(&mut s, 'x');
            push_base_digits(&mut s, bytes[i] as u64, 16, 0);
            proof {
                let pre = bytes@.subrange(0, i as int);
                let post = bytes@.subrange(0, i + 1);
                assert(post.drop_last() =~= pre);
                assert(post.last() == bytes@[i as int]);
                assert(base_digits_padded(bytes@[i as int] as int, 16, 0) =~= base_digits(
                    bytes@[i as int] as int,
                    16,
                ));
                if i == 0 {
                    assert(bytes_hex_join(post) =~= seq!['0', 'x'] + base_digits(
                        bytes@[0] as int,
                        16,
                    ));
                    assert(s@ =~= mid + bytes_hex_join(post));
                } else {
                    assert(bytes_hex_join(post) =~= bytes_hex_join(pre) + seq![' ', '0', 'x']
                        + base_digits(bytes@[i as int] as int, 16));
                    assert(s@ =~= mid + bytes_hex_join(post));
                }
            }
            i = i + 1;
        }
        push_char(&mut s, ')');
        proof {
            assert(bytes@.subrange(0, n as int) =~= bytes@);
            assert(s@ =~= spec_description(c));
        }
        s
    }

    /// What `from_scalar_value_str_radix` returns, as a value.
    pub open spec fn spec_parse_radix(s: Seq<char>, radix: u32) -> Result<OneChar, ParseError> {
        if !parses_as_u32(s, radix) {
            Err(ParseError::InvalidDigitInRadix(radix))
        } else {
            OneChar::spec_from_scalar(radix_value(strip_plus(s), radix) as u32)
        }
    }

    /// What `from_utf8_bytes` returns, as a value.
    pub open spec fn spec_parse_utf8_bytes(s: Seq<char>) -> Result<OneChar, ParseError> {
        match hex_scan(s) {
            Err(e) => Err(e),
            Ok(bytes) => if !valid_utf8(bytes) {
                Err(ParseError::UTF8BytesInvalid)
            } else if decode_utf8(bytes).len() == 0 {
                Err(ParseError::UTF8BytesEmpty)
            } else if decode_utf8(bytes).len() == 1 {
                Ok(OneChar(decode_utf8(bytes)[0]))
            } else {
                Err(ParseError::UTF8BytesParseResultMoreThenOneChar)
            },
        }
    }

    /// What `from_str` returns: one character stands for itself; longer
    /// input is dispatched on its first two characters to a binary, octal,
    /// hexadecimal, UTF-8-bytes or decimal reading.
    pub open spec fn spec_parse(s: Seq<char>) -> Result<OneChar, ParseError> {
        if s.len() == 0 {
            Err(ParseError::EmptyInput)
        } else if s.len() == 1 {
            Ok(OneChar(s[0]))
        } else {
            let c1 = s[0];
            let c2 = s[1];
            if c1 == '0' && (c2 == 'b' || c2 == 'B') {
                Self::spec_parse_radix(s.skip(2), 2)
            } else if c1 == '0' && (c2 == 'o' || c2 == 'O') {
                Self::spec_parse_radix(s.skip(2), 8)
            } else if (c1 == 'u' || c1 == 'U') && c2 == '+' {
                Self::spec_parse_radix(s.skip(2), 16)
            } else if c1 == '0' && (c2 == 'x' || c2 == 'X') {
                Self::spec_parse_utf8_bytes(s.skip(2))
            } else {
                Self::spec_parse_radix(s, 10)
            }
        }
    }

    /// Read a character from any of its command-line spellings.
    pub fn from_str(s: &str) -> (r: Result<OneChar, ParseError>)
        ensures
            r == Self::spec_parse(s@),
    {
        let n: usize = s.unicode_len();
        if n == 0 {
            return Err(ParseError::EmptyInput);
        }
        if n == 1 {
            return Ok(OneChar(s.get_char(0)));
        }
        let c1: char = s.get_char(0);
        let c2: char = s.get_char(1);
        let rest: &str = s.substring_char(2, n);
        proof {
            assert(rest@ =~= s@.skip(2));
        }
        if c1 == '0' && (c2 == 'b' || c2 == 'B') {
            Self::from_scalar_value_str_bin(rest)
        } else if c1 == '0' && (c2 == 'o' || c2 == 'O') {
            Self::from_scalar_value_str_oct(rest)
        } else if (c1 == 'u' || c1 == 'U') && c2 == '+' {
            Self::from_scalar_value_str_hex(rest)
        } else if c1 == '0' && (c2 == 'x' || c2 == 'X') {
            Self::from_utf8_bytes(rest)
        } else {
            Self::from_scalar_value_str_dec(s)
        }
    }
}

} // verus!
