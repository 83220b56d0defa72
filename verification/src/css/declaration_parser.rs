//! Values as they are written in a style sheet.

use vstd::prelude::*;
use crate::color::{rgba, Color};
use crate::css::{CustomParseError, Declaration, ParseError, Token, Unit, Value};

verus! {

/// Whether `c` is a digit of a number written to the base 16.
pub open spec fn is_hex(c: char) -> bool {
    ('0' <= c && c <= '9') || ('a' <= c && c <= 'f') || ('A' <= c && c <= 'F')
}

/// What a digit to the base 16 stands for.
pub open spec fn hex_digit(c: char) -> int {
    if '0' <= c && c <= '9' {
        c as int - '0' as int
    } else if 'a' <= c && c <= 'f' {
        c as int - 'a' as int + 10
    } else {
        c as int - 'A' as int + 10
    }
}

/// The number that the first `n` of `digits` write to the base 16.
pub open spec fn hex_number(digits: Seq<char>, n: int) -> int
    decreases n,
{
    if n <= 0 {
        0
    } else {
        hex_number(digits, n - 1) * 16 + hex_digit(digits[n - 1])
    }
}

/// Whether `digits` holds digits to the base 16 only.
pub open spec fn all_hex(digits: Seq<char>) -> bool {
    forall|i: int| 0 <= i < digits.len() ==> is_hex(#[trigger] digits[i])
}

/// The digits of `hash`: a `+` in the first place counts as a zero.
pub open spec fn digits_of(hash: Seq<char>) -> Seq<char> {
    if hash.len() > 0 && hash[0] == '+' {
        hash.update(0, '0')
    } else {
        hash
    }
}

/// The colour that `hash` writes: six digits to the base 16 for red, green
/// and blue, two digits each, with full alpha; or eight, with two more for
/// alpha. A `+` may stand in place of the first digit, and then counts as
/// a zero. `None` for every other text.
pub open spec fn hex_color(hash: Seq<char>) -> Option<Color> {
    let digits = digits_of(hash);
    if (hash.len() == 6 || hash.len() == 8) && all_hex(digits) {
        let x = hex_number(digits, digits.len() as int);
        if hash.len() == 6 {
            Some(
                Color {
                    red: ((x / 0x10000) % 0x100) as u8,
                    green: ((x / 0x100) % 0x100) as u8,
                    blue: (x % 0x100) as u8,
                    alpha: 255,
                },
            )
        } else {
            Some(
                Color {
                    red: ((x / 0x1000000) % 0x100) as u8,
                    green: ((x / 0x10000) % 0x100) as u8,
                    blue: ((x / 0x100) % 0x100) as u8,
                    alpha: (x % 0x100) as u8,
                },
            )
        }
    } else {
        None
    }
}

/// What the digit `c` stands for, if it is one.
fn digit_of(c: char) -> (r: Option<u64>)
    ensures
        r matches Some(d) ==> is_hex(c) && d == hex_digit(c) && d < 16,
        r is None ==> !is_hex(c),
{
    if '0' <= c && c <= '9' {
        Some(c as u64 - '0' as u64)
    } else if 'a' <= c && c <= 'f' {
        Some(c as u64 - 'a' as u64 + 10)
    } else if 'A' <= c && c <= 'F' {
        Some(c as u64 - 'A' as u64 + 10)
    } else {
        None
    }
}

/// Reads a colour written as six or eight digits to the base 16, as it
/// stands behind a `#`.
pub fn parse_hex_color(hash: &str) -> (r: Result<Color, CustomParseError>)
    ensures
        match r {
            Ok(color) => hex_color(hash@) == Some(color),
            Err(error) => hex_color(hash@) is None && (error
                matches CustomParseError::InvalidColorHex(text) && text@ == hash@),
        },
{
    let len = hash.unicode_len();
    if len != 6 && len != 8 {
        return Err(CustomParseError::InvalidColorHex(String::from_str(hash)));
    }
    let ghost digits = digits_of(hash@);
    let mut x: u64 = 0;
    let mut i: usize = 0;
    while i < len
        invariant
            i <= len,
            len == hash@.len(),
            len == 6 || len == 8,
            digits == digits_of(hash@),
            forall|k: int| 0 <= k < i ==> is_hex(#[trigger] digits[k]),
            x == hex_number(digits, i as int),
            x < pow16(i as nat),
        decreases len - i,
    {
        let c = hash.get_char(i);
        let digit = if i == 0 && c == '+' {
            Some(0)
        } else {
            digit_of(c)
        };
        match digit {
            Some(d) => {
                proof {
                    lemma_pow16(i as nat);
                }
                x = x * 16 + d;
            },
            None => {
                proof {
                    assert(!is_hex(digits[i as int]));
                }
                return Err(CustomParseError::InvalidColorHex(String::from_str(hash)));
            },
        }
        i += 1;
    }
    proof {
        lemma_pow16(8);
        lemma_pow16(6);
    }
    if len == 6 {
        Ok(
            rgba(
                ((x / 0x10000) % 0x100) as u8,
                ((x / 0x100) % 0x100) as u8,
                (x % 0x100) as u8,
                255,
            ),
        )
    } else {
        Ok(
            rgba(
                ((x / 0x1000000) % 0x100) as u8,
                ((x / 0x10000) % 0x100) as u8,
                ((x / 0x100) % 0x100) as u8,
                (x % 0x100) as u8,
            ),
        )
    }
}

/// Sixteen to the power of `n`.
spec fn pow16(n: nat) -> nat
    decreases n,
{
    if n == 0 {
        1
    } else {
        16 * pow16((n - 1) as nat)
    }
}

/// The powers of sixteen up to the eighth fit into 32 bits.
proof fn lemma_pow16(n: nat)
    ensures
        pow16(n + 1) == 16 * pow16(n),
        n <= 8 ==> pow16(n) <= 0x1_0000_0000,
        n == 6 ==> pow16(n) == 0x100_0000,
        n == 8 ==> pow16(n) == 0x1_0000_0000,
{
    reveal_with_fuel(pow16, 10);
}

/// Reads declarations: a property and its value.
pub struct DeclarationParser;

/// The value that `token` writes: a name is a symbol, a text in quotes a
/// string, a number a scalar with its unit, and what stands behind a `#` a
/// colour, where it writes one. `None` for every other piece.
pub open spec fn value_in(token: Token) -> Option<Value> {
    match token {
        Token::Ident(name) => Some(Value::Symbol(name)),
        Token::QuotedString(text) => Some(Value::String(text)),
        Token::Number(number) => Some(Value::Scalar(number, Unit::Unitless)),
        Token::Dimension(number, unit) => Some(Value::Scalar(number, Unit::named(unit@))),
        Token::IDHash(hash) => match hex_color(hash@) {
            Some(color) => Some(Value::Color(color)),
            None => None,
        },
        Token::Hash(hash) => match hex_color(hash@) {
            Some(color) => Some(Value::Color(color)),
            None => None,
        },
        _ => None,
    }
}

/// Whether `error` is what is wrong with `token` as a value: behind a `#`,
/// the text that writes no colour; else the piece itself, which cannot
/// stand there.
pub open spec fn refuses(error: ParseError, token: Token) -> bool {
    match token {
        Token::IDHash(hash) => error matches ParseError::Custom(
            CustomParseError::InvalidColorHex(text),
        ) && text@ == hash@,
        Token::Hash(hash) => error matches ParseError::Custom(
            CustomParseError::InvalidColorHex(text),
        ) && text@ == hash@,
        _ => error == ParseError::UnexpectedToken(token),
    }
}

impl DeclarationParser {
    /// Makes the declaration of `name` from the first piece of its value
    /// and from whether `!important` stands behind it.
    pub fn parse_value(&mut self, name: &str, token: &Token, important: bool) -> (r: Result<
        Declaration,
        ParseError,
    >)
        ensures
            match r {
                Ok(declaration) => {
                    &&& declaration.property@ == name@
                    &&& declaration.important == important
                    &&& value_in(*token) == Some(declaration.value)
                },
                Err(error) => value_in(*token) is None && refuses(error, *token),
            },
    {
        let value = match token {
            Token::Ident(s) => Value::Symbol(s.clone()),
            Token::QuotedString(s) => Value::String(s.clone()),
            Token::Number(value) => Value::Scalar(*value, Unit::Unitless),
            Token::Dimension(value, unit) => Value::Scalar(*value, Unit::from(unit.as_str())),
            Token::IDHash(hash) => match parse_hex_color(hash.as_str()) {
                Ok(color) => Value::Color(color),
                Err(error) => {
                    return Err(ParseError::Custom(error));
                },
            },
            Token::Hash(hash) => match parse_hex_color(hash.as_str()) {
                Ok(color) => Value::Color(color),
                Err(error) => {
                    return Err(ParseError::Custom(error));
                },
            },
            t => {
                return Err(ParseError::UnexpectedToken(t.clone()));
            },
        };
        Ok(Declaration { property: String::from_str(name), value: value, important: important })
    }
}

} // verus!
