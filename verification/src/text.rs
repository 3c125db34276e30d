//! Bytes and text: the character classes of the language, the reading of
//! source bytes as characters, and the rendering of offsets in decimal.
use vstd::prelude::*;

verus! {

/// The character that a source byte stands for: the one with the same code
/// point.
pub open spec fn byte_char(b: u8) -> char {
    b as char
}

/// A run of source bytes read as text, one character for each byte.
pub open spec fn bytes_text(bytes: Seq<u8>) -> Seq<char> {
    Seq::new(bytes.len(), |i: int| byte_char(bytes[i]))
}

/// Only the ASCII space separates tokens.
pub open spec fn is_space(b: u8) -> bool {
    b == 0x20
}

/// `0` to `9`.
pub open spec fn is_decimal_digit(b: u8) -> bool {
    0x30 <= b <= 0x39
}

/// The value of a byte as a digit: `0` to `9`, then the letters of either
/// case from ten up.
pub open spec fn digit_value(b: u8) -> Option<u32> {
    if 0x30 <= b <= 0x39 {
        Some((b - 0x30) as u32)
    } else if 0x61 <= b <= 0x7a {
        Some((b - 0x61 + 10) as u32)
    } else if 0x41 <= b <= 0x5a {
        Some((b - 0x41 + 10) as u32)
    } else {
        None
    }
}

/// Whether `b` is a digit in the given radix.
pub open spec fn is_digit(b: u8, radix: u32) -> bool {
    digit_value(b) matches Some(d) && d < radix
}

/// The letters among the first 256 code points: the ASCII letters and the
/// letters of the Latin-1 supplement.
pub open spec fn is_alphabetic(b: u8) -> bool {
    ||| 0x41 <= b <= 0x5a
    ||| 0x61 <= b <= 0x7a
    ||| b == 0xaa
    ||| b == 0xb5
    ||| b == 0xba
    ||| 0xc0 <= b <= 0xd6
    ||| 0xd8 <= b <= 0xf6
    ||| 0xf8 <= b
}

/// The numeric characters among the first 256 code points: the decimal
/// digits, the superscript digits and the vulgar fractions.
pub open spec fn is_numeric(b: u8) -> bool {
    ||| 0x30 <= b <= 0x39
    ||| b == 0xb2
    ||| b == 0xb3
    ||| b == 0xb9
    ||| 0xbc <= b <= 0xbe
}

/// A byte that may begin a numeral in the given radix.
pub open spec fn is_numeral_byte(b: u8, radix: u32) -> bool {
    is_digit(b, radix) || b == 0x2e
}

/// A byte that may begin an identifier.
pub open spec fn is_name_start(b: u8) -> bool {
    b == 0x5f || is_alphabetic(b)
}

/// A byte that may continue an identifier.
pub open spec fn is_name_byte(b: u8) -> bool {
    b == 0x5f || is_alphabetic(b) || is_numeric(b)
}

/// Whether `b` is a digit in the given radix.
pub fn byte_is_digit(b: u8, radix: u32) -> (yes: bool)
    ensures
        yes == is_digit(b, radix),
{
    if 0x30 <= b && b <= 0x39 {
        ((b - 0x30) as u32) < radix
    } else if 0x61 <= b && b <= 0x7a {
        ((b - 0x61 + 10) as u32) < radix
    } else if 0x41 <= b && b <= 0x5a {
        ((b - 0x41 + 10) as u32) < radix
    } else {
        false
    }
}

/// Whether the character of `b` is a letter.
pub fn byte_is_alphabetic(b: u8) -> (yes: bool)
    ensures
        yes == is_alphabetic(b),
{
    (0x41 <= b && b <= 0x5a) || (0x61 <= b && b <= 0x7a) || b == 0xaa || b == 0xb5 || b == 0xba
        || (0xc0 <= b && b <= 0xd6) || (0xd8 <= b && b <= 0xf6) || 0xf8 <= b
}

/// Whether the character of `b` is numeric.
pub fn byte_is_numeric(b: u8) -> (yes: bool)
    ensures
        yes == is_numeric(b),
{
    (0x30 <= b && b <= 0x39) || b == 0xb2 || b == 0xb3 || b == 0xb9 || (0xbc <= b && b <= 0xbe)
}

/// Whether `b` may stand in a numeral of the given radix.
pub fn byte_is_numeral_byte(b: u8, radix: u32) -> (yes: bool)
    ensures
        yes == is_numeral_byte(b, radix),
{
    byte_is_digit(b, radix) || b == 0x2e
}

/// Whether `b` may begin a name.
pub fn byte_is_name_start(b: u8) -> (yes: bool)
    ensures
        yes == is_name_start(b),
{
    b == 0x5f || byte_is_alphabetic(b)
}

/// Whether `b` may continue a name.
pub fn byte_is_name_byte(b: u8) -> (yes: bool)
    ensures
        yes == is_name_byte(b),
{
    b == 0x5f || byte_is_alphabetic(b) || byte_is_numeric(b)
}

/// `String::push` of the standard library: the string grows by exactly the
/// given character, at its end.
#[verifier::external_body]
pub(crate) fn push_char(s: &mut String, c: char)
    ensures
        final(s)@ == old(s)@.push(c),
{
    s.push(c)
}

/// Whether a character is a letter or a number: what `char::is_alphanumeric`
/// of the standard library returns for it.
pub uninterp spec fn unicode_alphanumeric(c: char) -> bool;

/// Whether a character is a number: what `char::is_numeric` of the standard
/// library returns for it.
pub uninterp spec fn unicode_numeric(c: char) -> bool;

/// Whether a character is white space: what `char::is_whitespace` of the
/// standard library returns for it.
pub uninterp spec fn unicode_whitespace(c: char) -> bool;

/// `char::is_alphanumeric` of the standard library.
#[verifier::external_body]
pub(crate) fn char_is_alphanumeric(c: char) -> (yes: bool)
    ensures
        yes == unicode_alphanumeric(c),
{
    c.is_alphanumeric()
}

/// `char::is_numeric` of the standard library.
#[verifier::external_body]
pub(crate) fn char_is_numeric(c: char) -> (yes: bool)
    ensures
        yes == unicode_numeric(c),
{
    c.is_numeric()
}

/// `char::is_whitespace` of the standard library.
#[verifier::external_body]
pub(crate) fn char_is_whitespace(c: char) -> (yes: bool)
    ensures
        yes == unicode_whitespace(c),
{
    c.is_whitespace()
}

/// The text of `bytes[from..to]`, one character for each byte.
pub fn text_of(bytes: &Vec<u8>, from: usize, to: usize) -> (text: String)
    requires
        from <= to <= bytes.len(),
    ensures
        text@ == bytes_text(bytes@.subrange(from as int, to as int)),
{
    let mut text = String::new();
    let mut i: usize = from;
    while i < to
        invariant
            from <= i <= to <= bytes.len(),
            text@ == bytes_text(bytes@.subrange(from as int, i as int)),
        decreases to - i,
    {
        let c = bytes[i] as char;
        push_char(&mut text, c);
        i += 1;
        assert(text@ =~= bytes_text(bytes@.subrange(from as int, i as int)));
    }
    text
}

/// The decimal digits of `n`, most significant first, without leading zeros.
pub open spec fn decimal(n: nat) -> Seq<char>
    decreases n,
{
    if n < 10 {
        seq![decimal_digit(n)]
    } else {
        decimal(n / 10).push(decimal_digit(n % 10))
    }
}

/// The character for a digit below ten.
pub open spec fn decimal_digit(d: nat) -> char {
    byte_char((0x30 + d) as u8)
}

/// `n` written in decimal.
pub fn render_decimal(n: usize) -> (text: String)
    ensures
        text@ == decimal(n as nat),
    decreases n,
{
    if n < 10 {
        let mut text = String::new();
        push_char(&mut text, (0x30u8 + n as u8) as char);
        assert(text@ =~= decimal(n as nat));
        text
    } else {
        let mut text = render_decimal(n / 10);
        push_char(&mut text, (0x30u8 + (n % 10) as u8) as char);
        text
    }
}

} // verus!
