//! Numerals: which text reads as a decimal floating-point literal.
//!
//! The grammar is the one by which the standard library reads a number of
//! double precision from text:
//!
//! ```text
//! Float  ::= Sign? ( 'inf' | 'infinity' | 'nan' | Number )
//! Number ::= ( Digit+ | Digit+ '.' Digit* | Digit* '.' Digit+ ) Exp?
//! Exp    ::= 'e' Sign? Digit+
//! Sign   ::= [+-]
//! Digit  ::= [0-9]
//! ```
//!
//! with letters of either case.
use vstd::prelude::*;
use crate::text::is_decimal_digit;

verus! {

/// Where the run of decimal digits that begins at `from` ends.
pub open spec fn digits_end(s: Seq<u8>, from: int) -> int
    decreases s.len() - from,
{
    if 0 <= from < s.len() && is_decimal_digit(s[from]) {
        digits_end(s, from + 1)
    } else {
        from
    }
}

/// An ASCII letter in lower case; any other byte as it is.
pub open spec fn lower(b: u8) -> u8 {
    if 0x41 <= b <= 0x5a {
        (b + 0x20) as u8
    } else {
        b
    }
}

/// `+` and `-`.
pub open spec fn is_sign(b: u8) -> bool {
    b == 0x2b || b == 0x2d
}

/// Whether `s[from..]` spells `word`, which is in lower case, in letters of
/// either case.
pub open spec fn spells(s: Seq<u8>, from: int, word: Seq<u8>) -> bool {
    &&& s.len() - from == word.len()
    &&& forall|i: int| 0 <= i < word.len() ==> lower(#[trigger] s[from + i]) == word[i]
}

/// `inf`
pub open spec fn word_inf() -> Seq<u8> {
    seq![0x69u8, 0x6e, 0x66]
}

/// `infinity`
pub open spec fn word_infinity() -> Seq<u8> {
    seq![0x69u8, 0x6e, 0x66, 0x69, 0x6e, 0x69, 0x74, 0x79]
}

/// `nan`
pub open spec fn word_nan() -> Seq<u8> {
    seq![0x6eu8, 0x61, 0x6e]
}

/// `s[from..]` is one of the words for an infinity or for not-a-number.
pub open spec fn is_special(s: Seq<u8>, from: int) -> bool {
    spells(s, from, word_inf()) || spells(s, from, word_infinity()) || spells(s, from, word_nan())
}

/// `s[from..]` is a `Number` of the grammar: digits with at most one point
/// and at least one digit, then possibly an exponent.
pub open spec fn is_number(s: Seq<u8>, from: int) -> bool {
    let whole = digits_end(s, from);
    let pointed = whole < s.len() && s[whole] == 0x2e;
    let frac = if pointed {
        digits_end(s, whole + 1)
    } else {
        whole
    };
    let digits = (whole - from) + (if pointed {
        frac - whole - 1
    } else {
        0
    });
    let scaled = frac < s.len() && lower(s[frac]) == 0x65;
    let exp = if scaled && frac + 1 < s.len() && is_sign(s[frac + 1]) {
        frac + 2
    } else {
        frac + 1
    };
    &&& digits > 0
    &&& if scaled {
        digits_end(s, exp) > exp && digits_end(s, exp) == s.len()
    } else {
        frac == s.len()
    }
}

/// `s` reads as a floating-point literal.
pub open spec fn is_numeral(s: Seq<u8>) -> bool {
    let from: int = if s.len() > 0 && is_sign(s[0]) {
        1
    } else {
        0
    };
    is_special(s, from) || is_number(s, from)
}

/// An ASCII letter in lower case; any other byte as it is.
fn to_lower(b: u8) -> (l: u8)
    ensures
        l == lower(b),
{
    if 0x41 <= b && b <= 0x5a {
        b + 0x20
    } else {
        b
    }
}

/// Where the run of decimal digits that begins at `from` ends.
fn digits_run(s: &[u8], from: usize) -> (end: usize)
    requires
        from <= s.len(),
    ensures
        end == digits_end(s@, from as int),
        from <= end <= s.len(),
{
    let mut i: usize = from;
    while i < s.len() && 0x30 <= s[i] && s[i] <= 0x39
        invariant
            from <= i <= s.len(),
            digits_end(s@, from as int) == digits_end(s@, i as int),
        decreases s.len() - i,
    {
        i += 1;
    }
    i
}

/// Whether `s[from..]` spells `word` in letters of either case.
fn spells_word(s: &[u8], from: usize, word: &[u8]) -> (yes: bool)
    requires
        from <= s.len(),
    ensures
        yes == spells(s@, from as int, word@),
{
    if s.len() - from != word.len() {
        return false;
    }
    let mut i: usize = 0;
    while i < word.len()
        invariant
            from <= s.len(),
            s.len() - from == word.len(),
            0 <= i <= word.len(),
            forall|j: int| 0 <= j < i ==> lower(#[trigger] s@[from + j]) == word@[j],
        decreases word.len() - i,
    {
        if to_lower(s[from + i]) != word[i] {
            assert(lower(s@[from + i]) != word@[i as int]);
            return false;
        }
        i += 1;
    }
    true
}

/// Whether `s[from..]` is a word for an infinity or for not-a-number.
fn special_at(s: &[u8], from: usize) -> (yes: bool)
    requires
        from <= s.len(),
    ensures
        yes == is_special(s@, from as int),
{
    let inf: [u8; 3] = [0x69, 0x6e, 0x66];
    let infinity: [u8; 8] = [0x69, 0x6e, 0x66, 0x69, 0x6e, 0x69, 0x74, 0x79];
    let nan: [u8; 3] = [0x6e, 0x61, 0x6e];
    assert(inf@ =~= word_inf());
    assert(infinity@ =~= word_infinity());
    assert(nan@ =~= word_nan());
    spells_word(s, from, inf.as_slice()) || spells_word(s, from, infinity.as_slice())
        || spells_word(s, from, nan.as_slice())
}

/// Whether `s[from..]` is a `Number` of the grammar.
fn number_at(s: &[u8], from: usize) -> (yes: bool)
    requires
        from <= s.len(),
    ensures
        yes == is_number(s@, from as int),
{
    let whole = digits_run(s, from);
    let pointed = whole < s.len() && s[whole] == 0x2e;
    let frac = if pointed {
        digits_run(s, whole + 1)
    } else {
        whole
    };
    let digits = (whole - from) + (if pointed {
        frac - whole - 1
    } else {
        0
    });
    if digits == 0 {
        return false;
    }
    let scaled = frac < s.len() && to_lower(s[frac]) == 0x65;
    if scaled {
        let exp = if frac + 1 < s.len() && (s[frac + 1] == 0x2b || s[frac + 1] == 0x2d) {
            frac + 2
        } else {
            frac + 1
        };
        let end = digits_run(s, exp);
        end > exp && end == s.len()
    } else {
        frac == s.len()
    }
}

/// Whether `s` reads as a floating-point literal.
pub fn reads_as_number(s: &[u8]) -> (yes: bool)
    ensures
        yes == is_numeral(s@),
{
    let from: usize = if s.len() > 0 && (s[0] == 0x2b || s[0] == 0x2d) {
        1
    } else {
        0
    };
    special_at(s, from) || number_at(s, from)
}

} // verus!
