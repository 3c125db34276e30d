//! The scanning rules: how one token is read from a source text.
//!
//! These are the rules themselves, as functions of a text, an offset and the
//! token scanned before. [`crate::lexer::Lexer`] is the machine that applies
//! them.
use vstd::prelude::*;
use crate::error::{SpecLexError, SpecParseError};
use crate::keywords::classify_name;
use crate::numeral::is_numeral;
use crate::stream::Lexeme;
use crate::text::{byte_char, bytes_text, is_name_byte, is_name_start, is_numeral_byte, is_space};
use crate::token::{Op, SpecTokStruct, SpecToken};

verus! {

/// What a lexer scans: the text, the radix in which it tells digits, and
/// the reserved words.
pub struct Source {
    pub text: Seq<u8>,
    pub radix: u32,
    pub keywords: Seq<Seq<char>>,
}

/// Where a lexer stands: the offset of the first byte not yet scanned, and
/// the token scanned last, which is the current one.
pub struct Cursor {
    pub pos: nat,
    pub curr: SpecTokStruct,
}

/// The outcome of scanning one token: the token with the offsets at which it
/// begins and ends, or a failure.
pub enum Scan {
    Token { token: SpecToken, start: nat, end: nat },
    Fault(SpecLexError),
}

/// Where the run of spaces that begins at `from` ends.
pub open spec fn spaces_end(text: Seq<u8>, from: nat) -> nat
    decreases text.len() - from,
{
    if from < text.len() && is_space(text[from as int]) {
        spaces_end(text, from + 1)
    } else {
        from
    }
}

/// Where the run of digits and points that begins at `from` ends.
pub open spec fn numeral_end(text: Seq<u8>, from: nat, radix: u32) -> nat
    decreases text.len() - from,
{
    if from < text.len() && is_numeral_byte(text[from as int], radix) {
        numeral_end(text, from + 1, radix)
    } else {
        from
    }
}

/// Where the run of letters, digits and underscores that begins at `from`
/// ends.
pub open spec fn name_end(text: Seq<u8>, from: nat) -> nat
    decreases text.len() - from,
{
    if from < text.len() && is_name_byte(text[from as int]) {
        name_end(text, from + 1)
    } else {
        from
    }
}

/// After a number, a name or a closing parenthesis, `+` and `-` are the
/// binary operators; anywhere else they are signs.
pub open spec fn ends_operand(prev: SpecToken) -> bool {
    prev is Number || prev is Var || prev == SpecToken::Operator(Op::RParens)
}

/// The two-character operators.
pub open spec fn pair_operator(b: u8, next: u8) -> Option<Op> {
    if b == 0x2a && next == 0x2a {
        Some(Op::Pow)
    } else if b == 0x2f && next == 0x2f {
        Some(Op::IntDiv)
    } else if b == 0x26 && next == 0x26 {
        Some(Op::And)
    } else if b == 0x7c && next == 0x7c {
        Some(Op::Or_)
    } else if b == 0x21 && next == 0x3d {
        Some(Op::Neq)
    } else if b == 0x3d && next == 0x3d {
        Some(Op::Eq_)
    } else if b == 0x3e && next == 0x3d {
        Some(Op::Geq)
    } else if b == 0x3c && next == 0x3d {
        Some(Op::Leq)
    } else {
        None
    }
}

/// The one-character operators. A line feed and a semicolon both end a
/// statement.
pub open spec fn single_operator(b: u8, prev: SpecToken) -> Option<Op> {
    if b == 0x2b {
        Some(
            if ends_operand(prev) {
                Op::Add
            } else {
                Op::Pos
            },
        )
    } else if b == 0x2d {
        Some(
            if ends_operand(prev) {
                Op::Sub
            } else {
                Op::Neg
            },
        )
    } else if b == 0x2a {
        Some(Op::Mul)
    } else if b == 0x2f {
        Some(Op::Div)
    } else if b == 0x5e {
        Some(Op::BitXor)
    } else if b == 0x26 {
        Some(Op::BitAnd)
    } else if b == 0x7c {
        Some(Op::BitOr)
    } else if b == 0x7e {
        Some(Op::BitNot)
    } else if b == 0x21 {
        Some(Op::Not)
    } else if b == 0x25 {
        Some(Op::Mod)
    } else if b == 0x28 {
        Some(Op::LParens)
    } else if b == 0x29 {
        Some(Op::RParens)
    } else if b == 0x3d {
        Some(Op::Assign)
    } else if b == 0x3e {
        Some(Op::Gt_)
    } else if b == 0x3c {
        Some(Op::Lt_)
    } else if b == 0x0a || b == 0x3b {
        Some(Op::LineEnd)
    } else if b == 0x7b {
        Some(Op::BlockStart)
    } else if b == 0x7d {
        Some(Op::BlockEnd)
    } else if b == 0x2c {
        Some(Op::Comma)
    } else {
        None
    }
}

/// The numeral that begins at `start`: the longest run of digits and
/// points, which must read as a number.
pub open spec fn scan_number(src: Source, start: nat) -> Scan {
    let end = numeral_end(src.text, start, src.radix);
    let lexeme = src.text.subrange(start as int, end as int);
    if is_numeral(lexeme) {
        Scan::Token { token: SpecToken::Number(bytes_text(lexeme)), start: start, end: end }
    } else {
        Scan::Fault(SpecLexError::NumberFormat { text: bytes_text(lexeme), position: start })
    }
}

/// The name that begins at `start`: the longest run of name characters,
/// a keyword where the table holds it and an identifier where it does not.
pub open spec fn scan_name(src: Source, start: nat) -> Scan {
    let end = name_end(src.text, start);
    let lexeme = src.text.subrange(start as int, end as int);
    Scan::Token { token: classify_name(src.keywords, bytes_text(lexeme)), start: start, end: end }
}

/// The operator at `start`, which is within the text: the two-character
/// operator that the byte there and the byte after it make, where a byte
/// follows and the two make one, and the one-character operator in every
/// other case.
pub open spec fn scan_symbol(src: Source, start: nat, prev: SpecToken) -> Scan {
    let b = src.text[start as int];
    if start + 1 < src.text.len() && pair_operator(b, src.text[start as int + 1]) is Some {
        Scan::Token {
            token: SpecToken::Operator(pair_operator(b, src.text[start as int + 1])->0),
            start: start,
            end: start + 2,
        }
    } else {
        match single_operator(b, prev) {
            Some(op) => Scan::Token { token: SpecToken::Operator(op), start: start, end: start + 1 },
            None => Scan::Fault(
                SpecLexError::UnexpectedCharacter { found: byte_char(b), position: start },
            ),
        }
    }
}

/// The token that scanning from `pos` yields, after the token `prev`.
///
/// Spaces are skipped. At the end of the text stands the end marker, and
/// there it stays. A digit or a point begins a numeral, a letter or an
/// underscore a name, and anything else must be an operator.
pub open spec fn scan(src: Source, pos: nat, prev: SpecToken) -> Scan {
    let start = spaces_end(src.text, pos);
    if start >= src.text.len() {
        Scan::Token { token: SpecToken::End, start: start, end: start }
    } else if is_numeral_byte(src.text[start as int], src.radix) {
        scan_number(src, start)
    } else if is_name_start(src.text[start as int]) {
        scan_name(src, start)
    } else {
        scan_symbol(src, start, prev)
    }
}

/// One step of a lexer: the token scanned becomes the current one.
pub open spec fn step(src: Source, at: Cursor) -> Result<Cursor, SpecLexError> {
    match scan(src, at.pos, at.curr.val) {
        Scan::Token { token, start, end } => Ok(
            Cursor { pos: end, curr: SpecTokStruct { val: token, pos: start } },
        ),
        Scan::Fault(e) => Err(e),
    }
}

/// A run of spaces ends at or after its start, and within the text.
pub proof fn lemma_spaces_end_bounds(text: Seq<u8>, from: nat)
    ensures
        from <= spaces_end(text, from),
        from <= text.len() ==> spaces_end(text, from) <= text.len(),
    decreases text.len() - from,
{
    if from < text.len() && is_space(text[from as int]) {
        lemma_spaces_end_bounds(text, from + 1);
    }
}

/// A run of digits and points ends at or after its start, within the
/// text, and after its start where it begins on a digit or a point.
pub proof fn lemma_numeral_end_bounds(text: Seq<u8>, from: nat, radix: u32)
    ensures
        from <= numeral_end(text, from, radix),
        from <= text.len() ==> numeral_end(text, from, radix) <= text.len(),
        from < text.len() && is_numeral_byte(text[from as int], radix) ==> from < numeral_end(
            text,
            from,
            radix,
        ),
    decreases text.len() - from,
{
    if from < text.len() && is_numeral_byte(text[from as int], radix) {
        lemma_numeral_end_bounds(text, from + 1, radix);
    }
}

/// A run of name characters ends at or after its start, within the text,
/// and after its start where it begins on a name character.
pub proof fn lemma_name_end_bounds(text: Seq<u8>, from: nat)
    ensures
        from <= name_end(text, from),
        from <= text.len() ==> name_end(text, from) <= text.len(),
        from < text.len() && is_name_byte(text[from as int]) ==> from < name_end(text, from),
    decreases text.len() - from,
{
    if from < text.len() && is_name_byte(text[from as int]) {
        lemma_name_end_bounds(text, from + 1);
    }
}

/// The scan position never moves backwards, and every token but the end
/// marker takes at least one byte of the text.
pub proof fn lemma_scan_bounds(src: Source, pos: nat, prev: SpecToken)
    ensures
        match scan(src, pos, prev) {
            Scan::Token { token, start, end } => {
                &&& pos <= start <= end
                &&& token is End ==> start == end && (pos <= src.text.len() ==> end
                    == src.text.len())
                &&& !(token is End) ==> start < end <= src.text.len()
            },
            Scan::Fault(_) => true,
        },
{
    lemma_spaces_end_bounds(src.text, pos);
    let start = spaces_end(src.text, pos);
    if start < src.text.len() {
        lemma_numeral_end_bounds(src.text, start, src.radix);
        lemma_name_end_bounds(src.text, start);
    }
}

/// Everything that scanning on from `pos` yields, up to and including the
/// end marker or the first fault.
pub open spec fn stream_from(src: Source, pos: nat, prev: SpecToken) -> Seq<Lexeme>
    decreases src.text.len() - pos,
{
    match scan(src, pos, prev) {
        Scan::Fault(e) => seq![Lexeme::Fault(SpecParseError::Lex(e))],
        Scan::Token { token, start, end } => {
            let first = Lexeme::Tok(SpecTokStruct { val: token, pos: start }, end);
            if token is End {
                seq![first]
            } else {
                proof {
                    lemma_scan_bounds(src, pos, prev);
                }
                seq![first] + stream_from(src, end, token)
            }
        },
    }
}

/// The stream that a lexer at `at` presents: its current token, and after it
/// what scanning on will yield. With every token stands the offset at which
/// the lexer stands when the token is current, so that the stream fixes the
/// lexer.
pub open spec fn stream_at(src: Source, at: Cursor) -> Seq<Lexeme> {
    if at.curr.val is End {
        seq![Lexeme::Tok(at.curr, at.pos)]
    } else {
        seq![Lexeme::Tok(at.curr, at.pos)] + stream_from(src, at.pos, at.curr.val)
    }
}

/// Whether a NUL byte stands at `pos`. A list of tokens ends before one, as
/// it ends at the end of the text.
pub open spec fn at_nul(text: Seq<u8>, pos: nat) -> bool {
    pos < text.len() && text[pos as int] == 0
}

/// The tokens that scanning on from `pos` yields before a NUL byte at the
/// scan position or the end marker, or the fault on which it fails.
pub open spec fn tokens_from(src: Source, pos: nat, prev: SpecToken) -> Result<
    Seq<SpecToken>,
    SpecLexError,
>
    decreases src.text.len() - pos,
{
    if at_nul(src.text, pos) {
        Ok(Seq::empty())
    } else {
        match scan(src, pos, prev) {
            Scan::Fault(e) => Err(e),
            Scan::Token { token, start, end } => {
                if token is End {
                    Ok(Seq::empty())
                } else {
                    proof {
                        lemma_scan_bounds(src, pos, prev);
                    }
                    match tokens_from(src, end, token) {
                        Ok(more) => Ok(seq![token] + more),
                        Err(e) => Err(e),
                    }
                }
            },
        }
    }
}

/// Where a lexer that lists the tokens from `at` on comes to stand: before
/// the NUL byte or on the end marker at which the list ends, or on the last
/// token before the fault.
pub open spec fn tokens_stop(src: Source, at: Cursor) -> Cursor
    decreases src.text.len() - at.pos,
{
    if at_nul(src.text, at.pos) {
        at
    } else {
        match step(src, at) {
            Err(_) => at,
            Ok(next) => {
                if next.curr.val is End {
                    next
                } else {
                    proof {
                        lemma_scan_bounds(src, at.pos, at.curr.val);
                    }
                    tokens_stop(src, next)
                }
            },
        }
    }
}

} // verus!
