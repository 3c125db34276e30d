//! Token streams: what a parser sees of a source text.
//!
//! A stream is the current token followed by everything that scanning on
//! from it will yield. It ends with the end marker, or with the fault on
//! which scanning fails; nothing follows either.
use vstd::prelude::*;
use crate::error::SpecParseError;
use crate::token::{same_kind, SpecTokStruct, SpecToken};

verus! {

/// One outcome of scanning: a token with the offset at which it begins,
/// and after it the offset at which it ends, where the lexer stands when
/// the token is current; or a failure.
pub enum Lexeme {
    Tok(SpecTokStruct, nat),
    Fault(SpecParseError),
}

/// The result of a grammar rule on a stream: the value it built and the
/// number of tokens it consumed, or the failure that ended the parse.
pub type Parsed<T> = Result<(T, nat), SpecParseError>;

/// The end marker where a stream has nothing to show.
pub open spec fn no_token() -> SpecTokStruct {
    SpecTokStruct { val: SpecToken::End, pos: 0 }
}

/// The current token of a stream: its first.
pub open spec fn cur(toks: Seq<Lexeme>) -> SpecTokStruct {
    if toks.len() > 0 {
        match toks[0] {
            Lexeme::Tok(t, _) => t,
            Lexeme::Fault(_) => no_token(),
        }
    } else {
        no_token()
    }
}

/// The scan offset of a lexer that presents the stream `toks`: where its
/// current token ends.
pub open spec fn position(toks: Seq<Lexeme>) -> nat {
    if toks.len() > 0 {
        match toks[0] {
            Lexeme::Tok(_, end) => end,
            Lexeme::Fault(_) => 0,
        }
    } else {
        0
    }
}

/// The stream after `n` tokens have been consumed.
pub open spec fn rest(toks: Seq<Lexeme>, n: nat) -> Seq<Lexeme> {
    if n == 0 {
        toks
    } else if n <= toks.len() {
        toks.skip(n as int)
    } else {
        Seq::empty()
    }
}

/// The token after the current one, without consuming anything. The end
/// marker is permanent: after it comes the end marker again.
pub open spec fn peek(toks: Seq<Lexeme>) -> Result<SpecTokStruct, SpecParseError> {
    if cur(toks).val is End {
        Ok(cur(toks))
    } else if toks.len() > 1 {
        match toks[1] {
            Lexeme::Tok(t, _) => Ok(t),
            Lexeme::Fault(e) => Err(e),
        }
    } else {
        Ok(no_token())
    }
}

/// Consuming the current token means scanning the next one, which may fail.
pub open spec fn advance(toks: Seq<Lexeme>) -> Result<nat, SpecParseError> {
    match peek(toks) {
        Ok(_) => Ok(
            if cur(toks).val is End {
                0nat
            } else {
                1nat
            },
        ),
        Err(e) => Err(e),
    }
}

/// Validate and consume: where the current token is of the kind of
/// `expected` it is consumed and returned; otherwise the parse fails with a
/// mismatch that names both and the offset of the token found.
pub open spec fn eat(toks: Seq<Lexeme>, expected: SpecToken) -> Parsed<SpecTokStruct> {
    if same_kind(cur(toks).val, expected) {
        match advance(toks) {
            Ok(n) => Ok((cur(toks), n)),
            Err(e) => Err(e),
        }
    } else {
        Err(
            SpecParseError::TokenMismatch {
                expected: expected,
                found: cur(toks).val,
                position: cur(toks).pos,
            },
        )
    }
}

/// Adds the `n` tokens that were consumed before `p` ran to its count.
pub open spec fn after<T>(n: nat, p: Parsed<T>) -> Parsed<T> {
    match p {
        Ok((v, m)) => Ok((v, n + m)),
        Err(e) => Err(e),
    }
}

/// Consuming `a` tokens and then `b` is consuming `a + b`.
pub proof fn lemma_rest_rest(toks: Seq<Lexeme>, a: nat, b: nat)
    ensures
        rest(rest(toks, a), b) == rest(toks, a + b),
{
    assert(rest(rest(toks, a), b) =~= rest(toks, a + b));
}

/// Consuming nothing leaves the stream as it is.
pub proof fn lemma_rest_zero(toks: Seq<Lexeme>)
    ensures
        rest(toks, 0) == toks,
{
    assert(rest(toks, 0) =~= toks);
}

} // verus!
