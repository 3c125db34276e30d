//! The parser: a recursive-descent engine with one operation for each rule
//! of the grammar. It drives a lexer that it owns and builds the tree from
//! the leaves up.
//!
//! Every operation is proved to compute the rule of [`crate::grammar`] whose
//! name it bears, on the stream that the lexer presents when it is called,
//! and to leave the lexer on the stream that remains. A failure ends the
//! parse: the operation that fails returns no tree and goes back to where
//! it began, so that nothing is consumed by it.
use vstd::prelude::*;
use crate::ast::{Factor, Program};
use crate::ast::SpecFunction;
use crate::error::{ParseError, SpecParseError};
use crate::grammar;
use crate::lexer::Lexer;
use crate::scan::{step, stream_at, Cursor, Source};
use crate::stream::{cur, no_token, peek, position, rest, Lexeme, Parsed};
use crate::token::{Op, SpecToken, TokStruct, Token};

verus! {

mod arith;
mod blocks;
mod calls;
mod logic;

/// A parser over one source text, which it scans with a lexer of its own.
pub struct Parser {
    lexer: Lexer,
    input: String,
}

/// An operation that started on the stream `before`, returned `r` and left
/// the stream `after` has computed `rule`: on success the value of `r` is
/// the tree of the rule and `after` is `before` less the tokens consumed;
/// on failure the error of `r` is that of the rule, and the parser stands
/// where it stood when the operation began: nothing is consumed.
///
/// A stream fixes the lexer that presents it, its scan offset too
/// ([`Parser::lemma_offset`]): where no token is consumed nothing moves.
pub open spec fn computes<T: View>(
    before: Seq<Lexeme>,
    after: Seq<Lexeme>,
    r: Result<T, ParseError>,
    rule: Parsed<T::V>,
) -> bool {
    match rule {
        Ok((v, n)) => r matches Ok(x) && x@ == v && after == rest(before, n),
        Err(e) => r matches Err(x) && x@ == e && after == before,
    }
}

/// An operation that computed `rule` has left the scan offset where it was,
/// unless it consumed a token: at the end of the input, where a rule may
/// build a leaf of nothing, and on failure, nothing moves.
pub open spec fn holds_still(before: nat, after: nat, rule_consumed: Option<nat>) -> bool {
    match rule_consumed {
        Some(n) => n == 0 ==> after == before,
        None => after == before,
    }
}

/// The number of tokens that a rule consumed, where it did not fail.
pub open spec fn consumed<T>(rule: Parsed<T>) -> Option<nat> {
    match rule {
        Ok((_, n)) => Some(n),
        Err(_) => None,
    }
}

/// Where a parser stood, to go back to.
pub(crate) struct Mark {
    pos: usize,
    curr: TokStruct,
}

impl Mark {
    /// The stream that a parser of `src` presents where it stands here.
    pub closed spec fn stream(&self, src: Source) -> Seq<Lexeme> {
        stream_at(src, Cursor { pos: self.pos as nat, curr: self.curr@ })
    }

    /// The scan offset of a parser that stands here.
    pub closed spec fn offset(&self) -> nat {
        self.pos as nat
    }
}

impl Parser {
    /// What the lexer of this parser scans.
    pub closed spec fn source(&self) -> Source {
        self.lexer.source()
    }

    /// The offset up to which the lexer of this parser has scanned. No
    /// operation of the parser moves it backwards but `input`, `reset` and
    /// `eval`, which start over.
    pub closed spec fn offset(&self) -> nat {
        self.lexer.cursor().pos
    }

    /// The stream that the lexer of this parser presents: the current token
    /// and all that follows.
    pub closed spec fn ahead(&self) -> Seq<Lexeme> {
        self.lexer.ahead()
    }

    /// A parser over the empty text, with radix ten and the standard table
    /// of reserved words.
    pub fn new() -> (parser: Parser)
        ensures
            parser.source() == (Source {
                text: Seq::empty(),
                radix: 10,
                keywords: crate::keywords::reserved_words(),
            }),
            parser.offset() == 0,
            parser.ahead() == unopened(),
    {
        Parser { lexer: Lexer::new(), input: String::new() }
    }

    /// Binds a new source text, the bytes of `input`. Nothing of it is
    /// scanned yet: the parser stands at offset zero, on the end marker.
    pub fn input(&mut self, input: String)
        ensures
            final(self).source() == (Source {
                text: vstd::utf8::encode_utf8(input@),
                ..old(self).source()
            }),
            final(self).offset() == 0,
            final(self).ahead() == unopened(),
    {
        self.input = input;
        self.lexer.input(self.input.clone());
    }

    /// Sets the radix in which digits are told. The offset and the current
    /// token stay.
    pub fn base(&mut self, base: u32)
        ensures
            final(self).source() == (Source { radix: base, ..old(self).source() }),
            final(self).offset() == old(self).offset(),
            final(self).offset() == position(final(self).ahead()),
            cur(final(self).ahead()) == cur(old(self).ahead()),
    {
        self.lexer.base(base);
    }

    /// Starts over: the lexer scans the first token of the text, and the
    /// parser stands on the stream of the whole text. Where the first token
    /// cannot be scanned, the parser stands at offset zero, on the end
    /// marker.
    pub fn reset(&mut self) -> (r: Result<(), ParseError>)
        ensures
            final(self).source() == old(self).source(),
            final(self).offset() == position(final(self).ahead()),
            match opening(old(self).source()) {
                Ok(toks) => r is Ok && final(self).ahead() == toks,
                Err(e) => r matches Err(x) && x@ == e && final(self).ahead() == unopened(),
            },
    {
        self.lexer.reset()
    }

    /// Parses the text as a program, from its start: whatever was scanned
    /// before is forgotten. After a program the parser stands on what
    /// follows it; after a failure it stands at the start of the text.
    pub fn eval(&mut self) -> (r: Result<Program, ParseError>)
        ensures
            final(self).source() == old(self).source(),
            match parse(old(self).source()) {
                Ok(program) => r matches Ok(x) && x@ == program,
                Err(e) => r matches Err(x) && x@ == e,
            },
            final(self).offset() == position(final(self).ahead()),
            match opening(old(self).source()) {
                Ok(toks) => computes(toks, final(self).ahead(), r, grammar::program(toks)),
                Err(e) => final(self).ahead() == unopened(),
            },
    {
        match self.reset() {
            Ok(_) => {},
            Err(e) => {
                return Err(e);
            },
        }
        self.program()
    }

    /// The scan offset is that of the stream: where the current token ends.
    pub proof fn lemma_offset(&self)
        ensures
            self.offset() == position(self.ahead()),
    {
    }

    /// Where this parser stands.
    pub(crate) fn mark(&self) -> (m: Mark)
        ensures
            m.stream(self.source()) == self.ahead(),
            m.offset() == self.offset(),
            self.offset() == position(self.ahead()),
    {
        Mark { pos: self.lexer.get_pos(), curr: self.lexer.current().clone() }
    }

    /// Goes back to where `m` was taken.
    pub(crate) fn rewind(&mut self, m: &Mark)
        ensures
            final(self).source() == old(self).source(),
            final(self).ahead() == m.stream(old(self).source()),
            final(self).offset() == m.offset(),
            final(self).offset() == position(final(self).ahead()),
    {
        self.lexer.set_pos(m.pos);
        self.lexer.set_curr(m.curr.clone());
    }

    /// Validates the current token against `expected` and consumes it.
    pub(crate) fn eat(&mut self, expected: Token) -> (r: Result<TokStruct, ParseError>)
        requires
            !(expected@ is End),
        ensures
            final(self).source() == old(self).source(),
            final(self).offset() >= old(self).offset(),
            final(self).offset() == position(final(self).ahead()),
            computes(
                old(self).ahead(),
                final(self).ahead(),
                r,
                crate::stream::eat(old(self).ahead(), expected@),
            ),
            holds_still(
                old(self).offset(),
                final(self).offset(),
                consumed(crate::stream::eat(old(self).ahead(), expected@)),
            ),
    {
        self.lexer.eat(expected)
    }

    /// The offset up to which the text has been scanned.
    pub fn get_pos(&self) -> (pos: usize)
        ensures
            pos == self.offset(),
            pos == position(self.ahead()),
    {
        self.lexer.get_pos()
    }

    /// Whether the current token is the operator `op`.
    pub(crate) fn at_op(&self, op: Op) -> (yes: bool)
        ensures
            yes == (cur(self.ahead()).val == SpecToken::Operator(op)),
    {
        self.lexer.current().val().is_op(op)
    }

    /// The current token.
    pub(crate) fn current_token(&self) -> (t: &Token)
        ensures
            t@ == cur(self.ahead()).val,
    {
        self.lexer.current().val()
    }

    /// A copy of the current token.
    pub(crate) fn get_curr(&self) -> (curr: TokStruct)
        ensures
            curr@ == cur(self.ahead()),
    {
        self.lexer.current().clone()
    }

    /// The token after the current one.
    pub(crate) fn peek(&self) -> (r: Result<TokStruct, ParseError>)
        ensures
            match peek(self.ahead()) {
                Ok(t) => r matches Ok(x) && x@ == t,
                Err(e) => r matches Err(x) && x@ == e,
            },
    {
        if self.lexer.current().val().is_kind_of(&Token::End) {
            Ok(self.lexer.current().clone())
        } else {
            self.lexer.peek_token()
        }
    }

    /// Accepts a number.
    pub(crate) fn number(&mut self) -> (r: Result<Factor, ParseError>)
        ensures
            final(self).source() == old(self).source(),
            final(self).offset() >= old(self).offset(),
            final(self).offset() == position(final(self).ahead()),
            computes(old(self).ahead(), final(self).ahead(), r, grammar::number(old(self).ahead())),
            holds_still(
                old(self).offset(),
                final(self).offset(),
                consumed(grammar::number(old(self).ahead())),
            ),
    {
        let t = self.eat(Token::Number(String::from_str("0")))?;
        Ok(Factor::float(t))
    }

    /// Accepts an identifier.
    pub(crate) fn id(&mut self) -> (r: Result<Factor, ParseError>)
        ensures
            final(self).source() == old(self).source(),
            final(self).offset() >= old(self).offset(),
            final(self).offset() == position(final(self).ahead()),
            computes(old(self).ahead(), final(self).ahead(), r, grammar::id(old(self).ahead())),
            holds_still(
                old(self).offset(),
                final(self).offset(),
                consumed(grammar::id(old(self).ahead())),
            ),
    {
        let t = self.eat(Token::Var(String::new()))?;
        Ok(Factor::symbol(t))
    }

    /// Accepts a boolean literal.
    pub(crate) fn boolean(&mut self) -> (r: Result<Factor, ParseError>)
        ensures
            final(self).source() == old(self).source(),
            final(self).offset() >= old(self).offset(),
            final(self).offset() == position(final(self).ahead()),
            computes(old(self).ahead(), final(self).ahead(), r, grammar::boolean(old(self).ahead())),
            holds_still(
                old(self).offset(),
                final(self).offset(),
                consumed(grammar::boolean(old(self).ahead())),
            ),
    {
        let t = self.eat(Token::Bool(true))?;
        Ok(Factor::boolean(t))
    }
}

/// The stream of a whole text: its first token, and all that follows. Where
/// the first token cannot be scanned there is none.
pub open spec fn opening(src: Source) -> Result<Seq<Lexeme>, SpecParseError> {
    match step(src, Cursor { pos: 0, curr: no_token() }) {
        Ok(first) => Ok(stream_at(src, first)),
        Err(e) => Err(SpecParseError::Lex(e)),
    }
}

/// The stream of a parser that has scanned nothing: the end marker, at
/// offset zero.
pub open spec fn unopened() -> Seq<Lexeme> {
    seq![Lexeme::Tok(no_token(), 0)]
}

/// The program that a text is, or the failure on which its parse ends.
pub open spec fn parse(src: Source) -> Result<Seq<SpecFunction>, SpecParseError> {
    match opening(src) {
        Err(e) => Err(e),
        Ok(toks) => match grammar::program(toks) {
            Ok((program, _)) => Ok(program),
            Err(e) => Err(e),
        },
    }
}

/// The list `found` so far, on `done` tokens, joined with what `more` adds.
pub open spec fn joined<T>(found: Seq<T>, done: nat, more: Parsed<Seq<T>>) -> Parsed<Seq<T>> {
    match more {
        Ok((items, n)) => Ok((found + items, done + n)),
        Err(e) => Err(e),
    }
}

/// A list joined to nothing found yet is itself.
pub proof fn lemma_joined_start<T>(more: Parsed<Seq<T>>)
    ensures
        joined(Seq::empty(), 0, more) == more,
{
    match more {
        Ok((items, n)) => {
            assert(Seq::<T>::empty() + items =~= items);
        },
        Err(e) => {},
    }
}

/// An item found may be counted with what was found before it or with
/// what is found after it.
pub proof fn lemma_joined_step<T>(found: Seq<T>, done: nat, item: T, n: nat, more: Parsed<Seq<T>>)
    ensures
        joined(found, done, joined(seq![item], n, more)) == joined(
            found + seq![item],
            done + n,
            more,
        ),
{
    match more {
        Ok((items, k)) => {
            assert(found + (seq![item] + items) =~= (found + seq![item]) + items);
        },
        Err(e) => {},
    }
}

} // verus!
