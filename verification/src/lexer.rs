//! The lexer: a machine that scans a source text one token at a time, on
//! demand, by the rules of [`crate::scan`].
use vstd::prelude::*;
use vstd::slice::slice_subrange;
use vstd::utf8::encode_utf8;
use crate::error::{LexError, ParseError, Rule, SpecLexError, SpecParseError};
use crate::keywords::{reserved_words, KeywordTable};
use crate::numeral::{is_numeral, reads_as_number};
use crate::scan::{
    at_nul,
    lemma_numeral_end_bounds, lemma_scan_bounds, name_end, numeral_end, scan, scan_name,
    scan_number, scan_symbol, spaces_end, step, stream_at, tokens_from, tokens_stop, Cursor, Scan, Source,
};
use crate::stream::{cur, eat, peek, rest, Lexeme};
use crate::text::{
    byte_char, byte_is_name_byte, byte_is_name_start, byte_is_numeral_byte, bytes_text, is_space,
    text_of,
};
use crate::token::{same_kind, Op, SpecTokStruct, SpecToken, TokStruct, Token};

verus! {

/// A lexer over one source text.
///
/// It keeps the text, the radix in which it tells digits, the table of
/// reserved words, the offset up to which it has scanned, and the token it
/// scanned last: the current token.
pub struct Lexer {
    pos: usize,
    base: u32,
    curr: TokStruct,
    input: Vec<u8>,
    keywords: KeywordTable,
}

/// The token scanned and the offset at which it ends.
struct Scanned {
    token: TokStruct,
    end: usize,
}

impl Lexer {
    /// What this lexer scans.
    pub closed spec fn source(&self) -> Source {
        Source { text: self.input@, radix: self.base, keywords: self.keywords@ }
    }

    /// Where this lexer stands.
    pub closed spec fn cursor(&self) -> Cursor {
        Cursor { pos: self.pos as nat, curr: self.curr@ }
    }

    /// The stream that this lexer presents to a parser.
    pub open spec fn ahead(&self) -> Seq<Lexeme> {
        stream_at(self.source(), self.cursor())
    }

    /// A lexer over the empty text, with radix ten and the standard table of
    /// reserved words.
    pub fn new() -> (lexer: Lexer)
        ensures
            lexer.source() == (Source { text: Seq::empty(), radix: 10, keywords: reserved_words() }),
            lexer.cursor() == (Cursor { pos: 0, curr: SpecTokStruct { val: SpecToken::End, pos: 0 } }),
    {
        Lexer {
            pos: 0,
            base: 10,
            curr: TokStruct::new(Token::End, 0),
            input: Vec::new(),
            keywords: KeywordTable::new(),
        }
    }

    /// A lexer like a new one, but with the reserved words of `table`.
    pub fn with_keywords(table: &KeywordTable) -> (lexer: Lexer)
        ensures
            lexer.source() == (Source { text: Seq::empty(), radix: 10, keywords: table@ }),
            lexer.cursor() == (Cursor { pos: 0, curr: SpecTokStruct { val: SpecToken::End, pos: 0 } }),
    {
        Lexer {
            pos: 0,
            base: 10,
            curr: TokStruct::new(Token::End, 0),
            input: Vec::new(),
            keywords: table.duplicate(),
        }
    }

    /// The offset up to which the text has been scanned.
    pub fn get_pos(&self) -> (pos: usize)
        ensures
            pos == self.cursor().pos,
    {
        self.pos
    }

    /// Moves the scan position to `pos`. The current token stays.
    pub fn set_pos(&mut self, pos: usize)
        ensures
            final(self).source() == old(self).source(),
            final(self).cursor() == (Cursor { pos: pos as nat, curr: old(self).cursor().curr }),
    {
        self.pos = pos
    }

    /// The radix in which digits are told.
    pub fn get_base(&self) -> (base: u32)
        ensures
            base == self.source().radix,
    {
        self.base
    }

    /// A copy of the current token.
    pub fn get_curr(&self) -> (curr: TokStruct)
        ensures
            curr@ == self.cursor().curr,
    {
        self.curr.clone()
    }

    /// The current token.
    pub fn current(&self) -> (curr: &TokStruct)
        ensures
            curr@ == self.cursor().curr,
            curr@ == cur(self.ahead()),
    {
        &self.curr
    }

    /// Makes `curr` the current token. The scan position stays.
    pub fn set_curr(&mut self, curr: TokStruct)
        ensures
            final(self).source() == old(self).source(),
            final(self).cursor() == (Cursor { pos: old(self).cursor().pos, curr: curr@ }),
    {
        self.curr = curr
    }

    /// Sets the radix in which digits are told. The scan state stays.
    pub fn base(&mut self, base: u32) -> (lexer: &mut Lexer)
        ensures
            lexer.source() == (Source { radix: base, ..old(self).source() }),
            lexer.cursor() == old(self).cursor(),
            *final(self) == *final(lexer),
    {
        self.base = base;
        self
    }

    /// Binds a new source text, the bytes of `input`, and resets the scan
    /// state: offset zero, and no current token.
    pub fn input(&mut self, input: String) -> (lexer: &mut Lexer)
        ensures
            lexer.source() == (Source { text: encode_utf8(input@), ..old(self).source() }),
            lexer.cursor() == (Cursor { pos: 0, curr: SpecTokStruct { val: SpecToken::End, pos: 0 } }),
            *final(self) == *final(lexer),
    {
        self.input = input.as_str().as_bytes_vec();
        self.pos = 0;
        self.curr = TokStruct::new(Token::End, 0);
        self
    }

    /// The numeral that begins at `start`.
    fn number_at(&self, start: usize) -> (r: Result<Scanned, LexError>)
        requires
            start < self.input.len(),
        ensures
            match scan_number(self.source(), start as nat) {
                Scan::Token { token, start, end } => r matches Ok(s) && s.token@ == (SpecTokStruct {
                    val: token,
                    pos: start,
                }) && s.end == end,
                Scan::Fault(e) => r matches Err(x) && x@ == e,
            },
    {
        let mut end: usize = start;
        while end < self.input.len() && byte_is_numeral_byte(self.input[end], self.base)
            invariant
                start <= end <= self.input.len(),
                numeral_end(self.input@, start as nat, self.base) == numeral_end(
                    self.input@,
                    end as nat,
                    self.base,
                ),
            decreases self.input.len() - end,
        {
            end += 1;
        }
        let lexeme = slice_subrange(self.input.as_slice(), start, end);
        let text = text_of(&self.input, start, end);
        if reads_as_number(lexeme) {
            Ok(Scanned { token: TokStruct::new(Token::Number(text), start), end })
        } else {
            Err(LexError::NumberFormat { text, position: start })
        }
    }

    /// The longest run of name characters that begins at `start`: its text
    /// and the offset at which it ends.
    fn name_run(&self, start: usize) -> (run: (String, usize))
        requires
            start <= self.input.len(),
        ensures
            run.1 == name_end(self.input@, start as nat),
            start <= run.1 <= self.input.len(),
            run.0@ == bytes_text(self.input@.subrange(start as int, run.1 as int)),
    {
        let mut end: usize = start;
        while end < self.input.len() && byte_is_name_byte(self.input[end])
            invariant
                start <= end <= self.input.len(),
                name_end(self.input@, start as nat) == name_end(self.input@, end as nat),
            decreases self.input.len() - end,
        {
            end += 1;
        }
        (text_of(&self.input, start, end), end)
    }

    /// The name that begins at `start`, as a keyword or an identifier.
    fn name_at(&self, start: usize) -> (s: Scanned)
        requires
            start <= self.input.len(),
        ensures
            scan_name(self.source(), start as nat) == (Scan::Token {
                token: s.token@.val,
                start: s.token@.pos,
                end: s.end as nat,
            }),
            s.token@.pos == start,
    {
        let (name, end) = self.name_run(start);
        Scanned { token: TokStruct::new(self.keywords.classify(name), start), end }
    }

    /// The operator at `start`.
    fn symbol_at(&self, start: usize) -> (r: Result<Scanned, LexError>)
        requires
            start < self.input.len(),
        ensures
            match scan_symbol(self.source(), start as nat, self.cursor().curr.val) {
                Scan::Token { token, start, end } => r matches Ok(s) && s.token@ == (SpecTokStruct {
                    val: token,
                    pos: start,
                }) && s.end == end,
                Scan::Fault(e) => r matches Err(x) && x@ == e,
            },
    {
        let b = self.input[start];
        if start + 1 < self.input.len() {
            let next = self.input[start + 1];
            let pair = if b == 0x2a && next == 0x2a {
                Some(Op::Pow)
            } else if b == 0x2f && next == 0x2f {
                Some(Op::IntDiv)
            } else if b == 0x26 && next == 0x26 {
                Some(Op::And)
            } else if b == 0x7c && next == 0x7c {
                Some(Op::Or_)
            } else if b == 0x21 && next == 0x3d {
                Some(Op::Neq)
            } else if b == 0x3d && next == 0x3d {
                Some(Op::Eq_)
            } else if b == 0x3e && next == 0x3d {
                Some(Op::Geq)
            } else if b == 0x3c && next == 0x3d {
                Some(Op::Leq)
            } else {
                None
            };
            if let Some(op) = pair {
                return Ok(
                    Scanned { token: TokStruct::new(Token::Operator(op), start), end: start + 2 },
                );
            }
        }
        let operand = match self.curr.val() {
            Token::Number(_) => true,
            Token::Var(_) => true,
            Token::Operator(Op::RParens) => true,
            _ => false,
        };
        let single = if b == 0x2b {
            Some(
                if operand {
                    Op::Add
                } else {
                    Op::Pos
                },
            )
        } else if b == 0x2d {
            Some(
                if operand {
                    Op::Sub
                } else {
                    Op::Neg
                },
            )
        } else if b == 0x2a {
            Some(Op::Mul)
        } else if b == 0x2f {
            Some(Op::Div)
        } else if b == 0x5e {
            Some(Op::BitXor)
        } else if b == 0x26 {
            Some(Op::BitAnd)
        } else if b == 0x7c {
            Some(Op::BitOr)
        } else if b == 0x7e {
            Some(Op::BitNot)
        } else if b == 0x21 {
            Some(Op::Not)
        } else if b == 0x25 {
            Some(Op::Mod)
        } else if b == 0x28 {
            Some(Op::LParens)
        } else if b == 0x29 {
            Some(Op::RParens)
        } else if b == 0x3d {
            Some(Op::Assign)
        } else if b == 0x3e {
            Some(Op::Gt_)
        } else if b == 0x3c {
            Some(Op::Lt_)
        } else if b == 0x0a || b == 0x3b {
            Some(Op::LineEnd)
        } else if b == 0x7b {
            Some(Op::BlockStart)
        } else if b == 0x7d {
            Some(Op::BlockEnd)
        } else if b == 0x2c {
            Some(Op::Comma)
        } else {
            None
        };
        match single {
            Some(op) => Ok(
                Scanned { token: TokStruct::new(Token::Operator(op), start), end: start + 1 },
            ),
            None => Err(LexError::UnexpectedCharacter { found: b as char, position: start }),
        }
    }

    /// Scans the token after the current one, and changes nothing.
    fn scan_ahead(&self) -> (r: Result<Scanned, LexError>)
        ensures
            match step(self.source(), self.cursor()) {
                Ok(next) => r matches Ok(s) && s.token@ == next.curr && s.end == next.pos,
                Err(e) => r matches Err(x) && x@ == e,
            },
    {
        let mut start: usize = self.pos;
        while start < self.input.len() && self.input[start] == 0x20
            invariant
                spaces_end(self.input@, self.pos as nat) == spaces_end(self.input@, start as nat),
            decreases self.input.len() - start,
        {
            start += 1;
        }
        if start >= self.input.len() {
            Ok(Scanned { token: TokStruct::new(Token::End, start), end: start })
        } else if byte_is_numeral_byte(self.input[start], self.base) {
            self.number_at(start)
        } else if byte_is_name_start(self.input[start]) {
            Ok(self.name_at(start))
        } else {
            self.symbol_at(start)
        }
    }

    /// Advances by one token: scans the next token, makes it the current
    /// one, and returns a copy of it, tagged with the offset at which it
    /// begins. Where scanning fails the lexer stays as it was.
    ///
    /// The scan position never moves backwards.
    pub fn get_next(&mut self) -> (r: Result<TokStruct, ParseError>)
        ensures
            final(self).source() == old(self).source(),
            final(self).cursor().pos >= old(self).cursor().pos,
            match step(old(self).source(), old(self).cursor()) {
                Ok(next) => r matches Ok(t) && t@ == next.curr && final(self).cursor() == next,
                Err(e) => r matches Err(x) && x@ == SpecParseError::Lex(e) && final(self).cursor()
                    == old(self).cursor(),
            },
    {
        proof {
            lemma_scan_bounds(self.source(), self.cursor().pos, self.cursor().curr.val);
        }
        match self.scan_ahead() {
            Ok(s) => {
                self.pos = s.end;
                self.curr = s.token.clone();
                Ok(s.token)
            },
            Err(e) => Err(ParseError::Lex(e)),
        }
    }

    /// The token after the current one. Nothing is consumed: the lexer stays
    /// as it is, so that asking twice gives the same token twice.
    pub fn peek_token(&self) -> (r: Result<TokStruct, ParseError>)
        ensures
            match step(self.source(), self.cursor()) {
                Ok(next) => r matches Ok(t) && t@ == next.curr,
                Err(e) => r matches Err(x) && x@ == SpecParseError::Lex(e),
            },
            !(self.cursor().curr.val is End) ==> match peek(self.ahead()) {
                Ok(t) => r matches Ok(x) && x@ == t,
                Err(e) => r matches Err(x) && x@ == e,
            },
    {
        match self.scan_ahead() {
            Ok(s) => Ok(s.token),
            Err(e) => Err(ParseError::Lex(e)),
        }
    }

    /// Starts over: scans the first token of the text from offset zero, as
    /// if nothing had been scanned before.
    pub fn reset(&mut self) -> (r: Result<(), ParseError>)
        ensures
            final(self).source() == old(self).source(),
            match step(
                old(self).source(),
                Cursor { pos: 0, curr: SpecTokStruct { val: SpecToken::End, pos: 0 } },
            ) {
                Ok(first) => r is Ok && final(self).cursor() == first,
                Err(e) => r matches Err(x) && x@ == SpecParseError::Lex(e) && final(self).cursor()
                    == (Cursor { pos: 0, curr: SpecTokStruct { val: SpecToken::End, pos: 0 } }),
            },
    {
        self.pos = 0;
        self.curr = TokStruct::new(Token::End, 0);
        match self.get_next() {
            Ok(_) => Ok(()),
            Err(e) => Err(e),
        }
    }

    /// Validates and consumes: where the current token is of the kind of
    /// `token`, whatever either carries, the lexer advances and the token
    /// that was current is returned. Otherwise the lexer stays as it was and
    /// the mismatch is reported with the offset of the current token.
    pub fn eat(&mut self, token: Token) -> (r: Result<TokStruct, ParseError>)
        ensures
            final(self).source() == old(self).source(),
            final(self).cursor().pos >= old(self).cursor().pos,
            if same_kind(old(self).cursor().curr.val, token@) {
                match step(old(self).source(), old(self).cursor()) {
                    Ok(next) => r matches Ok(t) && t@ == old(self).cursor().curr && final(self).cursor() == next,
                    Err(e) => r matches Err(x) && x@ == SpecParseError::Lex(e) && final(self).cursor() == old(self).cursor(),
                }
            } else {
                &&& r matches Err(x) && x@ == (SpecParseError::TokenMismatch {
                    expected: token@,
                    found: old(self).cursor().curr.val,
                    position: old(self).cursor().curr.pos,
                })
                &&& final(self).cursor() == old(self).cursor()
            },
            !(old(self).cursor().curr.val is End) ==> match eat(old(self).ahead(), token@) {
                Ok((t, n)) => r matches Ok(x) && x@ == t && final(self).ahead() == rest(
                    old(self).ahead(),
                    n,
                ),
                Err(e) => r matches Err(x) && x@ == e && final(self).ahead() == old(self).ahead(),
            },
    {
        if self.curr.val().is_kind_of(&token) {
            let eaten = self.curr.clone();
            proof {
                lemma_scan_bounds(self.source(), self.cursor().pos, self.cursor().curr.val);
            }
            match self.scan_ahead() {
                Ok(s) => {
                    self.pos = s.end;
                    self.curr = s.token;
                    assert(!(old(self).cursor().curr.val is End) ==> final(self).ahead() =~= rest(
                        old(self).ahead(),
                        1,
                    ));
                    Ok(eaten)
                },
                Err(e) => Err(ParseError::Lex(e)),
            }
        } else {
            Err(
                ParseError::TokenMismatch {
                    expected: token,
                    found: self.curr.get_val(),
                    position: self.curr.get_pos(),
                },
            )
        }
    }

    /// The character after the one at the scan position, where the text has
    /// one.
    pub fn peek(&self) -> (next: Option<char>)
        ensures
            next == next_char(self.source().text, self.cursor().pos),
    {
        if self.pos < self.input.len() && self.pos + 1 < self.input.len() {
            Some(self.input[self.pos + 1] as char)
        } else {
            None
        }
    }

    /// The last character before the scan position that is not a space, or
    /// the first character of the text where only spaces stand before the
    /// scan position. There is none where the scan position is at the start
    /// of the text or beyond its end.
    pub fn peek_back(&self) -> (prev: Option<char>)
        ensures
            prev == prev_char(self.source().text, self.cursor().pos),
    {
        if self.pos == 0 || self.pos > self.input.len() {
            return None;
        }
        let mut at: usize = self.pos - 1;
        while at > 0 && self.input[at] == 0x20
            invariant
                at < self.input.len(),
                back_stop(self.input@, (self.pos - 1) as nat) == back_stop(self.input@, at as nat),
            decreases at,
        {
            at -= 1;
        }
        Some(self.input[at] as char)
    }

    /// Scans a run of name characters at the scan position, which moves to
    /// the end of the run, and returns it as an identifier, reserved or not.
    /// The current token stays.
    pub fn get_var(&mut self) -> (tok: TokStruct)
        ensures
            final(self).source() == old(self).source(),
            final(self).cursor() == (Cursor {
                pos: name_end(old(self).source().text, old(self).cursor().pos),
                curr: old(self).cursor().curr,
            }),
            tok@ == (SpecTokStruct {
                val: SpecToken::Var(
                    lexeme(old(self).source().text, old(self).cursor().pos, final(self).cursor().pos),
                ),
                pos: old(self).cursor().pos,
            }),
    {
        let start = self.pos;
        if start <= self.input.len() {
            let (name, end) = self.name_run(start);
            self.pos = end;
            TokStruct::new(Token::Var(name), start)
        } else {
            assert(bytes_text(Seq::<u8>::empty()) =~= Seq::<char>::empty());
            TokStruct::new(Token::Var(String::new()), start)
        }
    }

    /// Scans a numeral at the scan position, which moves to its end. The
    /// current token stays. Where the text there is no numeral, nothing
    /// moves.
    pub fn get_number(&mut self) -> (r: Result<TokStruct, ParseError>)
        ensures
            final(self).source() == old(self).source(),
            final(self).cursor().curr == old(self).cursor().curr,
            ({
                let text = old(self).source().text;
                let pos = old(self).cursor().pos;
                let end = numeral_end(text, pos, old(self).source().radix);
                if is_numeral(lexeme_bytes(text, pos, end)) {
                    &&& r matches Ok(t)
                    &&& t@ == (SpecTokStruct {
                        val: SpecToken::Number(lexeme(text, pos, end)),
                        pos: pos,
                    })
                    &&& final(self).cursor().pos == end
                } else {
                    &&& r matches Err(x)
                    &&& x@ == SpecParseError::Lex(
                        SpecLexError::NumberFormat { text: lexeme(text, pos, end), position: pos },
                    )
                    &&& final(self).cursor().pos == pos
                }
            }),
    {
        let start = self.pos;
        proof {
            lemma_numeral_end_bounds(self.source().text, start as nat, self.source().radix);
        }
        if start < self.input.len() {
            match self.number_at(start) {
                Ok(s) => {
                    self.pos = s.end;
                    Ok(s.token)
                },
                Err(e) => Err(ParseError::Lex(e)),
            }
        } else {
            proof {
                let text = self.source().text;
                let bytes = lexeme_bytes(text, start as nat, start as nat);
                assert(bytes =~= Seq::<u8>::empty());
                assert(bytes_text(bytes) =~= Seq::<char>::empty());
                assert(!is_numeral(bytes));
            }
            Err(ParseError::Lex(LexError::NumberFormat { text: String::new(), position: start }))
        }
    }

    /// Scans a boolean literal at the scan position: the name `true` or the
    /// name `false`. The scan position moves to the end of the name and the
    /// current token stays. On any other name nothing moves.
    pub fn get_bool(&mut self) -> (r: Result<TokStruct, ParseError>)
        ensures
            final(self).source() == old(self).source(),
            final(self).cursor().curr == old(self).cursor().curr,
            ({
                let text = old(self).source().text;
                let pos = old(self).cursor().pos;
                let end = name_end(text, pos);
                let name = lexeme(text, pos, end);
                if name == "true"@ || name == "false"@ {
                    &&& r matches Ok(t)
                    &&& t@ == (SpecTokStruct { val: SpecToken::Bool(name == "true"@), pos: pos })
                    &&& final(self).cursor().pos == end
                } else {
                    &&& r matches Err(x)
                    &&& x@ == (SpecParseError::Grammar {
                        rule: Rule::Boolean,
                        found: SpecToken::Var(name),
                        position: pos,
                    })
                    &&& final(self).cursor().pos == pos
                }
            }),
    {
        let start = self.pos;
        let named = self.get_var();
        let name = match named.get_val() {
            Token::Var(name) => name,
            _ => String::new(),
        };
        if name == String::from_str("true") {
            Ok(TokStruct::new(Token::Bool(true), start))
        } else if name == String::from_str("false") {
            Ok(TokStruct::new(Token::Bool(false), start))
        } else {
            self.pos = start;
            Err(ParseError::Grammar { rule: Rule::Boolean, found: Token::Var(name), position: start })
        }
    }

    /// Whether a NUL byte stands at the scan position.
    fn on_nul(&self) -> (yes: bool)
        ensures
            yes == at_nul(self.source().text, self.cursor().pos),
    {
        self.pos < self.input.len() && self.input[self.pos] == 0
    }

    /// Scans on and returns the tokens met, up to a NUL byte at the scan
    /// position or to the end of the text. The lexer comes to stand before
    /// the NUL byte, or on the end marker, or, where scanning fails, on the
    /// last token before the fault.
    pub fn get_all(&mut self) -> (r: Result<Vec<Token>, ParseError>)
        ensures
            final(self).source() == old(self).source(),
            final(self).cursor() == tokens_stop(old(self).source(), old(self).cursor()),
            match tokens_from(
                old(self).source(),
                old(self).cursor().pos,
                old(self).cursor().curr.val,
            ) {
                Ok(tokens) => r matches Ok(v) && token_values(v@) == tokens,
                Err(e) => r matches Err(x) && x@ == SpecParseError::Lex(e),
            },
    {
        let mut toks: Vec<Token> = Vec::new();
        let ghost whole = tokens_from(self.source(), self.cursor().pos, self.cursor().curr.val);
        let ghost stop = tokens_stop(self.source(), self.cursor());
        loop
            invariant
                self.source() == old(self).source(),
                whole == tokens_from(
                    old(self).source(),
                    old(self).cursor().pos,
                    old(self).cursor().curr.val,
                ),
                stop == tokens_stop(old(self).source(), old(self).cursor()),
                stop == tokens_stop(self.source(), self.cursor()),
                whole == match tokens_from(
                    self.source(),
                    self.cursor().pos,
                    self.cursor().curr.val,
                ) {
                    Ok(more) => Ok(token_values(toks@) + more),
                    Err(e) => Err(e),
                },
            ensures
                self.source() == old(self).source(),
                self.cursor() == stop,
                match whole {
                    Ok(tokens) => token_values(toks@) == tokens,
                    Err(e) => false,
                },
            decreases self.source().text.len() - self.cursor().pos,
        {
            proof {
                lemma_scan_bounds(self.source(), self.cursor().pos, self.cursor().curr.val);
            }
            let ghost before = toks@;
            if self.on_nul() {
                assert(token_values(toks@) + Seq::<SpecToken>::empty() =~= token_values(toks@));
                break ;
            }
            let tok = self.get_next()?;
            if tok.val().is_kind_of(&Token::End) {
                assert(token_values(toks@) + Seq::<SpecToken>::empty() =~= token_values(toks@));
                break ;
            }
            toks.push(tok.get_val());
            assert(token_values(toks@) =~= token_values(before).push(tok@.val));
            assert forall|more: Seq<SpecToken>|
                token_values(before) + (seq![tok@.val] + more) == token_values(toks@)
                    + more by {
                assert(token_values(before) + (seq![tok@.val] + more) =~= token_values(toks@)
                    + more);
            }
        }
        Ok(toks)
    }
}

/// The character after the one at `pos`.
pub open spec fn next_char(text: Seq<u8>, pos: nat) -> Option<char> {
    if pos + 1 < text.len() {
        Some(byte_char(text[pos as int + 1]))
    } else {
        None
    }
}

/// The nearest offset at or before `from` that holds no space, or zero.
pub open spec fn back_stop(text: Seq<u8>, from: nat) -> nat
    decreases from,
{
    if from > 0 && from < text.len() && is_space(text[from as int]) {
        back_stop(text, (from - 1) as nat)
    } else {
        from
    }
}

/// The character that `Lexer::peek_back` finds.
pub open spec fn prev_char(text: Seq<u8>, pos: nat) -> Option<char> {
    if 0 < pos <= text.len() {
        Some(byte_char(text[back_stop(text, (pos - 1) as nat) as int]))
    } else {
        None
    }
}

/// The bytes of `text[from..to]`, or nothing where that is no part of the
/// text.
pub open spec fn lexeme_bytes(text: Seq<u8>, from: nat, to: nat) -> Seq<u8> {
    if from <= to <= text.len() {
        text.subrange(from as int, to as int)
    } else {
        Seq::empty()
    }
}

/// The text of `text[from..to]`.
pub open spec fn lexeme(text: Seq<u8>, from: nat, to: nat) -> Seq<char> {
    bytes_text(lexeme_bytes(text, from, to))
}

/// The values of a vector of tokens.
pub open spec fn token_values(tokens: Seq<Token>) -> Seq<SpecToken> {
    Seq::new(tokens.len(), |i: int| tokens[i]@)
}

} // verus!

