//! What can go wrong while scanning and parsing. Every failure is final: it
//! ends the parse, and no partial tree is returned.
use vstd::prelude::*;
use crate::text::{decimal, push_char, render_decimal};
use crate::token::{token_text, SpecToken, Token};

verus! {

/// The grammar rule that met a token it has no production for.
#[derive(Clone, Copy, Debug, PartialEq, Eq, Structural)]
pub enum Rule {
    /// `factor`: none of a number, a name, `(`, `**`, a sign or the end.
    Factor,
    /// Where an item of a parenthesised list should begin.
    ListItem,
    /// After a comma of a list comes neither another item nor `)`.
    Separator,
    /// `statement`: the token starts none of its alternatives.
    Statement,
    /// `statement`: a reserved word that starts no statement.
    Keyword,
    /// `bool_factor`: neither a value, `(` nor `!`.
    BoolFactor,
    /// `relational_factor`: neither a value, `(` nor `!`.
    RelationalFactor,
    /// After an argument of a call: neither a comma nor `)`.
    CallSeparator,
    /// A boolean literal was expected: the name is neither `true` nor `false`.
    Boolean,
}

/// A failure of the scanner.
#[derive(Debug)]
pub enum LexError {
    /// The text at `position` is made of digits and points but is no numeral.
    NumberFormat { text: String, position: usize },
    /// The character at `position` starts no token.
    UnexpectedCharacter { found: char, position: usize },
    /// A scan that found no end. No scan of [`crate::lexer::Lexer`] fails in
    /// this way ([`crate::laws::law_every_scan_ends`]): an operator that
    /// stands last in the text is read in its one-character form.
    UnterminatedScan { found: char, position: usize },
}

/// A failure of the scanner or of the parser.
#[derive(Debug)]
pub enum ParseError {
    Lex(LexError),
    /// The current token, `found`, which begins at `position`, is not of the
    /// kind of `expected`.
    TokenMismatch { expected: Token, found: Token, position: usize },
    /// `rule` has no production for `found`, which begins at `position`.
    Grammar { rule: Rule, found: Token, position: usize },
}

/// The mathematical value of a [`LexError`].
pub enum SpecLexError {
    NumberFormat { text: Seq<char>, position: nat },
    UnexpectedCharacter { found: char, position: nat },
    UnterminatedScan { found: char, position: nat },
}

/// The mathematical value of a [`ParseError`].
pub enum SpecParseError {
    Lex(SpecLexError),
    TokenMismatch { expected: SpecToken, found: SpecToken, position: nat },
    Grammar { rule: Rule, found: SpecToken, position: nat },
}

impl View for LexError {
    type V = SpecLexError;

    open spec fn view(&self) -> SpecLexError {
        match self {
            LexError::NumberFormat { text, position } => SpecLexError::NumberFormat {
                text: text@,
                position: *position as nat,
            },
            LexError::UnexpectedCharacter { found, position } => SpecLexError::UnexpectedCharacter {
                found: *found,
                position: *position as nat,
            },
            LexError::UnterminatedScan { found, position } => SpecLexError::UnterminatedScan {
                found: *found,
                position: *position as nat,
            },
        }
    }
}

impl View for ParseError {
    type V = SpecParseError;

    open spec fn view(&self) -> SpecParseError {
        match self {
            ParseError::Lex(e) => SpecParseError::Lex(e@),
            ParseError::TokenMismatch { expected, found, position } => SpecParseError::TokenMismatch {
                expected: expected@,
                found: found@,
                position: *position as nat,
            },
            ParseError::Grammar { rule, found, position } => SpecParseError::Grammar {
                rule: *rule,
                found: found@,
                position: *position as nat,
            },
        }
    }
}

impl Clone for LexError {
    fn clone(&self) -> (copy: LexError)
        ensures
            copy == *self,
    {
        match self {
            LexError::NumberFormat { text, position } => LexError::NumberFormat {
                text: text.clone(),
                position: *position,
            },
            LexError::UnexpectedCharacter { found, position } => LexError::UnexpectedCharacter {
                found: *found,
                position: *position,
            },
            LexError::UnterminatedScan { found, position } => LexError::UnterminatedScan {
                found: *found,
                position: *position,
            },
        }
    }
}

impl Clone for ParseError {
    fn clone(&self) -> (copy: ParseError)
        ensures
            copy == *self,
    {
        match self {
            ParseError::Lex(e) => ParseError::Lex(e.clone()),
            ParseError::TokenMismatch { expected, found, position } => ParseError::TokenMismatch {
                expected: expected.clone(),
                found: found.clone(),
                position: *position,
            },
            ParseError::Grammar { rule, found, position } => ParseError::Grammar {
                rule: *rule,
                found: found.clone(),
                position: *position,
            },
        }
    }
}

impl ParseError {
    /// The source offset that the failure refers to.
    pub fn position(&self) -> (position: usize)
        ensures
            position == error_position(self@),
    {
        match self {
            ParseError::Lex(LexError::NumberFormat { position, .. }) => *position,
            ParseError::Lex(LexError::UnexpectedCharacter { position, .. }) => *position,
            ParseError::Lex(LexError::UnterminatedScan { position, .. }) => *position,
            ParseError::TokenMismatch { position, .. } => *position,
            ParseError::Grammar { position, .. } => *position,
        }
    }
}

/// The source offset that a failure refers to.
pub open spec fn error_position(e: SpecParseError) -> nat {
    match e {
        SpecParseError::Lex(SpecLexError::NumberFormat { position, .. }) => position,
        SpecParseError::Lex(SpecLexError::UnexpectedCharacter { position, .. }) => position,
        SpecParseError::Lex(SpecLexError::UnterminatedScan { position, .. }) => position,
        SpecParseError::TokenMismatch { position, .. } => position,
        SpecParseError::Grammar { position, .. } => position,
    }
}

/// The name under which a rule reports.
pub open spec fn rule_text(rule: Rule) -> Seq<char> {
    match rule {
        Rule::Factor => "factor"@,
        Rule::ListItem => "arg_list"@,
        Rule::Separator => "arg_list"@,
        Rule::Statement => "statement"@,
        Rule::Keyword => "statement"@,
        Rule::BoolFactor => "bool_factor"@,
        Rule::RelationalFactor => "relational_factor"@,
        Rule::CallSeparator => "fn_call"@,
        Rule::Boolean => "get_bool"@,
    }
}

/// The message of a failure, fit to be shown as it is.
pub open spec fn message_text(e: SpecParseError) -> Seq<char> {
    match e {
        SpecParseError::Lex(SpecLexError::NumberFormat { text, position }) => "Lexer error at position "@
            + decimal(position) + "! "@ + text + " is not a number!"@,
        SpecParseError::Lex(SpecLexError::UnexpectedCharacter { found, position }) => (
        "get_next: Expected an operator, but got \""@.push(found) + "\" at position "@) + decimal(
            position,
        ) + "!"@,
        SpecParseError::Lex(SpecLexError::UnterminatedScan { found, position }) => (
        "get_next: The input ends after \""@.push(found) + "\" at position "@) + decimal(position)
            + "!"@,
        SpecParseError::TokenMismatch { expected, found, position } => "eat: Expected "@
            + token_text(expected) + ", but got "@ + token_text(found) + " at position "@ + decimal(
            position,
        ) + "!"@,
        SpecParseError::Grammar { rule, found, position } => rule_text(rule) + ": Did not expect "@
            + token_text(found) + " at position "@ + decimal(position) + "!"@,
    }
}

impl Rule {
    /// The name under which this rule reports.
    pub fn name(self) -> (name: &'static str)
        ensures
            name@ == rule_text(self),
    {
        match self {
            Rule::Factor => "factor",
            Rule::ListItem => "arg_list",
            Rule::Separator => "arg_list",
            Rule::Statement => "statement",
            Rule::Keyword => "statement",
            Rule::BoolFactor => "bool_factor",
            Rule::RelationalFactor => "relational_factor",
            Rule::CallSeparator => "fn_call",
            Rule::Boolean => "get_bool",
        }
    }
}

impl ParseError {
    /// The message of this failure, fit to be shown as it is.
    pub fn message(&self) -> (text: String)
        ensures
            text@ == message_text(self@),
    {
        match self {
            ParseError::Lex(LexError::NumberFormat { text, position }) => {
                let mut m = String::from_str("Lexer error at position ");
                m.append(render_decimal(*position).as_str());
                m.append("! ");
                m.append(text.as_str());
                m.append(" is not a number!");
                m
            },
            ParseError::Lex(LexError::UnexpectedCharacter { found, position }) => {
                let mut m = String::from_str("get_next: Expected an operator, but got \"");
                push_char(&mut m, *found);
                m.append("\" at position ");
                m.append(render_decimal(*position).as_str());
                m.append("!");
                m
            },
            ParseError::Lex(LexError::UnterminatedScan { found, position }) => {
                let mut m = String::from_str("get_next: The input ends after \"");
                push_char(&mut m, *found);
                m.append("\" at position ");
                m.append(render_decimal(*position).as_str());
                m.append("!");
                m
            },
            ParseError::TokenMismatch { expected, found, position } => {
                let mut m = String::from_str("eat: Expected ");
                m.append(expected.to_text().as_str());
                m.append(", but got ");
                m.append(found.to_text().as_str());
                m.append(" at position ");
                m.append(render_decimal(*position).as_str());
                m.append("!");
                m
            },
            ParseError::Grammar { rule, found, position } => {
                let mut m = String::from_str(rule.name());
                m.append(": Did not expect ");
                m.append(found.to_text().as_str());
                m.append(" at position ");
                m.append(render_decimal(*position).as_str());
                m.append("!");
                m
            },
        }
    }
}

} // verus!
