//! The token model: operator kinds, tokens, and tokens tagged with their
//! source offset.
use vstd::prelude::*;
use vstd::std_specs::cmp::PartialEqSpecImpl;

verus! {

/// Operator kinds known to the language.
#[derive(Clone, Copy, Debug, PartialEq, Eq, Hash, Structural)]
pub enum Op {
    Add,
    Sub,
    Mul,
    Div,
    IntDiv,
    Mod,
    Pow,
    Pos,
    Neg,
    Eq_,
    Gt_,
    Lt_,
    Geq,
    Leq,
    Neq,
    And,
    Or_,
    Not,
    BitAnd,
    BitOr,
    BitNot,
    BitXor,
    LLS,
    LRS,
    ARS,
    Assign,
    Comma,
    LParens,
    RParens,
    BlockStart,
    BlockEnd,
    LineEnd,
    /// Wildcard: as the left operand of a token comparison it equals every
    /// operator token.
    Any,
}

/// A lexical token.
///
/// A numeric literal carries its numeral exactly as it stands in the source;
/// the scanner only admits text that reads as a decimal floating-point
/// literal, so turning it into a machine number is left to the caller.
#[derive(Debug)]
pub enum Token {
    Number(String),
    Bool(bool),
    Operator(Op),
    Var(String),
    Other(char),
    Good,
    Bad,
    KeyWord(String),
    /// The end-of-input marker; also the current token of a lexer that has
    /// not scanned anything yet.
    End,
}

/// The mathematical value of a [`Token`]: the same variants, with text as a
/// sequence of characters.
pub enum SpecToken {
    Number(Seq<char>),
    Bool(bool),
    Operator(Op),
    Var(Seq<char>),
    Other(char),
    Good,
    Bad,
    KeyWord(Seq<char>),
    End,
}

impl View for Token {
    type V = SpecToken;

    open spec fn view(&self) -> SpecToken {
        match self {
            Token::Number(s) => SpecToken::Number(s@),
            Token::Bool(b) => SpecToken::Bool(*b),
            Token::Operator(o) => SpecToken::Operator(*o),
            Token::Var(s) => SpecToken::Var(s@),
            Token::Other(c) => SpecToken::Other(*c),
            Token::Good => SpecToken::Good,
            Token::Bad => SpecToken::Bad,
            Token::KeyWord(s) => SpecToken::KeyWord(s@),
            Token::End => SpecToken::End,
        }
    }
}

/// Two tokens are of the same kind when they are the same variant, whatever
/// they carry: every operator is of the kind of every other operator.
pub open spec fn same_kind(a: SpecToken, b: SpecToken) -> bool {
    match (a, b) {
        (SpecToken::Number(_), SpecToken::Number(_)) => true,
        (SpecToken::Bool(_), SpecToken::Bool(_)) => true,
        (SpecToken::Operator(_), SpecToken::Operator(_)) => true,
        (SpecToken::Var(_), SpecToken::Var(_)) => true,
        (SpecToken::Other(_), SpecToken::Other(_)) => true,
        (SpecToken::Good, SpecToken::Good) => true,
        (SpecToken::Bad, SpecToken::Bad) => true,
        (SpecToken::KeyWord(_), SpecToken::KeyWord(_)) => true,
        (SpecToken::End, SpecToken::End) => true,
        _ => false,
    }
}

/// What `==` means on tokens. It is deliberately not an equivalence: the
/// wildcard operator on the left equals every operator, while the end marker
/// and unrecognised characters equal nothing, themselves included.
///
/// A number token holds its numeral as text, and two number tokens are
/// equal where their texts are: `1` and `1.0` differ, and so do `.5` and
/// `0.5`, though each pair reads as one value. To compare values, read the
/// texts as numbers first.
pub open spec fn token_eq(a: SpecToken, b: SpecToken) -> bool {
    match (a, b) {
        (SpecToken::Number(x), SpecToken::Number(y)) => x == y,
        (SpecToken::Bool(x), SpecToken::Bool(y)) => x == y,
        (SpecToken::Operator(Op::Any), SpecToken::Operator(_)) => true,
        (SpecToken::Operator(x), SpecToken::Operator(y)) => x == y,
        (SpecToken::Var(x), SpecToken::Var(y)) => x == y,
        (SpecToken::KeyWord(x), SpecToken::KeyWord(y)) => x == y,
        (SpecToken::Good, SpecToken::Good) => true,
        (SpecToken::Bad, SpecToken::Bad) => true,
        _ => false,
    }
}

impl Token {
    /// The name of an identifier token.
    pub fn unwrap_as_string(self) -> (name: Option<String>)
        ensures
            match self {
                Token::Var(v) => name == Some(v),
                _ => name is None,
            },
    {
        match self {
            Token::Var(v) => Some(v),
            _ => None,
        }
    }

    /// The operator kind of an operator token.
    pub fn unwrap_as_op(self) -> (op: Option<Op>)
        ensures
            match self {
                Token::Operator(o) => op == Some(o),
                _ => op is None,
            },
    {
        match self {
            Token::Operator(o) => Some(o),
            _ => None,
        }
    }

    /// Whether `self` and `other` are of the same kind.
    pub fn is_kind_of(&self, other: &Token) -> (same: bool)
        ensures
            same == same_kind(self@, other@),
    {
        match (self, other) {
            (Token::Number(_), Token::Number(_)) => true,
            (Token::Bool(_), Token::Bool(_)) => true,
            (Token::Operator(_), Token::Operator(_)) => true,
            (Token::Var(_), Token::Var(_)) => true,
            (Token::Other(_), Token::Other(_)) => true,
            (Token::Good, Token::Good) => true,
            (Token::Bad, Token::Bad) => true,
            (Token::KeyWord(_), Token::KeyWord(_)) => true,
            (Token::End, Token::End) => true,
            _ => false,
        }
    }

    /// Whether this is the operator token of kind `op`.
    pub fn is_op(&self, op: Op) -> (yes: bool)
        ensures
            yes == (self@ == SpecToken::Operator(op)),
    {
        match self {
            Token::Operator(o) => *o == op,
            _ => false,
        }
    }
}

impl Clone for Token {
    fn clone(&self) -> (copy: Token)
        ensures
            copy == *self,
    {
        match self {
            Token::Number(s) => Token::Number(s.clone()),
            Token::Bool(b) => Token::Bool(*b),
            Token::Operator(o) => Token::Operator(*o),
            Token::Var(s) => Token::Var(s.clone()),
            Token::Other(c) => Token::Other(*c),
            Token::Good => Token::Good,
            Token::Bad => Token::Bad,
            Token::KeyWord(s) => Token::KeyWord(s.clone()),
            Token::End => Token::End,
        }
    }
}

impl PartialEq for Token {
    fn eq(&self, other: &Token) -> (equal: bool) {
        match (self, other) {
            (Token::Number(x), Token::Number(y)) => *x == *y,
            (Token::Bool(x), Token::Bool(y)) => *x == *y,
            (Token::Operator(Op::Any), Token::Operator(_)) => true,
            (Token::Operator(x), Token::Operator(y)) => *x == *y,
            (Token::Var(x), Token::Var(y)) => *x == *y,
            (Token::KeyWord(x), Token::KeyWord(y)) => *x == *y,
            (Token::Good, Token::Good) => true,
            (Token::Bad, Token::Bad) => true,
            _ => false,
        }
    }
}

impl PartialEqSpecImpl for Token {
    open spec fn obeys_eq_spec() -> bool {
        true
    }

    open spec fn eq_spec(&self, other: &Token) -> bool {
        token_eq(self@, other@)
    }
}

impl Eq for Token {

}

/// A token together with the byte offset in the source at which it begins.
#[derive(Debug)]
pub struct TokStruct {
    val: Token,
    pos: usize,
}

/// The mathematical value of a [`TokStruct`].
pub struct SpecTokStruct {
    pub val: SpecToken,
    pub pos: nat,
}

impl View for TokStruct {
    type V = SpecTokStruct;

    closed spec fn view(&self) -> SpecTokStruct {
        SpecTokStruct { val: self.val@, pos: self.pos as nat }
    }
}

impl TokStruct {
    /// The token `t` at the offset `p`.
    pub fn new(t: Token, p: usize) -> (tok: TokStruct)
        ensures
            tok@ == (SpecTokStruct { val: t@, pos: p as nat }),
    {
        TokStruct { val: t, pos: p }
    }

    /// A copy of the token.
    pub fn get_val(&self) -> (val: Token)
        ensures
            val@ == self@.val,
    {
        self.val.clone()
    }

    /// The token itself, without copying it.
    pub fn val(&self) -> (val: &Token)
        ensures
            val@ == self@.val,
    {
        &self.val
    }

    /// The offset at which the token begins.
    pub fn get_pos(&self) -> (pos: usize)
        ensures
            pos == self@.pos,
    {
        self.pos
    }
}

impl Clone for TokStruct {
    fn clone(&self) -> (copy: TokStruct)
        ensures
            copy == *self,
    {
        TokStruct { val: self.val.clone(), pos: self.pos }
    }
}

impl Default for TokStruct {
    /// The end marker at offset zero.
    fn default() -> (tok: TokStruct)
        ensures
            tok@ == (SpecTokStruct { val: SpecToken::End, pos: 0 }),
    {
        TokStruct { val: Token::End, pos: 0 }
    }
}

/// The name of an operator kind.
pub open spec fn op_text(op: Op) -> Seq<char> {
    match op {
        Op::Add => "Add"@,
        Op::Sub => "Sub"@,
        Op::Mul => "Mul"@,
        Op::Div => "Div"@,
        Op::IntDiv => "IntDiv"@,
        Op::Mod => "Mod"@,
        Op::Pow => "Pow"@,
        Op::Pos => "Pos"@,
        Op::Neg => "Neg"@,
        Op::Eq_ => "Eq_"@,
        Op::Gt_ => "Gt_"@,
        Op::Lt_ => "Lt_"@,
        Op::Geq => "Geq"@,
        Op::Leq => "Leq"@,
        Op::Neq => "Neq"@,
        Op::And => "And"@,
        Op::Or_ => "Or_"@,
        Op::Not => "Not"@,
        Op::BitAnd => "BitAnd"@,
        Op::BitOr => "BitOr"@,
        Op::BitNot => "BitNot"@,
        Op::BitXor => "BitXor"@,
        Op::LLS => "LLS"@,
        Op::LRS => "LRS"@,
        Op::ARS => "ARS"@,
        Op::Assign => "Assign"@,
        Op::Comma => "Comma"@,
        Op::LParens => "LParens"@,
        Op::RParens => "RParens"@,
        Op::BlockStart => "BlockStart"@,
        Op::BlockEnd => "BlockEnd"@,
        Op::LineEnd => "LineEnd"@,
        Op::Any => "Any"@,
    }
}

/// A token as it is shown in a diagnostic: a number as its numeral, a name
/// as itself, an operator as the name of its kind, and anything else as the
/// name of its variant, with what it carries in parentheses.
pub open spec fn token_text(t: SpecToken) -> Seq<char> {
    match t {
        SpecToken::Number(s) => s,
        SpecToken::Var(s) => s,
        SpecToken::Operator(op) => op_text(op),
        SpecToken::Bool(true) => "Bool(true)"@,
        SpecToken::Bool(false) => "Bool(false)"@,
        SpecToken::Other(c) => "Other("@.push(c) + ")"@,
        SpecToken::Good => "Good"@,
        SpecToken::Bad => "Bad"@,
        SpecToken::KeyWord(s) => "KeyWord("@ + s + ")"@,
        SpecToken::End => "End"@,
    }
}

impl Op {
    /// The name of this operator kind.
    pub fn name(self) -> (name: &'static str)
        ensures
            name@ == op_text(self),
    {
        match self {
            Op::Add => "Add",
            Op::Sub => "Sub",
            Op::Mul => "Mul",
            Op::Div => "Div",
            Op::IntDiv => "IntDiv",
            Op::Mod => "Mod",
            Op::Pow => "Pow",
            Op::Pos => "Pos",
            Op::Neg => "Neg",
            Op::Eq_ => "Eq_",
            Op::Gt_ => "Gt_",
            Op::Lt_ => "Lt_",
            Op::Geq => "Geq",
            Op::Leq => "Leq",
            Op::Neq => "Neq",
            Op::And => "And",
            Op::Or_ => "Or_",
            Op::Not => "Not",
            Op::BitAnd => "BitAnd",
            Op::BitOr => "BitOr",
            Op::BitNot => "BitNot",
            Op::BitXor => "BitXor",
            Op::LLS => "LLS",
            Op::LRS => "LRS",
            Op::ARS => "ARS",
            Op::Assign => "Assign",
            Op::Comma => "Comma",
            Op::LParens => "LParens",
            Op::RParens => "RParens",
            Op::BlockStart => "BlockStart",
            Op::BlockEnd => "BlockEnd",
            Op::LineEnd => "LineEnd",
            Op::Any => "Any",
        }
    }
}

impl Token {
    /// This token as it is shown in a diagnostic.
    pub fn to_text(&self) -> (text: String)
        ensures
            text@ == token_text(self@),
    {
        match self {
            Token::Number(s) => s.clone(),
            Token::Var(s) => s.clone(),
            Token::Operator(op) => String::from_str(op.name()),
            Token::Bool(true) => String::from_str("Bool(true)"),
            Token::Bool(false) => String::from_str("Bool(false)"),
            Token::Other(c) => {
                let mut text = String::from_str("Other(");
                crate::text::push_char(&mut text, *c);
                text.append(")");
                text
            },
            Token::Good => String::from_str("Good"),
            Token::Bad => String::from_str("Bad"),
            Token::KeyWord(s) => {
                let mut text = String::from_str("KeyWord(");
                text.append(s.as_str());
                text.append(")");
                text
            },
            Token::End => String::from_str("End"),
        }
    }
}

} // verus!
