//! The table of reserved words.
use vstd::prelude::*;
use crate::token::Token;

verus! {

/// The reserved words of the language, in the order of the standard table.
pub open spec fn reserved_words() -> Seq<Seq<char>> {
    seq![
        "state"@,
        "if"@,
        "else"@,
        "elif"@,
        "return"@,
        "write"@,
        "read"@,
        "for"@,
        "in"@,
        "array"@,
        "fn"@,
    ]
}

/// An immutable set of reserved words. A lexer consults it once for every
/// identifier that it scans.
pub struct KeywordTable {
    words: Vec<String>,
}

impl View for KeywordTable {
    type V = Seq<Seq<char>>;

    closed spec fn view(&self) -> Seq<Seq<char>> {
        Seq::new(self.words.len() as nat, |i: int| self.words[i]@)
    }
}

impl KeywordTable {
    /// The standard table.
    pub fn new() -> (table: KeywordTable)
        ensures
            table@ == reserved_words(),
    {
        let mut words: Vec<String> = Vec::new();
        words.push(String::from_str("state"));
        words.push(String::from_str("if"));
        words.push(String::from_str("else"));
        words.push(String::from_str("elif"));
        words.push(String::from_str("return"));
        words.push(String::from_str("write"));
        words.push(String::from_str("read"));
        words.push(String::from_str("for"));
        words.push(String::from_str("in"));
        words.push(String::from_str("array"));
        words.push(String::from_str("fn"));
        let table = KeywordTable { words };
        assert(table@ =~= reserved_words());
        table
    }

    /// Whether `name` is reserved. The comparison is exact: case matters.
    pub fn contains(&self, name: &String) -> (found: bool)
        ensures
            found == self@.contains(name@),
    {
        let mut i: usize = 0;
        while i < self.words.len()
            invariant
                0 <= i <= self.words.len(),
                forall|j: int| 0 <= j < i ==> self@[j] != name@,
            decreases self.words.len() - i,
        {
            if self.words[i] == *name {
                assert(self@[i as int] == name@);
                return true;
            }
            i += 1;
        }
        false
    }

    /// The token for a scanned name: the keyword token where the name is
    /// reserved, the identifier token where it is not.
    pub fn classify(&self, name: String) -> (token: Token)
        ensures
            token@ == classify_name(self@, name@),
    {
        if self.contains(&name) {
            Token::KeyWord(name)
        } else {
            Token::Var(name)
        }
    }

    /// A copy of the table.
    pub fn duplicate(&self) -> (copy: KeywordTable)
        ensures
            copy@ == self@,
    {
        let mut words: Vec<String> = Vec::new();
        let mut i: usize = 0;
        while i < self.words.len()
            invariant
                0 <= i <= self.words.len(),
                words.len() == i,
                forall|j: int| 0 <= j < i ==> words[j]@ == self.words[j]@,
            decreases self.words.len() - i,
        {
            words.push(self.words[i].clone());
            i += 1;
        }
        let copy = KeywordTable { words };
        assert(copy@ =~= self@);
        copy
    }
}

/// Keyword classification takes precedence over identifier classification:
/// a name in the table is a keyword, and only a name outside it is an
/// identifier.
pub open spec fn classify_name(table: Seq<Seq<char>>, name: Seq<char>) -> crate::token::SpecToken {
    if table.contains(name) {
        crate::token::SpecToken::KeyWord(name)
    } else {
        crate::token::SpecToken::Var(name)
    }
}

} // verus!
