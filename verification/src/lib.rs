//! A lexer and recursive-descent parser for a small procedural expression
//! language, and the line editor that supplies it with text.
//!
//! Every function here carries a contract that Verus proves. The grammar is
//! stated once, as pure functions over token streams in [`grammar`], and the
//! executable [`parser::Parser`] is proved to compute exactly those functions.
//! The scanning rules are stated in [`scan`], and [`lexer::Lexer`] is proved
//! to apply them. What the library takes on trust of the code it calls
//! stands in [`buffer`] and, for the standard library, in [`text`].
pub mod ast;
pub mod buffer;
pub mod editor;
pub mod error;
pub mod grammar;
pub mod io;
pub mod keywords;
pub mod laws;
pub mod lexer;
pub mod node;
pub mod numeral;
pub mod parser;
pub mod scan;
pub mod stream;
pub mod text;
pub mod token;
