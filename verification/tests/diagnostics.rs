use minilang::ast::{ArgList, Expr, Factor, FnCall, Program, Scope, Statement};
use minilang::error::{LexError, ParseError, Rule};
use minilang::parser::Parser;
use minilang::token::{Op, TokStruct, Token};

fn num(text: &str) -> Token {
    Token::Number(text.to_string())
}

fn var(text: &str) -> Token {
    Token::Var(text.to_string())
}

fn word(text: &str) -> Token {
    Token::KeyWord(text.to_string())
}

fn op(o: Op) -> Token {
    Token::Operator(o)
}

#[test]
fn tokens_of_the_same_variant_are_of_the_same_kind() {
    assert!(num("1").is_kind_of(&num("2.5")));
    assert!(var("a").is_kind_of(&var("")));
    assert!(op(Op::Add).is_kind_of(&op(Op::RParens)));
    assert!(word("if").is_kind_of(&word("fn")));
    assert!(Token::Bool(true).is_kind_of(&Token::Bool(false)));
    assert!(Token::End.is_kind_of(&Token::End));
    assert!(Token::Other('a').is_kind_of(&Token::Other('b')));
    assert!(Token::Good.is_kind_of(&Token::Good));
    assert!(Token::Bad.is_kind_of(&Token::Bad));
    assert!(!num("1").is_kind_of(&var("1")));
    assert!(!var("if").is_kind_of(&word("if")));
    assert!(!op(Op::Add).is_kind_of(&Token::End));
    assert!(!Token::Good.is_kind_of(&Token::Bad));
    assert!(!Token::End.is_kind_of(&Token::Other(' ')));
}

#[test]
fn equality_of_tokens() {
    assert!(num("1") == num("1"));
    assert!(num("1") != num("1.0"));
    assert!(var("a") == var("a"));
    assert!(var("a") != var("b"));
    assert!(word("if") == word("if"));
    assert!(word("if") != word("fn"));
    assert!(var("if") != word("if"));
    assert!(Token::Bool(true) == Token::Bool(true));
    assert!(Token::Bool(true) != Token::Bool(false));
    assert!(op(Op::Add) == op(Op::Add));
    assert!(op(Op::Add) != op(Op::Sub));
    assert!(Token::Good == Token::Good);
    assert!(Token::Bad == Token::Bad);
    assert!(Token::Good != Token::Bad);
}

#[test]
fn the_wildcard_operator_equals_every_operator_from_the_left() {
    assert!(op(Op::Any) == op(Op::Add));
    assert!(op(Op::Any) == op(Op::LineEnd));
    assert!(op(Op::Any) == op(Op::Any));
    assert!(op(Op::Add) != op(Op::Any));
    assert!(op(Op::Any) != num("1"));
    assert!(op(Op::Any) != Token::End);
}

#[test]
fn the_end_marker_and_unknown_characters_equal_nothing() {
    assert!(Token::End != Token::End);
    assert!(Token::End != num("1"));
    assert!(num("1") != Token::End);
    assert!(Token::Other('x') != Token::Other('x'));
}

#[test]
fn unwrapping_tokens() {
    assert_eq!(var("name").unwrap_as_string(), Some("name".to_string()));
    assert_eq!(num("1").unwrap_as_string(), None);
    assert_eq!(word("if").unwrap_as_string(), None);
    assert_eq!(op(Op::Pow).unwrap_as_op(), Some(Op::Pow));
    assert_eq!(var("x").unwrap_as_op(), None);
    assert_eq!(Token::End.unwrap_as_op(), None);
    assert!(op(Op::Comma).is_op(Op::Comma));
    assert!(!op(Op::Comma).is_op(Op::Any));
    assert!(!var("x").is_op(Op::Comma));
}

#[test]
fn positioned_tokens() {
    let t = TokStruct::new(var("x"), 12);
    assert!(t.get_val() == var("x"));
    assert!(*t.val() == var("x"));
    assert_eq!(t.get_pos(), 12);
    let c = t.clone();
    assert!(c.get_val() == var("x"));
    assert_eq!(c.get_pos(), 12);
    let d = TokStruct::default();
    assert!(matches!(d.get_val(), Token::End));
    assert_eq!(d.get_pos(), 0);
    let n = num("4.5").clone();
    assert!(n == num("4.5"));
}

#[test]
fn tokens_as_text() {
    assert_eq!(num("1.50").to_text(), "1.50");
    assert_eq!(var("speed").to_text(), "speed");
    assert_eq!(op(Op::Add).to_text(), "Add");
    assert_eq!(op(Op::IntDiv).to_text(), "IntDiv");
    assert_eq!(op(Op::Eq_).to_text(), "Eq_");
    assert_eq!(op(Op::LineEnd).to_text(), "LineEnd");
    assert_eq!(Token::Bool(true).to_text(), "Bool(true)");
    assert_eq!(Token::Bool(false).to_text(), "Bool(false)");
    assert_eq!(Token::Other('?').to_text(), "Other(?)");
    assert_eq!(Token::Good.to_text(), "Good");
    assert_eq!(Token::Bad.to_text(), "Bad");
    assert_eq!(word("elif").to_text(), "KeyWord(elif)");
    assert_eq!(Token::End.to_text(), "End");
}

#[test]
fn every_operator_has_its_name() {
    let all = [
        Op::Add, Op::Sub, Op::Mul, Op::Div, Op::IntDiv, Op::Mod, Op::Pow, Op::Pos, Op::Neg, Op::Eq_,
        Op::Gt_, Op::Lt_, Op::Geq, Op::Leq, Op::Neq, Op::And, Op::Or_, Op::Not, Op::BitAnd,
        Op::BitOr, Op::BitNot, Op::BitXor, Op::LLS, Op::LRS, Op::ARS, Op::Assign, Op::Comma,
        Op::LParens, Op::RParens, Op::BlockStart, Op::BlockEnd, Op::LineEnd, Op::Any,
    ];
    for o in all {
        assert_eq!(o.name(), format!("{:?}", o));
    }
}

#[test]
fn messages_of_scanner_faults() {
    let e = ParseError::Lex(LexError::NumberFormat { text: "1.2.3".to_string(), position: 14 });
    assert_eq!(e.message(), "Lexer error at position 14! 1.2.3 is not a number!");
    assert_eq!(e.position(), 14);
    let e = ParseError::Lex(LexError::UnexpectedCharacter { found: '@', position: 0 });
    assert_eq!(e.message(), "get_next: Expected an operator, but got \"@\" at position 0!");
    assert_eq!(e.position(), 0);
    let e = ParseError::Lex(LexError::UnterminatedScan { found: '*', position: 7 });
    assert_eq!(e.message(), "get_next: The input ends after \"*\" at position 7!");
    assert_eq!(e.position(), 7);
}

#[test]
fn messages_of_parser_failures() {
    let e = ParseError::TokenMismatch { expected: op(Op::RParens), found: Token::End, position: 5 };
    assert_eq!(e.message(), "eat: Expected RParens, but got End at position 5!");
    assert_eq!(e.position(), 5);
    let e = ParseError::TokenMismatch { expected: var(""), found: num("12"), position: 120 };
    assert_eq!(e.message(), "eat: Expected , but got 12 at position 120!");
    let e = ParseError::Grammar { rule: Rule::Factor, found: op(Op::Comma), position: 3 };
    assert_eq!(e.message(), "factor: Did not expect Comma at position 3!");
    assert_eq!(e.position(), 3);
    for (rule, name) in [
        (Rule::Factor, "factor"),
        (Rule::ListItem, "arg_list"),
        (Rule::Separator, "arg_list"),
        (Rule::Statement, "statement"),
        (Rule::Keyword, "statement"),
        (Rule::BoolFactor, "bool_factor"),
        (Rule::RelationalFactor, "relational_factor"),
        (Rule::CallSeparator, "fn_call"),
        (Rule::Boolean, "get_bool"),
    ] {
        assert_eq!(rule.name(), name);
        let e = ParseError::Grammar { rule, found: word("for"), position: 1 };
        assert_eq!(e.message(), format!("{}: Did not expect KeyWord(for) at position 1!", name));
    }
}

#[test]
fn the_message_of_a_real_failure() {
    let mut p = Parser::new();
    p.input("(1 + ".to_string());
    p.reset().unwrap();
    let e = p.expr().unwrap_err();
    assert_eq!(e.message(), "eat: Expected RParens, but got End at position 5!");
    let copy = e.clone();
    assert_eq!(copy.message(), e.message());
    let mut p = Parser::new();
    p.input("fn f() { x = 3 # }".to_string());
    let e = p.eval().unwrap_err();
    assert_eq!(e.message(), "get_next: Expected an operator, but got \"#\" at position 15!");
}

#[test]
fn nodes_are_built_from_their_parts() {
    let x = TokStruct::new(var("x"), 0);
    let one = TokStruct::new(num("1"), 4);
    let e = Expr::binary(Expr::leaf(Factor::symbol(x)), Expr::leaf(Factor::float(one)), Op::Add);
    match &e {
        Expr::Binary { left, right, op } => {
            assert_eq!(*op, Op::Add);
            assert!(matches!(&**left, Expr::Factor(f) if matches!(&**f, Factor::Symbol(_))));
            assert!(matches!(&**right, Expr::Factor(f) if matches!(&**f, Factor::Float(_))));
        }
        other => panic!("built {:?}", other),
    }
    let n = Expr::unary(e, Op::Neg);
    assert!(matches!(&n, Expr::Unary { op: Op::Neg, .. }));
    assert!(matches!(Factor::empty(), Factor::Empty));
    assert!(matches!(Factor::boolean(TokStruct::new(Token::Bool(true), 0)), Factor::Bool(_)));
    let c = FnCall::new(TokStruct::new(var("f"), 0), ArgList::default());
    assert!(c.args.argv.is_empty());
    let mut f = Factor::call(c);
    f.as_fn_call().unwrap().args.argv.push(n);
    match &f {
        Factor::FnCall(c) => assert_eq!(c.args.argv.len(), 1),
        other => panic!("built {:?}", other),
    }
    assert!(Factor::empty().as_fn_call().is_none());
    assert!(matches!(Statement::of_expr(Expr::leaf(Factor::empty())), Statement::Expr(_)));
    assert!(matches!(Statement::block(Scope::default()), Statement::Scope(s) if s.contents.is_empty()));
    assert!(matches!(
        Statement::returning(Expr::leaf(Factor::empty())),
        Statement::Return { .. }
    ));
    assert!(Program::default().content.is_empty());
    assert!(FnCall::default().args.argv.is_empty());
    assert!(matches!(FnCall::default().name.get_val(), Token::End));
}
