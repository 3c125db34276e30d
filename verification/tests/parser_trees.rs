use minilang::ast::{ArgDeclList, ArgList, CondBlock, Expr, Factor, FnCall, Function, Program, Scope, Statement};
use minilang::error::{LexError, ParseError, Rule};
use minilang::parser::Parser;
use minilang::token::{Op, TokStruct, Token};

fn primed(text: &str) -> Parser {
    let mut p = Parser::new();
    p.input(text.to_string());
    p.reset().unwrap();
    p
}

fn tok(t: &TokStruct) -> String {
    match t.get_val() {
        Token::Number(s) => s,
        Token::Var(s) => s,
        Token::KeyWord(s) => format!("<{}>", s),
        Token::Bool(b) => format!("{}", b),
        other => format!("{:?}", other),
    }
}

fn factor(f: &Factor) -> String {
    match f {
        Factor::Int(t) => format!("int:{}", tok(t)),
        Factor::Float(t) => tok(t),
        Factor::String(t) => format!("str:{}", tok(t)),
        Factor::Symbol(t) => tok(t),
        Factor::Bool(t) => format!("bool:{}", tok(t)),
        Factor::FnCall(c) => call(c),
        Factor::Expr(e) => format!("[{}]", expr(e)),
        Factor::Empty => "_".to_string(),
    }
}

fn call(c: &FnCall) -> String {
    let args: Vec<String> = c.args.argv.iter().map(expr).collect();
    format!("{}({})", tok(&c.name), args.join(", "))
}

fn expr(e: &Expr) -> String {
    match e {
        Expr::Binary { left, right, op } => format!("({:?} {} {})", op, expr(left), expr(right)),
        Expr::Unary { right, op } => format!("({:?} {})", op, expr(right)),
        Expr::Factor(f) => factor(f),
    }
}

fn cond(c: &CondBlock) -> String {
    format!("{} => {}", expr(&c.cond), statement(&c.body))
}

fn scope(s: &Scope) -> String {
    let items: Vec<String> = s.contents.iter().map(statement).collect();
    format!("{{{}}}", items.join("; "))
}

fn statement(s: &Statement) -> String {
    match s {
        Statement::Expr(e) => expr(e),
        Statement::Assign { left, right } => format!("{} = {}", expr(left), expr(right)),
        Statement::Return { val } => format!("return {}", expr(val)),
        Statement::Branch { if_block, alt_blocks, else_block } => {
            let mut out = format!("if {}", cond(if_block));
            for b in alt_blocks {
                out.push_str(&format!(" elif {}", cond(b)));
            }
            if let Some(b) = else_block {
                out.push_str(&format!(" else {}", statement(b)));
            }
            out
        }
        Statement::FnDecl(f) => function(f),
        Statement::Scope(s) => scope(s),
    }
}

fn function(f: &Function) -> String {
    let args: Vec<String> = f.args.argv.iter().map(tok).collect();
    format!("fn {}({}) {}", tok(&f.name), args.join(", "), scope(&f.body))
}

fn program(p: &Program) -> String {
    let fs: Vec<String> = p.content.iter().map(function).collect();
    fs.join(" ")
}

fn parse_expr(text: &str) -> String {
    expr(&primed(text).expr().unwrap())
}

fn parse_statement(text: &str) -> String {
    statement(&primed(text).statement().unwrap())
}

fn parse_program(text: &str) -> String {
    let mut p = Parser::new();
    p.input(text.to_string());
    program(&p.eval().unwrap())
}

fn expr_error(text: &str) -> ParseError {
    primed(text).expr().unwrap_err()
}

fn statement_error(text: &str) -> ParseError {
    primed(text).statement().unwrap_err()
}

fn program_error(text: &str) -> ParseError {
    let mut p = Parser::new();
    p.input(text.to_string());
    p.eval().unwrap_err()
}

fn is_op(t: &Token, op: Op) -> bool {
    matches!(t, Token::Operator(o) if *o == op)
}

fn assert_grammar(e: ParseError, want: Rule, at: usize) {
    match e {
        ParseError::Grammar { rule, position, .. } => {
            assert_eq!(rule, want);
            assert_eq!(position, at);
        }
        other => panic!("failed with {:?}", other),
    }
}

#[test]
fn a_binary_operation_of_two_operands() {
    for (text, op) in [
        ("a + b", Op::Add),
        ("a - b", Op::Sub),
        ("a * b", Op::Mul),
        ("a / b", Op::Div),
        ("a // b", Op::IntDiv),
        ("a % b", Op::Mod),
        ("a ** b", Op::Pow),
    ] {
        match primed(text).expr().unwrap() {
            Expr::Binary { left, right, op: found } => {
                assert_eq!(found, op);
                assert_eq!(expr(&left), "a");
                assert_eq!(expr(&right), "b");
            }
            other => panic!("{:?} parsed to {:?}", text, other),
        }
    }
    assert_eq!(parse_expr("1 + 2"), "(Add 1 2)");
    assert_eq!(parse_expr("x * 2.5"), "(Mul x 2.5)");
}

#[test]
fn power_groups_to_the_right() {
    match primed("2 ** 3 ** 2").expr().unwrap() {
        Expr::Binary { left, right, op } => {
            assert_eq!(op, Op::Pow);
            assert_eq!(expr(&left), "2");
            match *right {
                Expr::Binary { left, right, op } => {
                    assert_eq!(op, Op::Pow);
                    assert_eq!(expr(&left), "3");
                    assert_eq!(expr(&right), "2");
                }
                other => panic!("right operand is {:?}", other),
            }
        }
        other => panic!("parsed {:?}", other),
    }
    assert_eq!(parse_expr("a ** b ** c ** d"), "(Pow a (Pow b (Pow c d)))");
}

#[test]
fn subtraction_groups_to_the_left() {
    match primed("8 - 3 - 2").expr().unwrap() {
        Expr::Binary { left, right, op } => {
            assert_eq!(op, Op::Sub);
            assert_eq!(expr(&right), "2");
            match *left {
                Expr::Binary { left, right, op } => {
                    assert_eq!(op, Op::Sub);
                    assert_eq!(expr(&left), "8");
                    assert_eq!(expr(&right), "3");
                }
                other => panic!("left operand is {:?}", other),
            }
        }
        other => panic!("parsed {:?}", other),
    }
    assert_eq!(parse_expr("a / b * c % d // e"), "(IntDiv (Mod (Mul (Div a b) c) d) e)");
    assert_eq!(parse_expr("a + b - c + d"), "(Add (Sub (Add a b) c) d)");
}

#[test]
fn multiplication_binds_tighter_than_addition() {
    match primed("1 + 2 * 3").expr().unwrap() {
        Expr::Binary { left, right, op } => {
            assert_eq!(op, Op::Add);
            assert_eq!(expr(&left), "1");
            match *right {
                Expr::Binary { left, right, op } => {
                    assert_eq!(op, Op::Mul);
                    assert_eq!(expr(&left), "2");
                    assert_eq!(expr(&right), "3");
                }
                other => panic!("right operand is {:?}", other),
            }
        }
        other => panic!("parsed {:?}", other),
    }
    assert_eq!(parse_expr("1 * 2 + 3"), "(Add (Mul 1 2) 3)");
    assert_eq!(parse_expr("a + b * c ** d"), "(Add a (Mul b (Pow c d)))");
    assert_eq!(parse_expr("a ** b * c + d"), "(Add (Mul (Pow a b) c) d)");
}

#[test]
fn a_sign_is_unary_and_an_operator_after_an_operand_is_binary() {
    match primed("-3 + -4").expr().unwrap() {
        Expr::Binary { left, right, op } => {
            assert_eq!(op, Op::Add);
            match *left {
                Expr::Unary { right, op } => {
                    assert_eq!(op, Op::Neg);
                    assert_eq!(expr(&right), "3");
                }
                other => panic!("left operand is {:?}", other),
            }
            match *right {
                Expr::Unary { right, op } => {
                    assert_eq!(op, Op::Neg);
                    assert_eq!(expr(&right), "4");
                }
                other => panic!("right operand is {:?}", other),
            }
        }
        other => panic!("parsed {:?}", other),
    }
    // After a factor the same character is the binary operator.
    assert_eq!(parse_expr("-3 - 4"), "(Sub (Neg 3) 4)");
    assert_eq!(parse_expr("3 -4"), "(Sub 3 4)");
    assert_eq!(parse_expr("+x"), "(Pos x)");
    assert_eq!(parse_expr("- - x"), "(Neg (Neg x))");
    assert_eq!(parse_expr("-(a + b)"), "(Neg (Add a b))");
    // A sign applies to the factor, not to the power.
    assert_eq!(parse_expr("-a ** b"), "(Pow (Neg a) b)");
    assert_eq!(parse_expr("a ** -b"), "(Pow a (Neg b))");
    assert_eq!(parse_expr("a * -b"), "(Mul a (Neg b))");
}

#[test]
fn parentheses_leave_no_node() {
    assert_eq!(parse_expr("(1)"), "1");
    assert_eq!(parse_expr("((a))"), "a");
    assert_eq!(parse_expr("(1 + 2) * 3"), "(Mul (Add 1 2) 3)");
    assert_eq!(parse_expr("a - (b - c)"), "(Sub a (Sub b c))");
    assert_eq!(parse_expr("(a ** b) ** c"), "(Pow (Pow a b) c)");
}

#[test]
fn an_unterminated_parenthesis_is_a_mismatch_at_the_end_of_the_text() {
    match expr_error("(1 + ") {
        ParseError::TokenMismatch { expected, found, position } => {
            assert!(is_op(&expected, Op::RParens));
            assert!(matches!(found, Token::End));
            assert_eq!(position, 5);
        }
        other => panic!("failed with {:?}", other),
    }
    match expr_error("(1 + 2") {
        ParseError::TokenMismatch { expected, found, position } => {
            assert!(is_op(&expected, Op::RParens));
            assert!(matches!(found, Token::End));
            assert_eq!(position, 6);
        }
        other => panic!("failed with {:?}", other),
    }
    match expr_error("(a b") {
        ParseError::TokenMismatch { expected, found, position } => {
            assert!(is_op(&expected, Op::RParens));
            assert!(matches!(found, Token::Var(ref n) if n == "b"));
            assert_eq!(position, 3);
        }
        other => panic!("failed with {:?}", other),
    }
}

#[test]
fn the_end_of_the_input_is_the_empty_leaf() {
    assert_eq!(parse_expr(""), "_");
    assert_eq!(parse_expr("   "), "_");
    assert_eq!(parse_expr("1 +"), "(Add 1 _)");
    assert_eq!(parse_expr("a * "), "(Mul a _)");
    assert_eq!(parse_expr("a *"), "(Mul a _)");
    assert_eq!(parse_expr("2 *"), "(Mul 2 _)");
    assert_eq!(parse_expr("a /"), "(Div a _)");
    let mut p = primed("");
    assert!(matches!(p.factor().unwrap(), Expr::Factor(f) if matches!(*f, Factor::Empty)));
    assert!(matches!(p.pow_factor().unwrap(), Expr::Factor(f) if matches!(*f, Factor::Empty)));
    assert!(matches!(p.term().unwrap(), Expr::Factor(f) if matches!(*f, Factor::Empty)));
}

#[test]
fn an_expression_stops_where_it_cannot_go_on() {
    let mut p = primed("a + b ) c");
    assert_eq!(expr(&p.expr().unwrap()), "(Add a b)");
    // The parser stands on what is left: `)` begins no factor, and the rule
    // that meets it fails and leaves it in place.
    for _ in 0..2 {
        match p.factor().unwrap_err() {
            ParseError::Grammar { rule, found, position } => {
                assert_eq!(rule, Rule::Factor);
                assert!(is_op(&found, Op::RParens));
                assert_eq!(position, 6);
            }
            other => panic!("failed with {:?}", other),
        }
    }
    // A term stops at `+`, which was scanned after an operand and is
    // binary: by itself it begins nothing.
    let mut p = primed("a * b + c");
    assert_eq!(expr(&p.term().unwrap()), "(Mul a b)");
    assert_grammar(p.expr().unwrap_err(), Rule::Factor, 6);
}

#[test]
fn a_stray_power_operator_is_passed_over() {
    assert_eq!(parse_expr("** 2"), "2");
    assert_eq!(parse_expr("** a ** b"), "(Pow a b)");
}

#[test]
fn factor_rejects_what_begins_no_factor() {
    assert_grammar(expr_error(")"), Rule::Factor, 0);
    assert_grammar(expr_error("a + )"), Rule::Factor, 4);
    assert_grammar(expr_error("* 2"), Rule::Factor, 0);
    assert_grammar(expr_error("if"), Rule::Factor, 0);
    assert_grammar(expr_error("2 * , 3"), Rule::Factor, 4);
    assert_grammar(expr_error("{"), Rule::Factor, 0);
    match expr_error("1 + }") {
        ParseError::Grammar { rule, found, position } => {
            assert_eq!(rule, Rule::Factor);
            assert!(is_op(&found, Op::BlockEnd));
            assert_eq!(position, 4);
        }
        other => panic!("failed with {:?}", other),
    }
}

#[test]
fn a_fault_of_the_scanner_ends_the_parse() {
    match expr_error("1 + @") {
        ParseError::Lex(LexError::UnexpectedCharacter { found, position }) => {
            assert_eq!(found, '@');
            assert_eq!(position, 4);
        }
        other => panic!("failed with {:?}", other),
    }
    match expr_error("a * 1.2.3") {
        ParseError::Lex(LexError::NumberFormat { text, position }) => {
            assert_eq!(text, "1.2.3");
            assert_eq!(position, 4);
        }
        other => panic!("failed with {:?}", other),
    }
    // The first token itself may be the fault.
    let mut p = Parser::new();
    p.input("$".to_string());
    assert!(matches!(
        p.reset().unwrap_err(),
        ParseError::Lex(LexError::UnexpectedCharacter { found: '$', position: 0 })
    ));
    assert!(matches!(
        p.eval().unwrap_err(),
        ParseError::Lex(LexError::UnexpectedCharacter { found: '$', position: 0 })
    ));
}

#[test]
fn a_name_before_a_parenthesis_is_a_call() {
    assert_eq!(parse_expr("f()"), "f()");
    assert_eq!(parse_expr("f(x)"), "f(x)");
    assert_eq!(parse_expr("f(x, 2, g(y))"), "f(x, 2, g(y))");
    assert_eq!(parse_expr("f((a + b), (c))"), "f((Add a b), c)");
    assert_eq!(parse_expr("f(x,)"), "f(x)");
    // An argument is an expression.
    assert_eq!(parse_expr("f(1 + 2)"), "f((Add 1 2))");
    assert_eq!(parse_expr("f(a * b, -c, 2 ** d)"), "f((Mul a b), (Neg c), (Pow 2 d))");
    assert_eq!(parse_expr("f(g(x + 1) - 1)"), "f((Sub g((Add x 1)) 1))");
    assert_eq!(parse_expr("1 + f(2) * 3"), "(Add 1 (Mul f(2) 3))");
    assert_eq!(parse_expr("f (x)"), "f(x)");
    match primed("max(a, 1)").factor().unwrap() {
        Expr::Factor(f) => match *f {
            Factor::FnCall(c) => {
                assert_eq!(tok(&c.name), "max");
                assert_eq!(c.name.get_pos(), 0);
                assert_eq!(c.args.argv.len(), 2);
            }
            other => panic!("factor is {:?}", other),
        },
        other => panic!("parsed {:?}", other),
    }
}

#[test]
fn a_name_alone_is_a_variable() {
    match primed("speed").factor().unwrap() {
        Expr::Factor(f) => match *f {
            Factor::Symbol(t) => {
                assert_eq!(tok(&t), "speed");
                assert_eq!(t.get_pos(), 0);
            }
            other => panic!("factor is {:?}", other),
        },
        other => panic!("parsed {:?}", other),
    }
    match primed("  42").factor().unwrap() {
        Expr::Factor(f) => match *f {
            Factor::Float(t) => {
                assert_eq!(tok(&t), "42");
                assert_eq!(t.get_pos(), 2);
            }
            other => panic!("factor is {:?}", other),
        },
        other => panic!("parsed {:?}", other),
    }
}

#[test]
fn a_sum_is_one_argument_of_a_call() {
    match primed("f(1 + 2)").factor().unwrap() {
        Expr::Factor(f) => match *f {
            Factor::FnCall(c) => {
                assert_eq!(tok(&c.name), "f");
                assert_eq!(c.args.argv.len(), 1);
                match &c.args.argv[0] {
                    Expr::Binary { left, right, op } => {
                        assert_eq!(*op, Op::Add);
                        assert_eq!(expr(left), "1");
                        assert_eq!(expr(right), "2");
                    }
                    other => panic!("argument is {:?}", other),
                }
            }
            other => panic!("factor is {:?}", other),
        },
        other => panic!("parsed {:?}", other),
    }
}

#[test]
fn the_arguments_of_a_call_are_checked() {
    assert_grammar(expr_error("f(+)"), Rule::Factor, 3);
    assert_grammar(expr_error("f(x y)"), Rule::CallSeparator, 4);
    assert_grammar(expr_error("f(,)"), Rule::Factor, 2);
    assert_grammar(expr_error("f(x"), Rule::CallSeparator, 3);
    assert_grammar(expr_error("f(x, "), Rule::CallSeparator, 5);
    assert_grammar(expr_error("f(if)"), Rule::Factor, 2);
    assert_grammar(expr_error("f(x + )"), Rule::Factor, 6);
    assert_grammar(expr_error("f(x;)"), Rule::CallSeparator, 3);
}

#[test]
fn relational_operators_form_a_flat_chain() {
    let mut p = primed("a < b == c");
    assert_eq!(expr(&p.relational_expr().unwrap()), "(Eq_ (Lt_ a b) c)");
    for (text, want) in [
        ("a == b", "(Eq_ a b)"),
        ("a != b", "(Neq a b)"),
        ("a < b", "(Lt_ a b)"),
        ("a <= b", "(Leq a b)"),
        ("a > b", "(Gt_ a b)"),
        ("a >= b", "(Geq a b)"),
        ("a >= b < c != d", "(Neq (Lt_ (Geq a b) c) d)"),
        ("1 < 2", "(Lt_ 1 2)"),
        ("f(x) > 2", "(Gt_ f(x) 2)"),
        ("!x == y", "(Not (Eq_ x y))"),
        ("(a < b)", "(Lt_ a b)"),
        ("(a < b) == (c > d)", "(Eq_ (Lt_ a b) (Gt_ c d))"),
        ("x", "x"),
    ] {
        assert_eq!(expr(&primed(text).relational_expr().unwrap()), want, "{:?}", text);
    }
    // A relational factor is a single value: a relation of sums needs
    // parentheses no relational factor has.
    let mut p = primed("x + 1 < 2");
    assert_eq!(expr(&p.relational_expr().unwrap()), "x");
    let mut p = primed("1 + 2 < x");
    assert_eq!(expr(&p.relational_expr().unwrap()), "1");
}

#[test]
fn relational_factor_rejects_what_is_no_value() {
    assert_grammar(primed("").relational_expr().unwrap_err(), Rule::RelationalFactor, 0);
    assert_grammar(primed("a == ").relational_expr().unwrap_err(), Rule::RelationalFactor, 5);
    assert_grammar(primed("-1 < 2").relational_expr().unwrap_err(), Rule::RelationalFactor, 0);
    assert_grammar(primed("a < )").relational_expr().unwrap_err(), Rule::RelationalFactor, 4);
    assert_grammar(primed(") < a").relational_factor().unwrap_err(), Rule::RelationalFactor, 0);
    assert!(matches!(
        primed("(a < b").relational_expr().unwrap_err(),
        ParseError::TokenMismatch { position: 6, .. }
    ));
}

#[test]
fn boolean_operators_bind_looser_than_relations() {
    for (text, want) in [
        ("a && b", "(And a b)"),
        ("a || b", "(Or_ a b)"),
        ("a || b && c", "(Or_ a (And b c))"),
        ("a && b || c", "(Or_ (And a b) c)"),
        ("a || b || c", "(Or_ (Or_ a b) c)"),
        ("a && b && c", "(And (And a b) c)"),
        ("a < b && c == d", "(And (Lt_ a b) (Eq_ c d))"),
        ("!a && b", "(And (Not a) b)"),
        ("!!a", "(Not (Not a))"),
        ("1 < 2 || x", "(Or_ (Lt_ 1 2) x)"),
    ] {
        assert_eq!(expr(&primed(text).bool_expr().unwrap()), want, "{:?}", text);
    }
    assert_eq!(expr(&primed("a && b || c").bool_term().unwrap()), "(And a b)");
    assert_eq!(expr(&primed("a < b && c").bool_factor().unwrap()), "(Lt_ a b)");
}

#[test]
fn bool_factor_rejects_what_is_no_value() {
    assert_grammar(primed("").bool_expr().unwrap_err(), Rule::BoolFactor, 0);
    assert_grammar(primed("a || ").bool_expr().unwrap_err(), Rule::BoolFactor, 5);
    assert_grammar(primed("a && )").bool_term().unwrap_err(), Rule::BoolFactor, 5);
    assert_grammar(primed("-a").bool_factor().unwrap_err(), Rule::BoolFactor, 0);
    assert_grammar(primed("! ;").bool_factor().unwrap_err(), Rule::BoolFactor, 2);
}

#[test]
fn a_conditional_chain_is_one_statement() {
    let s = primed("if a == b { 1 } elif c == d { 2 } else { 3 }").statement().unwrap();
    match &s {
        Statement::Branch { if_block, alt_blocks, else_block } => {
            assert_eq!(expr(&if_block.cond), "(Eq_ a b)");
            assert_eq!(statement(&if_block.body), "{1}");
            assert_eq!(alt_blocks.len(), 1);
            assert_eq!(expr(&alt_blocks[0].cond), "(Eq_ c d)");
            assert_eq!(statement(&alt_blocks[0].body), "{2}");
            assert!(else_block.is_some());
            assert_eq!(statement(else_block.as_ref().unwrap()), "{3}");
        }
        other => panic!("parsed {:?}", other),
    }
    assert_eq!(statement(&s), "if (Eq_ a b) => {1} elif (Eq_ c d) => {2} else {3}");
}

#[test]
fn the_clauses_of_a_conditional_are_optional() {
    assert_eq!(parse_statement("if x { y = 1 }"), "if x => {y = 1}");
    assert_eq!(parse_statement("if x < 1 return 2"), "if (Lt_ x 1) => return 2");
    assert_eq!(parse_statement("if x { 1 } else { 2 }"), "if x => {1} else {2}");
    assert_eq!(
        parse_statement("if a { 1 } elif b { 2 } elif c { 3 }"),
        "if a => {1} elif b => {2} elif c => {3}"
    );
    assert_eq!(
        parse_statement("if a return 1; elif b return 2; else return 3;"),
        "if a => return 1 elif b => return 2 else return 3"
    );
    assert_eq!(
        parse_statement("if a if b { 1 } else { 2 }"),
        "if a => if b => {1} else {2}"
    );
    // `else` without its statement, and a condition without its body.
    assert_grammar(statement_error("if a { 1 } else"), Rule::Statement, 15);
    assert_grammar(statement_error("if a"), Rule::Statement, 4);
    assert_grammar(statement_error("if { 1 }"), Rule::RelationalFactor, 3);
    assert_grammar(statement_error("if a { 1 } elif { 2 }"), Rule::RelationalFactor, 16);
}

#[test]
fn a_name_begins_an_assignment_where_an_equals_sign_follows() {
    assert_eq!(parse_statement("x = 1"), "x = 1");
    assert_eq!(parse_statement("x = y + 2 * z;"), "x = (Add y (Mul 2 z))");
    assert_eq!(parse_statement("x = f(1)"), "x = f(1)");
    match primed("total = a").statement().unwrap() {
        Statement::Assign { left, right } => {
            assert_eq!(expr(&left), "total");
            assert!(matches!(left, Expr::Factor(f) if matches!(*f, Factor::Symbol(_))));
            assert_eq!(expr(&right), "a");
        }
        other => panic!("parsed {:?}", other),
    }
    // Anywhere else a name begins an expression.
    assert_eq!(parse_statement("x + 1"), "(Add x 1)");
    assert_eq!(parse_statement("f(x)"), "f(x)");
    assert_eq!(parse_statement("x"), "x");
    assert_eq!(parse_statement("x == 1"), "x");
    assert!(matches!(primed("f(1, 2)").statement().unwrap(), Statement::Expr(_)));
    // The terminator after an assignment belongs to it.
    let mut p = primed("x = 1; y = 2");
    assert_eq!(statement(&p.statement().unwrap()), "x = 1");
    assert_eq!(statement(&p.statement().unwrap()), "y = 2");
    p.input("z = 3".to_string());
    p.reset().unwrap();
    assert_eq!(statement(&p.assign_statement().unwrap()), "z = 3");
}

#[test]
fn an_assignment_needs_its_parts() {
    assert!(matches!(
        primed("1 = 2").assign_statement().unwrap_err(),
        ParseError::TokenMismatch { position: 0, .. }
    ));
    match primed("x 2").assign_statement().unwrap_err() {
        ParseError::TokenMismatch { expected, found, position } => {
            assert!(is_op(&expected, Op::Assign));
            assert!(matches!(found, Token::Number(ref n) if n == "2"));
            assert_eq!(position, 2);
        }
        other => panic!("failed with {:?}", other),
    }
    assert_grammar(statement_error("x = )"), Rule::Factor, 4);
    assert_eq!(parse_statement("x = "), "x = _");
}

#[test]
fn statements_of_every_kind() {
    assert_eq!(parse_statement("return x + y"), "return (Add x y)");
    assert_eq!(parse_statement("return 1;"), "return 1");
    assert_eq!(parse_statement("return"), "return _");
    assert_eq!(parse_statement("{ x = 1; y = 2 }"), "{x = 1; y = 2}");
    assert_eq!(parse_statement("{ }"), "{}");
    assert_eq!(parse_statement("{}"), "{}");
    assert_eq!(parse_statement("{ { } }"), "{{}}");
    assert_eq!(parse_statement(";"), "{}");
    assert_eq!(parse_statement("\n"), "{}");
    assert_eq!(parse_statement("(a + b) * c"), "(Mul (Add a b) c)");
    assert_eq!(parse_statement("12"), "12");
    assert_eq!(parse_statement("1 + 2;"), "(Add 1 2)");
    assert_eq!(parse_statement("fn g() { return 1 }"), "fn g() {return 1}");
    assert!(matches!(primed("{ 1 }").statement().unwrap(), Statement::Scope(_)));
    assert!(matches!(primed("fn g() { }").statement().unwrap(), Statement::FnDecl(_)));
    assert!(matches!(primed("return 1").statement().unwrap(), Statement::Return { .. }));
    assert!(matches!(primed(";").statement().unwrap(), Statement::Scope(s) if s.contents.is_empty()));
    assert_eq!(statement(&primed("return a;").return_statement().unwrap()), "return a");
    assert_eq!(
        statement(&primed("if a { } else { }").conditional_statement().unwrap()),
        "if a => {} else {}"
    );
}

#[test]
fn a_terminator_alone_is_an_empty_statement() {
    assert_eq!(parse_statement("{ ; }"), "{{}}");
    assert_eq!(parse_statement("{ ;; x = 1;; }"), "{{}; {}; x = 1; {}}");
    assert_eq!(parse_statement("{ (1); 2 }"), "{1; {}; 2}");
    assert_eq!(parse_statement("{ x\ny }"), "{x; {}; y}");
}

#[test]
fn statement_rejects_what_begins_none() {
    assert_grammar(statement_error(""), Rule::Statement, 0);
    assert_grammar(statement_error(")"), Rule::Statement, 0);
    assert_grammar(statement_error("+ 1"), Rule::Statement, 0);
    assert_grammar(statement_error("}"), Rule::Statement, 0);
    assert_grammar(statement_error("{ x = 1"), Rule::Statement, 7);
    assert_grammar(statement_error("{ x = 1 ) }"), Rule::Statement, 8);
    for w in ["else", "elif", "state", "write", "read", "for", "in", "array"] {
        match statement_error(w) {
            ParseError::Grammar { rule, found, position } => {
                assert_eq!(rule, Rule::Keyword);
                assert!(matches!(found, Token::KeyWord(ref k) if k == w));
                assert_eq!(position, 0);
            }
            other => panic!("{:?} failed with {:?}", w, other),
        }
    }
    assert_grammar(statement_error("{ for }"), Rule::Keyword, 2);
}

#[test]
fn a_function_has_a_name_parameters_and_a_body() {
    let mut p = Parser::new();
    p.input("fn f(x, y) { return x + y }".to_string());
    let prog = p.eval().unwrap();
    assert_eq!(prog.content.len(), 1);
    let f = &prog.content[0];
    assert_eq!(tok(&f.name), "f");
    assert_eq!(f.name.get_pos(), 3);
    let names: Vec<String> = f.args.argv.iter().map(tok).collect();
    assert_eq!(names, vec!["x", "y"]);
    assert_eq!(f.args.argv[0].get_pos(), 5);
    assert_eq!(f.args.argv[1].get_pos(), 8);
    assert_eq!(f.body.contents.len(), 1);
    match &f.body.contents[0] {
        Statement::Return { val } => match val {
            Expr::Binary { left, right, op } => {
                assert_eq!(*op, Op::Add);
                assert_eq!(expr(left), "x");
                assert_eq!(expr(right), "y");
            }
            other => panic!("returns {:?}", other),
        },
        other => panic!("body is {:?}", other),
    }
}

#[test]
fn parameter_lists() {
    let list = |text: &str| -> Result<Vec<String>, ParseError> {
        primed(text).arg_decl_list().map(|l: ArgDeclList| l.argv.iter().map(tok).collect())
    };
    assert_eq!(list("()").unwrap(), Vec::<String>::new());
    assert_eq!(list("(x)").unwrap(), vec!["x"]);
    assert_eq!(list("(x, y, z)").unwrap(), vec!["x", "y", "z"]);
    assert_eq!(list("(x y)").unwrap(), vec!["x", "y"]);
    assert_eq!(list("(, x)").unwrap(), vec!["x"]);
    // After a comma comes another name or the closing parenthesis.
    assert_eq!(list("(x,)").unwrap(), vec!["x"]);
    assert_eq!(list("(x, y,)").unwrap(), vec!["x", "y"]);
    assert_grammar(list("(x,, y)").unwrap_err(), Rule::Separator, 3);
    assert_grammar(list("(x, 1)").unwrap_err(), Rule::Separator, 4);
    assert_grammar(list("(x, ").unwrap_err(), Rule::Separator, 4);
    assert_grammar(list("(x, +").unwrap_err(), Rule::Separator, 4);
    assert_grammar(list("(1)").unwrap_err(), Rule::ListItem, 1);
    assert_grammar(list("(x + y)").unwrap_err(), Rule::ListItem, 3);
    assert_grammar(list("(x").unwrap_err(), Rule::ListItem, 2);
    assert!(matches!(list("x)").unwrap_err(), ParseError::TokenMismatch { position: 0, .. }));
}

#[test]
fn argument_lists() {
    let list = |text: &str| -> Result<Vec<String>, ParseError> {
        primed(text).arg_list().map(|l: ArgList| l.argv.iter().map(expr).collect())
    };
    assert_eq!(list("()").unwrap(), Vec::<String>::new());
    assert_eq!(list("(x)").unwrap(), vec!["x"]);
    assert_eq!(list("(1)").unwrap(), vec!["1"]);
    assert_eq!(list("(x, y)").unwrap(), vec!["x", "y"]);
    assert_eq!(list("(x, 1, y)").unwrap(), vec!["x", "1", "y"]);
    assert_eq!(list("(f(a, b), c)").unwrap(), vec!["f(a, b)", "c"]);
    assert_eq!(list("(x y)").unwrap(), vec!["x", "y"]);
    // Every item is a full factor, after a comma too.
    assert_eq!(list("(x, f(y))").unwrap(), vec!["x", "f(y)"]);
    assert_eq!(list("(-x, (a + b), 2)").unwrap(), vec!["(Neg x)", "(Add a b)", "2"]);
    // After a comma comes another item or the closing parenthesis.
    assert_eq!(list("(x,)").unwrap(), vec!["x"]);
    assert_grammar(list("(x,, y)").unwrap_err(), Rule::Separator, 3);
    assert_grammar(list("(x, ").unwrap_err(), Rule::Separator, 4);
    assert_grammar(list("(x, y + 1)").unwrap_err(), Rule::Factor, 6);
    assert_grammar(list("(x").unwrap_err(), Rule::ListItem, 2);
    assert_grammar(list("(x, })").unwrap_err(), Rule::Factor, 4);
}

#[test]
fn a_program_is_one_function_or_more() {
    assert_eq!(parse_program("fn f() { }"), "fn f() {}");
    assert_eq!(
        parse_program("fn f(x) { return x } fn g() { return f(1) }"),
        "fn f(x) {return x} fn g() {return f(1)}"
    );
    // A program stops at a terminator.
    assert_eq!(parse_program("fn f() { }\nfn g() { }"), "fn f() {}");
    assert_eq!(parse_program("fn f() { } ; )))"), "fn f() {}");
    let mut p = primed("fn a() { } fn b() { } fn c() { }");
    assert_eq!(p.program().unwrap().content.len(), 3);
}

#[test]
fn a_program_with_conditionals_and_calls() {
    let text = "fn a (x, y, z) { if x == y return z * 2; else return z / 2; } \
                fn b (l, m) { if a(l, m, 2) > 2 { x = 3; y = 16;  m = (l * x) / y; } else m = 2; return m; }";
    assert_eq!(
        parse_program(text),
        "fn a(x, y, z) {if (Eq_ x y) => return (Mul z 2) else return (Div z 2)} \
         fn b(l, m) {if (Gt_ a(l, m, 2) 2) => {x = 3; y = 16; m = (Div (Mul l x) y)} else m = 2; return m}"
    );
}

#[test]
fn functions_nest() {
    assert_eq!(
        parse_program("fn outer() { fn inner(a) { return a } return inner(1) }"),
        "fn outer() {fn inner(a) {return a}; return inner(1)}"
    );
}

#[test]
fn a_program_must_begin_with_a_function() {
    match program_error("x = 1") {
        ParseError::TokenMismatch { expected, found, position } => {
            assert!(matches!(expected, Token::KeyWord(ref k) if k == "fn"));
            assert!(matches!(found, Token::Var(ref n) if n == "x"));
            assert_eq!(position, 0);
        }
        other => panic!("failed with {:?}", other),
    }
    assert!(matches!(program_error(""), ParseError::TokenMismatch { position: 0, .. }));
    assert!(matches!(program_error("fn"), ParseError::TokenMismatch { position: 2, .. }));
    assert!(matches!(program_error("fn 1"), ParseError::TokenMismatch { position: 3, .. }));
    assert!(matches!(program_error("fn f"), ParseError::TokenMismatch { position: 4, .. }));
    assert!(matches!(program_error("fn f()"), ParseError::TokenMismatch { position: 6, .. }));
    assert_grammar(program_error("fn f() {"), Rule::Statement, 8);
    assert!(matches!(
        program_error("fn f() { } x"),
        ParseError::TokenMismatch { position: 11, .. }
    ));
    assert_grammar(program_error("fn f() { return 1 + }"), Rule::Factor, 20);
}

#[test]
fn validation_goes_by_kind_alone() {
    // Where a rule asks for one operator any operator will do, and where
    // it asks for one keyword any keyword.
    assert_eq!(parse_expr("(1 + 2 }"), "(Add 1 2)");
    assert_eq!(parse_statement("if a { 1 }"), "if a => {1}");
    let mut p = primed("return f() { }");
    assert_eq!(function(&p.function().unwrap()), "fn f() {}");
    let mut p = primed("fn f( ) ( }");
    assert_eq!(function(&p.function().unwrap()), "fn f() {}");
}

#[test]
fn evaluating_twice_parses_twice() {
    let mut p = Parser::new();
    p.input("fn f() { return -1 }".to_string());
    let first = program(&p.eval().unwrap());
    let second = program(&p.eval().unwrap());
    assert_eq!(first, "fn f() {return (Neg 1)}");
    assert_eq!(first, second);
    p.input("fn g(a) { a = a - 1 }".to_string());
    assert_eq!(program(&p.eval().unwrap()), "fn g(a) {a = (Sub a 1)}");
}

#[test]
fn the_radix_reaches_the_scanner() {
    let mut p = Parser::new();
    p.base(16);
    p.input("1e5 + 2".to_string());
    p.reset().unwrap();
    assert_eq!(expr(&p.expr().unwrap()), "(Add 1e5 2)");
    let mut p = Parser::new();
    p.input("1e5 + 2".to_string());
    p.reset().unwrap();
    assert_eq!(expr(&p.expr().unwrap()), "1");
}

#[test]
fn a_scope_is_a_block() {
    let s = primed("{ a = 1; return a }").scope().unwrap();
    assert_eq!(s.contents.len(), 2);
    assert_eq!(scope(&s), "{a = 1; return a}");
    assert!(matches!(primed("a }").scope().unwrap_err(), ParseError::TokenMismatch { position: 0, .. }));
}

#[test]
fn a_new_parser_stands_at_the_end() {
    let mut p = Parser::new();
    assert_eq!(expr(&p.expr().unwrap()), "_");
    assert!(p.eval().is_err());
}

#[test]
fn the_parser_never_scans_backwards() {
    let mut p = primed("a + f(b, 2) * (c - 1)");
    let mut last = p.get_pos();
    assert_eq!(last, 1);
    p.factor().unwrap();
    assert!(p.get_pos() >= last);
    last = p.get_pos();
    p.pow_factor().unwrap_err();
    assert_eq!(p.get_pos(), last);
    // Binding a text starts over.
    p.input("y".to_string());
    assert_eq!(p.get_pos(), 0);
}

#[test]
fn a_rule_that_fails_consumes_nothing() {
    // On its first token.
    let mut p = primed("* 2");
    let at = p.get_pos();
    assert_grammar(p.factor().unwrap_err(), Rule::Factor, 0);
    assert_eq!(p.get_pos(), at);
    assert_grammar(p.factor().unwrap_err(), Rule::Factor, 0);
    assert_grammar(p.statement().unwrap_err(), Rule::Statement, 0);
    // After tokens that it took: the parser stands where it stood.
    let mut p = primed("x = (1 + ");
    let at = p.get_pos();
    assert!(matches!(p.statement().unwrap_err(), ParseError::TokenMismatch { position: 9, .. }));
    assert_eq!(p.get_pos(), at);
    assert_eq!(expr(&p.factor().unwrap()), "x");
    let mut p = primed("f(a, b c) + 1");
    let at = p.get_pos();
    assert_grammar(p.expr().unwrap_err(), Rule::CallSeparator, 7);
    assert_eq!(p.get_pos(), at);
    // The same rule fails again in the same way.
    assert_grammar(p.expr().unwrap_err(), Rule::CallSeparator, 7);
    assert_eq!(p.get_pos(), at);
}

#[test]
fn at_the_end_of_the_input_nothing_moves() {
    let mut p = primed("ab  ");
    p.factor().unwrap();
    let at = p.get_pos();
    assert_eq!(at, 4);
    for _ in 0..3 {
        assert_eq!(expr(&p.factor().unwrap()), "_");
        assert_eq!(expr(&p.expr().unwrap()), "_");
        assert_eq!(p.get_pos(), at);
    }
}

#[test]
fn evaluating_leaves_the_parser_after_the_program() {
    let mut p = Parser::new();
    p.input("fn f(x, y) { return x + y }".to_string());
    let prog = p.eval().unwrap();
    assert_eq!(prog.content.len(), 1);
    assert_eq!(p.get_pos(), 27);
    assert_eq!(expr(&p.factor().unwrap()), "_");
    let mut p = Parser::new();
    p.input("fn f() { } ; x".to_string());
    p.eval().unwrap();
    assert_eq!(p.get_pos(), 12);
    // After a failure the parser stands at the start of the text.
    let mut p = Parser::new();
    p.input("fn f() { return ) }".to_string());
    assert!(p.eval().is_err());
    assert_eq!(p.get_pos(), 2);
    assert_grammar(p.function().unwrap_err(), Rule::Factor, 16);
    assert_eq!(p.get_pos(), 2);
}
