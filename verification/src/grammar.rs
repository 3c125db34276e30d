//! The grammar, stated as pure functions over token streams.
//!
//! ```text
//! program           := function+
//! function          := 'fn' IDENT arg_decl_list scope
//! scope             := '{' statement* '}'
//! statement         := scope | assign | expr | 'if' cond_chain | 'return' expr
//!                    | function | ';'
//! expr              := term (('+'|'-') term)*
//! term              := pow_factor (('*'|'/'|'//'|'%') pow_factor)*
//! pow_factor        := factor ('**' pow_factor)?
//! factor            := NUMBER | var_disambiguate | '(' expr ')' | '**' pow_factor
//!                    | ('+'|'-') factor | <end of input>
//! bool_expr         := bool_term ('||' bool_term)*
//! bool_term         := bool_factor ('&&' bool_factor)*
//! bool_factor       := '!' bool_factor | relational_expr
//! relational_expr   := relational_factor (REL_OP relational_factor)*
//! relational_factor := NUMBER | var_disambiguate | BOOL | '!' relational_expr
//!                    | '(' relational_expr ')'
//! ```
//!
//! Each rule is a function from the stream it starts on to the tree it
//! builds and the number of tokens it consumes, or to the failure that ends
//! the parse.
//!
//! A rule that asks for a token asks for its kind alone: where it asks for
//! one operator any operator is consumed in its place, and where it asks
//! for one keyword any keyword. So `(1 + 2 }` is a factor, and `fn f() ( }`
//! a function: the parenthesis that closes a factor and the brace that
//! opens the body of a function are not looked at. A rule looks at
//! the token itself only where it chooses between alternatives: to take one
//! branch of `factor` or of `statement`, to go on with a chain of
//! operators, to tell a call from a name, and to go on with a list or to
//! end it.
use vstd::prelude::*;
use crate::ast::{
    empty_expr, empty_statement, SpecCondBlock, SpecExpr, SpecFactor, SpecFnCall, SpecFunction,
    SpecStatement,
};
use crate::error::{Rule, SpecParseError};
use crate::stream::{after, cur, eat, peek, rest, Lexeme, Parsed};
use crate::token::{token_eq, Op, SpecTokStruct, SpecToken};

verus! {

/// The tokens that rules ask for. What they carry is of no account: only
/// their kind is compared.
pub open spec fn a_number() -> SpecToken {
    SpecToken::Number("0"@)
}

/// Any name.
pub open spec fn a_name() -> SpecToken {
    SpecToken::Var(Seq::empty())
}

/// Any boolean literal.
pub open spec fn a_boolean() -> SpecToken {
    SpecToken::Bool(true)
}

/// The operator token of the kind `op`.
pub open spec fn the_op(op: Op) -> SpecToken {
    SpecToken::Operator(op)
}

/// The keyword token of the word `word`.
pub open spec fn the_word(word: Seq<char>) -> SpecToken {
    SpecToken::KeyWord(word)
}

/// The failure of `rule` on the token `t`.
pub open spec fn unexpected(rule: Rule, t: SpecTokStruct) -> SpecParseError {
    SpecParseError::Grammar { rule: rule, found: t.val, position: t.pos }
}

/// A factor as the expression that it is.
pub open spec fn leaf(p: Parsed<SpecFactor>) -> Parsed<SpecExpr> {
    match p {
        Ok((f, n)) => Ok((SpecExpr::Factor(Box::new(f)), n)),
        Err(e) => Err(e),
    }
}

/// The binary node of `op` over `left` and `right`.
pub open spec fn binary(left: SpecExpr, op: Op, right: SpecExpr) -> SpecExpr {
    SpecExpr::Binary { left: Box::new(left), right: Box::new(right), op: op }
}

/// The unary node of `op` over `right`.
pub open spec fn unary(op: Op, right: SpecExpr) -> SpecExpr {
    SpecExpr::Unary { right: Box::new(right), op: op }
}

/// One link of a chain of binary operations: the operator `op` is
/// consumed, and `left` is joined by it to the operand that `operand`, the
/// parse of what follows the operator, yields.
pub open spec fn chained(toks: Seq<Lexeme>, left: SpecExpr, op: Op, operand: Parsed<SpecExpr>) -> Parsed<
    SpecExpr,
> {
    match eat(toks, the_op(op)) {
        Err(e) => Err(e),
        Ok((_, n)) => match operand {
            Err(e) => Err(e),
            Ok((right, m)) => Ok((binary(left, op, right), n + m)),
        },
    }
}

/// The operators that join the power factors of a term.
pub open spec fn is_term_op(t: SpecToken) -> bool {
    t == the_op(Op::Mul) || t == the_op(Op::Div) || t == the_op(Op::Mod) || t == the_op(Op::IntDiv)
}

/// The operators that join the terms of an expression.
pub open spec fn is_expr_op(t: SpecToken) -> bool {
    t == the_op(Op::Add) || t == the_op(Op::Sub)
}

/// The relational operators.
pub open spec fn is_relational_op(t: SpecToken) -> bool {
    t == the_op(Op::Eq_) || t == the_op(Op::Neq) || t == the_op(Op::Lt_) || t == the_op(Op::Leq)
        || t == the_op(Op::Gt_) || t == the_op(Op::Geq)
}

/// The operator kind of an operator token.
pub open spec fn op_of(t: SpecToken) -> Op {
    match t {
        SpecToken::Operator(op) => op,
        _ => Op::Any,
    }
}

/// `NUMBER`
pub open spec fn number(toks: Seq<Lexeme>) -> Parsed<SpecFactor> {
    match eat(toks, a_number()) {
        Ok((t, n)) => Ok((SpecFactor::Float(t), n)),
        Err(e) => Err(e),
    }
}

/// `IDENT`, as a reference to a variable.
pub open spec fn id(toks: Seq<Lexeme>) -> Parsed<SpecFactor> {
    match eat(toks, a_name()) {
        Ok((t, n)) => Ok((SpecFactor::Symbol(t), n)),
        Err(e) => Err(e),
    }
}

/// `BOOL`
pub open spec fn boolean(toks: Seq<Lexeme>) -> Parsed<SpecFactor> {
    match eat(toks, a_boolean()) {
        Ok((t, n)) => Ok((SpecFactor::Bool(t), n)),
        Err(e) => Err(e),
    }
}

/// `factor`: a number, a name or a call, a parenthesised expression, a
/// power factor after a stray `**`, or a signed factor. At the end of the
/// input it is the empty leaf, and nothing is consumed.
pub open spec fn factor(toks: Seq<Lexeme>) -> Parsed<SpecExpr>
    decreases toks.len(), 3nat,
{
    let t = cur(toks);
    match t.val {
        SpecToken::Number(_) => leaf(number(toks)),
        SpecToken::Var(_) => leaf(var_disambiguate(toks)),
        SpecToken::Operator(Op::LParens) => parenthesised(toks),
        SpecToken::Operator(Op::Pow) => power_tail(toks),
        SpecToken::Operator(Op::Pos) => signed(toks, Op::Pos),
        SpecToken::Operator(Op::Neg) => signed(toks, Op::Neg),
        SpecToken::End => Ok((empty_expr(), 0)),
        _ => Err(unexpected(Rule::Factor, t)),
    }
}

/// `'(' expr ')'`: the expression itself; the parentheses leave no node.
pub open spec fn parenthesised(toks: Seq<Lexeme>) -> Parsed<SpecExpr>
    decreases toks.len(), 2nat,
{
    match eat(toks, the_op(Op::LParens)) {
        Err(e) => Err(e),
        Ok((_, n)) => match expr(rest(toks, n)) {
            Err(e) => Err(e),
            Ok((inner, m)) => match eat(rest(toks, n + m), the_op(Op::RParens)) {
                Err(e) => Err(e),
                Ok((_, k)) => Ok((inner, n + m + k)),
            },
        },
    }
}

/// `'**' pow_factor`: the power factor that follows the `**`.
pub open spec fn power_tail(toks: Seq<Lexeme>) -> Parsed<SpecExpr>
    decreases toks.len(), 2nat,
{
    match eat(toks, the_op(Op::Pow)) {
        Err(e) => Err(e),
        Ok((_, n)) => after(n, pow_factor(rest(toks, n))),
    }
}

/// `('+'|'-') factor`: the sign `op` is consumed and is applied to the
/// factor that follows.
pub open spec fn signed(toks: Seq<Lexeme>, op: Op) -> Parsed<SpecExpr>
    decreases toks.len(), 2nat,
{
    match eat(toks, the_op(op)) {
        Err(e) => Err(e),
        Ok((_, n)) => match factor(rest(toks, n)) {
            Err(e) => Err(e),
            Ok((right, m)) => Ok((unary(op, right), n + m)),
        },
    }
}

/// `pow_factor`: a factor, raised where `**` follows to what stands after
/// it. The right operand is read by `factor`, which takes the `**` and
/// reads a whole power factor: so powers group to the right.
pub open spec fn pow_factor(toks: Seq<Lexeme>) -> Parsed<SpecExpr>
    decreases toks.len(), 4nat,
{
    match factor(toks) {
        Err(e) => Err(e),
        Ok((left, n)) => if cur(rest(toks, n)).val == the_op(Op::Pow) {
            match factor(rest(toks, n)) {
                Err(e) => Err(e),
                Ok((right, m)) => Ok((binary(left, Op::Pow, right), n + m)),
            }
        } else {
            Ok((left, n))
        },
    }
}

/// `term`: power factors joined by `*`, `/`, `//` and `%`, grouped to the
/// left.
pub open spec fn term(toks: Seq<Lexeme>) -> Parsed<SpecExpr>
    decreases toks.len(), 6nat,
{
    match pow_factor(toks) {
        Err(e) => Err(e),
        Ok((left, n)) => after(n, term_tail(rest(toks, n), left)),
    }
}

/// The operator of a term that `t` is, where it is one.
pub open spec fn term_op_of(t: SpecToken) -> Option<Op> {
    if is_term_op(t) {
        Some(op_of(t))
    } else {
        None
    }
}

/// What follows the operand `left` in a term.
pub open spec fn term_tail(toks: Seq<Lexeme>, left: SpecExpr) -> Parsed<SpecExpr>
    decreases toks.len(), 5nat,
{
    match term_op_of(cur(toks).val) {
        Some(op) => match chained(toks, left, op, pow_factor(rest(toks, 1))) {
            Err(e) => Err(e),
            Ok((joined, n)) => after(n, term_tail(rest(toks, n), joined)),
        },
        None => Ok((left, 0)),
    }
}

/// `expr`: terms joined by `+` and `-`, grouped to the left.
pub open spec fn expr(toks: Seq<Lexeme>) -> Parsed<SpecExpr>
    decreases toks.len(), 8nat,
{
    match term(toks) {
        Err(e) => Err(e),
        Ok((left, n)) => after(n, expr_tail(rest(toks, n), left)),
    }
}

/// The operator of an expression that `t` is, where it is one.
pub open spec fn expr_op_of(t: SpecToken) -> Option<Op> {
    if is_expr_op(t) {
        Some(op_of(t))
    } else {
        None
    }
}

/// What follows the operand `left` in an expression.
pub open spec fn expr_tail(toks: Seq<Lexeme>, left: SpecExpr) -> Parsed<SpecExpr>
    decreases toks.len(), 7nat,
{
    match expr_op_of(cur(toks).val) {
        Some(op) => match chained(toks, left, op, term(rest(toks, 1))) {
            Err(e) => Err(e),
            Ok((joined, n)) => after(n, expr_tail(rest(toks, n), joined)),
        },
        None => Ok((left, 0)),
    }
}

/// A name is a call where `(` follows it, and a variable anywhere else. One
/// token of lookahead decides.
pub open spec fn var_disambiguate(toks: Seq<Lexeme>) -> Parsed<SpecFactor>
    decreases toks.len(), 2nat,
{
    match peek(toks) {
        Err(e) => Err(e),
        Ok(next) => if next.val == the_op(Op::LParens) {
            match fn_call(toks) {
                Ok((c, n)) => Ok((SpecFactor::FnCall(c), n)),
                Err(e) => Err(e),
            }
        } else {
            id(toks)
        },
    }
}

/// A call: the name, `(`, the arguments, `)`.
pub open spec fn fn_call(toks: Seq<Lexeme>) -> Parsed<SpecFnCall>
    decreases toks.len(), 1nat,
{
    match eat(toks, a_name()) {
        Err(e) => Err(e),
        Ok((name, n)) => match eat(rest(toks, n), the_op(Op::LParens)) {
            Err(e) => Err(e),
            Ok((_, m)) => match call_args(rest(toks, n + m)) {
                Err(e) => Err(e),
                Ok((args, k)) => match eat(rest(toks, n + m + k), the_op(Op::RParens)) {
                    Err(e) => Err(e),
                    Ok((_, j)) => Ok((SpecFnCall { name: name, args: args }, n + m + k + j)),
                },
            },
        },
    }
}

/// The arguments of a call, up to the `)` that closes it, which stays.
/// Every argument is an expression. After each comes a comma or the `)`; a
/// comma may stand before the `)`.
pub open spec fn call_args(toks: Seq<Lexeme>) -> Parsed<Seq<SpecExpr>>
    decreases toks.len(), 10nat,
{
    if cur(toks).val == the_op(Op::RParens) {
        Ok((Seq::empty(), 0))
    } else {
        match expr(toks) {
            Err(e) => Err(e),
            Ok((a, n)) => {
                let s = cur(rest(toks, n));
                if s.val == the_op(Op::Comma) {
                    match eat(rest(toks, n), the_op(Op::Comma)) {
                        Err(e) => Err(e),
                        Ok((_, m)) => match call_args(rest(toks, n + m)) {
                            Err(e) => Err(e),
                            Ok((more, k)) => Ok((seq![a] + more, n + m + k)),
                        },
                    }
                } else if s.val == the_op(Op::RParens) {
                    Ok((seq![a], n))
                } else {
                    Err(unexpected(Rule::CallSeparator, s))
                }
            },
        }
    }
}

/// `relational_expr`: relational factors joined by the relational
/// operators, which all bind alike, grouped to the left.
pub open spec fn relational_expr(toks: Seq<Lexeme>) -> Parsed<SpecExpr>
    decreases toks.len(), 3nat,
{
    match relational_factor(toks) {
        Err(e) => Err(e),
        Ok((left, n)) => after(n, relational_tail(rest(toks, n), left)),
    }
}

/// The relational operator that `t` is, where it is one.
pub open spec fn relational_op_of(t: SpecToken) -> Option<Op> {
    if is_relational_op(t) {
        Some(op_of(t))
    } else {
        None
    }
}

/// What follows the operand `left` in a relational expression.
pub open spec fn relational_tail(toks: Seq<Lexeme>, left: SpecExpr) -> Parsed<SpecExpr>
    decreases toks.len(), 2nat,
{
    match relational_op_of(cur(toks).val) {
        Some(op) => match chained(toks, left, op, relational_factor(rest(toks, 1))) {
            Err(e) => Err(e),
            Ok((joined, n)) => after(n, relational_tail(rest(toks, n), joined)),
        },
        None => Ok((left, 0)),
    }
}

/// `relational_factor`: a number, a name or a call, a boolean literal, a
/// negated relational expression, or a relational expression in
/// parentheses.
pub open spec fn relational_factor(toks: Seq<Lexeme>) -> Parsed<SpecExpr>
    decreases toks.len(), 1nat,
{
    let t = cur(toks);
    match t.val {
        SpecToken::Number(_) => leaf(number(toks)),
        SpecToken::Var(_) => leaf(var_disambiguate(toks)),
        SpecToken::Bool(_) => leaf(boolean(toks)),
        SpecToken::Operator(Op::Not) => negated_relation(toks),
        SpecToken::Operator(Op::LParens) => parenthesised_relation(toks),
        _ => Err(unexpected(Rule::RelationalFactor, t)),
    }
}

/// `'!' relational_expr`
pub open spec fn negated_relation(toks: Seq<Lexeme>) -> Parsed<SpecExpr>
    decreases toks.len(), 0nat,
{
    match eat(toks, the_op(Op::Not)) {
        Err(e) => Err(e),
        Ok((_, n)) => match relational_expr(rest(toks, n)) {
            Err(e) => Err(e),
            Ok((right, m)) => Ok((unary(Op::Not, right), n + m)),
        },
    }
}

/// `'(' relational_expr ')'`
pub open spec fn parenthesised_relation(toks: Seq<Lexeme>) -> Parsed<SpecExpr>
    decreases toks.len(), 0nat,
{
    match eat(toks, the_op(Op::LParens)) {
        Err(e) => Err(e),
        Ok((_, n)) => match relational_expr(rest(toks, n)) {
            Err(e) => Err(e),
            Ok((inner, m)) => match eat(rest(toks, n + m), the_op(Op::RParens)) {
                Err(e) => Err(e),
                Ok((_, k)) => Ok((inner, n + m + k)),
            },
        },
    }
}

/// `bool_expr`: boolean terms joined by `||`, grouped to the left.
pub open spec fn bool_expr(toks: Seq<Lexeme>) -> Parsed<SpecExpr>
    decreases toks.len(), 5nat,
{
    match bool_term(toks) {
        Err(e) => Err(e),
        Ok((left, n)) => after(n, bool_expr_tail(rest(toks, n), left)),
    }
}

/// What follows the operand `left` in a boolean expression.
pub open spec fn bool_expr_tail(toks: Seq<Lexeme>, left: SpecExpr) -> Parsed<SpecExpr>
    decreases toks.len(), 4nat,
{
    let t = cur(toks);
    if t.val == the_op(Op::Or_) {
        match chained(toks, left, Op::Or_, bool_term(rest(toks, 1))) {
            Err(e) => Err(e),
            Ok((joined, n)) => after(n, bool_expr_tail(rest(toks, n), joined)),
        }
    } else {
        Ok((left, 0))
    }
}

/// `bool_term`: boolean factors joined by `&&`, grouped to the left.
pub open spec fn bool_term(toks: Seq<Lexeme>) -> Parsed<SpecExpr>
    decreases toks.len(), 3nat,
{
    match bool_factor(toks) {
        Err(e) => Err(e),
        Ok((left, n)) => after(n, bool_term_tail(rest(toks, n), left)),
    }
}

/// What follows the operand `left` in a boolean term.
pub open spec fn bool_term_tail(toks: Seq<Lexeme>, left: SpecExpr) -> Parsed<SpecExpr>
    decreases toks.len(), 2nat,
{
    let t = cur(toks);
    if t.val == the_op(Op::And) {
        match chained(toks, left, Op::And, bool_factor(rest(toks, 1))) {
            Err(e) => Err(e),
            Ok((joined, n)) => after(n, bool_term_tail(rest(toks, n), joined)),
        }
    } else {
        Ok((left, 0))
    }
}

/// `bool_factor`: a relational expression, or a negated boolean factor.
pub open spec fn bool_factor(toks: Seq<Lexeme>) -> Parsed<SpecExpr>
    decreases toks.len(), 1nat,
{
    let t = cur(toks);
    match t.val {
        SpecToken::Bool(_) | SpecToken::Var(_) | SpecToken::Number(_) | SpecToken::Operator(
            Op::LParens,
        ) => relational_expr(toks),
        SpecToken::Operator(Op::Not) => match eat(toks, the_op(Op::Not)) {
            Err(e) => Err(e),
            Ok((_, n)) => match bool_factor(rest(toks, n)) {
                Err(e) => Err(e),
                Ok((right, m)) => Ok((unary(Op::Not, right), n + m)),
            },
        },
        _ => Err(unexpected(Rule::BoolFactor, t)),
    }
}

/// The parameter names of a declaration, up to the `)` that closes the
/// list, which stays. After a comma must come another name or the `)`.
pub open spec fn params(toks: Seq<Lexeme>) -> Parsed<Seq<SpecTokStruct>>
    decreases toks.len(),
{
    let t = cur(toks);
    match t.val {
        SpecToken::Operator(Op::RParens) => Ok((Seq::empty(), 0)),
        SpecToken::Var(_) => match eat(toks, a_name()) {
            Err(e) => Err(e),
            Ok((name, n)) => match params(rest(toks, n)) {
                Err(e) => Err(e),
                Ok((more, m)) => Ok((seq![name] + more, n + m)),
            },
        },
        SpecToken::Operator(Op::Comma) => match eat(toks, the_op(Op::Comma)) {
            Err(e) => Err(e),
            Ok((_, n)) => {
                let next = cur(rest(toks, n));
                if next.val is Var || next.val == the_op(Op::RParens) {
                    after(n, params(rest(toks, n)))
                } else {
                    Err(unexpected(Rule::Separator, next))
                }
            },
        },
        _ => Err(unexpected(Rule::ListItem, t)),
    }
}

/// `arg_decl_list`: `(`, the parameter names, `)`.
pub open spec fn arg_decl_list(toks: Seq<Lexeme>) -> Parsed<Seq<SpecTokStruct>> {
    match eat(toks, the_op(Op::LParens)) {
        Err(e) => Err(e),
        Ok((_, n)) => match params(rest(toks, n)) {
            Err(e) => Err(e),
            Ok((names, m)) => match eat(rest(toks, n + m), the_op(Op::RParens)) {
                Err(e) => Err(e),
                Ok((_, k)) => Ok((names, n + m + k)),
            },
        },
    }
}

/// `function`: the word `fn`, the name, the parameters and the body.
pub open spec fn function(toks: Seq<Lexeme>) -> Parsed<SpecFunction>
    decreases toks.len(), 2nat,
{
    match eat(toks, the_word("fn"@)) {
        Err(e) => Err(e),
        Ok((_, a)) => match eat(rest(toks, a), a_name()) {
            Err(e) => Err(e),
            Ok((name, b)) => match arg_decl_list(rest(toks, a + b)) {
                Err(e) => Err(e),
                Ok((args, c)) => match scope(rest(toks, a + b + c)) {
                    Err(e) => Err(e),
                    Ok((body, d)) => Ok(
                        (SpecFunction { name: name, args: args, body: body }, a + b + c + d),
                    ),
                },
            },
        },
    }
}

/// `scope`: `{`, statements, `}`.
pub open spec fn scope(toks: Seq<Lexeme>) -> Parsed<Seq<SpecStatement>>
    decreases toks.len(), 3nat,
{
    match eat(toks, the_op(Op::BlockStart)) {
        Err(e) => Err(e),
        Ok((_, n)) => after(n, scope_items(rest(toks, n))),
    }
}

/// A rule that consumed `n` tokens of `toks` has made no progress where the
/// stream that remains is no shorter.
pub open spec fn stalled(toks: Seq<Lexeme>, n: nat) -> bool {
    rest(toks, n).len() >= toks.len()
}

/// The statements of a block and the `}` that closes it.
///
/// Every statement consumes at least one token
/// ([`crate::laws::lemma_statement_consumes`]), so that the parse never
/// stalls and the test for it below never fails.
pub open spec fn scope_items(toks: Seq<Lexeme>) -> Parsed<Seq<SpecStatement>>
    decreases toks.len(), 5nat,
{
    if cur(toks).val == the_op(Op::BlockEnd) {
        match eat(toks, the_op(Op::BlockEnd)) {
            Err(e) => Err(e),
            Ok((_, n)) => Ok((Seq::empty(), n)),
        }
    } else {
        match statement(toks) {
            Err(e) => Err(e),
            Ok((s, n)) => if stalled(toks, n) {
                Err(unexpected(Rule::Statement, cur(toks)))
            } else {
                match scope_items(rest(toks, n)) {
                    Err(e) => Err(e),
                    Ok((more, m)) => Ok((seq![s] + more, n + m)),
                }
            },
        }
    }
}

/// `statement`: a block, an assignment or an expression, a conditional, a
/// return, a function, or the empty statement that a terminator alone is.
///
/// A name begins an assignment where `=` follows it, and an expression
/// anywhere else. One token of lookahead decides.
pub open spec fn statement(toks: Seq<Lexeme>) -> Parsed<SpecStatement>
    decreases toks.len(), 4nat,
{
    let t = cur(toks);
    match t.val {
        SpecToken::Operator(Op::BlockStart) => match scope(toks) {
            Ok((items, n)) => Ok((SpecStatement::Scope(items), n)),
            Err(e) => Err(e),
        },
        SpecToken::Var(_) => match peek(toks) {
            Err(e) => Err(e),
            Ok(next) => if next.val == the_op(Op::Assign) {
                assign_statement(toks)
            } else {
                expr_statement(toks)
            },
        },
        SpecToken::Number(_) | SpecToken::Operator(Op::LParens) => expr_statement(toks),
        SpecToken::KeyWord(word) => if word == "if"@ {
            conditional_statement(toks)
        } else if word == "return"@ {
            return_statement(toks)
        } else if word == "fn"@ {
            match function(toks) {
                Ok((f, n)) => Ok((SpecStatement::FnDecl(f), n)),
                Err(e) => Err(e),
            }
        } else {
            Err(unexpected(Rule::Keyword, t))
        },
        SpecToken::Operator(Op::LineEnd) => match eat(toks, the_op(Op::LineEnd)) {
            Ok((_, n)) => Ok((empty_statement(), n)),
            Err(e) => Err(e),
        },
        _ => Err(unexpected(Rule::Statement, t)),
    }
}

/// An expression that stands as a statement.
pub open spec fn expr_statement(toks: Seq<Lexeme>) -> Parsed<SpecStatement> {
    match expr(toks) {
        Ok((e, n)) => Ok((SpecStatement::Expr(e), n)),
        Err(e) => Err(e),
    }
}

/// The terminator that may follow an assignment or a return: it is
/// consumed where it stands there.
pub open spec fn line_end(toks: Seq<Lexeme>) -> Result<nat, SpecParseError> {
    if token_eq(cur(toks).val, the_op(Op::LineEnd)) {
        match eat(toks, the_op(Op::LineEnd)) {
            Ok((_, n)) => Ok(n),
            Err(e) => Err(e),
        }
    } else {
        Ok(0)
    }
}

/// A statement `s`, on `n` tokens, and the terminator that may follow it.
pub open spec fn terminated(toks: Seq<Lexeme>, s: SpecStatement, n: nat) -> Parsed<SpecStatement> {
    match line_end(rest(toks, n)) {
        Ok(k) => Ok((s, n + k)),
        Err(e) => Err(e),
    }
}

/// `IDENT '=' expr`, and the terminator where one follows.
pub open spec fn assign_statement(toks: Seq<Lexeme>) -> Parsed<SpecStatement> {
    match id(toks) {
        Err(e) => Err(e),
        Ok((name, a)) => match eat(rest(toks, a), the_op(Op::Assign)) {
            Err(e) => Err(e),
            Ok((_, b)) => match expr(rest(toks, a + b)) {
                Err(e) => Err(e),
                Ok((right, c)) => terminated(
                    toks,
                    SpecStatement::Assign {
                        left: SpecExpr::Factor(Box::new(name)),
                        right: right,
                    },
                    a + b + c,
                ),
            },
        },
    }
}

/// `'return' expr`, and the terminator where one follows.
pub open spec fn return_statement(toks: Seq<Lexeme>) -> Parsed<SpecStatement> {
    match eat(toks, the_word("return"@)) {
        Err(e) => Err(e),
        Ok((_, a)) => match expr(rest(toks, a)) {
            Err(e) => Err(e),
            Ok((val, b)) => terminated(toks, SpecStatement::Return { val: val }, a + b),
        },
    }
}

/// A condition and the statement that it guards.
pub open spec fn cond_block(toks: Seq<Lexeme>) -> Parsed<SpecCondBlock>
    decreases toks.len(), 6nat,
{
    match relational_expr(toks) {
        Err(e) => Err(e),
        Ok((cond, n)) => match statement(rest(toks, n)) {
            Err(e) => Err(e),
            Ok((body, m)) => Ok((SpecCondBlock { cond: cond, body: Box::new(body) }, n + m)),
        },
    }
}

/// `'if' cond body ('elif' cond body)* ('else' body)?`: the whole chain is
/// one statement.
pub open spec fn conditional_statement(toks: Seq<Lexeme>) -> Parsed<SpecStatement>
    decreases toks.len(), 2nat,
{
    match eat(toks, the_word("if"@)) {
        Err(e) => Err(e),
        Ok((_, a)) => match cond_block(rest(toks, a)) {
            Err(e) => Err(e),
            Ok((if_block, b)) => match elif_blocks(rest(toks, a + b)) {
                Err(e) => Err(e),
                Ok((alt_blocks, c)) => match else_block(rest(toks, a + b + c)) {
                    Err(e) => Err(e),
                    Ok((else_block, d)) => Ok(
                        (
                            SpecStatement::Branch {
                                if_block: if_block,
                                alt_blocks: alt_blocks,
                                else_block: else_block,
                            },
                            a + b + c + d,
                        ),
                    ),
                },
            },
        },
    }
}

/// The `elif` clauses of a conditional, in order.
pub open spec fn elif_blocks(toks: Seq<Lexeme>) -> Parsed<Seq<SpecCondBlock>>
    decreases toks.len(), 2nat,
{
    if cur(toks).val == the_word("elif"@) {
        match eat(toks, the_word("elif"@)) {
            Err(e) => Err(e),
            Ok((_, a)) => match cond_block(rest(toks, a)) {
                Err(e) => Err(e),
                Ok((block, b)) => match elif_blocks(rest(toks, a + b)) {
                    Err(e) => Err(e),
                    Ok((more, c)) => Ok((seq![block] + more, a + b + c)),
                },
            },
        }
    } else {
        Ok((Seq::empty(), 0))
    }
}

/// The `else` clause of a conditional, where it has one.
pub open spec fn else_block(toks: Seq<Lexeme>) -> Parsed<Option<Box<SpecStatement>>>
    decreases toks.len(), 2nat,
{
    if cur(toks).val == the_word("else"@) {
        match eat(toks, the_word("else"@)) {
            Err(e) => Err(e),
            Ok((_, a)) => match statement(rest(toks, a)) {
                Err(e) => Err(e),
                Ok((body, b)) => Ok((Some(Box::new(body)), a + b)),
            },
        }
    } else {
        Ok((None, 0))
    }
}

/// `program`: one function or more.
pub open spec fn program(toks: Seq<Lexeme>) -> Parsed<Seq<SpecFunction>> {
    match function(toks) {
        Err(e) => Err(e),
        Ok((f, n)) => match more_functions(rest(toks, n)) {
            Err(e) => Err(e),
            Ok((more, m)) => Ok((seq![f] + more, n + m)),
        },
    }
}

/// The functions that follow the first, up to the end of the input or to a
/// terminator.
pub open spec fn more_functions(toks: Seq<Lexeme>) -> Parsed<Seq<SpecFunction>>
    decreases toks.len(),
{
    let t = cur(toks);
    if t.val is End || t.val == the_op(Op::LineEnd) {
        Ok((Seq::empty(), 0))
    } else {
        match function(toks) {
            Err(e) => Err(e),
            Ok((f, n)) => {
                proof {
                    lemma_function_consumes(toks);
                }
                match more_functions(rest(toks, n)) {
                    Err(e) => Err(e),
                    Ok((more, m)) => Ok((seq![f] + more, n + m)),
                }
            },
        }
    }
}

/// The items of an argument list, up to the `)` that closes it, which
/// stays. Every item is a factor. After a comma must come another item or
/// the `)`.
pub open spec fn arg_items(toks: Seq<Lexeme>) -> Parsed<Seq<SpecExpr>>
    decreases toks.len(),
{
    let t = cur(toks);
    match t.val {
        SpecToken::Operator(Op::RParens) => Ok((Seq::empty(), 0)),
        SpecToken::End => Err(unexpected(Rule::ListItem, t)),
        SpecToken::Operator(Op::Comma) => match eat(toks, the_op(Op::Comma)) {
            Err(e) => Err(e),
            Ok((_, n)) => {
                let next = cur(rest(toks, n));
                if next.val is End || next.val == the_op(Op::Comma) {
                    Err(unexpected(Rule::Separator, next))
                } else {
                    after(n, arg_items(rest(toks, n)))
                }
            },
        },
        _ => match factor(toks) {
            Err(e) => Err(e),
            Ok((item, n)) => {
                proof {
                    lemma_factor_consumes(toks);
                }
                match arg_items(rest(toks, n)) {
                    Err(e) => Err(e),
                    Ok((more, m)) => Ok((seq![item] + more, n + m)),
                }
            },
        },
    }
}

/// `arg_list`: `(`, the items, `)`.
pub open spec fn arg_list(toks: Seq<Lexeme>) -> Parsed<Seq<SpecExpr>> {
    match eat(toks, the_op(Op::LParens)) {
        Err(e) => Err(e),
        Ok((_, n)) => match arg_items(rest(toks, n)) {
            Err(e) => Err(e),
            Ok((items, m)) => match eat(rest(toks, n + m), the_op(Op::RParens)) {
                Err(e) => Err(e),
                Ok((_, k)) => Ok((items, n + m + k)),
            },
        },
    }
}

/// A factor consumes at least one token, unless it stands at the end of the
/// input.
pub proof fn lemma_factor_consumes(toks: Seq<Lexeme>)
    requires
        !(cur(toks).val is End),
    ensures
        factor(toks) matches Ok((_, n)) ==> n >= 1 && !stalled(toks, n),
{
    reveal_with_fuel(factor, 2);
    reveal_with_fuel(var_disambiguate, 2);
}

/// A function consumes at least one token.
pub proof fn lemma_function_consumes(toks: Seq<Lexeme>)
    ensures
        function(toks) matches Ok((_, n)) ==> n >= 1 && !stalled(toks, n),
{
}

} // verus!
