//! Laws of the grammar: what holds of every parse.
use vstd::prelude::*;
use crate::ast::{SpecExpr, SpecFactor};
use crate::error::{SpecLexError, SpecParseError};
use crate::grammar::{
    a_name, binary, call_args, chained, expr, expr_tail, factor, is_expr_op,
    is_term_op, lemma_factor_consumes, lemma_function_consumes, op_of, pow_factor,
    relational_expr, relational_factor, stalled, statement, term, term_tail, the_op,
    var_disambiguate,
};
use crate::scan::{
    lemma_scan_bounds, lemma_spaces_end_bounds, scan, spaces_end, step, Cursor, Scan, Source,
};
use crate::stream::{cur, eat, peek, rest, Lexeme, Parsed};
use crate::token::{Op, SpecTokStruct, SpecToken};

verus! {

/// A power factor consumes at least one token, unless it stands at the end
/// of the input.
pub proof fn lemma_pow_factor_consumes(toks: Seq<Lexeme>)
    requires
        !(cur(toks).val is End),
    ensures
        pow_factor(toks) matches Ok((_, n)) ==> n >= 1 && !stalled(toks, n),
{
    lemma_factor_consumes(toks);
}

/// A term consumes at least one token, unless it stands at the end of the
/// input.
pub proof fn lemma_term_consumes(toks: Seq<Lexeme>)
    requires
        !(cur(toks).val is End),
    ensures
        term(toks) matches Ok((_, n)) ==> n >= 1 && !stalled(toks, n),
{
    lemma_pow_factor_consumes(toks);
}

/// An expression consumes at least one token, unless it stands at the end
/// of the input.
pub proof fn lemma_expr_consumes(toks: Seq<Lexeme>)
    requires
        !(cur(toks).val is End),
    ensures
        expr(toks) matches Ok((_, n)) ==> n >= 1 && !stalled(toks, n),
{
    lemma_term_consumes(toks);
}

/// A relational expression consumes at least one token.
pub proof fn lemma_relational_consumes(toks: Seq<Lexeme>)
    ensures
        relational_expr(toks) matches Ok((_, n)) ==> n >= 1 && !stalled(toks, n),
{
    if !(cur(toks).val is End) {
        lemma_expr_consumes(toks);
    }
    reveal_with_fuel(relational_factor, 2);
    reveal_with_fuel(crate::grammar::var_disambiguate, 2);
}

/// A statement consumes at least one token: a parse never stalls.
pub proof fn lemma_statement_consumes(toks: Seq<Lexeme>)
    ensures
        statement(toks) matches Ok((_, n)) ==> n >= 1 && !stalled(toks, n),
{
    if !(cur(toks).val is End) {
        lemma_expr_consumes(toks);
    }
    lemma_function_consumes(toks);
    reveal_with_fuel(statement, 2);
}

/// The operators that join two operands in arithmetic.
pub open spec fn is_arithmetic_op(op: Op) -> bool {
    op == Op::Add || op == Op::Sub || op == Op::Mul || op == Op::Div || op == Op::IntDiv || op
        == Op::Mod || op == Op::Pow
}

/// The shape of an arithmetic tree: every binary node bears an arithmetic
/// operator, every unary node a sign, and so all the way down both sides,
/// to leaves that are numbers, names, calls whose arguments are of this
/// shape, or the empty leaf.
pub open spec fn arithmetic(e: SpecExpr) -> bool
    decreases e,
{
    match e {
        SpecExpr::Binary { left, right, op } => is_arithmetic_op(op) && arithmetic(*left)
            && arithmetic(*right),
        SpecExpr::Unary { right, op } => (op == Op::Pos || op == Op::Neg) && arithmetic(*right),
        SpecExpr::Factor(f) => arithmetic_leaf(*f),
    }
}

/// The leaves of an arithmetic tree.
pub open spec fn arithmetic_leaf(f: SpecFactor) -> bool
    decreases f,
{
    match f {
        SpecFactor::Float(t) => t.val is Number,
        SpecFactor::Symbol(t) => t.val is Var,
        SpecFactor::FnCall(c) => c.name.val is Var && forall|i: int|
            0 <= i < c.args.len() ==> arithmetic(#[trigger] c.args[i]),
        SpecFactor::Empty => true,
        _ => false,
    }
}

/// Every tree that `expr` builds is of the arithmetic shape.
pub proof fn law_expr_shape(toks: Seq<Lexeme>)
    ensures
        expr(toks) matches Ok((e, _)) ==> arithmetic(e),
    decreases toks.len(), 8nat,
{
    match term(toks) {
        Ok((left, n)) => {
            law_term_shape(toks);
            law_expr_tail_shape(rest(toks, n), left);
        },
        Err(_) => {},
    }
}

/// What `expr` appends to an operand of the arithmetic shape is of that
/// shape.
pub proof fn law_expr_tail_shape(toks: Seq<Lexeme>, left: SpecExpr)
    requires
        arithmetic(left),
    ensures
        expr_tail(toks, left) matches Ok((e, _)) ==> arithmetic(e),
    decreases toks.len(), 7nat,
{
    let t = cur(toks);
    if is_expr_op(t.val) {
        match chained(toks, left, op_of(t.val), term(rest(toks, 1))) {
            Ok((joined, n)) => {
                law_term_shape(rest(toks, 1));
                law_expr_tail_shape(rest(toks, n), joined);
            },
            Err(_) => {},
        }
    }
}

/// Every tree that `term` builds is of the arithmetic shape.
pub proof fn law_term_shape(toks: Seq<Lexeme>)
    ensures
        term(toks) matches Ok((e, _)) ==> arithmetic(e),
    decreases toks.len(), 6nat,
{
    match pow_factor(toks) {
        Ok((left, n)) => {
            law_pow_factor_shape(toks);
            law_term_tail_shape(rest(toks, n), left);
        },
        Err(_) => {},
    }
}

/// What `term` appends to an operand of the arithmetic shape is of that
/// shape.
pub proof fn law_term_tail_shape(toks: Seq<Lexeme>, left: SpecExpr)
    requires
        arithmetic(left),
    ensures
        term_tail(toks, left) matches Ok((e, _)) ==> arithmetic(e),
    decreases toks.len(), 5nat,
{
    let t = cur(toks);
    if is_term_op(t.val) {
        match chained(toks, left, op_of(t.val), pow_factor(rest(toks, 1))) {
            Ok((joined, n)) => {
                law_pow_factor_shape(rest(toks, 1));
                law_term_tail_shape(rest(toks, n), joined);
            },
            Err(_) => {},
        }
    }
}

/// Every tree that `pow_factor` builds is of the arithmetic shape.
pub proof fn law_pow_factor_shape(toks: Seq<Lexeme>)
    ensures
        pow_factor(toks) matches Ok((e, _)) ==> arithmetic(e),
    decreases toks.len(), 4nat,
{
    law_factor_shape(toks);
    match factor(toks) {
        Ok((left, n)) => {
            if cur(rest(toks, n)).val == the_op(Op::Pow) {
                law_factor_shape(rest(toks, n));
            }
        },
        Err(_) => {},
    }
}

/// Every tree that `factor` builds is of the arithmetic shape.
pub proof fn law_factor_shape(toks: Seq<Lexeme>)
    ensures
        factor(toks) matches Ok((e, _)) ==> arithmetic(e),
    decreases toks.len(), 3nat,
{
    let t = cur(toks);
    match t.val {
        SpecToken::Number(_) => {
            assert(arithmetic_leaf(SpecFactor::Float(t)));
        },
        SpecToken::Var(_) => {
            law_name_shape(toks);
        },
        SpecToken::Operator(Op::LParens) => {
            match eat(toks, the_op(Op::LParens)) {
                Ok((_, n)) => {
                    law_expr_shape(rest(toks, n));
                },
                Err(_) => {},
            }
        },
        SpecToken::Operator(Op::Pow) => {
            match eat(toks, the_op(Op::Pow)) {
                Ok((_, n)) => {
                    law_pow_factor_shape(rest(toks, n));
                },
                Err(_) => {},
            }
        },
        SpecToken::Operator(Op::Pos) => {
            match eat(toks, the_op(Op::Pos)) {
                Ok((_, n)) => {
                    law_factor_shape(rest(toks, n));
                },
                Err(_) => {},
            }
        },
        SpecToken::Operator(Op::Neg) => {
            match eat(toks, the_op(Op::Neg)) {
                Ok((_, n)) => {
                    law_factor_shape(rest(toks, n));
                },
                Err(_) => {},
            }
        },
        SpecToken::End => {
            assert(arithmetic_leaf(SpecFactor::Empty));
        },
        _ => {},
    }
}

/// Every leaf that a name becomes is of the arithmetic shape.
pub proof fn law_name_shape(toks: Seq<Lexeme>)
    ensures
        var_disambiguate(toks) matches Ok((f, _)) ==> arithmetic_leaf(f),
    decreases toks.len(), 2nat,
{
    match peek(toks) {
        Ok(next) => {
            if next.val == the_op(Op::LParens) {
                match eat(toks, a_name()) {
                    Ok((name, n)) => match eat(rest(toks, n), the_op(Op::LParens)) {
                        Ok((_, m)) => {
                            law_call_args_shape(rest(toks, n + m));
                        },
                        Err(_) => {},
                    },
                    Err(_) => {},
                }
            }
        },
        Err(_) => {},
    }
}

/// Every argument of a call is of the arithmetic shape.
pub proof fn law_call_args_shape(toks: Seq<Lexeme>)
    ensures
        call_args(toks) matches Ok((args, _)) ==> forall|i: int|
            0 <= i < args.len() ==> arithmetic(#[trigger] args[i]),
    decreases toks.len(), 10nat,
{
    if cur(toks).val != the_op(Op::RParens) {
        law_expr_shape(toks);
        match expr(toks) {
            Ok((a, n)) => {
                let s = cur(rest(toks, n));
                if s.val == the_op(Op::Comma) {
                    match eat(rest(toks, n), the_op(Op::Comma)) {
                        Ok((_, m)) => {
                            law_call_args_shape(rest(toks, n + m));
                            match call_args(rest(toks, n + m)) {
                                Ok((more, _)) => {
                                    let args = seq![a] + more;
                                    assert forall|i: int| 0 <= i < args.len() implies arithmetic(
                                        #[trigger] args[i],
                                    ) by {
                                        if i > 0 {
                                            assert(args[i] == more[i - 1]);
                                        }
                                    }
                                },
                                Err(_) => {},
                            }
                        },
                        Err(_) => {},
                    }
                } else if s.val == the_op(Op::RParens) {
                    assert(seq![a][0] == a);
                }
            },
            Err(_) => {},
        }
    }
}

/// A token that stands as an operand by itself: a number, or a name that is
/// not called.
pub open spec fn is_operand(toks: Seq<Lexeme>) -> bool {
    cur(toks).val is Number || (cur(toks).val is Var && peek(toks) is Ok && peek(toks)->Ok_0.val
        != the_op(Op::LParens))
}

/// The leaf that an operand token becomes.
pub open spec fn operand_leaf(toks: Seq<Lexeme>) -> SpecExpr {
    if cur(toks).val is Number {
        SpecExpr::Factor(Box::new(SpecFactor::Float(cur(toks))))
    } else {
        SpecExpr::Factor(Box::new(SpecFactor::Symbol(cur(toks))))
    }
}

/// Whether an expression goes on at the token `t`: at an operator that
/// joins another operand to it.
pub open spec fn continues(t: SpecToken) -> bool {
    is_expr_op(t) || is_term_op(t) || t == the_op(Op::Pow)
}

/// An operand after which the expression does not go on is, as a term, the
/// leaf of its token.
pub proof fn lemma_operand_alone(toks: Seq<Lexeme>)
    requires
        is_operand(toks),
        peek(toks) is Ok,
        !is_term_op(peek(toks)->Ok_0.val),
        peek(toks)->Ok_0.val != the_op(Op::Pow),
        toks.len() >= 2,
    ensures
        factor(toks) == Ok::<(SpecExpr, nat), SpecParseError>((operand_leaf(toks), 1)),
        pow_factor(toks) == Ok::<(SpecExpr, nat), SpecParseError>((operand_leaf(toks), 1)),
        term(toks) == Ok::<(SpecExpr, nat), SpecParseError>((operand_leaf(toks), 1)),
{
    reveal_with_fuel(var_disambiguate, 2);
    assert(factor(toks) == Ok::<(SpecExpr, nat), SpecParseError>((operand_leaf(toks), 1)));
    assert(cur(rest(toks, 1)) == peek(toks)->Ok_0);
    assert(pow_factor(toks) == Ok::<(SpecExpr, nat), SpecParseError>((operand_leaf(toks), 1)));
    assert(term_tail(rest(toks, 1), operand_leaf(toks)) == Ok::<(SpecExpr, nat), SpecParseError>(
        (operand_leaf(toks), 0),
    ));
}

/// The shape of `a OP b`: an operand, an arithmetic operator, an operand,
/// and then nothing that would carry the expression on, parse to the
/// binary node of that operator over the leaves of the two operands, on
/// three tokens.
pub proof fn law_binary_shape(toks: Seq<Lexeme>, op: Op)
    requires
        toks.len() >= 4,
        is_operand(toks),
        cur(rest(toks, 1)).val == the_op(op),
        is_arithmetic_op(op),
        is_operand(rest(toks, 2)),
        toks[1] is Tok,
        toks[2] is Tok,
        toks[3] is Tok,
        !continues(toks[3]->Tok_0.val),
    ensures
        expr(toks) == Ok::<(SpecExpr, nat), SpecParseError>(
            (binary(operand_leaf(toks), op, operand_leaf(rest(toks, 2))), 3),
        ),
{
    let a = operand_leaf(toks);
    let b = operand_leaf(rest(toks, 2));
    let t1 = rest(toks, 1);
    let t2 = rest(toks, 2);
    let t3 = rest(toks, 3);
    assert(rest(t1, 1) =~= t2);
    assert(rest(t2, 1) =~= t3);
    assert(rest(t1, 2) =~= t3);
    assert(cur(t3) == toks[3]->Tok_0);
    assert(peek(t2) == Ok::<SpecTokStruct, SpecParseError>(cur(t3)));
    lemma_operand_alone(t2);
    assert(eat(t1, the_op(op)) == Ok::<(SpecTokStruct, nat), SpecParseError>((cur(t1), 1)));
    assert(term_tail(t3, binary(a, op, b)) == Ok::<(SpecExpr, nat), SpecParseError>(
        (binary(a, op, b), 0),
    ));
    assert(expr_tail(t3, binary(a, op, b)) == Ok::<(SpecExpr, nat), SpecParseError>(
        (binary(a, op, b), 0),
    ));
    reveal_with_fuel(var_disambiguate, 2);
    assert(factor(toks) == Ok::<(SpecExpr, nat), SpecParseError>((a, 1)));
    if op == Op::Pow {
        assert(factor(t1) == Ok::<(SpecExpr, nat), SpecParseError>((b, 2))) by {
            reveal_with_fuel(factor, 2);
        }
        assert(pow_factor(toks) == Ok::<(SpecExpr, nat), SpecParseError>((binary(a, op, b), 3)));
        assert(term(toks) == Ok::<(SpecExpr, nat), SpecParseError>((binary(a, op, b), 3)));
    } else if is_term_op(the_op(op)) {
        assert(pow_factor(toks) == Ok::<(SpecExpr, nat), SpecParseError>((a, 1)));
        assert(chained(t1, a, op, pow_factor(t2)) == Ok::<(SpecExpr, nat), SpecParseError>(
            (binary(a, op, b), 2),
        ));
        assert(term_tail(t1, a) == Ok::<(SpecExpr, nat), SpecParseError>((binary(a, op, b), 2)));
        assert(term(toks) == Ok::<(SpecExpr, nat), SpecParseError>((binary(a, op, b), 3)));
    } else {
        assert(pow_factor(toks) == Ok::<(SpecExpr, nat), SpecParseError>((a, 1)));
        assert(term_tail(t1, a) == Ok::<(SpecExpr, nat), SpecParseError>((a, 0)));
        assert(term(toks) == Ok::<(SpecExpr, nat), SpecParseError>((a, 1)));
        assert(chained(t1, a, op, term(t2)) == Ok::<(SpecExpr, nat), SpecParseError>(
            (binary(a, op, b), 2),
        ));
        assert(expr_tail(t1, a) == Ok::<(SpecExpr, nat), SpecParseError>((binary(a, op, b), 2)));
    }
}

/// The first `n` lexemes of `toks` are tokens, not faults.
pub open spec fn tokens_upto(toks: Seq<Lexeme>, n: int) -> bool {
    n <= toks.len() && forall|i: int| 0 <= i < n ==> #[trigger] toks[i] is Tok
}

/// The operand at the place `i` of `toks`, after which stands `next`.
proof fn lemma_operand_at(toks: Seq<Lexeme>, i: nat)
    requires
        tokens_upto(toks, i as int + 2),
        is_operand(rest(toks, i)),
        cur(rest(toks, i + 1)).val != the_op(Op::Pow),
    ensures
        rest(rest(toks, i), 1) == rest(toks, i + 1),
        factor(rest(toks, i)) == Ok::<(SpecExpr, nat), SpecParseError>(
            (operand_leaf(rest(toks, i)), 1),
        ),
        pow_factor(rest(toks, i)) == Ok::<(SpecExpr, nat), SpecParseError>(
            (operand_leaf(rest(toks, i)), 1),
        ),
        !is_term_op(cur(rest(toks, i + 1)).val) ==> term(rest(toks, i)) == Ok::<
            (SpecExpr, nat),
            SpecParseError,
        >((operand_leaf(rest(toks, i)), 1)),
{
    let here = rest(toks, i);
    let next = rest(toks, i + 1);
    assert(rest(here, 1) =~= next);
    assert(toks[i as int] is Tok);
    assert(toks[i as int + 1] is Tok);
    assert(here[0] == toks[i as int]);
    assert(here[1] == toks[i as int + 1]);
    assert(next[0] == toks[i as int + 1]);
    assert(peek(here) == Ok::<SpecTokStruct, SpecParseError>(cur(next)));
    reveal_with_fuel(var_disambiguate, 2);
    assert(factor(here) == Ok::<(SpecExpr, nat), SpecParseError>((operand_leaf(here), 1)));
    assert(pow_factor(here) == Ok::<(SpecExpr, nat), SpecParseError>((operand_leaf(here), 1)));
    if !is_term_op(cur(next).val) {
        assert(term_tail(next, operand_leaf(here)) == Ok::<(SpecExpr, nat), SpecParseError>(
            (operand_leaf(here), 0),
        ));
    }
}

/// The operator at the place `i` of `toks` is consumed by itself.
proof fn lemma_operator_at(toks: Seq<Lexeme>, i: nat, op: Op)
    requires
        tokens_upto(toks, i as int + 2),
        cur(rest(toks, i)).val == the_op(op),
    ensures
        rest(rest(toks, i), 1) == rest(toks, i + 1),
        eat(rest(toks, i), the_op(op)) == Ok::<(SpecTokStruct, nat), SpecParseError>(
            (cur(rest(toks, i)), 1),
        ),
{
    let here = rest(toks, i);
    assert(rest(here, 1) =~= rest(toks, i + 1));
    assert(toks[i as int] is Tok);
    assert(toks[i as int + 1] is Tok);
    assert(here[0] == toks[i as int]);
    assert(here[1] == toks[i as int + 1]);
}

/// Operators of one level group to the left: `a OP b OP' c`, where both
/// operators are `+` or `-`, or both are of `*`, `/`, `//` and `%`, and
/// nothing after `c` carries the expression on, is `(a OP b) OP' c`.
pub proof fn law_groups_left(toks: Seq<Lexeme>, first: Op, second: Op)
    requires
        tokens_upto(toks, 6),
        is_operand(toks),
        cur(rest(toks, 1)).val == the_op(first),
        is_operand(rest(toks, 2)),
        cur(rest(toks, 3)).val == the_op(second),
        is_operand(rest(toks, 4)),
        !continues(cur(rest(toks, 5)).val),
        (is_expr_op(the_op(first)) && is_expr_op(the_op(second))) || (is_term_op(the_op(first))
            && is_term_op(the_op(second))),
    ensures
        expr(toks) == Ok::<(SpecExpr, nat), SpecParseError>(
            (
                binary(
                    binary(operand_leaf(toks), first, operand_leaf(rest(toks, 2))),
                    second,
                    operand_leaf(rest(toks, 4)),
                ),
                5,
            ),
        ),
{
    let a = operand_leaf(toks);
    let b = operand_leaf(rest(toks, 2));
    let c = operand_leaf(rest(toks, 4));
    let t1 = rest(toks, 1);
    let t2 = rest(toks, 2);
    let t3 = rest(toks, 3);
    let t4 = rest(toks, 4);
    let t5 = rest(toks, 5);
    let ab = binary(a, first, b);
    let abc = binary(ab, second, c);
    assert(rest(toks, 0) =~= toks);
    lemma_operand_at(toks, 0);
    lemma_operator_at(toks, 1, first);
    lemma_operand_at(toks, 2);
    lemma_operator_at(toks, 3, second);
    lemma_operand_at(toks, 4);
    assert(rest(t1, 2) =~= t3);
    assert(rest(t3, 2) =~= t5);
    assert(rest(toks, 3) == t3);
    assert(term_tail(t5, abc) == Ok::<(SpecExpr, nat), SpecParseError>((abc, 0)));
    assert(expr_tail(t5, abc) == Ok::<(SpecExpr, nat), SpecParseError>((abc, 0)));
    if is_expr_op(the_op(first)) {
        assert(term(toks) == Ok::<(SpecExpr, nat), SpecParseError>((a, 1)));
        assert(term(t2) == Ok::<(SpecExpr, nat), SpecParseError>((b, 1)));
        assert(term(t4) == Ok::<(SpecExpr, nat), SpecParseError>((c, 1)));
        assert(chained(t3, ab, second, term(t4)) == Ok::<(SpecExpr, nat), SpecParseError>(
            (abc, 2),
        ));
        assert(expr_tail(t3, ab) == Ok::<(SpecExpr, nat), SpecParseError>((abc, 2)));
        assert(chained(t1, a, first, term(t2)) == Ok::<(SpecExpr, nat), SpecParseError>((ab, 2)));
        assert(expr_tail(t1, a) == Ok::<(SpecExpr, nat), SpecParseError>((abc, 4)));
    } else {
        assert(chained(t3, ab, second, pow_factor(t4)) == Ok::<(SpecExpr, nat), SpecParseError>(
            (abc, 2),
        ));
        assert(term_tail(t3, ab) == Ok::<(SpecExpr, nat), SpecParseError>((abc, 2)));
        assert(chained(t1, a, first, pow_factor(t2)) == Ok::<(SpecExpr, nat), SpecParseError>(
            (ab, 2),
        ));
        assert(term_tail(t1, a) == Ok::<(SpecExpr, nat), SpecParseError>((abc, 4)));
        assert(term(toks) == Ok::<(SpecExpr, nat), SpecParseError>((abc, 5)));
    }
}

/// Multiplication binds tighter than addition: `a OP b OP' c`, where `OP`
/// is `+` or `-` and `OP'` one of `*`, `/`, `//` and `%`, and nothing after
/// `c` carries the expression on, is `a OP (b OP' c)`.
pub proof fn law_term_binds_tighter(toks: Seq<Lexeme>, first: Op, second: Op)
    requires
        tokens_upto(toks, 6),
        is_operand(toks),
        cur(rest(toks, 1)).val == the_op(first),
        is_operand(rest(toks, 2)),
        cur(rest(toks, 3)).val == the_op(second),
        is_operand(rest(toks, 4)),
        !continues(cur(rest(toks, 5)).val),
        is_expr_op(the_op(first)),
        is_term_op(the_op(second)),
    ensures
        expr(toks) == Ok::<(SpecExpr, nat), SpecParseError>(
            (
                binary(
                    operand_leaf(toks),
                    first,
                    binary(operand_leaf(rest(toks, 2)), second, operand_leaf(rest(toks, 4))),
                ),
                5,
            ),
        ),
{
    let a = operand_leaf(toks);
    let b = operand_leaf(rest(toks, 2));
    let c = operand_leaf(rest(toks, 4));
    let t1 = rest(toks, 1);
    let t2 = rest(toks, 2);
    let t3 = rest(toks, 3);
    let t4 = rest(toks, 4);
    let t5 = rest(toks, 5);
    let bc = binary(b, second, c);
    let abc = binary(a, first, bc);
    assert(rest(toks, 0) =~= toks);
    lemma_operand_at(toks, 0);
    lemma_operator_at(toks, 1, first);
    lemma_operand_at(toks, 2);
    lemma_operator_at(toks, 3, second);
    lemma_operand_at(toks, 4);
    assert(rest(t1, 4) =~= t5);
    assert(rest(t3, 2) =~= t5);
    assert(rest(t2, 1) =~= t3);
    assert(rest(t2, 3) =~= t5);
    assert(term(toks) == Ok::<(SpecExpr, nat), SpecParseError>((a, 1)));
    assert(term_tail(t5, bc) == Ok::<(SpecExpr, nat), SpecParseError>((bc, 0)));
    assert(chained(t3, b, second, pow_factor(t4)) == Ok::<(SpecExpr, nat), SpecParseError>(
        (bc, 2),
    ));
    assert(term_tail(t3, b) == Ok::<(SpecExpr, nat), SpecParseError>((bc, 2)));
    assert(term(t2) == Ok::<(SpecExpr, nat), SpecParseError>((bc, 3)));
    assert(chained(t1, a, first, term(t2)) == Ok::<(SpecExpr, nat), SpecParseError>((abc, 4)));
    assert(expr_tail(t5, abc) == Ok::<(SpecExpr, nat), SpecParseError>((abc, 0)));
    assert(expr_tail(t1, a) == Ok::<(SpecExpr, nat), SpecParseError>((abc, 4)));
}

/// Powers group to the right: `a ** b ** c`, where nothing after `c`
/// carries the expression on, is `a ** (b ** c)`.
pub proof fn law_power_groups_right(toks: Seq<Lexeme>)
    requires
        tokens_upto(toks, 6),
        is_operand(toks),
        cur(rest(toks, 1)).val == the_op(Op::Pow),
        is_operand(rest(toks, 2)),
        cur(rest(toks, 3)).val == the_op(Op::Pow),
        is_operand(rest(toks, 4)),
        !continues(cur(rest(toks, 5)).val),
    ensures
        expr(toks) == Ok::<(SpecExpr, nat), SpecParseError>(
            (
                binary(
                    operand_leaf(toks),
                    Op::Pow,
                    binary(operand_leaf(rest(toks, 2)), Op::Pow, operand_leaf(rest(toks, 4))),
                ),
                5,
            ),
        ),
{
    let a = operand_leaf(toks);
    let b = operand_leaf(rest(toks, 2));
    let c = operand_leaf(rest(toks, 4));
    let t1 = rest(toks, 1);
    let t2 = rest(toks, 2);
    let t3 = rest(toks, 3);
    let t4 = rest(toks, 4);
    let t5 = rest(toks, 5);
    let bc = binary(b, Op::Pow, c);
    let abc = binary(a, Op::Pow, bc);
    assert(rest(toks, 0) =~= toks);
    lemma_operator_at(toks, 1, Op::Pow);
    lemma_operator_at(toks, 3, Op::Pow);
    lemma_operand_at(toks, 4);
    assert(rest(t3, 2) =~= t5);
    assert(rest(t2, 1) =~= t3);
    assert(rest(t2, 3) =~= t5);
    assert(rest(toks, 1) == t1);
    assert(rest(t1, 4) =~= t5);
    assert(rest(toks, 5) =~= t5);
    reveal_with_fuel(var_disambiguate, 2);
    // The innermost power first.
    assert(factor(t3) == Ok::<(SpecExpr, nat), SpecParseError>((c, 2))) by {
        reveal_with_fuel(factor, 2);
    }
    assert(toks[2] is Tok && toks[3] is Tok);
    assert(t2[0] == toks[2] && t2[1] == toks[3]);
    assert(peek(t2) == Ok::<SpecTokStruct, SpecParseError>(cur(t3)));
    assert(factor(t2) == Ok::<(SpecExpr, nat), SpecParseError>((b, 1)));
    assert(pow_factor(t2) == Ok::<(SpecExpr, nat), SpecParseError>((bc, 3)));
    assert(factor(t1) == Ok::<(SpecExpr, nat), SpecParseError>((bc, 4))) by {
        reveal_with_fuel(factor, 2);
    }
    assert(toks[0] is Tok && toks[1] is Tok);
    assert(toks =~= rest(toks, 0));
    assert(peek(toks) == Ok::<SpecTokStruct, SpecParseError>(cur(t1)));
    assert(factor(toks) == Ok::<(SpecExpr, nat), SpecParseError>((a, 1)));
    assert(pow_factor(toks) == Ok::<(SpecExpr, nat), SpecParseError>((abc, 5)));
    assert(term_tail(t5, abc) == Ok::<(SpecExpr, nat), SpecParseError>((abc, 0)));
    assert(term(toks) == Ok::<(SpecExpr, nat), SpecParseError>((abc, 5)));
    assert(expr_tail(t5, abc) == Ok::<(SpecExpr, nat), SpecParseError>((abc, 0)));
}

/// The token at the place `i` of `toks`.
pub open spec fn token_at(toks: Seq<Lexeme>, i: int) -> SpecToken {
    cur(rest(toks, i as nat)).val
}

/// The tokens of `toks` from the place `from` up to the place `to`.
pub open spec fn tokens_between(toks: Seq<Lexeme>, from: int, to: int) -> Seq<SpecToken> {
    Seq::new((to - from) as nat, |k: int| token_at(toks, from + k))
}

/// `toks` begins with an arithmetic expression without parentheses, signs
/// or calls, on `n` tokens: operands, which are numbers and names, stand at
/// the even places, arithmetic operators between them at the odd places,
/// and the token after the last operand carries the expression no further.
#[verifier::opaque]
pub open spec fn is_chain(toks: Seq<Lexeme>, n: int) -> bool {
    &&& n >= 1
    &&& n % 2 == 1
    &&& tokens_upto(toks, n + 1)
    &&& forall|i: int|
        0 <= i < n && i % 2 == 0 ==> (#[trigger] token_at(toks, i)) is Number || token_at(
            toks,
            i,
        ) is Var
    &&& forall|i: int|
        0 <= i < n && i % 2 == 1 ==> continues(#[trigger] token_at(toks, i))
    &&& !continues(token_at(toks, n))
    &&& token_at(toks, n) != the_op(Op::LParens)
}

/// What a tree spells: the tokens of its leaves and the operators of its
/// nodes, from left to right.
pub open spec fn spelled(e: SpecExpr) -> Seq<SpecToken>
    decreases e,
{
    match e {
        SpecExpr::Binary { left, right, op } => spelled(*left) + seq![the_op(op)] + spelled(*right),
        SpecExpr::Unary { right, op } => seq![the_op(op)] + spelled(*right),
        SpecExpr::Factor(f) => match *f {
            SpecFactor::Float(t) => seq![t.val],
            SpecFactor::Symbol(t) => seq![t.val],
            _ => Seq::empty(),
        },
    }
}

/// A tree of binary nodes over leaves that are numbers and names.
pub open spec fn is_binary_tree(e: SpecExpr) -> bool
    decreases e,
{
    match e {
        SpecExpr::Binary { left, right, op } => is_binary_tree(*left) && is_binary_tree(*right),
        SpecExpr::Unary { .. } => false,
        SpecExpr::Factor(f) => *f is Float || *f is Symbol,
    }
}

/// The number of binary nodes of a tree.
pub open spec fn binary_nodes(e: SpecExpr) -> nat
    decreases e,
{
    match e {
        SpecExpr::Binary { left, right, op } => binary_nodes(*left) + 1 + binary_nodes(*right),
        SpecExpr::Unary { right, .. } => binary_nodes(*right),
        SpecExpr::Factor(_) => 0,
    }
}

/// A tree for the tokens of `toks` from the place `from` up to the place
/// `to`: a tree of binary nodes that spells exactly those tokens, with one
/// node for each operator among them.
#[verifier::opaque]
pub open spec fn reads(e: SpecExpr, toks: Seq<Lexeme>, from: int, to: int) -> bool {
    &&& is_binary_tree(e)
    &&& spelled(e) == tokens_between(toks, from, to)
    &&& 2 * binary_nodes(e) + 1 == to - from
}

/// What is known of the places of a chain.
proof fn lemma_chain_places(toks: Seq<Lexeme>, n: int, i: int)
    requires
        is_chain(toks, n),
        0 <= i <= n,
    ensures
        n >= 1,
        n % 2 == 1,
        i < toks.len(),
        toks[i] is Tok,
        token_at(toks, i) == toks[i]->Tok_0.val,
        i < n ==> rest(rest(toks, i as nat), 1) == rest(toks, (i + 1) as nat),
        i < n ==> peek(rest(toks, i as nat)) == Ok::<SpecTokStruct, SpecParseError>(
            cur(rest(toks, (i + 1) as nat)),
        ),
        i < n && i % 2 == 0 ==> is_operand(rest(toks, i as nat)),
        i < n && i % 2 == 1 ==> continues(token_at(toks, i)) && token_at(toks, i) == the_op(
            op_of(token_at(toks, i)),
        ) && eat(rest(toks, i as nat), token_at(toks, i)) == Ok::<
            (SpecTokStruct, nat),
            SpecParseError,
        >((cur(rest(toks, i as nat)), 1)),
        i == n ==> !continues(token_at(toks, i)),
{
    reveal(is_chain);
    assert(toks[i] is Tok);
    assert(rest(toks, i as nat)[0] == toks[i]);
    if i < n {
        assert(toks[i + 1] is Tok);
        assert(rest(rest(toks, i as nat), 1) =~= rest(toks, (i + 1) as nat));
        assert(rest(toks, i as nat)[1] == toks[i + 1]);
        assert(rest(toks, (i + 1) as nat)[0] == toks[i + 1]);
        if i % 2 == 0 {
            assert(token_at(toks, i) is Number || token_at(toks, i) is Var);
            if i + 1 < n {
                assert(continues(token_at(toks, i + 1)));
            }
            assert(token_at(toks, i + 1) != the_op(Op::LParens));
        } else {
            assert(continues(token_at(toks, i)));
        }
    }
}

/// Consuming tokens up to one place and then up to another is consuming
/// them up to the other.
proof fn lemma_places_add(toks: Seq<Lexeme>, i: int, j: int)
    requires
        0 <= i <= j,
    ensures
        rest(rest(toks, i as nat), (j - i) as nat) == rest(toks, j as nat),
{
    crate::stream::lemma_rest_rest(toks, i as nat, (j - i) as nat);
}

/// A leaf reads the one token that it holds.
proof fn lemma_reads_leaf(toks: Seq<Lexeme>, i: int)
    requires
        0 <= i,
        token_at(toks, i) is Number || token_at(toks, i) is Var,
    ensures
        reads(operand_leaf(rest(toks, i as nat)), toks, i, i + 1),
{
    reveal(reads);
    assert(tokens_between(toks, i, i + 1) =~= seq![token_at(toks, i)]);
}

/// A binary node reads what its operands read and the operator between
/// them.
proof fn lemma_reads_join(
    toks: Seq<Lexeme>,
    i: int,
    j: int,
    k: int,
    left: SpecExpr,
    op: Op,
    right: SpecExpr,
)
    requires
        0 <= i < j < k,
        reads(left, toks, i, j),
        reads(right, toks, j + 1, k),
        token_at(toks, j) == the_op(op),
    ensures
        reads(binary(left, op, right), toks, i, k),
{
    reveal(reads);
    assert(tokens_between(toks, i, j) + seq![token_at(toks, j)] + tokens_between(toks, j + 1, k)
        =~= tokens_between(toks, i, k));
}

/// The operand at the even place `i` of a chain is read as its leaf.
proof fn lemma_chain_leaf(toks: Seq<Lexeme>, n: int, i: int)
    requires
        is_chain(toks, n),
        0 <= i < n,
        i % 2 == 0,
    ensures
        factor(rest(toks, i as nat)) == Ok::<(SpecExpr, nat), SpecParseError>(
            (operand_leaf(rest(toks, i as nat)), 1),
        ),
        reads(operand_leaf(rest(toks, i as nat)), toks, i, i + 1),
{
    lemma_chain_places(toks, n, i);
    let here = rest(toks, i as nat);
    reveal_with_fuel(var_disambiguate, 2);
    assert(factor(here) == Ok::<(SpecExpr, nat), SpecParseError>((operand_leaf(here), 1)));
    assert(token_at(toks, i) is Number || token_at(toks, i) is Var);
    lemma_reads_leaf(toks, i);
}

/// The factor that a `**` at the odd place `j` of a chain begins is the
/// power factor after it.
proof fn lemma_chain_power(toks: Seq<Lexeme>, n: int, j: int, right: SpecExpr, to: int)
    requires
        is_chain(toks, n),
        0 < j < n,
        j % 2 == 1,
        j + 1 < to,
        token_at(toks, j) == the_op(Op::Pow),
        pow_factor(rest(toks, (j + 1) as nat)) == Ok::<(SpecExpr, nat), SpecParseError>(
            (right, (to - j - 1) as nat),
        ),
    ensures
        factor(rest(toks, j as nat)) == Ok::<(SpecExpr, nat), SpecParseError>(
            (right, (to - j) as nat),
        ),
{
    lemma_chain_places(toks, n, j);
    reveal_with_fuel(factor, 2);
}

/// The power factor at the even place `i` of a chain: it reads the tokens
/// up to the first operator after `i` that is not `**`.
proof fn lemma_chain_pow_factor(toks: Seq<Lexeme>, n: int, i: int) -> (r: (SpecExpr, int))
    requires
        is_chain(toks, n),
        0 <= i < n,
        i % 2 == 0,
    ensures
        i < r.1 <= n,
        r.1 % 2 == 1,
        pow_factor(rest(toks, i as nat)) == Ok::<(SpecExpr, nat), SpecParseError>(
            (r.0, (r.1 - i) as nat),
        ),
        reads(r.0, toks, i, r.1),
        token_at(toks, r.1) != the_op(Op::Pow),
    decreases n - i,
{
    lemma_chain_leaf(toks, n, i);
    lemma_chain_places(toks, n, i);
    lemma_chain_places(toks, n, i + 1);
    let here = rest(toks, i as nat);
    let leaf = operand_leaf(here);
    if token_at(toks, i + 1) == the_op(Op::Pow) {
        let (right, to) = lemma_chain_pow_factor(toks, n, i + 2);
        lemma_chain_power(toks, n, i + 1, right, to);
        lemma_reads_join(toks, i, i + 1, to, leaf, Op::Pow, right);
        (binary(leaf, Op::Pow, right), to)
    } else {
        (leaf, i + 1)
    }
}

/// One link of a chain at the odd place `j`: the operator there joins
/// `left` to the operand `right`, which is read from `j + 1` up to `k`.
proof fn lemma_chain_link(
    toks: Seq<Lexeme>,
    n: int,
    j: int,
    k: int,
    left: SpecExpr,
    operand: Parsed<SpecExpr>,
    right: SpecExpr,
)
    requires
        is_chain(toks, n),
        0 < j < n,
        j % 2 == 1,
        j + 1 < k,
        operand == Ok::<(SpecExpr, nat), SpecParseError>((right, (k - j - 1) as nat)),
    ensures
        chained(rest(toks, j as nat), left, op_of(token_at(toks, j)), operand) == Ok::<
            (SpecExpr, nat),
            SpecParseError,
        >((binary(left, op_of(token_at(toks, j)), right), (k - j) as nat)),
{
    lemma_chain_places(toks, n, j);
}

/// What a term appends to the tree `left`, which reads a chain from the
/// even place `i` up to `j`: it reads on up to the first operator that is
/// neither `**` nor of a term.
proof fn lemma_chain_term_tail(toks: Seq<Lexeme>, n: int, i: int, j: int, left: SpecExpr) -> (r: (
    SpecExpr,
    int,
))
    requires
        is_chain(toks, n),
        0 <= i < j <= n,
        j % 2 == 1,
        reads(left, toks, i, j),
        token_at(toks, j) != the_op(Op::Pow),
    ensures
        j <= r.1 <= n,
        r.1 % 2 == 1,
        term_tail(rest(toks, j as nat), left) == Ok::<(SpecExpr, nat), SpecParseError>(
            (r.0, (r.1 - j) as nat),
        ),
        reads(r.0, toks, i, r.1),
        !is_term_op(token_at(toks, r.1)),
        token_at(toks, r.1) != the_op(Op::Pow),
    decreases n - j,
{
    lemma_chain_places(toks, n, j);
    let here = rest(toks, j as nat);
    if is_term_op(token_at(toks, j)) {
        let op = op_of(token_at(toks, j));
        let (right, k) = lemma_chain_pow_factor(toks, n, j + 1);
        let joined = binary(left, op, right);
        lemma_chain_link(toks, n, j, k, left, pow_factor(rest(here, 1)), right);
        lemma_reads_join(toks, i, j, k, left, op, right);
        let (e, to) = lemma_chain_term_tail(toks, n, i, k, joined);
        lemma_places_add(toks, j, k);
        (e, to)
    } else {
        (left, j)
    }
}

/// The term at the even place `i` of a chain.
proof fn lemma_chain_term(toks: Seq<Lexeme>, n: int, i: int) -> (r: (SpecExpr, int))
    requires
        is_chain(toks, n),
        0 <= i < n,
        i % 2 == 0,
    ensures
        i < r.1 <= n,
        r.1 % 2 == 1,
        term(rest(toks, i as nat)) == Ok::<(SpecExpr, nat), SpecParseError>(
            (r.0, (r.1 - i) as nat),
        ),
        reads(r.0, toks, i, r.1),
        !is_term_op(token_at(toks, r.1)),
        token_at(toks, r.1) != the_op(Op::Pow),
{
    let (left, j) = lemma_chain_pow_factor(toks, n, i);
    let (e, to) = lemma_chain_term_tail(toks, n, i, j, left);
    lemma_places_add(toks, i, j);
    (e, to)
}

/// What an expression appends to the tree `left`, which reads a chain from
/// its start up to `j`: it reads on to the end of the chain.
proof fn lemma_chain_expr_tail(toks: Seq<Lexeme>, n: int, j: int, left: SpecExpr) -> (e: SpecExpr)
    requires
        is_chain(toks, n),
        0 < j <= n,
        j % 2 == 1,
        reads(left, toks, 0, j),
        !is_term_op(token_at(toks, j)),
        token_at(toks, j) != the_op(Op::Pow),
    ensures
        expr_tail(rest(toks, j as nat), left) == Ok::<(SpecExpr, nat), SpecParseError>(
            (e, (n - j) as nat),
        ),
        reads(e, toks, 0, n),
    decreases n - j,
{
    lemma_chain_places(toks, n, j);
    let here = rest(toks, j as nat);
    if is_expr_op(token_at(toks, j)) {
        let op = op_of(token_at(toks, j));
        let (right, k) = lemma_chain_term(toks, n, j + 1);
        let joined = binary(left, op, right);
        lemma_chain_link(toks, n, j, k, left, term(rest(here, 1)), right);
        lemma_reads_join(toks, 0, j, k, left, op, right);
        let e = lemma_chain_expr_tail(toks, n, k, joined);
        lemma_places_add(toks, j, k);
        e
    } else {
        left
    }
}

/// The shape of an arithmetic expression of any length: a chain of operands
/// and operators parses, whole, to a tree of binary nodes whose leaves,
/// read from left to right with the operators of the nodes between them,
/// are the tokens of the chain in their order, with one node for each
/// operator.
pub proof fn law_chain_shape(toks: Seq<Lexeme>, n: int) -> (e: SpecExpr)
    requires
        is_chain(toks, n),
    ensures
        expr(toks) == Ok::<(SpecExpr, nat), SpecParseError>((e, n as nat)),
        is_binary_tree(e),
        spelled(e) == tokens_between(toks, 0, n),
        2 * binary_nodes(e) + 1 == n,
{
    assert(n >= 1) by {
        reveal(is_chain);
    }
    let (left, j) = lemma_chain_term(toks, n, 0);
    let e = lemma_chain_expr_tail(toks, n, j, left);
    assert(is_binary_tree(e) && spelled(e) == tokens_between(toks, 0, n) && 2 * binary_nodes(e) + 1
        == n) by {
        reveal(reads);
    }
    e
}

/// Keyword classification takes precedence over identifier
/// classification: no scan yields an identifier whose name is in the table
/// of reserved words, and none a keyword whose name is not.
pub proof fn law_keyword_precedence(src: Source, pos: nat, prev: SpecToken)
    ensures
        match scan(src, pos, prev) {
            Scan::Token { token, start, end } => match token {
                SpecToken::Var(name) => !src.keywords.contains(name),
                SpecToken::KeyWord(name) => src.keywords.contains(name),
                _ => true,
            },
            Scan::Fault(_) => true,
        },
{
}

/// The end marker is permanent: once a step has yielded it, every further
/// step yields it again, at the same offset, and the lexer stays where it
/// is.
pub proof fn law_end_is_permanent(src: Source, at: Cursor)
    ensures
        step(src, at) matches Ok(next) ==> (next.curr.val is End ==> step(src, next) == Ok::<
            Cursor,
            SpecLexError,
        >(next)),
{
    lemma_scan_bounds(src, at.pos, at.curr.val);
    match step(src, at) {
        Ok(next) => {
            if next.curr.val is End {
                lemma_spaces_end_bounds(src.text, at.pos);
                assert(next.pos >= src.text.len());
                assert(spaces_end(src.text, next.pos) == next.pos);
            }
        },
        Err(_) => {},
    }
}

/// Every scan ends: it yields a token, or fails on a numeral that is none
/// or on a character that starts no token. In particular an operator that
/// stands last in the text is read in its one-character form.
pub proof fn law_every_scan_ends(src: Source, pos: nat, prev: SpecToken)
    ensures
        !(scan(src, pos, prev) matches Scan::Fault(SpecLexError::UnterminatedScan { .. })),
{
}

} // verus!
