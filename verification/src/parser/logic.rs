//! The relational and the boolean rules.
use vstd::prelude::*;
use crate::ast::{Expr, SpecExpr};
use crate::error::{ParseError, Rule};
use crate::grammar;
use crate::parser::{computes, consumed, holds_still, Parser};
use crate::grammar::chained;
use crate::stream::{position, after, cur, eat, lemma_rest_rest, rest, Lexeme};
use crate::token::{Op, Token};

verus! {

/// The relational operator that `t` is, where it is one.
fn relational_op(t: &Token) -> (op: Option<Op>)
    ensures
        op == grammar::relational_op_of(t@),
        op matches Some(o) ==> t@ == grammar::the_op(o),
{
    match t {
        Token::Operator(Op::Eq_) => Some(Op::Eq_),
        Token::Operator(Op::Neq) => Some(Op::Neq),
        Token::Operator(Op::Lt_) => Some(Op::Lt_),
        Token::Operator(Op::Leq) => Some(Op::Leq),
        Token::Operator(Op::Gt_) => Some(Op::Gt_),
        Token::Operator(Op::Geq) => Some(Op::Geq),
        _ => None,
    }
}

/// `||`, where `t` is that.
fn or_op(t: &Token) -> (op: Option<Op>)
    ensures
        match op {
            Some(op) => t@ == grammar::the_op(op) && op == Op::Or_,
            None => t@ != grammar::the_op(Op::Or_),
        },
{
    match t {
        Token::Operator(Op::Or_) => Some(Op::Or_),
        _ => None,
    }
}

/// `&&`, where `t` is that.
fn and_op(t: &Token) -> (op: Option<Op>)
    ensures
        match op {
            Some(op) => t@ == grammar::the_op(op) && op == Op::And,
            None => t@ != grammar::the_op(Op::And),
        },
{
    match t {
        Token::Operator(Op::And) => Some(Op::And),
        _ => None,
    }
}

impl Parser {
    /// `relational_expr`
    #[verifier::rlimit(50)]
    pub fn relational_expr(&mut self) -> (r: Result<Expr, ParseError>)
        ensures
            final(self).source() == old(self).source(),
            final(self).offset() >= old(self).offset(),
            final(self).offset() == position(final(self).ahead()),
            computes(
                old(self).ahead(),
                final(self).ahead(),
                r,
                grammar::relational_expr(old(self).ahead()),
            ),
            holds_still(
                old(self).offset(),
                final(self).offset(),
                consumed(grammar::relational_expr(old(self).ahead())),
            ),
        decreases old(self).ahead().len(), 3nat,
    {
        let mark = self.mark();
        let ghost t0 = self.ahead();
        let mut t = match self.relational_factor() {
            Ok(v) => v,
            Err(e) => {
                self.rewind(&mark);
                return Err(e);
            },
        };
        let ghost mut done: nat = grammar::relational_factor(t0)->Ok_0.1;
        let mut next = relational_op(self.current_token());
        while next.is_some()
            invariant
                self.source() == old(self).source(),
                self.offset() >= old(self).offset(),
                self.offset() == position(self.ahead()),
                mark.stream(old(self).source()) == old(self).ahead(),
                mark.offset() == old(self).offset(),
                t0 == old(self).ahead(),
                self.ahead() == rest(t0, done),
                grammar::relational_expr(t0) == after(done, grammar::relational_tail(self.ahead(), t@)),
                next == grammar::relational_op_of(cur(self.ahead()).val),
                next matches Some(o) ==> cur(self.ahead()).val == grammar::the_op(o),
            decreases self.ahead().len(),
        {
            let op = next.unwrap();
            let ghost here = self.ahead();
            let ghost left = t@;
            let ghost link = chained(here, left, op, grammar::relational_factor(rest(here, 1)));
            match self.relational_step(t, op) {
                Ok(joined) => {
                    t = joined;
                },
                Err(e) => {
                    self.rewind(&mark);
                    return Err(e);
                },
            }
            proof {
                let n = link->Ok_0.1;
                lemma_rest_rest(t0, done, n);
                done = done + n;
            }
            next = relational_op(self.current_token());
        }
        Ok(t)
    }

    /// One link of a relational expression: the operator `op`, which is
    /// current, and the relational factor after it.
    fn relational_step(&mut self, left: Expr, op: Op) -> (r: Result<Expr, ParseError>)
        requires
            cur(old(self).ahead()).val == grammar::the_op(op),
        ensures
            final(self).source() == old(self).source(),
            final(self).offset() >= old(self).offset(),
            final(self).offset() == position(final(self).ahead()),
            computes(
                old(self).ahead(),
                final(self).ahead(),
                r,
                chained(
                    old(self).ahead(),
                    left@,
                    op,
                    grammar::relational_factor(rest(old(self).ahead(), 1)),
                ),
            ),
            holds_still(
                old(self).offset(),
                final(self).offset(),
                consumed(chained( old(self).ahead(), left@, op, grammar::relational_factor(rest(old(self).ahead(), 1)), )),
            ),
        decreases old(self).ahead().len(), 2nat,
    {
        let mark = self.mark();
        let ghost t0 = self.ahead();
        match self.eat(Token::Operator(op)) {
            Ok(_) => {},
            Err(e) => {
                self.rewind(&mark);
                return Err(e);
            },
        }
        let ghost t1 = self.ahead();
        let right = match self.relational_factor() {
            Ok(v) => v,
            Err(e) => {
                self.rewind(&mark);
                return Err(e);
            },
        };
        proof {
            lemma_rest_rest(t0, 1, grammar::relational_factor(t1)->Ok_0.1);
        }
        Ok(Expr::binary(left, right, op))
    }

    /// `relational_factor`
    pub fn relational_factor(&mut self) -> (r: Result<Expr, ParseError>)
        ensures
            final(self).source() == old(self).source(),
            final(self).offset() >= old(self).offset(),
            final(self).offset() == position(final(self).ahead()),
            computes(
                old(self).ahead(),
                final(self).ahead(),
                r,
                grammar::relational_factor(old(self).ahead()),
            ),
            holds_still(
                old(self).offset(),
                final(self).offset(),
                consumed(grammar::relational_factor(old(self).ahead())),
            ),
        decreases old(self).ahead().len(), 1nat,
    {
        let mark = self.mark();
        let m = self.get_curr();
        match m.val() {
            Token::Number(_) => {
                let f = match self.number() {
                    Ok(v) => v,
                    Err(e) => {
                        self.rewind(&mark);
                        return Err(e);
                    },
                };
                Ok(Expr::leaf(f))
            },
            Token::Var(_) => {
                let f = match self.var_disambiguate() {
                    Ok(v) => v,
                    Err(e) => {
                        self.rewind(&mark);
                        return Err(e);
                    },
                };
                Ok(Expr::leaf(f))
            },
            Token::Bool(_) => {
                let f = match self.boolean() {
                    Ok(v) => v,
                    Err(e) => {
                        self.rewind(&mark);
                        return Err(e);
                    },
                };
                Ok(Expr::leaf(f))
            },
            Token::Operator(Op::Not) => self.negated_relation(),
            Token::Operator(Op::LParens) => self.parenthesised_relation(),
            _ => Err(
                ParseError::Grammar {
                    rule: Rule::RelationalFactor,
                    found: m.get_val(),
                    position: m.get_pos(),
                },
            ),
        }
    }

    /// `'!' relational_expr`
    fn negated_relation(&mut self) -> (r: Result<Expr, ParseError>)
        ensures
            final(self).source() == old(self).source(),
            final(self).offset() >= old(self).offset(),
            final(self).offset() == position(final(self).ahead()),
            computes(
                old(self).ahead(),
                final(self).ahead(),
                r,
                grammar::negated_relation(old(self).ahead()),
            ),
            holds_still(
                old(self).offset(),
                final(self).offset(),
                consumed(grammar::negated_relation(old(self).ahead())),
            ),
        decreases old(self).ahead().len(), 0nat,
    {
        let mark = self.mark();
        let ghost t0 = self.ahead();
        match self.eat(Token::Operator(Op::Not)) {
            Ok(_) => {},
            Err(e) => {
                self.rewind(&mark);
                return Err(e);
            },
        }
        let ghost t1 = self.ahead();
        let right = match self.relational_expr() {
            Ok(v) => v,
            Err(e) => {
                self.rewind(&mark);
                return Err(e);
            },
        };
        proof {
            lemma_rest_rest(t0, 1, grammar::relational_expr(t1)->Ok_0.1);
        }
        Ok(Expr::unary(right, Op::Not))
    }

    /// `'(' relational_expr ')'`
    fn parenthesised_relation(&mut self) -> (r: Result<Expr, ParseError>)
        ensures
            final(self).source() == old(self).source(),
            final(self).offset() >= old(self).offset(),
            final(self).offset() == position(final(self).ahead()),
            computes(
                old(self).ahead(),
                final(self).ahead(),
                r,
                grammar::parenthesised_relation(old(self).ahead()),
            ),
            holds_still(
                old(self).offset(),
                final(self).offset(),
                consumed(grammar::parenthesised_relation(old(self).ahead())),
            ),
        decreases old(self).ahead().len(), 0nat,
    {
        let mark = self.mark();
        let ghost t0 = self.ahead();
        match self.eat(Token::Operator(Op::LParens)) {
            Ok(_) => {},
            Err(e) => {
                self.rewind(&mark);
                return Err(e);
            },
        }
        let ghost t1 = self.ahead();
        let t = match self.relational_expr() {
            Ok(v) => v,
            Err(e) => {
                self.rewind(&mark);
                return Err(e);
            },
        };
        let ghost m = grammar::relational_expr(t1)->Ok_0.1;
        proof {
            lemma_rest_rest(t0, 1, m);
        }
        match self.eat(Token::Operator(Op::RParens)) {
            Ok(_) => {},
            Err(e) => {
                self.rewind(&mark);
                return Err(e);
            },
        }
        proof {
            lemma_rest_rest(t0, 1 + m, 1);
        }
        Ok(t)
    }

    /// `bool_expr`
    #[verifier::rlimit(50)]
    pub fn bool_expr(&mut self) -> (r: Result<Expr, ParseError>)
        ensures
            final(self).source() == old(self).source(),
            final(self).offset() >= old(self).offset(),
            final(self).offset() == position(final(self).ahead()),
            computes(
                old(self).ahead(),
                final(self).ahead(),
                r,
                grammar::bool_expr(old(self).ahead()),
            ),
            holds_still(
                old(self).offset(),
                final(self).offset(),
                consumed(grammar::bool_expr(old(self).ahead())),
            ),
        decreases old(self).ahead().len(), 5nat,
    {
        let mark = self.mark();
        let ghost t0 = self.ahead();
        let mut t = match self.bool_term() {
            Ok(v) => v,
            Err(e) => {
                self.rewind(&mark);
                return Err(e);
            },
        };
        let ghost mut done: nat = grammar::bool_term(t0)->Ok_0.1;
        let mut next = or_op(self.current_token());
        while next.is_some()
            invariant
                self.source() == old(self).source(),
                self.offset() >= old(self).offset(),
                self.offset() == position(self.ahead()),
                mark.stream(old(self).source()) == old(self).ahead(),
                mark.offset() == old(self).offset(),
                t0 == old(self).ahead(),
                self.ahead() == rest(t0, done),
                grammar::bool_expr(t0) == after(done, grammar::bool_expr_tail(self.ahead(), t@)),
                match next {
                    Some(op) => cur(self.ahead()).val == grammar::the_op(op) && cur(self.ahead()).val == grammar::the_op(Op::Or_),
                    None => !(cur(self.ahead()).val == grammar::the_op(Op::Or_)),
                },
            decreases self.ahead().len(),
        {
            let op = next.unwrap();
            let ghost here = self.ahead();
            let ghost left = t@;
            let ghost link = chained(here, left, op, grammar::bool_term(rest(here, 1)));
            assert(grammar::bool_expr_tail(here, left) == match link {
                Err(e) => Err(e),
                Ok((joined, n)) => after(n, grammar::bool_expr_tail(rest(here, n), joined)),
            });
            match self.or_step(t, op) {
                Ok(joined) => {
                    t = joined;
                },
                Err(e) => {
                    self.rewind(&mark);
                    return Err(e);
                },
            }
            proof {
                let n = link->Ok_0.1;
                lemma_rest_rest(t0, done, n);
                done = done + n;
            }
            next = or_op(self.current_token());
        }
        Ok(t)
    }

    /// One link of a boolean expression: `||`, which is current, and the
    /// boolean term after it.
    fn or_step(&mut self, left: Expr, op: Op) -> (r: Result<Expr, ParseError>)
        requires
            cur(old(self).ahead()).val == grammar::the_op(op),
        ensures
            final(self).source() == old(self).source(),
            final(self).offset() >= old(self).offset(),
            final(self).offset() == position(final(self).ahead()),
            computes(
                old(self).ahead(),
                final(self).ahead(),
                r,
                chained(
                    old(self).ahead(),
                    left@,
                    op,
                    grammar::bool_term(rest(old(self).ahead(), 1)),
                ),
            ),
            holds_still(
                old(self).offset(),
                final(self).offset(),
                consumed(chained( old(self).ahead(), left@, op, grammar::bool_term(rest(old(self).ahead(), 1)), )),
            ),
        decreases old(self).ahead().len(), 4nat,
    {
        let mark = self.mark();
        let ghost t0 = self.ahead();
        match self.eat(Token::Operator(op)) {
            Ok(_) => {},
            Err(e) => {
                self.rewind(&mark);
                return Err(e);
            },
        }
        let ghost t1 = self.ahead();
        let right = match self.bool_term() {
            Ok(v) => v,
            Err(e) => {
                self.rewind(&mark);
                return Err(e);
            },
        };
        proof {
            lemma_rest_rest(t0, 1, grammar::bool_term(t1)->Ok_0.1);
        }
        Ok(Expr::binary(left, right, op))
    }

    /// `bool_term`
    #[verifier::rlimit(50)]
    pub fn bool_term(&mut self) -> (r: Result<Expr, ParseError>)
        ensures
            final(self).source() == old(self).source(),
            final(self).offset() >= old(self).offset(),
            final(self).offset() == position(final(self).ahead()),
            computes(
                old(self).ahead(),
                final(self).ahead(),
                r,
                grammar::bool_term(old(self).ahead()),
            ),
            holds_still(
                old(self).offset(),
                final(self).offset(),
                consumed(grammar::bool_term(old(self).ahead())),
            ),
        decreases old(self).ahead().len(), 3nat,
    {
        let mark = self.mark();
        let ghost t0 = self.ahead();
        let mut t = match self.bool_factor() {
            Ok(v) => v,
            Err(e) => {
                self.rewind(&mark);
                return Err(e);
            },
        };
        let ghost mut done: nat = grammar::bool_factor(t0)->Ok_0.1;
        let mut next = and_op(self.current_token());
        while next.is_some()
            invariant
                self.source() == old(self).source(),
                self.offset() >= old(self).offset(),
                self.offset() == position(self.ahead()),
                mark.stream(old(self).source()) == old(self).ahead(),
                mark.offset() == old(self).offset(),
                t0 == old(self).ahead(),
                self.ahead() == rest(t0, done),
                grammar::bool_term(t0) == after(done, grammar::bool_term_tail(self.ahead(), t@)),
                match next {
                    Some(op) => cur(self.ahead()).val == grammar::the_op(op) && cur(self.ahead()).val == grammar::the_op(Op::And),
                    None => !(cur(self.ahead()).val == grammar::the_op(Op::And)),
                },
            decreases self.ahead().len(),
        {
            let op = next.unwrap();
            let ghost here = self.ahead();
            let ghost left = t@;
            let ghost link = chained(here, left, op, grammar::bool_factor(rest(here, 1)));
            assert(grammar::bool_term_tail(here, left) == match link {
                Err(e) => Err(e),
                Ok((joined, n)) => after(n, grammar::bool_term_tail(rest(here, n), joined)),
            });
            match self.and_step(t, op) {
                Ok(joined) => {
                    t = joined;
                },
                Err(e) => {
                    self.rewind(&mark);
                    return Err(e);
                },
            }
            proof {
                let n = link->Ok_0.1;
                lemma_rest_rest(t0, done, n);
                done = done + n;
            }
            next = and_op(self.current_token());
        }
        Ok(t)
    }

    /// One link of a boolean term: `&&`, which is current, and the boolean
    /// factor after it.
    fn and_step(&mut self, left: Expr, op: Op) -> (r: Result<Expr, ParseError>)
        requires
            cur(old(self).ahead()).val == grammar::the_op(op),
        ensures
            final(self).source() == old(self).source(),
            final(self).offset() >= old(self).offset(),
            final(self).offset() == position(final(self).ahead()),
            computes(
                old(self).ahead(),
                final(self).ahead(),
                r,
                chained(
                    old(self).ahead(),
                    left@,
                    op,
                    grammar::bool_factor(rest(old(self).ahead(), 1)),
                ),
            ),
            holds_still(
                old(self).offset(),
                final(self).offset(),
                consumed(chained( old(self).ahead(), left@, op, grammar::bool_factor(rest(old(self).ahead(), 1)), )),
            ),
        decreases old(self).ahead().len(), 2nat,
    {
        let mark = self.mark();
        let ghost t0 = self.ahead();
        match self.eat(Token::Operator(op)) {
            Ok(_) => {},
            Err(e) => {
                self.rewind(&mark);
                return Err(e);
            },
        }
        let ghost t1 = self.ahead();
        let right = match self.bool_factor() {
            Ok(v) => v,
            Err(e) => {
                self.rewind(&mark);
                return Err(e);
            },
        };
        proof {
            lemma_rest_rest(t0, 1, grammar::bool_factor(t1)->Ok_0.1);
        }
        Ok(Expr::binary(left, right, op))
    }

    /// `bool_factor`
    pub fn bool_factor(&mut self) -> (r: Result<Expr, ParseError>)
        ensures
            final(self).source() == old(self).source(),
            final(self).offset() >= old(self).offset(),
            final(self).offset() == position(final(self).ahead()),
            computes(
                old(self).ahead(),
                final(self).ahead(),
                r,
                grammar::bool_factor(old(self).ahead()),
            ),
            holds_still(
                old(self).offset(),
                final(self).offset(),
                consumed(grammar::bool_factor(old(self).ahead())),
            ),
        decreases old(self).ahead().len(), 1nat,
    {
        let mark = self.mark();
        let m = self.get_curr();
        match m.val() {
            Token::Bool(_) => self.relational_expr(),
            Token::Var(_) => self.relational_expr(),
            Token::Number(_) => self.relational_expr(),
            Token::Operator(Op::LParens) => self.relational_expr(),
            Token::Operator(Op::Not) => {
                let ghost t0 = self.ahead();
                match self.eat(Token::Operator(Op::Not)) {
                    Ok(_) => {},
                    Err(e) => {
                        self.rewind(&mark);
                        return Err(e);
                    },
                }
                let ghost t1 = self.ahead();
                let right = match self.bool_factor() {
                    Ok(v) => v,
                    Err(e) => {
                        self.rewind(&mark);
                        return Err(e);
                    },
                };
                proof {
                    lemma_rest_rest(t0, 1, grammar::bool_factor(t1)->Ok_0.1);
                }
                Ok(Expr::unary(right, Op::Not))
            },
            _ => Err(
                ParseError::Grammar {
                    rule: Rule::BoolFactor,
                    found: m.get_val(),
                    position: m.get_pos(),
                },
            ),
        }
    }
}

} // verus!
