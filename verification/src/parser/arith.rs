//! The arithmetic rules, from `factor` up to `expr`.
use vstd::prelude::*;
use crate::ast::{Expr, Factor};
use crate::error::{ParseError, Rule};
use crate::grammar;
use crate::parser::{computes, consumed, holds_still, Parser};
use crate::grammar::chained;
use crate::stream::{position, after, cur, eat, lemma_rest_rest, lemma_rest_zero, rest};
use crate::token::{Op, Token};

verus! {

/// The operator of a term that `t` is, where it is one.
fn term_op(t: &Token) -> (op: Option<Op>)
    ensures
        op == grammar::term_op_of(t@),
        op matches Some(o) ==> t@ == grammar::the_op(o),
{
    match t {
        Token::Operator(Op::Mul) => Some(Op::Mul),
        Token::Operator(Op::Div) => Some(Op::Div),
        Token::Operator(Op::Mod) => Some(Op::Mod),
        Token::Operator(Op::IntDiv) => Some(Op::IntDiv),
        _ => None,
    }
}

/// The operator of an expression that `t` is, where it is one.
fn expr_op(t: &Token) -> (op: Option<Op>)
    ensures
        op == grammar::expr_op_of(t@),
        op matches Some(o) ==> t@ == grammar::the_op(o),
{
    match t {
        Token::Operator(Op::Add) => Some(Op::Add),
        Token::Operator(Op::Sub) => Some(Op::Sub),
        _ => None,
    }
}

impl Parser {
    /// `factor`
    pub fn factor(&mut self) -> (r: Result<Expr, ParseError>)
        ensures
            final(self).source() == old(self).source(),
            final(self).offset() >= old(self).offset(),
            final(self).offset() == position(final(self).ahead()),
            computes(old(self).ahead(), final(self).ahead(), r, grammar::factor(old(self).ahead())),
            holds_still(
                old(self).offset(),
                final(self).offset(),
                consumed(grammar::factor(old(self).ahead())),
            ),
        decreases old(self).ahead().len(), 3nat,
    {
        let mark = self.mark();
        let m = self.get_curr();
        match m.val() {
            Token::Number(_) => {
                let f = match self.number() {
                    Ok(v) => v,
                    Err(e) => {
                        self.rewind(&mark);
                        return Err(e);
                    },
                };
                Ok(Expr::leaf(f))
            },
            Token::Var(_) => {
                let f = match self.var_disambiguate() {
                    Ok(v) => v,
                    Err(e) => {
                        self.rewind(&mark);
                        return Err(e);
                    },
                };
                Ok(Expr::leaf(f))
            },
            Token::Operator(Op::LParens) => self.parenthesised(),
            Token::Operator(Op::Pow) => self.power_tail(),
            Token::Operator(Op::Pos) => self.signed(Op::Pos),
            Token::Operator(Op::Neg) => self.signed(Op::Neg),
            Token::End => {
                proof {
                    lemma_rest_zero(self.ahead());
                }
                Ok(Expr::leaf(Factor::empty()))
            },
            _ => Err(
                ParseError::Grammar { rule: Rule::Factor, found: m.get_val(), position: m.get_pos() },
            ),
        }
    }

    /// `'(' expr ')'`
    fn parenthesised(&mut self) -> (r: Result<Expr, ParseError>)
        ensures
            final(self).source() == old(self).source(),
            final(self).offset() >= old(self).offset(),
            final(self).offset() == position(final(self).ahead()),
            computes(
                old(self).ahead(),
                final(self).ahead(),
                r,
                grammar::parenthesised(old(self).ahead()),
            ),
            holds_still(
                old(self).offset(),
                final(self).offset(),
                consumed(grammar::parenthesised(old(self).ahead())),
            ),
        decreases old(self).ahead().len(), 2nat,
    {
        let mark = self.mark();
        let ghost t0 = self.ahead();
        match self.eat(Token::Operator(Op::LParens)) {
            Ok(_) => {},
            Err(e) => {
                self.rewind(&mark);
                return Err(e);
            },
        }
        let ghost t1 = self.ahead();
        let t = match self.expr() {
            Ok(v) => v,
            Err(e) => {
                self.rewind(&mark);
                return Err(e);
            },
        };
        let ghost t2 = self.ahead();
        proof {
            let n = eat(t0, grammar::the_op(Op::LParens))->Ok_0.1;
            let m = grammar::expr(t1)->Ok_0.1;
            lemma_rest_rest(t0, n, m);
        }
        match self.eat(Token::Operator(Op::RParens)) {
            Ok(_) => {},
            Err(e) => {
                self.rewind(&mark);
                return Err(e);
            },
        }
        proof {
            let n = eat(t0, grammar::the_op(Op::LParens))->Ok_0.1;
            let m = grammar::expr(t1)->Ok_0.1;
            let k = eat(t2, grammar::the_op(Op::RParens))->Ok_0.1;
            lemma_rest_rest(t0, n + m, k);
        }
        Ok(t)
    }

    /// `'**' pow_factor`
    fn power_tail(&mut self) -> (r: Result<Expr, ParseError>)
        ensures
            final(self).source() == old(self).source(),
            final(self).offset() >= old(self).offset(),
            final(self).offset() == position(final(self).ahead()),
            computes(
                old(self).ahead(),
                final(self).ahead(),
                r,
                grammar::power_tail(old(self).ahead()),
            ),
            holds_still(
                old(self).offset(),
                final(self).offset(),
                consumed(grammar::power_tail(old(self).ahead())),
            ),
        decreases old(self).ahead().len(), 2nat,
    {
        let mark = self.mark();
        let ghost t0 = self.ahead();
        match self.eat(Token::Operator(Op::Pow)) {
            Ok(_) => {},
            Err(e) => {
                self.rewind(&mark);
                return Err(e);
            },
        }
        let ghost t1 = self.ahead();
        let e = match self.pow_factor() {
            Ok(v) => v,
            Err(e) => {
                self.rewind(&mark);
                return Err(e);
            },
        };
        proof {
            lemma_rest_rest(t0, 1, grammar::pow_factor(t1)->Ok_0.1);
        }
        Ok(e)
    }

    /// `('+'|'-') factor`
    fn signed(&mut self, op: Op) -> (r: Result<Expr, ParseError>)
        ensures
            final(self).source() == old(self).source(),
            final(self).offset() >= old(self).offset(),
            final(self).offset() == position(final(self).ahead()),
            computes(
                old(self).ahead(),
                final(self).ahead(),
                r,
                grammar::signed(old(self).ahead(), op),
            ),
            holds_still(
                old(self).offset(),
                final(self).offset(),
                consumed(grammar::signed(old(self).ahead(), op)),
            ),
        decreases old(self).ahead().len(), 2nat,
    {
        let mark = self.mark();
        let ghost t0 = self.ahead();
        match self.eat(Token::Operator(op)) {
            Ok(_) => {},
            Err(e) => {
                self.rewind(&mark);
                return Err(e);
            },
        }
        let ghost t1 = self.ahead();
        let right = match self.factor() {
            Ok(v) => v,
            Err(e) => {
                self.rewind(&mark);
                return Err(e);
            },
        };
        proof {
            let n = eat(t0, grammar::the_op(op))->Ok_0.1;
            let m = grammar::factor(t1)->Ok_0.1;
            lemma_rest_rest(t0, n, m);
        }
        Ok(Expr::unary(right, op))
    }

    /// `pow_factor`
    pub fn pow_factor(&mut self) -> (r: Result<Expr, ParseError>)
        ensures
            final(self).source() == old(self).source(),
            final(self).offset() >= old(self).offset(),
            final(self).offset() == position(final(self).ahead()),
            computes(
                old(self).ahead(),
                final(self).ahead(),
                r,
                grammar::pow_factor(old(self).ahead()),
            ),
            holds_still(
                old(self).offset(),
                final(self).offset(),
                consumed(grammar::pow_factor(old(self).ahead())),
            ),
        decreases old(self).ahead().len(), 4nat,
    {
        let mark = self.mark();
        let ghost t0 = self.ahead();
        let left = match self.factor() {
            Ok(v) => v,
            Err(e) => {
                self.rewind(&mark);
                return Err(e);
            },
        };
        let ghost t1 = self.ahead();
        if self.at_op(Op::Pow) {
            let right = match self.factor() {
                Ok(v) => v,
                Err(e) => {
                    self.rewind(&mark);
                    return Err(e);
                },
            };
            proof {
                let n = grammar::factor(t0)->Ok_0.1;
                let m = grammar::factor(t1)->Ok_0.1;
                lemma_rest_rest(t0, n, m);
            }
            Ok(Expr::binary(left, right, Op::Pow))
        } else {
            Ok(left)
        }
    }

    /// `term`
    #[verifier::rlimit(50)]
    pub fn term(&mut self) -> (r: Result<Expr, ParseError>)
        ensures
            final(self).source() == old(self).source(),
            final(self).offset() >= old(self).offset(),
            final(self).offset() == position(final(self).ahead()),
            computes(
                old(self).ahead(),
                final(self).ahead(),
                r,
                grammar::term(old(self).ahead()),
            ),
            holds_still(
                old(self).offset(),
                final(self).offset(),
                consumed(grammar::term(old(self).ahead())),
            ),
        decreases old(self).ahead().len(), 6nat,
    {
        let mark = self.mark();
        let ghost t0 = self.ahead();
        let mut t = match self.pow_factor() {
            Ok(v) => v,
            Err(e) => {
                self.rewind(&mark);
                return Err(e);
            },
        };
        let ghost mut done: nat = grammar::pow_factor(t0)->Ok_0.1;
        let mut next = term_op(self.current_token());
        while next.is_some()
            invariant
                self.source() == old(self).source(),
                self.offset() >= old(self).offset(),
                self.offset() == position(self.ahead()),
                mark.stream(old(self).source()) == old(self).ahead(),
                mark.offset() == old(self).offset(),
                t0 == old(self).ahead(),
                self.ahead() == rest(t0, done),
                grammar::term(t0) == after(done, grammar::term_tail(self.ahead(), t@)),
                next == grammar::term_op_of(cur(self.ahead()).val),
                next matches Some(o) ==> cur(self.ahead()).val == grammar::the_op(o),
            decreases self.ahead().len(),
        {
            let op = next.unwrap();
            let ghost here = self.ahead();
            let ghost left = t@;
            let ghost link = chained(here, left, op, grammar::pow_factor(rest(here, 1)));
            assert(grammar::term_tail(here, left) == match link {
                Err(e) => Err(e),
                Ok((joined, n)) => after(n, grammar::term_tail(rest(here, n), joined)),
            });
            match self.term_step(t, op) {
                Ok(joined) => {
                    t = joined;
                },
                Err(e) => {
                    self.rewind(&mark);
                    return Err(e);
                },
            }
            proof {
                let n = link->Ok_0.1;
                lemma_rest_rest(t0, done, n);
                done = done + n;
            }
            next = term_op(self.current_token());
        }
        Ok(t)
    }

    /// One link of a term: the operator `op`, which is current, and the power
    /// factor after it.
    fn term_step(&mut self, left: Expr, op: Op) -> (r: Result<Expr, ParseError>)
        requires
            cur(old(self).ahead()).val == grammar::the_op(op),
        ensures
            final(self).source() == old(self).source(),
            final(self).offset() >= old(self).offset(),
            final(self).offset() == position(final(self).ahead()),
            computes(
                old(self).ahead(),
                final(self).ahead(),
                r,
                chained(
                    old(self).ahead(),
                    left@,
                    op,
                    grammar::pow_factor(rest(old(self).ahead(), 1)),
                ),
            ),
            holds_still(
                old(self).offset(),
                final(self).offset(),
                consumed(chained( old(self).ahead(), left@, op, grammar::pow_factor(rest(old(self).ahead(), 1)), )),
            ),
        decreases old(self).ahead().len(), 5nat,
    {
        let mark = self.mark();
        let ghost t0 = self.ahead();
        match self.eat(Token::Operator(op)) {
            Ok(_) => {},
            Err(e) => {
                self.rewind(&mark);
                return Err(e);
            },
        }
        let ghost t1 = self.ahead();
        let right = match self.pow_factor() {
            Ok(v) => v,
            Err(e) => {
                self.rewind(&mark);
                return Err(e);
            },
        };
        proof {
            lemma_rest_rest(t0, 1, grammar::pow_factor(t1)->Ok_0.1);
        }
        Ok(Expr::binary(left, right, op))
    }

    /// `expr`
    #[verifier::rlimit(50)]
    pub fn expr(&mut self) -> (r: Result<Expr, ParseError>)
        ensures
            final(self).source() == old(self).source(),
            final(self).offset() >= old(self).offset(),
            final(self).offset() == position(final(self).ahead()),
            computes(
                old(self).ahead(),
                final(self).ahead(),
                r,
                grammar::expr(old(self).ahead()),
            ),
            holds_still(
                old(self).offset(),
                final(self).offset(),
                consumed(grammar::expr(old(self).ahead())),
            ),
        decreases old(self).ahead().len(), 8nat,
    {
        let mark = self.mark();
        let ghost t0 = self.ahead();
        let mut t = match self.term() {
            Ok(v) => v,
            Err(e) => {
                self.rewind(&mark);
                return Err(e);
            },
        };
        let ghost mut done: nat = grammar::term(t0)->Ok_0.1;
        let mut next = expr_op(self.current_token());
        while next.is_some()
            invariant
                self.source() == old(self).source(),
                self.offset() >= old(self).offset(),
                self.offset() == position(self.ahead()),
                mark.stream(old(self).source()) == old(self).ahead(),
                mark.offset() == old(self).offset(),
                t0 == old(self).ahead(),
                self.ahead() == rest(t0, done),
                grammar::expr(t0) == after(done, grammar::expr_tail(self.ahead(), t@)),
                next == grammar::expr_op_of(cur(self.ahead()).val),
                next matches Some(o) ==> cur(self.ahead()).val == grammar::the_op(o),
            decreases self.ahead().len(),
        {
            let op = next.unwrap();
            let ghost here = self.ahead();
            let ghost left = t@;
            let ghost link = chained(here, left, op, grammar::term(rest(here, 1)));
            assert(grammar::expr_tail(here, left) == match link {
                Err(e) => Err(e),
                Ok((joined, n)) => after(n, grammar::expr_tail(rest(here, n), joined)),
            });
            match self.expr_step(t, op) {
                Ok(joined) => {
                    t = joined;
                },
                Err(e) => {
                    self.rewind(&mark);
                    return Err(e);
                },
            }
            proof {
                let n = link->Ok_0.1;
                lemma_rest_rest(t0, done, n);
                done = done + n;
            }
            next = expr_op(self.current_token());
        }
        Ok(t)
    }

    /// One link of an expression: the operator `op`, which is current, and the
    /// term after it.
    fn expr_step(&mut self, left: Expr, op: Op) -> (r: Result<Expr, ParseError>)
        requires
            cur(old(self).ahead()).val == grammar::the_op(op),
        ensures
            final(self).source() == old(self).source(),
            final(self).offset() >= old(self).offset(),
            final(self).offset() == position(final(self).ahead()),
            computes(
                old(self).ahead(),
                final(self).ahead(),
                r,
                chained(
                    old(self).ahead(),
                    left@,
                    op,
                    grammar::term(rest(old(self).ahead(), 1)),
                ),
            ),
            holds_still(
                old(self).offset(),
                final(self).offset(),
                consumed(chained( old(self).ahead(), left@, op, grammar::term(rest(old(self).ahead(), 1)), )),
            ),
        decreases old(self).ahead().len(), 7nat,
    {
        let mark = self.mark();
        let ghost t0 = self.ahead();
        match self.eat(Token::Operator(op)) {
            Ok(_) => {},
            Err(e) => {
                self.rewind(&mark);
                return Err(e);
            },
        }
        let ghost t1 = self.ahead();
        let right = match self.term() {
            Ok(v) => v,
            Err(e) => {
                self.rewind(&mark);
                return Err(e);
            },
        };
        proof {
            lemma_rest_rest(t0, 1, grammar::term(t1)->Ok_0.1);
        }
        Ok(Expr::binary(left, right, op))
    }
}

} // verus!
