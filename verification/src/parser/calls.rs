//! Names in expressions: variables, calls and their arguments.
use vstd::prelude::*;
use crate::ast::{ArgList, Expr, Factor, FnCall, SpecExpr};
use crate::error::{ParseError, Rule};
use crate::grammar;
use crate::parser::{computes, consumed, holds_still, joined, lemma_joined_start, lemma_joined_step, Parser};
use crate::stream::{position, eat, lemma_rest_rest, lemma_rest_zero, rest};
use crate::token::{Op, Token};

verus! {

impl Parser {
    /// Tells a call from a variable by the token that follows the name.
    pub(crate) fn var_disambiguate(&mut self) -> (r: Result<Factor, ParseError>)
        ensures
            final(self).source() == old(self).source(),
            final(self).offset() >= old(self).offset(),
            final(self).offset() == position(final(self).ahead()),
            computes(
                old(self).ahead(),
                final(self).ahead(),
                r,
                grammar::var_disambiguate(old(self).ahead()),
            ),
            holds_still(
                old(self).offset(),
                final(self).offset(),
                consumed(grammar::var_disambiguate(old(self).ahead())),
            ),
        decreases old(self).ahead().len(), 2nat,
    {
        let mark = self.mark();
        let next = match self.peek() {
            Ok(v) => v,
            Err(e) => {
                self.rewind(&mark);
                return Err(e);
            },
        };
        if next.val().is_op(Op::LParens) {
            let c = match self.fn_call() {
                Ok(v) => v,
                Err(e) => {
                    self.rewind(&mark);
                    return Err(e);
                },
            };
            Ok(Factor::call(c))
        } else {
            self.id()
        }
    }

    /// A call and its arguments.
    pub(crate) fn fn_call(&mut self) -> (r: Result<FnCall, ParseError>)
        ensures
            final(self).source() == old(self).source(),
            final(self).offset() >= old(self).offset(),
            final(self).offset() == position(final(self).ahead()),
            computes(old(self).ahead(), final(self).ahead(), r, grammar::fn_call(old(self).ahead())),
            holds_still(
                old(self).offset(),
                final(self).offset(),
                consumed(grammar::fn_call(old(self).ahead())),
            ),
        decreases old(self).ahead().len(), 1nat,
    {
        let mark = self.mark();
        let ghost t0 = self.ahead();
        let name = match self.eat(Token::Var(String::new())) {
            Ok(v) => v,
            Err(e) => {
                self.rewind(&mark);
                return Err(e);
            },
        };
        let ghost t1 = self.ahead();
        match self.eat(Token::Operator(Op::LParens)) {
            Ok(_) => {},
            Err(e) => {
                self.rewind(&mark);
                return Err(e);
            },
        }
        let ghost t2 = self.ahead();
        proof {
            lemma_rest_rest(t0, 1, 1);
        }
        let args = match self.call_args() {
            Ok(v) => v,
            Err(e) => {
                self.rewind(&mark);
                return Err(e);
            },
        };
        let ghost t3 = self.ahead();
        let ghost k = grammar::call_args(t2)->Ok_0.1;
        proof {
            lemma_rest_rest(t0, 2, k);
        }
        match self.eat(Token::Operator(Op::RParens)) {
            Ok(_) => {},
            Err(e) => {
                self.rewind(&mark);
                return Err(e);
            },
        }
        proof {
            lemma_rest_rest(t0, 2 + k, 1);
        }
        Ok(FnCall::new(name, args))
    }

    /// The arguments of a call, up to the `)` that closes it.
    #[verifier::rlimit(50)]
    fn call_args(&mut self) -> (r: Result<ArgList, ParseError>)
        ensures
            final(self).source() == old(self).source(),
            final(self).offset() >= old(self).offset(),
            final(self).offset() == position(final(self).ahead()),
            computes(
                old(self).ahead(),
                final(self).ahead(),
                r,
                grammar::call_args(old(self).ahead()),
            ),
            holds_still(
                old(self).offset(),
                final(self).offset(),
                consumed(grammar::call_args(old(self).ahead())),
            ),
        decreases old(self).ahead().len(), 10nat,
    {
        let mark = self.mark();
        let ghost t0 = self.ahead();
        let mut args = ArgList::default();
        let ghost mut done: nat = 0;
        proof {
            lemma_rest_zero(t0);
            lemma_joined_start(grammar::call_args(t0));
        }
        loop
            invariant
                self.source() == old(self).source(),
                self.offset() >= old(self).offset(),
                self.offset() == position(self.ahead()),
                mark.stream(old(self).source()) == old(self).ahead(),
                mark.offset() == old(self).offset(),
                t0 == old(self).ahead(),
                self.ahead() == rest(t0, done),
                grammar::call_args(t0) == joined(args@, done, grammar::call_args(self.ahead())),
            ensures
                self.source() == old(self).source(),
                self.offset() >= old(self).offset(),
                self.offset() == position(self.ahead()),
                computes(t0, self.ahead(), Ok::<ArgList, ParseError>(args), grammar::call_args(t0)),
            decreases self.ahead().len(),
        {
            if self.at_op(Op::RParens) {
                assert(args@ + Seq::<SpecExpr>::empty() =~= args@);
                break ;
            }
            let ghost here = self.ahead();
            let ghost before = args@;
            let arg = match self.expr() {
                Ok(v) => v,
                Err(e) => {
                    self.rewind(&mark);
                    return Err(e);
                },
            };
            let ghost taken = grammar::expr(here)->Ok_0.1;
            let ghost item = arg@;
            args.argv.push(arg);
            assert(args@ =~= before + seq![item]);
            proof {
                lemma_rest_rest(t0, done, taken);
            }
            if self.at_op(Op::Comma) {
                match self.eat(Token::Operator(Op::Comma)) {
                    Ok(_) => {},
                    Err(e) => {
                        self.rewind(&mark);
                        return Err(e);
                    },
                }
                proof {
                    lemma_rest_rest(t0, done + taken, 1);
                    lemma_rest_rest(here, taken, 1);
                    let more = grammar::call_args(self.ahead());
                    assert(grammar::call_args(here) == joined(seq![item], taken + 1, more));
                    lemma_joined_step(before, done, item, taken + 1, more);
                    done = done + taken + 1;
                }
            } else if self.at_op(Op::RParens) {
                proof {
                    assert(grammar::call_args(here) == Ok::<
                        (Seq<SpecExpr>, nat),
                        crate::error::SpecParseError,
                    >((seq![item], taken)));
                    done = done + taken;
                }
                break ;
            } else {
                let s = self.get_curr();
                self.rewind(&mark);
                return Err(
                    ParseError::Grammar {
                        rule: Rule::CallSeparator,
                        found: s.get_val(),
                        position: s.get_pos(),
                    },
                );
            }
        }
        Ok(args)
    }

    /// `arg_list`
    pub fn arg_list(&mut self) -> (r: Result<ArgList, ParseError>)
        ensures
            final(self).source() == old(self).source(),
            final(self).offset() >= old(self).offset(),
            final(self).offset() == position(final(self).ahead()),
            computes(
                old(self).ahead(),
                final(self).ahead(),
                r,
                grammar::arg_list(old(self).ahead()),
            ),
            holds_still(
                old(self).offset(),
                final(self).offset(),
                consumed(grammar::arg_list(old(self).ahead())),
            ),
    {
        let mark = self.mark();
        let ghost t0 = self.ahead();
        match self.eat(Token::Operator(Op::LParens)) {
            Ok(_) => {},
            Err(e) => {
                self.rewind(&mark);
                return Err(e);
            },
        }
        let ghost t1 = self.ahead();
        let items = match self.arg_items() {
            Ok(v) => v,
            Err(e) => {
                self.rewind(&mark);
                return Err(e);
            },
        };
        let ghost m = grammar::arg_items(t1)->Ok_0.1;
        proof {
            lemma_rest_rest(t0, 1, m);
        }
        match self.eat(Token::Operator(Op::RParens)) {
            Ok(_) => {},
            Err(e) => {
                self.rewind(&mark);
                return Err(e);
            },
        }
        proof {
            lemma_rest_rest(t0, 1 + m, 1);
        }
        Ok(items)
    }

    /// The items of an argument list, up to the `)`.
    #[verifier::rlimit(50)]
    fn arg_items(&mut self) -> (r: Result<ArgList, ParseError>)
        ensures
            final(self).source() == old(self).source(),
            final(self).offset() >= old(self).offset(),
            final(self).offset() == position(final(self).ahead()),
            computes(
                old(self).ahead(),
                final(self).ahead(),
                r,
                grammar::arg_items(old(self).ahead()),
            ),
            holds_still(
                old(self).offset(),
                final(self).offset(),
                consumed(grammar::arg_items(old(self).ahead())),
            ),
    {
        let mark = self.mark();
        let ghost t0 = self.ahead();
        let mut items = ArgList::default();
        let ghost mut done: nat = 0;
        proof {
            lemma_rest_zero(t0);
            lemma_joined_start(grammar::arg_items(t0));
        }
        loop
            invariant
                self.source() == old(self).source(),
                self.offset() >= old(self).offset(),
                self.offset() == position(self.ahead()),
                mark.stream(old(self).source()) == old(self).ahead(),
                mark.offset() == old(self).offset(),
                t0 == old(self).ahead(),
                self.ahead() == rest(t0, done),
                grammar::arg_items(t0) == joined(items@, done, grammar::arg_items(self.ahead())),
            ensures
                self.source() == old(self).source(),
                self.offset() >= old(self).offset(),
                self.offset() == position(self.ahead()),
                computes(t0, self.ahead(), Ok::<ArgList, ParseError>(items), grammar::arg_items(t0)),
            decreases self.ahead().len(),
        {
            let ghost here = self.ahead();
            let ghost before = items@;
            let m = self.get_curr();
            match m.val() {
                Token::Operator(Op::RParens) => {
                    proof {
                        assert(items@ + Seq::<SpecExpr>::empty() =~= items@);
                    }
                    break ;
                },
                Token::End => {
                    self.rewind(&mark);
                    return Err(
                        ParseError::Grammar {
                            rule: Rule::ListItem,
                            found: m.get_val(),
                            position: m.get_pos(),
                        },
                    );
                },
                Token::Operator(Op::Comma) => {
                    match self.eat(Token::Operator(Op::Comma)) {
                        Ok(_) => {},
                        Err(e) => {
                            self.rewind(&mark);
                            return Err(e);
                        },
                    }
                    let next = self.get_curr();
                    if next.val().is_kind_of(&Token::End) || next.val().is_op(Op::Comma) {
                        self.rewind(&mark);
                        return Err(
                            ParseError::Grammar {
                                rule: Rule::Separator,
                                found: next.get_val(),
                                position: next.get_pos(),
                            },
                        );
                    }
                    proof {
                        lemma_rest_rest(t0, done, 1);
                        let more = grammar::arg_items(self.ahead());
                        assert(grammar::arg_items(here) == crate::stream::after(1, more));
                        assert(items@ + Seq::<SpecExpr>::empty() =~= items@);
                        done = done + 1;
                    }
                },
                _ => {
                    let item = match self.factor() {
                        Ok(v) => v,
                        Err(e) => {
                            self.rewind(&mark);
                            return Err(e);
                        },
                    };
                    let ghost taken = grammar::factor(here)->Ok_0.1;
                    let ghost value = item@;
                    items.argv.push(item);
                    proof {
                        assert(items@ =~= before + seq![value]);
                        grammar::lemma_factor_consumes(here);
                        lemma_rest_rest(t0, done, taken);
                        let more = grammar::arg_items(self.ahead());
                        assert(grammar::arg_items(here) == joined(seq![value], taken, more));
                        lemma_joined_step(before, done, value, taken, more);
                        done = done + taken;
                    }
                },
            }
        }
        Ok(items)
    }
}

} // verus!
