//! Statements, blocks and functions.
use vstd::prelude::*;
use crate::ast::{
    blocks_view, ArgDeclList, CondBlock, Expr, Function, Program, Scope, SpecCondBlock,
    SpecFunction, SpecStatement, Statement,
};
use crate::error::{ParseError, Rule, SpecParseError};
use crate::grammar;
use crate::laws::lemma_statement_consumes;
use crate::parser::{computes, consumed, holds_still, joined, lemma_joined_start, lemma_joined_step, Parser};
use crate::stream::{position, cur, lemma_rest_rest, lemma_rest_zero, rest};
use crate::token::{Op, SpecTokStruct, Token};

verus! {

impl Parser {
    /// `statement`
    pub fn statement(&mut self) -> (r: Result<Statement, ParseError>)
        ensures
            final(self).source() == old(self).source(),
            final(self).offset() >= old(self).offset(),
            final(self).offset() == position(final(self).ahead()),
            computes(
                old(self).ahead(),
                final(self).ahead(),
                r,
                grammar::statement(old(self).ahead()),
            ),
            holds_still(
                old(self).offset(),
                final(self).offset(),
                consumed(grammar::statement(old(self).ahead())),
            ),
        decreases old(self).ahead().len(), 4nat,
    {
        let mark = self.mark();
        let m = self.get_curr();
        match m.val() {
            Token::Operator(Op::BlockStart) => {
                let s = match self.scope() {
                    Ok(v) => v,
                    Err(e) => {
                        self.rewind(&mark);
                        return Err(e);
                    },
                };
                Ok(Statement::block(s))
            },
            Token::Var(_) => {
                let next = match self.peek() {
                    Ok(v) => v,
                    Err(e) => {
                        self.rewind(&mark);
                        return Err(e);
                    },
                };
                if next.val().is_op(Op::Assign) {
                    self.assign_statement()
                } else {
                    self.expr_statement()
                }
            },
            Token::Number(_) => self.expr_statement(),
            Token::Operator(Op::LParens) => self.expr_statement(),
            Token::KeyWord(word) => {
                if *word == String::from_str("if") {
                    self.conditional_statement()
                } else if *word == String::from_str("return") {
                    self.return_statement()
                } else if *word == String::from_str("fn") {
                    let f = match self.function() {
                        Ok(v) => v,
                        Err(e) => {
                            self.rewind(&mark);
                            return Err(e);
                        },
                    };
                    Ok(Statement::declaring(f))
                } else {
                    Err(
                        ParseError::Grammar {
                            rule: Rule::Keyword,
                            found: m.get_val(),
                            position: m.get_pos(),
                        },
                    )
                }
            },
            Token::Operator(Op::LineEnd) => {
                match self.eat(Token::Operator(Op::LineEnd)) {
                    Ok(_) => {},
                    Err(e) => {
                        self.rewind(&mark);
                        return Err(e);
                    },
                }
                Ok(Statement::block(Scope::default()))
            },
            _ => Err(
                ParseError::Grammar {
                    rule: Rule::Statement,
                    found: m.get_val(),
                    position: m.get_pos(),
                },
            ),
        }
    }

    /// An expression that stands as a statement.
    fn expr_statement(&mut self) -> (r: Result<Statement, ParseError>)
        ensures
            final(self).source() == old(self).source(),
            final(self).offset() >= old(self).offset(),
            final(self).offset() == position(final(self).ahead()),
            computes(
                old(self).ahead(),
                final(self).ahead(),
                r,
                grammar::expr_statement(old(self).ahead()),
            ),
            holds_still(
                old(self).offset(),
                final(self).offset(),
                consumed(grammar::expr_statement(old(self).ahead())),
            ),
    {
        let mark = self.mark();
        let e = match self.expr() {
            Ok(v) => v,
            Err(e) => {
                self.rewind(&mark);
                return Err(e);
            },
        };
        Ok(Statement::of_expr(e))
    }

    /// Consumes the terminator that may follow an assignment or a return.
    fn line_end(&mut self) -> (r: Result<(), ParseError>)
        ensures
            final(self).source() == old(self).source(),
            final(self).offset() >= old(self).offset(),
            final(self).offset() == position(final(self).ahead()),
            match grammar::line_end(old(self).ahead()) {
                Ok(n) => r is Ok && final(self).ahead() == rest(old(self).ahead(), n),
                Err(e) => r matches Err(x) && x@ == e && final(self).ahead() == old(self).ahead(),
            },
    {
        let mark = self.mark();
        if *self.current_token() == Token::Operator(Op::LineEnd) {
            match self.eat(Token::Operator(Op::LineEnd)) {
                Ok(_) => {},
                Err(e) => {
                    self.rewind(&mark);
                    return Err(e);
                },
            }
        } else {
            proof {
                lemma_rest_zero(self.ahead());
            }
        }
        Ok(())
    }

    /// `IDENT '=' expr`
    pub fn assign_statement(&mut self) -> (r: Result<Statement, ParseError>)
        ensures
            final(self).source() == old(self).source(),
            final(self).offset() >= old(self).offset(),
            final(self).offset() == position(final(self).ahead()),
            computes(
                old(self).ahead(),
                final(self).ahead(),
                r,
                grammar::assign_statement(old(self).ahead()),
            ),
            holds_still(
                old(self).offset(),
                final(self).offset(),
                consumed(grammar::assign_statement(old(self).ahead())),
            ),
    {
        let mark = self.mark();
        let ghost t0 = self.ahead();
        let name = match self.id() {
            Ok(v) => v,
            Err(e) => {
                self.rewind(&mark);
                return Err(e);
            },
        };
        let ghost a = grammar::id(t0)->Ok_0.1;
        let ghost t1 = self.ahead();
        match self.eat(Token::Operator(Op::Assign)) {
            Ok(_) => {},
            Err(e) => {
                self.rewind(&mark);
                return Err(e);
            },
        }
        let ghost t2 = self.ahead();
        proof {
            lemma_rest_rest(t0, a, 1);
        }
        let right = match self.expr() {
            Ok(v) => v,
            Err(e) => {
                self.rewind(&mark);
                return Err(e);
            },
        };
        let ghost c = grammar::expr(t2)->Ok_0.1;
        proof {
            lemma_rest_rest(t0, a + 1, c);
        }
        let ghost t3 = self.ahead();
        match self.line_end() {
            Ok(_) => {},
            Err(e) => {
                self.rewind(&mark);
                return Err(e);
            },
        }
        proof {
            lemma_rest_rest(t0, a + 1 + c, grammar::line_end(t3)->Ok_0);
        }
        Ok(Statement::assign(Expr::leaf(name), right))
    }

    /// `'return' expr`
    pub fn return_statement(&mut self) -> (r: Result<Statement, ParseError>)
        ensures
            final(self).source() == old(self).source(),
            final(self).offset() >= old(self).offset(),
            final(self).offset() == position(final(self).ahead()),
            computes(
                old(self).ahead(),
                final(self).ahead(),
                r,
                grammar::return_statement(old(self).ahead()),
            ),
            holds_still(
                old(self).offset(),
                final(self).offset(),
                consumed(grammar::return_statement(old(self).ahead())),
            ),
    {
        let mark = self.mark();
        let ghost t0 = self.ahead();
        match self.eat(Token::KeyWord(String::from_str("return"))) {
            Ok(_) => {},
            Err(e) => {
                self.rewind(&mark);
                return Err(e);
            },
        }
        let ghost t1 = self.ahead();
        let val = match self.expr() {
            Ok(v) => v,
            Err(e) => {
                self.rewind(&mark);
                return Err(e);
            },
        };
        let ghost b = grammar::expr(t1)->Ok_0.1;
        proof {
            lemma_rest_rest(t0, 1, b);
        }
        let ghost t2 = self.ahead();
        match self.line_end() {
            Ok(_) => {},
            Err(e) => {
                self.rewind(&mark);
                return Err(e);
            },
        }
        proof {
            lemma_rest_rest(t0, 1 + b, grammar::line_end(t2)->Ok_0);
        }
        Ok(Statement::returning(val))
    }

    /// `scope`
    pub fn scope(&mut self) -> (r: Result<Scope, ParseError>)
        ensures
            final(self).source() == old(self).source(),
            final(self).offset() >= old(self).offset(),
            final(self).offset() == position(final(self).ahead()),
            computes(old(self).ahead(), final(self).ahead(), r, grammar::scope(old(self).ahead())),
            holds_still(
                old(self).offset(),
                final(self).offset(),
                consumed(grammar::scope(old(self).ahead())),
            ),
        decreases old(self).ahead().len(), 3nat,
    {
        let mark = self.mark();
        let ghost t0 = self.ahead();
        match self.eat(Token::Operator(Op::BlockStart)) {
            Ok(_) => {},
            Err(e) => {
                self.rewind(&mark);
                return Err(e);
            },
        }
        let ghost t1 = self.ahead();
        let items = match self.scope_items() {
            Ok(v) => v,
            Err(e) => {
                self.rewind(&mark);
                return Err(e);
            },
        };
        proof {
            lemma_rest_rest(t0, 1, grammar::scope_items(t1)->Ok_0.1);
        }
        Ok(items)
    }

    /// The statements of a block and the `}` that closes it.
    #[verifier::rlimit(50)]
    fn scope_items(&mut self) -> (r: Result<Scope, ParseError>)
        ensures
            final(self).source() == old(self).source(),
            final(self).offset() >= old(self).offset(),
            final(self).offset() == position(final(self).ahead()),
            computes(
                old(self).ahead(),
                final(self).ahead(),
                r,
                grammar::scope_items(old(self).ahead()),
            ),
            holds_still(
                old(self).offset(),
                final(self).offset(),
                consumed(grammar::scope_items(old(self).ahead())),
            ),
        decreases old(self).ahead().len(), 5nat,
    {
        let mark = self.mark();
        let ghost t0 = self.ahead();
        let mut items = Scope::default();
        let ghost mut done: nat = 0;
        proof {
            lemma_rest_zero(t0);
            lemma_joined_start(grammar::scope_items(t0));
        }
        while !self.at_op(Op::BlockEnd)
            invariant
                self.source() == old(self).source(),
                self.offset() >= old(self).offset(),
                self.offset() == position(self.ahead()),
                mark.stream(old(self).source()) == old(self).ahead(),
                mark.offset() == old(self).offset(),
                t0 == old(self).ahead(),
                self.ahead() == rest(t0, done),
                grammar::scope_items(t0) == joined(items@, done, grammar::scope_items(self.ahead())),
            decreases self.ahead().len(),
        {
            let ghost here = self.ahead();
            let ghost before = items@;
            let s = match self.statement() {
                Ok(v) => v,
                Err(e) => {
                    self.rewind(&mark);
                    return Err(e);
                },
            };
            let ghost taken = grammar::statement(here)->Ok_0.1;
            let ghost item = s@;
            items.contents.push(s);
            proof {
                assert(items@ =~= before + seq![item]);
                lemma_statement_consumes(here);
                lemma_rest_rest(t0, done, taken);
                let more = grammar::scope_items(self.ahead());
                assert(grammar::scope_items(here) == joined(seq![item], taken, more));
                lemma_joined_step(before, done, item, taken, more);
                done = done + taken;
            }
        }
        match self.eat(Token::Operator(Op::BlockEnd)) {
            Ok(_) => {},
            Err(e) => {
                self.rewind(&mark);
                return Err(e);
            },
        }
        proof {
            assert(items@ + Seq::<SpecStatement>::empty() =~= items@);
            lemma_rest_rest(t0, done, 1);
        }
        Ok(items)
    }

    /// A condition and the statement that it guards.
    fn cond_block(&mut self) -> (r: Result<CondBlock, ParseError>)
        ensures
            final(self).source() == old(self).source(),
            final(self).offset() >= old(self).offset(),
            final(self).offset() == position(final(self).ahead()),
            computes(
                old(self).ahead(),
                final(self).ahead(),
                r,
                grammar::cond_block(old(self).ahead()),
            ),
            holds_still(
                old(self).offset(),
                final(self).offset(),
                consumed(grammar::cond_block(old(self).ahead())),
            ),
        decreases old(self).ahead().len(), 6nat,
    {
        let mark = self.mark();
        let ghost t0 = self.ahead();
        let cond = match self.relational_expr() {
            Ok(v) => v,
            Err(e) => {
                self.rewind(&mark);
                return Err(e);
            },
        };
        let ghost n = grammar::relational_expr(t0)->Ok_0.1;
        let ghost t1 = self.ahead();
        let body = match self.statement() {
            Ok(v) => v,
            Err(e) => {
                self.rewind(&mark);
                return Err(e);
            },
        };
        proof {
            lemma_rest_rest(t0, n, grammar::statement(t1)->Ok_0.1);
        }
        Ok(CondBlock::new(cond, body))
    }

    /// `'if' cond body ('elif' cond body)* ('else' body)?`
    pub fn conditional_statement(&mut self) -> (r: Result<Statement, ParseError>)
        ensures
            final(self).source() == old(self).source(),
            final(self).offset() >= old(self).offset(),
            final(self).offset() == position(final(self).ahead()),
            computes(
                old(self).ahead(),
                final(self).ahead(),
                r,
                grammar::conditional_statement(old(self).ahead()),
            ),
            holds_still(
                old(self).offset(),
                final(self).offset(),
                consumed(grammar::conditional_statement(old(self).ahead())),
            ),
        decreases old(self).ahead().len(), 2nat,
    {
        let mark = self.mark();
        let ghost t0 = self.ahead();
        match self.eat(Token::KeyWord(String::from_str("if"))) {
            Ok(_) => {},
            Err(e) => {
                self.rewind(&mark);
                return Err(e);
            },
        }
        let ghost t1 = self.ahead();
        let if_block = match self.cond_block() {
            Ok(v) => v,
            Err(e) => {
                self.rewind(&mark);
                return Err(e);
            },
        };
        let ghost b = grammar::cond_block(t1)->Ok_0.1;
        let ghost t2 = self.ahead();
        proof {
            lemma_rest_rest(t0, 1, b);
        }
        let alt_blocks = match self.elif_blocks() {
            Ok(v) => v,
            Err(e) => {
                self.rewind(&mark);
                return Err(e);
            },
        };
        let ghost c = grammar::elif_blocks(t2)->Ok_0.1;
        let ghost t3 = self.ahead();
        proof {
            lemma_rest_rest(t0, 1 + b, c);
        }
        let else_block = match self.else_block() {
            Ok(v) => v,
            Err(e) => {
                self.rewind(&mark);
                return Err(e);
            },
        };
        let ghost d = grammar::else_block(t3)->Ok_0.1;
        proof {
            lemma_rest_rest(t0, 1 + b + c, d);
        }
        Ok(Statement::branch(if_block, alt_blocks, else_block))
    }

    /// The `elif` clauses of a conditional, in order.
    #[verifier::rlimit(50)]
    fn elif_blocks(&mut self) -> (r: Result<Vec<CondBlock>, ParseError>)
        ensures
            final(self).source() == old(self).source(),
            final(self).offset() >= old(self).offset(),
            final(self).offset() == position(final(self).ahead()),
            match grammar::elif_blocks(old(self).ahead()) {
                Ok((blocks, n)) => r matches Ok(v) && blocks_view(v@) == blocks && final(self).ahead() == rest(old(self).ahead(), n),
                Err(e) => r matches Err(x) && x@ == e && final(self).ahead() == old(self).ahead(),
            },
        decreases old(self).ahead().len(), 2nat,
    {
        let mark = self.mark();
        let ghost t0 = self.ahead();
        let mut blocks: Vec<CondBlock> = Vec::new();
        let ghost mut done: nat = 0;
        proof {
            lemma_rest_zero(t0);
            lemma_joined_start(grammar::elif_blocks(t0));
            assert(blocks_view(blocks@) =~= Seq::<SpecCondBlock>::empty());
        }
        loop
            invariant
                self.source() == old(self).source(),
                self.offset() >= old(self).offset(),
                self.offset() == position(self.ahead()),
                mark.stream(old(self).source()) == old(self).ahead(),
                mark.offset() == old(self).offset(),
                t0 == old(self).ahead(),
                self.ahead() == rest(t0, done),
                grammar::elif_blocks(t0) == joined(
                    blocks_view(blocks@),
                    done,
                    grammar::elif_blocks(self.ahead()),
                ),
            ensures
                grammar::elif_blocks(t0) == Ok::<(Seq<SpecCondBlock>, nat), SpecParseError>(
                    (blocks_view(blocks@), done),
                ),
                self.ahead() == rest(t0, done),
            decreases self.ahead().len(),
        {
            let ghost here = self.ahead();
            let is_elif = match self.current_token() {
                Token::KeyWord(word) => *word == String::from_str("elif"),
                _ => false,
            };
            if !is_elif {
                proof {
                    assert(blocks_view(blocks@) + Seq::<SpecCondBlock>::empty() =~= blocks_view(
                        blocks@,
                    ));
                }
                break ;
            }
            match self.eat(Token::KeyWord(String::from_str("elif"))) {
                Ok(_) => {},
                Err(e) => {
                    self.rewind(&mark);
                    return Err(e);
                },
            }
            let ghost t1 = self.ahead();
            let ghost before = blocks_view(blocks@);
            let block = match self.cond_block() {
                Ok(v) => v,
                Err(e) => {
                    self.rewind(&mark);
                    return Err(e);
                },
            };
            let ghost taken = grammar::cond_block(t1)->Ok_0.1;
            let ghost item = block@;
            blocks.push(block);
            proof {
                assert(blocks_view(blocks@) =~= before + seq![item]);
                lemma_rest_rest(here, 1, taken);
                lemma_rest_rest(t0, done, 1 + taken);
                let more = grammar::elif_blocks(self.ahead());
                assert(grammar::elif_blocks(here) == joined(seq![item], 1 + taken, more));
                lemma_joined_step(before, done, item, 1 + taken, more);
                done = done + 1 + taken;
            }
        }
        Ok(blocks)
    }

    /// The `else` clause of a conditional, where it has one.
    fn else_block(&mut self) -> (r: Result<Option<Box<Statement>>, ParseError>)
        ensures
            final(self).source() == old(self).source(),
            final(self).offset() >= old(self).offset(),
            final(self).offset() == position(final(self).ahead()),
            match grammar::else_block(old(self).ahead()) {
                Ok((body, n)) => {
                    &&& r matches Ok(b)
                    &&& match b {
                        Some(s) => body == Some(Box::new(s@)),
                        None => body is None,
                    }
                    &&& final(self).ahead() == rest(old(self).ahead(), n)
                },
                Err(e) => r matches Err(x) && x@ == e && final(self).ahead() == old(self).ahead(),
            },
        decreases old(self).ahead().len(), 2nat,
    {
        let mark = self.mark();
        let ghost t0 = self.ahead();
        let is_else = match self.current_token() {
            Token::KeyWord(word) => *word == String::from_str("else"),
            _ => false,
        };
        if is_else {
            match self.eat(Token::KeyWord(String::from_str("else"))) {
                Ok(_) => {},
                Err(e) => {
                    self.rewind(&mark);
                    return Err(e);
                },
            }
            let ghost t1 = self.ahead();
            let body = match self.statement() {
                Ok(v) => v,
                Err(e) => {
                    self.rewind(&mark);
                    return Err(e);
                },
            };
            proof {
                lemma_rest_rest(t0, 1, grammar::statement(t1)->Ok_0.1);
            }
            Ok(Some(Box::new(body)))
        } else {
            proof {
                lemma_rest_zero(t0);
            }
            Ok(None)
        }
    }

    /// `function`
    pub fn function(&mut self) -> (r: Result<Function, ParseError>)
        ensures
            final(self).source() == old(self).source(),
            final(self).offset() >= old(self).offset(),
            final(self).offset() == position(final(self).ahead()),
            computes(
                old(self).ahead(),
                final(self).ahead(),
                r,
                grammar::function(old(self).ahead()),
            ),
            holds_still(
                old(self).offset(),
                final(self).offset(),
                consumed(grammar::function(old(self).ahead())),
            ),
        decreases old(self).ahead().len(), 2nat,
    {
        let mark = self.mark();
        let ghost t0 = self.ahead();
        match self.eat(Token::KeyWord(String::from_str("fn"))) {
            Ok(_) => {},
            Err(e) => {
                self.rewind(&mark);
                return Err(e);
            },
        }
        let ghost t1 = self.ahead();
        let name = match self.eat(Token::Var(String::new())) {
            Ok(v) => v,
            Err(e) => {
                self.rewind(&mark);
                return Err(e);
            },
        };
        let ghost t2 = self.ahead();
        proof {
            lemma_rest_rest(t0, 1, 1);
        }
        let args = match self.arg_decl_list() {
            Ok(v) => v,
            Err(e) => {
                self.rewind(&mark);
                return Err(e);
            },
        };
        let ghost c = grammar::arg_decl_list(t2)->Ok_0.1;
        let ghost t3 = self.ahead();
        proof {
            lemma_rest_rest(t0, 2, c);
        }
        let body = match self.scope() {
            Ok(v) => v,
            Err(e) => {
                self.rewind(&mark);
                return Err(e);
            },
        };
        proof {
            lemma_rest_rest(t0, 2 + c, grammar::scope(t3)->Ok_0.1);
        }
        Ok(Function::new(name, args, body))
    }

    /// `arg_decl_list`
    pub fn arg_decl_list(&mut self) -> (r: Result<ArgDeclList, ParseError>)
        ensures
            final(self).source() == old(self).source(),
            final(self).offset() >= old(self).offset(),
            final(self).offset() == position(final(self).ahead()),
            computes(
                old(self).ahead(),
                final(self).ahead(),
                r,
                grammar::arg_decl_list(old(self).ahead()),
            ),
            holds_still(
                old(self).offset(),
                final(self).offset(),
                consumed(grammar::arg_decl_list(old(self).ahead())),
            ),
    {
        let mark = self.mark();
        let ghost t0 = self.ahead();
        match self.eat(Token::Operator(Op::LParens)) {
            Ok(_) => {},
            Err(e) => {
                self.rewind(&mark);
                return Err(e);
            },
        }
        let ghost t1 = self.ahead();
        let names = match self.params() {
            Ok(v) => v,
            Err(e) => {
                self.rewind(&mark);
                return Err(e);
            },
        };
        let ghost m = grammar::params(t1)->Ok_0.1;
        proof {
            lemma_rest_rest(t0, 1, m);
        }
        match self.eat(Token::Operator(Op::RParens)) {
            Ok(_) => {},
            Err(e) => {
                self.rewind(&mark);
                return Err(e);
            },
        }
        proof {
            lemma_rest_rest(t0, 1 + m, 1);
        }
        Ok(names)
    }

    /// The parameter names of a declaration, up to the `)`.
    #[verifier::rlimit(50)]
    fn params(&mut self) -> (r: Result<ArgDeclList, ParseError>)
        ensures
            final(self).source() == old(self).source(),
            final(self).offset() >= old(self).offset(),
            final(self).offset() == position(final(self).ahead()),
            computes(old(self).ahead(), final(self).ahead(), r, grammar::params(old(self).ahead())),
            holds_still(
                old(self).offset(),
                final(self).offset(),
                consumed(grammar::params(old(self).ahead())),
            ),
    {
        let mark = self.mark();
        let ghost t0 = self.ahead();
        let mut names = ArgDeclList::default();
        let ghost mut done: nat = 0;
        proof {
            lemma_rest_zero(t0);
            lemma_joined_start(grammar::params(t0));
        }
        loop
            invariant
                self.source() == old(self).source(),
                self.offset() >= old(self).offset(),
                self.offset() == position(self.ahead()),
                mark.stream(old(self).source()) == old(self).ahead(),
                mark.offset() == old(self).offset(),
                t0 == old(self).ahead(),
                self.ahead() == rest(t0, done),
                grammar::params(t0) == joined(names@, done, grammar::params(self.ahead())),
            ensures
                self.source() == old(self).source(),
                self.offset() >= old(self).offset(),
                self.offset() == position(self.ahead()),
                computes(t0, self.ahead(), Ok::<ArgDeclList, ParseError>(names), grammar::params(t0)),
            decreases self.ahead().len(),
        {
            let ghost here = self.ahead();
            let ghost before = names@;
            let m = self.get_curr();
            match m.val() {
                Token::Operator(Op::RParens) => {
                    proof {
                        assert(names@ + Seq::<SpecTokStruct>::empty() =~= names@);
                    }
                    break ;
                },
                Token::Var(_) => {
                    let name = match self.eat(Token::Var(String::new())) {
                        Ok(v) => v,
                        Err(e) => {
                            self.rewind(&mark);
                            return Err(e);
                        },
                    };
                    let ghost item = name@;
                    names.argv.push(name);
                    proof {
                        assert(names@ =~= before + seq![item]);
                        lemma_rest_rest(t0, done, 1);
                        let more = grammar::params(self.ahead());
                        assert(grammar::params(here) == joined(seq![item], 1, more));
                        lemma_joined_step(before, done, item, 1, more);
                        done = done + 1;
                    }
                },
                Token::Operator(Op::Comma) => {
                    match self.eat(Token::Operator(Op::Comma)) {
                        Ok(_) => {},
                        Err(e) => {
                            self.rewind(&mark);
                            return Err(e);
                        },
                    }
                    let next = self.get_curr();
                    let item_or_end = match next.val() {
                        Token::Var(_) => true,
                        Token::Operator(Op::RParens) => true,
                        _ => false,
                    };
                    if !item_or_end {
                        self.rewind(&mark);
                        return Err(
                            ParseError::Grammar {
                                rule: Rule::Separator,
                                found: next.get_val(),
                                position: next.get_pos(),
                            },
                        );
                    }
                    proof {
                        lemma_rest_rest(t0, done, 1);
                        let more = grammar::params(self.ahead());
                        assert(grammar::params(here) == crate::stream::after(1, more));
                        done = done + 1;
                    }
                },
                _ => {
                    self.rewind(&mark);
                    return Err(
                        ParseError::Grammar {
                            rule: Rule::ListItem,
                            found: m.get_val(),
                            position: m.get_pos(),
                        },
                    );
                },
            }
        }
        Ok(names)
    }

    /// Whether no function can follow: at the end of the input, and at a
    /// terminator.
    fn at_program_end(&self) -> (stop: bool)
        ensures
            stop == (cur(self.ahead()).val is End || cur(self.ahead()).val == grammar::the_op(
                Op::LineEnd,
            )),
    {
        match self.current_token() {
            Token::End => true,
            Token::Operator(Op::LineEnd) => true,
            _ => false,
        }
    }

    /// The functions that follow the first.
    #[verifier::rlimit(50)]
    fn more_functions(&mut self, first: Function) -> (r: Result<Program, ParseError>)
        ensures
            final(self).source() == old(self).source(),
            final(self).offset() >= old(self).offset(),
            final(self).offset() == position(final(self).ahead()),
            match grammar::more_functions(old(self).ahead()) {
                Ok((more, n)) => r matches Ok(p) && p@ == seq![first@] + more && final(self).ahead() == rest(old(self).ahead(), n),
                Err(e) => r matches Err(x) && x@ == e && final(self).ahead() == old(self).ahead(),
            },
    {
        let mark = self.mark();
        let ghost t0 = self.ahead();
        let ghost head = first@;
        let mut t = Program::default();
        t.content.push(first);
        let ghost mut done: nat = 0;
        proof {
            assert(t@ =~= seq![head]);
            lemma_rest_zero(t0);
        }
        while !self.at_program_end()
            invariant
                self.source() == old(self).source(),
                self.offset() >= old(self).offset(),
                self.offset() == position(self.ahead()),
                mark.stream(old(self).source()) == old(self).ahead(),
                mark.offset() == old(self).offset(),
                t0 == old(self).ahead(),
                self.ahead() == rest(t0, done),
                joined(seq![head], 0, grammar::more_functions(t0)) == joined(
                    t@,
                    done,
                    grammar::more_functions(self.ahead()),
                ),
            decreases self.ahead().len(),
        {
            let ghost here = self.ahead();
            let ghost before = t@;
            let f = match self.function() {
                Ok(v) => v,
                Err(e) => {
                    self.rewind(&mark);
                    return Err(e);
                },
            };
            let ghost taken = grammar::function(here)->Ok_0.1;
            let ghost item = f@;
            t.content.push(f);
            proof {
                assert(t@ =~= before + seq![item]);
                grammar::lemma_function_consumes(here);
                lemma_rest_rest(t0, done, taken);
                let more = grammar::more_functions(self.ahead());
                assert(grammar::more_functions(here) == joined(seq![item], taken, more));
                lemma_joined_step(before, done, item, taken, more);
                done = done + taken;
            }
        }
        proof {
            assert(t@ + Seq::<SpecFunction>::empty() =~= t@);
        }
        Ok(t)
    }

    /// `program`
    pub fn program(&mut self) -> (r: Result<Program, ParseError>)
        ensures
            final(self).source() == old(self).source(),
            final(self).offset() >= old(self).offset(),
            final(self).offset() == position(final(self).ahead()),
            computes(
                old(self).ahead(),
                final(self).ahead(),
                r,
                grammar::program(old(self).ahead()),
            ),
            holds_still(
                old(self).offset(),
                final(self).offset(),
                consumed(grammar::program(old(self).ahead())),
            ),
    {
        let mark = self.mark();
        let ghost t0 = self.ahead();
        let first = match self.function() {
            Ok(v) => v,
            Err(e) => {
                self.rewind(&mark);
                return Err(e);
            },
        };
        let ghost t1 = self.ahead();
        let program = match self.more_functions(first) {
            Ok(v) => v,
            Err(e) => {
                self.rewind(&mark);
                return Err(e);
            },
        };
        proof {
            lemma_rest_rest(t0, grammar::function(t0)->Ok_0.1, grammar::more_functions(t1)->Ok_0.1);
        }
        Ok(program)
    }
}

} // verus!
