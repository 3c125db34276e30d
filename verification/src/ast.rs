//! The abstract syntax tree: the owned tree of nodes that a parse returns,
//! and the mathematical trees by which the grammar is stated.
//!
//! Every node type has a view, written `node@`, of the same shape, with a
//! sequence for each vector and a token value for each token.
use vstd::prelude::*;
use crate::token::{Op, SpecTokStruct, SpecToken, TokStruct};

verus! {

/// Marks the types that are nodes of the tree.
pub trait NodeT {

}

/// Marks the nodes that hold other nodes.
pub trait EncapsulatingNode: NodeT {

}

/// Marks the nodes that hold none.
pub trait TerminalNode: NodeT {

}

/// A parsed program: its functions, in source order.
#[derive(Debug)]
pub struct Program {
    pub content: Vec<Function>,
}

/// The arguments of a call, in order.
#[derive(Debug)]
pub struct ArgList {
    pub argv: Vec<Expr>,
}

/// The parameter names of a function, in order.
#[derive(Debug)]
pub struct ArgDeclList {
    pub argv: Vec<TokStruct>,
}

/// A call: the name of the callee and the arguments.
#[derive(Debug)]
pub struct FnCall {
    pub name: TokStruct,
    pub args: ArgList,
}

/// The leaves of an expression.
#[derive(Debug)]
pub enum Factor {
    Int(TokStruct),
    Float(TokStruct),
    String(TokStruct),
    Symbol(TokStruct),
    Bool(TokStruct),
    FnCall(FnCall),
    Expr(Expr),
    /// Stands where a factor was expected and the input had ended.
    Empty,
}

/// An expression: an operation on operands, or a leaf.
#[derive(Debug)]
pub enum Expr {
    Binary { left: Box<Expr>, right: Box<Expr>, op: Op },
    Unary { right: Box<Expr>, op: Op },
    Factor(Box<Factor>),
}

/// A condition and the statement that it guards.
#[derive(Debug)]
pub struct CondBlock {
    pub cond: Expr,
    pub body: Box<Statement>,
}

/// A statement.
#[derive(Debug)]
pub enum Statement {
    Expr(Expr),
    Assign { left: Expr, right: Expr },
    Return { val: Expr },
    /// An `if`, its `elif` clauses in order, and its `else` where it has one.
    Branch { if_block: CondBlock, alt_blocks: Vec<CondBlock>, else_block: Option<Box<Statement>> },
    FnDecl(Function),
    Scope(Scope),
}

/// A block: its statements, in order.
#[derive(Debug)]
pub struct Scope {
    pub contents: Vec<Statement>,
}

/// A function: its name, its parameters and its body.
#[derive(Debug)]
pub struct Function {
    pub name: TokStruct,
    pub args: ArgDeclList,
    pub body: Scope,
}

impl NodeT for ArgList {

}

impl EncapsulatingNode for ArgList {

}

impl NodeT for ArgDeclList {

}

impl EncapsulatingNode for ArgDeclList {

}

impl NodeT for FnCall {

}

impl EncapsulatingNode for FnCall {

}

impl NodeT for Factor {

}

impl NodeT for Expr {

}

impl NodeT for CondBlock {

}

impl EncapsulatingNode for CondBlock {

}

impl NodeT for Statement {

}

impl EncapsulatingNode for Statement {

}

impl NodeT for Scope {

}

impl EncapsulatingNode for Scope {

}

impl NodeT for Function {

}

impl EncapsulatingNode for Function {

}

/// The mathematical value of a [`FnCall`].
pub struct SpecFnCall {
    pub name: SpecTokStruct,
    pub args: Seq<SpecExpr>,
}

/// The mathematical value of a [`Factor`].
pub enum SpecFactor {
    Int(SpecTokStruct),
    Float(SpecTokStruct),
    String(SpecTokStruct),
    Symbol(SpecTokStruct),
    Bool(SpecTokStruct),
    FnCall(SpecFnCall),
    Expr(SpecExpr),
    Empty,
}

/// The mathematical value of an [`Expr`].
pub enum SpecExpr {
    Binary { left: Box<SpecExpr>, right: Box<SpecExpr>, op: Op },
    Unary { right: Box<SpecExpr>, op: Op },
    Factor(Box<SpecFactor>),
}

/// The mathematical value of a [`CondBlock`].
pub struct SpecCondBlock {
    pub cond: SpecExpr,
    pub body: Box<SpecStatement>,
}

/// The mathematical value of a [`Statement`].
pub enum SpecStatement {
    Expr(SpecExpr),
    Assign { left: SpecExpr, right: SpecExpr },
    Return { val: SpecExpr },
    Branch {
        if_block: SpecCondBlock,
        alt_blocks: Seq<SpecCondBlock>,
        else_block: Option<Box<SpecStatement>>,
    },
    FnDecl(SpecFunction),
    Scope(Seq<SpecStatement>),
}

/// The mathematical value of a [`Function`].
pub struct SpecFunction {
    pub name: SpecTokStruct,
    pub args: Seq<SpecTokStruct>,
    pub body: Seq<SpecStatement>,
}

/// The leaf that stands for no input at all.
pub open spec fn empty_expr() -> SpecExpr {
    SpecExpr::Factor(Box::new(SpecFactor::Empty))
}

/// The statement that stands for no statement at all: an empty block.
pub open spec fn empty_statement() -> SpecStatement {
    SpecStatement::Scope(Seq::empty())
}

/// The value of an expression: the same tree, of values.
#[verifier::opaque]
pub open spec fn expr_view(e: Expr) -> SpecExpr
    decreases e,
{
    match e {
        Expr::Binary { left, right, op } => SpecExpr::Binary {
            left: Box::new(expr_view(*left)),
            right: Box::new(expr_view(*right)),
            op: op,
        },
        Expr::Unary { right, op } => SpecExpr::Unary { right: Box::new(expr_view(*right)), op: op },
        Expr::Factor(f) => SpecExpr::Factor(Box::new(factor_view(*f))),
    }
}

/// The value of a factor.
#[verifier::opaque]
pub open spec fn factor_view(f: Factor) -> SpecFactor
    decreases f,
{
    match f {
        Factor::Int(t) => SpecFactor::Int(t@),
        Factor::Float(t) => SpecFactor::Float(t@),
        Factor::String(t) => SpecFactor::String(t@),
        Factor::Symbol(t) => SpecFactor::Symbol(t@),
        Factor::Bool(t) => SpecFactor::Bool(t@),
        Factor::FnCall(c) => SpecFactor::FnCall(call_view(c)),
        Factor::Expr(e) => SpecFactor::Expr(expr_view(e)),
        Factor::Empty => SpecFactor::Empty,
    }
}

/// The value of a call.
#[verifier::opaque]
pub open spec fn call_view(c: FnCall) -> SpecFnCall
    decreases c,
{
    SpecFnCall { name: c.name@, args: args_view(c.args) }
}

/// The values of the arguments of a call, in order.
pub open spec fn args_view(a: ArgList) -> Seq<SpecExpr>
    decreases a,
{
    Seq::new(
        a.argv.len() as nat,
        |i: int|
            if 0 <= i < a.argv.len() {
                expr_view(a.argv[i])
            } else {
                empty_expr()
            },
    )
}

/// The value of a statement.
#[verifier::opaque]
pub open spec fn statement_view(s: Statement) -> SpecStatement
    decreases s,
{
    match s {
        Statement::Expr(e) => SpecStatement::Expr(e@),
        Statement::Assign { left, right } => SpecStatement::Assign { left: left@, right: right@ },
        Statement::Return { val } => SpecStatement::Return { val: val@ },
        Statement::Branch { if_block, alt_blocks, else_block } => SpecStatement::Branch {
            if_block: cond_view(if_block),
            alt_blocks: Seq::new(
                alt_blocks.len() as nat,
                |i: int|
                    if 0 <= i < alt_blocks.len() {
                        cond_view(alt_blocks[i])
                    } else {
                        SpecCondBlock { cond: empty_expr(), body: Box::new(empty_statement()) }
                    },
            ),
            else_block: match else_block {
                Some(body) => Some(Box::new(statement_view(*body))),
                None => None,
            },
        },
        Statement::FnDecl(f) => SpecStatement::FnDecl(function_view(f)),
        Statement::Scope(s) => SpecStatement::Scope(scope_view(s)),
    }
}

/// The value of a condition block.
#[verifier::opaque]
pub open spec fn cond_view(c: CondBlock) -> SpecCondBlock
    decreases c,
{
    SpecCondBlock { cond: c.cond@, body: Box::new(statement_view(*c.body)) }
}

/// The values of the statements of a block, in order.
pub open spec fn scope_view(s: Scope) -> Seq<SpecStatement>
    decreases s,
{
    Seq::new(
        s.contents.len() as nat,
        |i: int|
            if 0 <= i < s.contents.len() {
                statement_view(s.contents[i])
            } else {
                empty_statement()
            },
    )
}

/// The value of a function.
#[verifier::opaque]
pub open spec fn function_view(f: Function) -> SpecFunction
    decreases f,
{
    SpecFunction { name: f.name@, args: f.args@, body: scope_view(f.body) }
}

impl View for Expr {
    type V = SpecExpr;

    open spec fn view(&self) -> SpecExpr {
        expr_view(*self)
    }
}

impl View for Factor {
    type V = SpecFactor;

    open spec fn view(&self) -> SpecFactor {
        factor_view(*self)
    }
}

impl View for FnCall {
    type V = SpecFnCall;

    open spec fn view(&self) -> SpecFnCall {
        call_view(*self)
    }
}

impl View for ArgList {
    type V = Seq<SpecExpr>;

    open spec fn view(&self) -> Seq<SpecExpr> {
        args_view(*self)
    }
}

impl View for ArgDeclList {
    type V = Seq<SpecTokStruct>;

    open spec fn view(&self) -> Seq<SpecTokStruct> {
        Seq::new(self.argv.len() as nat, |i: int| self.argv[i]@)
    }
}

impl View for Statement {
    type V = SpecStatement;

    open spec fn view(&self) -> SpecStatement {
        statement_view(*self)
    }
}

impl View for CondBlock {
    type V = SpecCondBlock;

    open spec fn view(&self) -> SpecCondBlock {
        cond_view(*self)
    }
}

impl View for Scope {
    type V = Seq<SpecStatement>;

    open spec fn view(&self) -> Seq<SpecStatement> {
        scope_view(*self)
    }
}

impl View for Function {
    type V = SpecFunction;

    open spec fn view(&self) -> SpecFunction {
        function_view(*self)
    }
}

impl View for Program {
    type V = Seq<SpecFunction>;

    open spec fn view(&self) -> Seq<SpecFunction> {
        Seq::new(self.content.len() as nat, |i: int| self.content[i]@)
    }
}

impl Default for Program {
    fn default() -> (p: Program)
        ensures
            p@ == Seq::<SpecFunction>::empty(),
    {
        let p = Program { content: Vec::new() };
        assert(p@ =~= Seq::<SpecFunction>::empty());
        p
    }
}

impl Default for ArgList {
    fn default() -> (a: ArgList)
        ensures
            a@ == Seq::<SpecExpr>::empty(),
    {
        let a = ArgList { argv: Vec::new() };
        assert(a@ =~= Seq::<SpecExpr>::empty());
        a
    }
}

impl Default for ArgDeclList {
    fn default() -> (a: ArgDeclList)
        ensures
            a@ == Seq::<SpecTokStruct>::empty(),
    {
        let a = ArgDeclList { argv: Vec::new() };
        assert(a@ =~= Seq::<SpecTokStruct>::empty());
        a
    }
}

impl Default for FnCall {
    fn default() -> (c: FnCall)
        ensures
            c@ == (SpecFnCall {
                name: SpecTokStruct { val: SpecToken::End, pos: 0 },
                args: Seq::empty(),
            }),
    {
        FnCall::new(TokStruct::default(), ArgList::default())
    }
}

impl Default for Scope {
    fn default() -> (s: Scope)
        ensures
            s@ == Seq::<SpecStatement>::empty(),
    {
        let s = Scope { contents: Vec::new() };
        assert(s@ =~= Seq::<SpecStatement>::empty());
        s
    }
}

/// The values of a vector of condition blocks.
pub open spec fn blocks_view(blocks: Seq<CondBlock>) -> Seq<SpecCondBlock> {
    Seq::new(blocks.len(), |i: int| blocks[i]@)
}

impl Expr {
    /// The binary node of `op` over `left` and `right`.
    pub fn binary(left: Expr, right: Expr, op: Op) -> (e: Expr)
        ensures
            e@ == (SpecExpr::Binary { left: Box::new(left@), right: Box::new(right@), op: op }),
    {
        let e = Expr::Binary { left: Box::new(left), right: Box::new(right), op };
        proof {
            reveal(expr_view);
            reveal(factor_view);
            reveal(call_view);
        }
        e
    }

    /// The unary node of `op` over `right`.
    pub fn unary(right: Expr, op: Op) -> (e: Expr)
        ensures
            e@ == (SpecExpr::Unary { right: Box::new(right@), op: op }),
    {
        let e = Expr::Unary { right: Box::new(right), op };
        proof {
            reveal(expr_view);
            reveal(factor_view);
            reveal(call_view);
        }
        e
    }

    /// The factor `f` as an expression.
    pub fn leaf(f: Factor) -> (e: Expr)
        ensures
            e@ == SpecExpr::Factor(Box::new(f@)),
    {
        let e = Expr::Factor(Box::new(f));
        proof {
            reveal(expr_view);
            reveal(factor_view);
            reveal(call_view);
        }
        e
    }
}

impl Factor {
    /// The leaf of a number.
    pub fn float(t: TokStruct) -> (f: Factor)
        ensures
            f@ == SpecFactor::Float(t@),
    {
        let f = Factor::Float(t);
        proof {
            reveal(expr_view);
            reveal(factor_view);
            reveal(call_view);
        }
        f
    }

    /// The leaf of a name.
    pub fn symbol(t: TokStruct) -> (f: Factor)
        ensures
            f@ == SpecFactor::Symbol(t@),
    {
        let f = Factor::Symbol(t);
        proof {
            reveal(expr_view);
            reveal(factor_view);
            reveal(call_view);
        }
        f
    }

    /// The leaf of a boolean literal.
    pub fn boolean(t: TokStruct) -> (f: Factor)
        ensures
            f@ == SpecFactor::Bool(t@),
    {
        let f = Factor::Bool(t);
        proof {
            reveal(expr_view);
            reveal(factor_view);
            reveal(call_view);
        }
        f
    }

    /// The leaf of a call.
    pub fn call(c: FnCall) -> (f: Factor)
        ensures
            f@ == SpecFactor::FnCall(c@),
    {
        let f = Factor::FnCall(c);
        proof {
            reveal(expr_view);
            reveal(factor_view);
            reveal(call_view);
        }
        f
    }

    /// The leaf that stands for no input.
    pub fn empty() -> (f: Factor)
        ensures
            f@ == SpecFactor::Empty,
    {
        let f = Factor::Empty;
        proof {
            reveal(expr_view);
            reveal(factor_view);
            reveal(call_view);
        }
        f
    }
}

impl FnCall {
    /// The call of `name` on `args`.
    pub fn new(name: TokStruct, args: ArgList) -> (c: FnCall)
        ensures
            c@ == (SpecFnCall { name: name@, args: args@ }),
    {
        let c = FnCall { name, args };
        proof {
            reveal(expr_view);
            reveal(factor_view);
            reveal(call_view);
        }
        c
    }
}

impl CondBlock {
    /// The statement `body` under the condition `cond`.
    pub fn new(cond: Expr, body: Statement) -> (c: CondBlock)
        ensures
            c@ == (SpecCondBlock { cond: cond@, body: Box::new(body@) }),
    {
        let c = CondBlock { cond, body: Box::new(body) };
        proof {
            reveal(statement_view);
            reveal(cond_view);
            reveal(function_view);
        }
        c
    }
}

impl Function {
    /// The function `name` with the parameters `args` and the body `body`.
    pub fn new(name: TokStruct, args: ArgDeclList, body: Scope) -> (f: Function)
        ensures
            f@ == (SpecFunction { name: name@, args: args@, body: body@ }),
    {
        let f = Function { name, args, body };
        proof {
            reveal(statement_view);
            reveal(cond_view);
            reveal(function_view);
        }
        f
    }
}

impl Statement {
    /// The statement that the expression `e` is.
    pub fn of_expr(e: Expr) -> (s: Statement)
        ensures
            s@ == SpecStatement::Expr(e@),
    {
        let s = Statement::Expr(e);
        proof {
            reveal(statement_view);
            reveal(cond_view);
            reveal(function_view);
        }
        s
    }

    /// The assignment of `right` to `left`.
    pub fn assign(left: Expr, right: Expr) -> (s: Statement)
        ensures
            s@ == (SpecStatement::Assign { left: left@, right: right@ }),
    {
        let s = Statement::Assign { left, right };
        proof {
            reveal(statement_view);
            reveal(cond_view);
            reveal(function_view);
        }
        s
    }

    /// The return of `val`.
    pub fn returning(val: Expr) -> (s: Statement)
        ensures
            s@ == (SpecStatement::Return { val: val@ }),
    {
        let s = Statement::Return { val };
        proof {
            reveal(statement_view);
            reveal(cond_view);
            reveal(function_view);
        }
        s
    }

    /// The conditional with the given clauses.
    pub fn branch(
        if_block: CondBlock,
        alt_blocks: Vec<CondBlock>,
        else_block: Option<Box<Statement>>,
    ) -> (s: Statement)
        ensures
            s@ == (SpecStatement::Branch {
                if_block: if_block@,
                alt_blocks: blocks_view(alt_blocks@),
                else_block: match else_block {
                    Some(body) => Some(Box::new(body@)),
                    None => None,
                },
            }),
    {
        let ghost alts = blocks_view(alt_blocks@);
        let s = Statement::Branch { if_block, alt_blocks, else_block };
        proof {
            reveal(statement_view);
            reveal(cond_view);
            reveal(function_view);
            assert(s@->Branch_alt_blocks =~= alts);
        }
        s
    }

    /// The declaration of the function `f`.
    pub fn declaring(f: Function) -> (s: Statement)
        ensures
            s@ == SpecStatement::FnDecl(f@),
    {
        let s = Statement::FnDecl(f);
        proof {
            reveal(statement_view);
            reveal(cond_view);
            reveal(function_view);
        }
        s
    }

    /// The block `scope` as a statement.
    pub fn block(scope: Scope) -> (s: Statement)
        ensures
            s@ == SpecStatement::Scope(scope@),
    {
        let s = Statement::Scope(scope);
        proof {
            reveal(statement_view);
            reveal(cond_view);
            reveal(function_view);
        }
        s
    }
}

impl Factor {
    /// The call that this factor is, where it is one.
    pub fn as_fn_call(&mut self) -> (call: Option<&mut FnCall>)
        ensures
            match *old(self) {
                Factor::FnCall(c) => call matches Some(r) && *r == c && *final(self)
                    == Factor::FnCall(*final(r)),
                _ => call is None && *final(self) == *old(self),
            },
    {
        match self {
            Factor::FnCall(f) => Some(f),
            _ => None,
        }
    }
}

impl Expr {
    /// A copy of this expression.
    pub fn duplicate(&self) -> (copy: Expr)
        ensures
            copy@ == self@,
        decreases self,
    {
        proof {
            reveal(expr_view);
            reveal(factor_view);
            reveal(call_view);
        }
        match self {
            Expr::Binary { left, right, op } => Expr::binary(
                left.duplicate(),
                right.duplicate(),
                *op,
            ),
            Expr::Unary { right, op } => Expr::unary(right.duplicate(), *op),
            Expr::Factor(f) => Expr::leaf(f.duplicate()),
        }
    }
}

impl Factor {
    /// A copy of this factor.
    pub fn duplicate(&self) -> (copy: Factor)
        ensures
            copy@ == self@,
        decreases self,
    {
        proof {
            reveal(expr_view);
            reveal(factor_view);
            reveal(call_view);
        }
        match self {
            Factor::Int(t) => Factor::Int(t.clone()),
            Factor::Float(t) => Factor::Float(t.clone()),
            Factor::String(t) => Factor::String(t.clone()),
            Factor::Symbol(t) => Factor::Symbol(t.clone()),
            Factor::Bool(t) => Factor::Bool(t.clone()),
            Factor::FnCall(c) => Factor::FnCall(c.duplicate()),
            Factor::Expr(e) => Factor::Expr(e.duplicate()),
            Factor::Empty => Factor::Empty,
        }
    }
}

impl FnCall {
    /// A copy of this call.
    pub fn duplicate(&self) -> (copy: FnCall)
        ensures
            copy@ == self@,
        decreases self,
    {
        proof {
            reveal(expr_view);
            reveal(factor_view);
            reveal(call_view);
        }
        FnCall::new(self.name.clone(), self.args.duplicate())
    }
}

impl ArgList {
    /// A copy of this list.
    pub fn duplicate(&self) -> (copy: ArgList)
        ensures
            copy@ == self@,
        decreases self,
    {
        let mut argv: Vec<Expr> = Vec::new();
        let mut i: usize = 0;
        while i < self.argv.len()
            invariant
                i <= self.argv.len(),
                argv.len() == i,
                forall|j: int| 0 <= j < i ==> argv[j]@ == self.argv[j]@,
            decreases self.argv.len() - i,
        {
            argv.push(self.argv[i].duplicate());
            i += 1;
        }
        let copy = ArgList { argv };
        proof {
            reveal(expr_view);
            reveal(factor_view);
            reveal(call_view);
        }
        assert(copy@ =~= self@);
        copy
    }
}

impl ArgDeclList {
    /// A copy of this list.
    pub fn duplicate(&self) -> (copy: ArgDeclList)
        ensures
            copy@ == self@,
    {
        let mut argv: Vec<TokStruct> = Vec::new();
        let mut i: usize = 0;
        while i < self.argv.len()
            invariant
                i <= self.argv.len(),
                argv.len() == i,
                forall|j: int| 0 <= j < i ==> argv[j]@ == self.argv[j]@,
            decreases self.argv.len() - i,
        {
            argv.push(self.argv[i].clone());
            i += 1;
        }
        let copy = ArgDeclList { argv };
        assert(copy@ =~= self@);
        copy
    }
}

impl Statement {
    /// A copy of this statement.
    pub fn duplicate(&self) -> (copy: Statement)
        ensures
            copy@ == self@,
        decreases self,
    {
        proof {
            reveal(statement_view);
            reveal(cond_view);
            reveal(function_view);
        }
        match self {
            Statement::Expr(e) => Statement::of_expr(e.duplicate()),
            Statement::Assign { left, right } => Statement::assign(
                left.duplicate(),
                right.duplicate(),
            ),
            Statement::Return { val } => Statement::returning(val.duplicate()),
            Statement::Branch { if_block, alt_blocks, else_block } => {
                let first = if_block.duplicate();
                let alts = copy_blocks(alt_blocks);
                let last = match else_block {
                    Some(body) => Some(Box::new(body.duplicate())),
                    None => None,
                };
                proof {
                    assert(blocks_view(alts@) =~= self@->Branch_alt_blocks);
                }
                Statement::branch(first, alts, last)
            },
            Statement::FnDecl(f) => Statement::declaring(f.duplicate()),
            Statement::Scope(s) => Statement::block(s.duplicate()),
        }
    }
}

/// Copies of the blocks of `blocks`.
fn copy_blocks(blocks: &Vec<CondBlock>) -> (copies: Vec<CondBlock>)
    ensures
        copies.len() == blocks.len(),
        forall|j: int| 0 <= j < blocks.len() ==> copies[j]@ == blocks[j]@,
    decreases blocks,
{
    let mut copies: Vec<CondBlock> = Vec::new();
    let mut i: usize = 0;
    while i < blocks.len()
        invariant
            i <= blocks.len(),
            copies.len() == i,
            forall|j: int| 0 <= j < i ==> copies[j]@ == blocks[j]@,
        decreases blocks.len() - i,
    {
        copies.push(blocks[i].duplicate());
        i += 1;
    }
    copies
}

impl CondBlock {
    /// A copy of this block.
    pub fn duplicate(&self) -> (copy: CondBlock)
        ensures
            copy@ == self@,
        decreases self,
    {
        proof {
            reveal(statement_view);
            reveal(cond_view);
            reveal(function_view);
        }
        CondBlock::new(self.cond.duplicate(), self.body.duplicate())
    }
}

impl Scope {
    /// A copy of this block.
    pub fn duplicate(&self) -> (copy: Scope)
        ensures
            copy@ == self@,
        decreases self,
    {
        let mut contents: Vec<Statement> = Vec::new();
        let mut i: usize = 0;
        while i < self.contents.len()
            invariant
                i <= self.contents.len(),
                contents.len() == i,
                forall|j: int| 0 <= j < i ==> contents[j]@ == self.contents[j]@,
            decreases self.contents.len() - i,
        {
            contents.push(self.contents[i].duplicate());
            i += 1;
        }
        let copy = Scope { contents };
        proof {
            reveal(statement_view);
            reveal(cond_view);
            reveal(function_view);
        }
        assert(copy@ =~= self@);
        copy
    }
}

impl Function {
    /// A copy of this function.
    pub fn duplicate(&self) -> (copy: Function)
        ensures
            copy@ == self@,
        decreases self,
    {
        proof {
            reveal(statement_view);
            reveal(cond_view);
            reveal(function_view);
        }
        Function::new(self.name.clone(), self.args.duplicate(), self.body.duplicate())
    }
}

impl Program {
    /// A copy of this program.
    pub fn duplicate(&self) -> (copy: Program)
        ensures
            copy@ == self@,
    {
        let mut content: Vec<Function> = Vec::new();
        let mut i: usize = 0;
        while i < self.content.len()
            invariant
                i <= self.content.len(),
                content.len() == i,
                forall|j: int| 0 <= j < i ==> content[j]@ == self.content[j]@,
            decreases self.content.len() - i,
        {
            content.push(self.content[i].duplicate());
            i += 1;
        }
        let copy = Program { content };
        assert(copy@ =~= self@);
        copy
    }
}

impl Clone for Expr {
    fn clone(&self) -> (copy: Expr)
        ensures
            copy@ == self@,
    {
        self.duplicate()
    }
}

impl Clone for Factor {
    fn clone(&self) -> (copy: Factor)
        ensures
            copy@ == self@,
    {
        self.duplicate()
    }
}

impl Clone for FnCall {
    fn clone(&self) -> (copy: FnCall)
        ensures
            copy@ == self@,
    {
        self.duplicate()
    }
}

impl Clone for ArgList {
    fn clone(&self) -> (copy: ArgList)
        ensures
            copy@ == self@,
    {
        self.duplicate()
    }
}

impl Clone for ArgDeclList {
    fn clone(&self) -> (copy: ArgDeclList)
        ensures
            copy@ == self@,
    {
        self.duplicate()
    }
}

impl Clone for Statement {
    fn clone(&self) -> (copy: Statement)
        ensures
            copy@ == self@,
    {
        self.duplicate()
    }
}

impl Clone for CondBlock {
    fn clone(&self) -> (copy: CondBlock)
        ensures
            copy@ == self@,
    {
        self.duplicate()
    }
}

impl Clone for Scope {
    fn clone(&self) -> (copy: Scope)
        ensures
            copy@ == self@,
    {
        self.duplicate()
    }
}

impl Clone for Function {
    fn clone(&self) -> (copy: Function)
        ensures
            copy@ == self@,
    {
        self.duplicate()
    }
}

impl Clone for Program {
    fn clone(&self) -> (copy: Program)
        ensures
            copy@ == self@,
    {
        self.duplicate()
    }
}

} // verus!
