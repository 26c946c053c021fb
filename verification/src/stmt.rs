//! The statement trees produced by the parser.
use vstd::prelude::*;
use std::rc::Rc;
use crate::expr::{expr_view, Expr, SpecExpr};
use crate::token::{tokens_view, SpecToken, Token};

verus! {

/// A braced block of statements.
#[derive(Debug, PartialEq)]
pub struct Block {
    pub statements: Vec<Stmt>,
}

/// A function declaration: its name, its parameters and its body.
#[derive(Debug, PartialEq)]
pub struct Function {
    pub name: Token,
    pub params: Vec<Token>,
    pub body: Vec<Stmt>,
}

/// A statement tree node.
#[derive(Debug, PartialEq)]
pub enum Stmt {
    Expression(Expr),
    Print(Expr),
    Var { name: Token, initializer: Option<Expr> },
    Block(Block),
    If { condition: Expr, then_branch: Box<Stmt>, else_branch: Option<Box<Stmt>> },
    While { condition: Expr, body: Box<Stmt> },
    Function(Rc<Function>),
    Return { keyword: Token, value: Expr },
}

/// The mathematical value of a function declaration.
pub struct SpecFunction {
    pub name: SpecToken,
    pub params: Seq<SpecToken>,
    pub body: Seq<SpecStmt>,
}

/// The mathematical value of a statement tree.
pub enum SpecStmt {
    Expression(SpecExpr),
    Print(SpecExpr),
    Var { name: SpecToken, initializer: Option<SpecExpr> },
    Block(Seq<SpecStmt>),
    If { condition: SpecExpr, then_branch: Box<SpecStmt>, else_branch: Option<Box<SpecStmt>> },
    While { condition: SpecExpr, body: Box<SpecStmt> },
    Function(SpecFunction),
    Return { keyword: SpecToken, value: SpecExpr },
}

pub open spec fn function_view(f: Function) -> SpecFunction
    decreases f,
{
    SpecFunction {
        name: f.name@,
        params: tokens_view(f.params@),
        body: stmts_view(f.body@),
    }
}

pub open spec fn stmt_view(s: Stmt) -> SpecStmt
    decreases s,
{
    match s {
        Stmt::Expression(e) => SpecStmt::Expression(expr_view(e)),
        Stmt::Print(e) => SpecStmt::Print(expr_view(e)),
        Stmt::Var { name, initializer } => SpecStmt::Var {
            name: name@,
            initializer: match initializer {
                Some(e) => Some(expr_view(e)),
                None => None,
            },
        },
        Stmt::Block(b) => SpecStmt::Block(stmts_view(b.statements@)),
        Stmt::If { condition, then_branch, else_branch } => SpecStmt::If {
            condition: expr_view(condition),
            then_branch: Box::new(stmt_view(*then_branch)),
            else_branch: match else_branch {
                Some(s2) => Some(Box::new(stmt_view(*s2))),
                None => None,
            },
        },
        Stmt::While { condition, body } => SpecStmt::While {
            condition: expr_view(condition),
            body: Box::new(stmt_view(*body)),
        },
        Stmt::Function(f) => SpecStmt::Function(function_view(*f)),
        Stmt::Return { keyword, value } => SpecStmt::Return {
            keyword: keyword@,
            value: expr_view(value),
        },
    }
}

pub open spec fn stmts_view(ss: Seq<Stmt>) -> Seq<SpecStmt>
    decreases ss,
{
    if ss.len() == 0 {
        Seq::empty()
    } else {
        stmts_view(ss.drop_last()).push(stmt_view(ss.last()))
    }
}

impl View for Stmt {
    type V = SpecStmt;

    open spec fn view(&self) -> SpecStmt {
        stmt_view(*self)
    }
}

impl View for Function {
    type V = SpecFunction;

    open spec fn view(&self) -> SpecFunction {
        function_view(*self)
    }
}

impl View for Block {
    type V = Seq<SpecStmt>;

    open spec fn view(&self) -> Seq<SpecStmt> {
        stmts_view(self.statements@)
    }
}

/// `stmts_view` is a pointwise map over the sequence.
pub proof fn lemma_stmts_view(ss: Seq<Stmt>)
    ensures
        stmts_view(ss).len() == ss.len(),
        forall|i: int| 0 <= i < ss.len() ==> stmts_view(ss)[i] == #[trigger] ss[i]@,
    decreases ss,
{
    if ss.len() > 0 {
        lemma_stmts_view(ss.drop_last());
        assert forall|i: int| 0 <= i < ss.len() implies stmts_view(ss)[i] == ss[i]@ by {
            if i < ss.len() - 1 {
                assert(ss.drop_last()[i] == ss[i]);
            } else {
                assert(ss[i] == ss.last());
            }
        }
    }
}

impl Block {
    pub fn new(statements: Vec<Stmt>) -> (r: Block)
        ensures
            r@ == stmts_view(statements@),
    {
        Block { statements }
    }

    pub fn statements(&self) -> (r: &Vec<Stmt>)
        ensures
            stmts_view(r@) == self@,
    {
        &self.statements
    }
}

impl Function {
    pub fn new(name: Token, params: Vec<Token>, body: Vec<Stmt>) -> (r: Function)
        ensures
            r@ == (SpecFunction {
                name: name@,
                params: tokens_view(params@),
                body: stmts_view(body@),
            }),
    {
        Function { name, params, body }
    }

    pub fn name(&self) -> (r: Token)
        ensures
            r@ == self@.name,
    {
        self.name.clone()
    }

    pub fn params(&self) -> (r: &Vec<Token>)
        ensures
            tokens_view(r@) == self@.params,
    {
        &self.params
    }

    pub fn body(&self) -> (r: &Vec<Stmt>)
        ensures
            stmts_view(r@) == self@.body,
    {
        &self.body
    }
}

/// The identifiers of the `Variable` and `Assign` nodes of a
/// statement tree.
pub open spec fn stmt_ids(s: SpecStmt) -> Set<u64>
    decreases s,
{
    match s {
        SpecStmt::Expression(e) => crate::expr::expr_ids(e),
        SpecStmt::Print(e) => crate::expr::expr_ids(e),
        SpecStmt::Var { name: _, initializer } => match initializer {
            Some(e) => crate::expr::expr_ids(e),
            None => Set::empty(),
        },
        SpecStmt::Block(ss) => stmts_ids(ss),
        SpecStmt::If { condition, then_branch, else_branch } => crate::expr::expr_ids(
            condition,
        ).union(stmt_ids(*then_branch)).union(
            match else_branch {
                Some(els) => stmt_ids(*els),
                None => Set::empty(),
            },
        ),
        SpecStmt::While { condition, body } => crate::expr::expr_ids(condition).union(
            stmt_ids(*body),
        ),
        SpecStmt::Function(f) => stmts_ids(f.body),
        SpecStmt::Return { keyword: _, value } => crate::expr::expr_ids(value),
    }
}

pub open spec fn stmts_ids(ss: Seq<SpecStmt>) -> Set<u64>
    decreases ss,
{
    if ss.len() == 0 {
        Set::empty()
    } else {
        stmt_ids(ss[0]).union(stmts_ids(ss.drop_first()))
    }
}

} // verus!
