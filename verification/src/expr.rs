//! The expression trees produced by the parser.
//!
//! Every `Variable` and `Assign` node carries a stable identifier,
//! distinct from its structural content, assigned by the parser; the
//! resolver keys its scope-distance table by these identifiers.
use vstd::prelude::*;
use crate::token::{SpecToken, Token};

verus! {

/// A literal value as it stands in the source: the parser produces
/// these, and evaluation turns them into runtime values.
#[derive(Debug, PartialEq)]
pub enum Literal {
    Nil,
    Bool(bool),
    Number(i64),
    Str(String),
}

/// The mathematical value of a `Literal`.
pub enum SpecLiteral {
    Nil,
    Bool(bool),
    Number(int),
    Str(Seq<char>),
}

impl View for Literal {
    type V = SpecLiteral;

    open spec fn view(&self) -> SpecLiteral {
        match self {
            Literal::Nil => SpecLiteral::Nil,
            Literal::Bool(b) => SpecLiteral::Bool(*b),
            Literal::Number(n) => SpecLiteral::Number(*n as int),
            Literal::Str(s) => SpecLiteral::Str(s@),
        }
    }
}

/// An expression tree node.
#[derive(Debug, PartialEq)]
pub enum Expr {
    Literal(Literal),
    Unary { operator: Token, right: Box<Expr> },
    Binary { left: Box<Expr>, operator: Token, right: Box<Expr> },
    Logical { left: Box<Expr>, operator: Token, right: Box<Expr> },
    Grouping(Box<Expr>),
    Variable { id: u64, name: Token },
    Assign { id: u64, name: Token, value: Box<Expr> },
    Call { callee: Box<Expr>, paren: Token, arguments: Vec<Expr> },
}

/// The mathematical value of an expression tree.
pub enum SpecExpr {
    Literal(SpecLiteral),
    Unary { operator: SpecToken, right: Box<SpecExpr> },
    Binary { left: Box<SpecExpr>, operator: SpecToken, right: Box<SpecExpr> },
    Logical { left: Box<SpecExpr>, operator: SpecToken, right: Box<SpecExpr> },
    Grouping(Box<SpecExpr>),
    Variable { id: u64, name: SpecToken },
    Assign { id: u64, name: SpecToken, value: Box<SpecExpr> },
    Call { callee: Box<SpecExpr>, paren: SpecToken, arguments: Seq<SpecExpr> },
}

pub open spec fn expr_view(e: Expr) -> SpecExpr
    decreases e,
{
    match e {
        Expr::Literal(l) => SpecExpr::Literal(l@),
        Expr::Unary { operator, right } => SpecExpr::Unary {
            operator: operator@,
            right: Box::new(expr_view(*right)),
        },
        Expr::Binary { left, operator, right } => SpecExpr::Binary {
            left: Box::new(expr_view(*left)),
            operator: operator@,
            right: Box::new(expr_view(*right)),
        },
        Expr::Logical { left, operator, right } => SpecExpr::Logical {
            left: Box::new(expr_view(*left)),
            operator: operator@,
            right: Box::new(expr_view(*right)),
        },
        Expr::Grouping(inner) => SpecExpr::Grouping(Box::new(expr_view(*inner))),
        Expr::Variable { id, name } => SpecExpr::Variable { id, name: name@ },
        Expr::Assign { id, name, value } => SpecExpr::Assign {
            id,
            name: name@,
            value: Box::new(expr_view(*value)),
        },
        Expr::Call { callee, paren, arguments } => SpecExpr::Call {
            callee: Box::new(expr_view(*callee)),
            paren: paren@,
            arguments: exprs_view(arguments@),
        },
    }
}

pub open spec fn exprs_view(es: Seq<Expr>) -> Seq<SpecExpr>
    decreases es,
{
    if es.len() == 0 {
        Seq::empty()
    } else {
        exprs_view(es.drop_last()).push(expr_view(es.last()))
    }
}

impl View for Expr {
    type V = SpecExpr;

    open spec fn view(&self) -> SpecExpr {
        expr_view(*self)
    }
}

/// `exprs_view` is a pointwise map over the sequence.
pub proof fn lemma_exprs_view(es: Seq<Expr>)
    ensures
        exprs_view(es).len() == es.len(),
        forall|i: int| 0 <= i < es.len() ==> exprs_view(es)[i] == #[trigger] es[i]@,
    decreases es,
{
    if es.len() > 0 {
        lemma_exprs_view(es.drop_last());
        assert forall|i: int| 0 <= i < es.len() implies exprs_view(es)[i] == es[i]@ by {
            if i < es.len() - 1 {
                assert(es.drop_last()[i] == es[i]);
            } else {
                assert(es[i] == es.last());
            }
        }
    }
}

/// The identifiers of the `Variable` and `Assign` nodes of an
/// expression: the keys the resolver may write for it.
pub open spec fn expr_ids(e: SpecExpr) -> Set<u64>
    decreases e,
{
    match e {
        SpecExpr::Literal(_) => Set::empty(),
        SpecExpr::Unary { operator: _, right } => expr_ids(*right),
        SpecExpr::Binary { left, operator: _, right } => expr_ids(*left).union(expr_ids(*right)),
        SpecExpr::Logical { left, operator: _, right } => expr_ids(*left).union(expr_ids(*right)),
        SpecExpr::Grouping(inner) => expr_ids(*inner),
        SpecExpr::Variable { id, name: _ } => Set::empty().insert(id),
        SpecExpr::Assign { id, name: _, value } => expr_ids(*value).insert(id),
        SpecExpr::Call { callee, paren: _, arguments } => expr_ids(*callee).union(
            exprs_ids(arguments),
        ),
    }
}

pub open spec fn exprs_ids(es: Seq<SpecExpr>) -> Set<u64>
    decreases es,
{
    if es.len() == 0 {
        Set::empty()
    } else {
        expr_ids(es[0]).union(exprs_ids(es.drop_first()))
    }
}

} // verus!
