//! Syntax trees for the expression language: expressions, type annotations,
//! and the source positions the parser attaches to them.
use vstd::prelude::*;

verus! {

/// A source position attached by the parser. The checker carries spans
/// through unread: no typing rule depends on one.
#[derive(Debug, Clone, Copy)]
pub struct Span {
    pub start: usize,
    pub end: usize,
}

/// A type annotation as written in source, not yet checked.
#[derive(Debug)]
pub enum TypeAst {
    Int(Span),
    Bool(Span),
    Function(Box<TypeAst>, Box<TypeAst>),
}

/// A parsed expression. The parser owns construction; the checker only
/// reads these nodes.
#[derive(Debug)]
pub enum Ast {
    /// Transparent grouping; contributes no semantics of its own.
    Paren(Box<Ast>, Span),
    /// A reference to a bound identifier.
    Var(String, Span),
    IntLiteral(i64, Span),
    BoolLiteral(bool, Span),
    /// Boolean conjunction of two operands.
    And(Box<Ast>, Box<Ast>),
    /// Equality test of two operands of one base type.
    Eq(Box<Ast>, Box<Ast>),
    /// Integer addition of two operands.
    Add(Box<Ast>, Box<Ast>),
    /// Binds `name` to the type of `right` within `body`.
    Let { name: String, right: Box<Ast>, body: Box<Ast>, span: Span },
    /// A single-argument function literal: binds the input name at the
    /// annotated type while checking `ret`.
    Function { input: (String, Span), input_type: TypeAst, ret: Box<Ast>, span: Span },
}

/// Two annotations have the same shape when they differ at most in their
/// spans.
pub open spec fn same_shape(a: TypeAst, b: TypeAst) -> bool
    decreases a,
{
    match (a, b) {
        (TypeAst::Int(_), TypeAst::Int(_)) => true,
        (TypeAst::Bool(_), TypeAst::Bool(_)) => true,
        (TypeAst::Function(al, ar), TypeAst::Function(bl, br)) => same_shape(*al, *bl)
            && same_shape(*ar, *br),
        _ => false,
    }
}

} // verus!
