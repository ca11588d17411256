//! The syntax tree that the code generator consumes: expressions built from
//! additive and multiplicative term lists, numeric literals and variable
//! references, and the two statement forms the generator lowers.

use vstd::prelude::*;

verus! {

/// How an additive term combines with the running value. The first term of a
/// term list carries `Start` (no combination); later terms add or subtract.
#[derive(Debug, Clone, Copy, PartialEq, Eq, Structural)]
pub enum AddOp {
    Start,
    Add,
    Subtract,
}

/// How a multiplicative term combines with the running value.
#[derive(Debug, Clone, Copy, PartialEq, Eq, Structural)]
pub enum MultOp {
    Start,
    Multiply,
    Divide,
    Modulo,
}

/// One additive term: an operator tag and the sub-expression it contributes.
#[derive(Debug, PartialEq, Eq)]
pub struct AddTerm(pub AddOp, pub Expr);

/// One multiplicative term.
#[derive(Debug, PartialEq, Eq)]
pub struct MultTerm(pub MultOp, pub Expr);

/// An expression: an additive term list, a multiplicative term list, a signed
/// 32-bit literal, or a variable reference by name.
#[derive(Debug, PartialEq, Eq)]
pub enum Expr {
    AddSub(Vec<AddTerm>),
    MultDiv(Vec<MultTerm>),
    Num(i32),
    Variable(String),
}

/// A statement: assign an expression's value to a named variable, or output
/// an expression's value through the print builtin.
#[derive(Debug, PartialEq, Eq)]
pub enum Statement {
    Assign(String, Expr),
    Output(Expr),
}

} // verus!
