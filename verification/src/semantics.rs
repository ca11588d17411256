//! What the source language means: expression evaluation over an environment
//! of 64-bit variable values, and the observable effect of a statement list
//! (the final environment and the bytes the print builtin writes). The code
//! generator's output is proved against these definitions.

use crate::grammar::{AddOp, AddTerm, Expr, MultOp, MultTerm, Statement};
use crate::printer::{bits64, print_bytes};
use vstd::prelude::*;

verus! {

broadcast use vstd::std_specs::vec::group_vec_axioms;

/// Signed 64-bit addition; `None` on overflow.
pub open spec fn add_values(a: i64, b: i64) -> Option<i64> {
    if i64::MIN <= a + b <= i64::MAX {
        Some((a + b) as i64)
    } else {
        None
    }
}

/// Signed 64-bit subtraction; `None` on overflow.
pub open spec fn sub_values(a: i64, b: i64) -> Option<i64> {
    if i64::MIN <= a - b <= i64::MAX {
        Some((a - b) as i64)
    } else {
        None
    }
}

/// Signed 64-bit multiplication; `None` on overflow.
pub open spec fn mul_values(a: i64, b: i64) -> Option<i64> {
    if i64::MIN <= a * b <= i64::MAX {
        Some((a * b) as i64)
    } else {
        None
    }
}

/// What a non-leading additive term contributes: the running value combined
/// with the term's value. A `Start` tag is only lawful on the first term.
pub open spec fn apply_add_op(op: AddOp, a: i64, b: i64) -> Option<i64> {
    match op {
        AddOp::Start => None,
        AddOp::Add => add_values(a, b),
        AddOp::Subtract => sub_values(a, b),
    }
}

/// What a non-leading multiplicative term contributes. Division truncates
/// toward zero and the remainder keeps the dividend's sign; both are `None`
/// for a zero divisor or an unrepresentable result.
pub open spec fn apply_mult_op(op: MultOp, a: i64, b: i64) -> Option<i64> {
    match op {
        MultOp::Start => None,
        MultOp::Multiply => mul_values(a, b),
        MultOp::Divide => a.checked_div(b),
        MultOp::Modulo => a.checked_rem(b),
    }
}

/// The value of an expression under an environment; `None` when a variable is
/// unbound, a term list is ill-formed, or arithmetic leaves the 64-bit range.
pub open spec fn eval_expr(e: Expr, env: Map<Seq<char>, i64>) -> Option<i64>
    decreases e,
{
    match e {
        Expr::Num(n) => Some(n as i64),
        Expr::Variable(name) => if env.contains_key(name@) {
            Some(env[name@])
        } else {
            None
        },
        Expr::AddSub(terms) => eval_add_terms(terms@, env),
        Expr::MultDiv(terms) => eval_mult_terms(terms@, env),
    }
}

/// Left fold over an additive term list: the first term must carry `Start`
/// and becomes the running value; each later term combines into it.
pub open spec fn eval_add_terms(terms: Seq<AddTerm>, env: Map<Seq<char>, i64>) -> Option<i64>
    decreases terms,
{
    if terms.len() == 0 {
        None
    } else if terms.len() == 1 {
        if terms[0].0 == AddOp::Start {
            eval_expr(terms[0].1, env)
        } else {
            None
        }
    } else {
        match (eval_add_terms(terms.drop_last(), env), eval_expr(terms.last().1, env)) {
            (Some(a), Some(b)) => apply_add_op(terms.last().0, a, b),
            _ => None,
        }
    }
}

/// Left fold over a multiplicative term list, shaped as the additive one.
pub open spec fn eval_mult_terms(terms: Seq<MultTerm>, env: Map<Seq<char>, i64>) -> Option<i64>
    decreases terms,
{
    if terms.len() == 0 {
        None
    } else if terms.len() == 1 {
        if terms[0].0 == MultOp::Start {
            eval_expr(terms[0].1, env)
        } else {
            None
        }
    } else {
        match (eval_mult_terms(terms.drop_last(), env), eval_expr(terms.last().1, env)) {
            (Some(a), Some(b)) => apply_mult_op(terms.last().0, a, b),
            _ => None,
        }
    }
}

/// A statement's observable effect: the environment afterwards and what the
/// print builtin writes. Assignment binds the name after the right-hand side
/// is evaluated; output writes the value's line and changes nothing else.
pub open spec fn stmt_effect(s: Statement, env: Map<Seq<char>, i64>) -> Option<
    (Map<Seq<char>, i64>, Seq<u8>),
> {
    match s {
        Statement::Assign(name, e) => match eval_expr(e, env) {
            Some(v) => Some((env.insert(name@, v), Seq::<u8>::empty())),
            None => None,
        },
        Statement::Output(e) => match eval_expr(e, env) {
            Some(v) => Some((env, print_bytes(bits64(v)))),
            None => None,
        },
    }
}

/// The effect of a statement list, in order: the final environment and the
/// concatenation of everything printed.
pub open spec fn block_effect(stmts: Seq<Statement>, env: Map<Seq<char>, i64>) -> Option<
    (Map<Seq<char>, i64>, Seq<u8>),
>
    decreases stmts.len(),
{
    if stmts.len() == 0 {
        Some((env, Seq::<u8>::empty()))
    } else {
        match block_effect(stmts.drop_last(), env) {
            Some((env1, out1)) => match stmt_effect(stmts.last(), env1) {
                Some((env2, out2)) => Some((env2, out1 + out2)),
                None => None,
            },
            None => None,
        }
    }
}

} // verus!
