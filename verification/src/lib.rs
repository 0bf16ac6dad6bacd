//! A tree-walking evaluator for a small Lisp-like expression language.
//!
//! The abstract syntax tree arrives pre-parsed as a structured document;
//! this crate evaluates it: an environment of named bindings, a fixed table
//! of builtin operations, closures that capture the environment by value,
//! and the recursive evaluator itself. Reading the document and printing
//! values are left to the embedding program.
use vstd::prelude::*;

pub mod ast;
pub mod builtins;
pub mod eval;
pub mod laws;
pub mod values;

use crate::ast::Expr;
use crate::eval::{eval_expr, eval_s};
use crate::values::{initial_env_s, res_view, Env, EvalError, ValS, Value};

verus! {

/// Depth budget for one evaluation; evaluation deeper than this is cut off
/// with an error rather than overflowing the stack.
pub const DEFAULT_FUEL: u64 = 1000000;

/// Evaluates one whole program in a fresh root environment, with `fuel` as
/// the depth budget. Yields the final result and everything `print` emitted,
/// exactly as the semantics `eval_s` says.
pub fn evaluate(expr: Expr, fuel: u64) -> (r: (Result<Value, EvalError>, Vec<Value>))
    ensures
        ({
            let (rs, _es, os) = eval_s(expr@, initial_env_s(), Seq::empty(), fuel as nat);
            res_view(r.0) == rs && r.1.deep_view() == os
        }),
{
    let mut env = Env::new();
    let mut out: Vec<Value> = Vec::new();
    proof {
        assert(out.deep_view() =~= Seq::<ValS>::empty());
    }
    let r = eval_expr(expr, &mut env, &mut out, fuel);
    (r, out)
}

} // verus!
