//! The fixed table of builtin operations: names, arities, and exact
//! behaviour on evaluated argument values.
use vstd::prelude::*;

use vstd::arithmetic::power::{
    lemma0_pow, lemma1_pow, lemma_pow0, lemma_pow1, lemma_pow_adds, pow,
};

use crate::values::{res_view, EvalError, ValS, Value};

verus! {

/// A builtin operation. Builtins are process-wide constants, not
/// per-environment state; every frame resolves the same names.
#[derive(Clone, Copy, PartialEq, Eq, Structural, Debug)]
pub enum BuiltinOp {
    Add,
    Sub,
    Mul,
    Div,
    Pow,
    IsZero,
    CmpEq,
    CmpLt,
    CmpGt,
    CmpGe,
    CmpLe,
    Print,
}

/// How many arguments each builtin takes.
pub open spec fn arity_s(op: BuiltinOp) -> nat {
    match op {
        BuiltinOp::IsZero => 1,
        BuiltinOp::Print => 1,
        _ => 2,
    }
}

pub fn arity_of(op: BuiltinOp) -> (n: usize)
    ensures
        n == arity_s(op),
{
    match op {
        BuiltinOp::IsZero => 1,
        BuiltinOp::Print => 1,
        _ => 2,
    }
}

/// The builtin, if any, that a name denotes.
pub open spec fn builtin_s(name: Seq<char>) -> Option<BuiltinOp> {
    if name == "add"@ {
        Some(BuiltinOp::Add)
    } else if name == "sub"@ {
        Some(BuiltinOp::Sub)
    } else if name == "mul"@ {
        Some(BuiltinOp::Mul)
    } else if name == "div"@ {
        Some(BuiltinOp::Div)
    } else if name == "pow"@ {
        Some(BuiltinOp::Pow)
    } else if name == "zero?"@ {
        Some(BuiltinOp::IsZero)
    } else if name == "="@ {
        Some(BuiltinOp::CmpEq)
    } else if name == "<"@ {
        Some(BuiltinOp::CmpLt)
    } else if name == ">"@ {
        Some(BuiltinOp::CmpGt)
    } else if name == ">="@ {
        Some(BuiltinOp::CmpGe)
    } else if name == "<="@ {
        Some(BuiltinOp::CmpLe)
    } else if name == "print"@ {
        Some(BuiltinOp::Print)
    } else {
        None
    }
}

pub fn builtin_of_name(name: &String) -> (r: Option<BuiltinOp>)
    ensures
        r == builtin_s(name@),
{
    if *name == "add".to_owned() {
        Some(BuiltinOp::Add)
    } else if *name == "sub".to_owned() {
        Some(BuiltinOp::Sub)
    } else if *name == "mul".to_owned() {
        Some(BuiltinOp::Mul)
    } else if *name == "div".to_owned() {
        Some(BuiltinOp::Div)
    } else if *name == "pow".to_owned() {
        Some(BuiltinOp::Pow)
    } else if *name == "zero?".to_owned() {
        Some(BuiltinOp::IsZero)
    } else if *name == "=".to_owned() {
        Some(BuiltinOp::CmpEq)
    } else if *name == "<".to_owned() {
        Some(BuiltinOp::CmpLt)
    } else if *name == ">".to_owned() {
        Some(BuiltinOp::CmpGt)
    } else if *name == ">=".to_owned() {
        Some(BuiltinOp::CmpGe)
    } else if *name == "<=".to_owned() {
        Some(BuiltinOp::CmpLe)
    } else if *name == "print".to_owned() {
        Some(BuiltinOp::Print)
    } else {
        None
    }
}

/// Whether the exact integer power stays within 64 bits.
pub open spec fn pow_fits(a: i64, e: nat) -> bool {
    i64::MIN <= pow(a as int, e) <= i64::MAX
}

/// What `pow` returns: exact exponentiation, an overflow error when the
/// result leaves 64 bits, and a rejection of negative exponents.
pub open spec fn pow_result_s(a: i64, b: i64) -> Result<ValS, EvalError> {
    if b < 0 {
        Err(EvalError::InvalidArguments)
    } else if pow_fits(a, b as nat) {
        Ok(ValS::Number(pow(a as int, b as nat) as i64))
    } else {
        Err(EvalError::Overflow)
    }
}

proof fn lemma_pow_step(a: int, i: nat)
    ensures
        pow(a, i + 1) == pow(a, i) * a,
{
    lemma_pow1(a);
    lemma_pow_adds(a, i, 1);
}

proof fn lemma_pow_abs_ge_two(a: int, k: nat)
    requires
        a <= -2 || a >= 2,
        k >= 1,
    ensures
        pow(a, k) >= 2 || pow(a, k) <= -2,
    decreases k,
{
    if k == 1 {
        lemma_pow1(a);
    } else {
        lemma_pow_abs_ge_two(a, (k - 1) as nat);
        lemma_pow_step(a, (k - 1) as nat);
        let p = pow(a, (k - 1) as nat);
        assert((p >= 2 || p <= -2) && (a >= 2 || a <= -2) ==> (p * a >= 4 || p * a <= -4))
            by (nonlinear_arith);
    }
}

proof fn lemma_pow_overflow_propagates(a: int, e1: nat, e2: nat)
    requires
        a <= -2 || a >= 2,
        e1 < e2,
        pow(a, e1) > i64::MAX || pow(a, e1) < i64::MIN,
    ensures
        pow(a, e2) > i64::MAX || pow(a, e2) < i64::MIN,
{
    let k = (e2 - e1) as nat;
    lemma_pow_adds(a, e1, k);
    lemma_pow_abs_ge_two(a, k);
    let x = pow(a, e1);
    let y = pow(a, k);
    assert((x > 0x7fff_ffff_ffff_ffff || x < -0x8000_0000_0000_0000) && (y >= 2 || y <= -2)
        ==> (x * y > 0x7fff_ffff_ffff_ffff || x * y < -0x8000_0000_0000_0000))
        by (nonlinear_arith);
}

proof fn lemma_neg_one_pow(e: nat)
    ensures
        pow(-1, e) == if e % 2 == 0 { 1int } else { -1int },
    decreases e,
{
    if e == 0 {
        lemma_pow0(-1);
    } else {
        lemma_neg_one_pow((e - 1) as nat);
        lemma_pow_step(-1, (e - 1) as nat);
    }
}

/// Exact integer exponentiation, rejecting negative exponents and
/// reporting overflow instead of wrapping.
pub fn pow_value(a: i64, b: i64) -> (r: Result<i64, EvalError>)
    ensures
        b < 0 ==> r == Err::<i64, EvalError>(EvalError::InvalidArguments),
        b >= 0 && pow_fits(a, b as nat) ==> r == Ok::<i64, EvalError>(
            pow(a as int, b as nat) as i64,
        ),
        b >= 0 && !pow_fits(a, b as nat) ==> r == Err::<i64, EvalError>(EvalError::Overflow),
{
    if b < 0 {
        return Err(EvalError::InvalidArguments);
    }
    if a == 0 {
        if b == 0 {
            proof {
                lemma_pow0(0);
            }
            return Ok(1);
        }
        proof {
            lemma0_pow(b as nat);
        }
        return Ok(0);
    }
    if a == 1 {
        proof {
            lemma1_pow(b as nat);
        }
        return Ok(1);
    }
    if a == -1 {
        proof {
            lemma_neg_one_pow(b as nat);
        }
        if b % 2 == 0 {
            return Ok(1);
        }
        return Ok(-1);
    }
    let bu: u64 = b as u64;
    let mut acc: i64 = 1;
    let mut i: u64 = 0;
    proof {
        lemma_pow0(a as int);
    }
    while i < bu
        invariant
            a <= -2 || a >= 2,
            0 <= i <= bu,
            bu == b,
            acc == pow(a as int, i as nat),
        decreases bu - i,
    {
        match acc.checked_mul(a) {
            Some(x) => {
                proof {
                    lemma_pow_step(a as int, i as nat);
                }
                acc = x;
                i = i + 1;
            },
            None => {
                proof {
                    lemma_pow_step(a as int, i as nat);
                    if i + 1 < b {
                        lemma_pow_overflow_propagates(a as int, (i + 1) as nat, b as nat);
                    }
                }
                return Err(EvalError::Overflow);
            },
        }
    }
    Ok(acc)
}

/// What a two-argument arithmetic or comparison builtin returns on two
/// integers.
pub open spec fn num_op_s(op: BuiltinOp, a: i64, b: i64) -> Result<ValS, EvalError> {
    match op {
        BuiltinOp::Add => match a.checked_add(b) {
            Some(r) => Ok(ValS::Number(r)),
            None => Err(EvalError::Overflow),
        },
        BuiltinOp::Sub => match a.checked_sub(b) {
            Some(r) => Ok(ValS::Number(r)),
            None => Err(EvalError::Overflow),
        },
        BuiltinOp::Mul => match a.checked_mul(b) {
            Some(r) => Ok(ValS::Number(r)),
            None => Err(EvalError::Overflow),
        },
        BuiltinOp::Div => if b == 0 {
            Err(EvalError::DivisionByZero)
        } else {
            match a.checked_div(b) {
                Some(q) => Ok(ValS::Number(q)),
                None => Err(EvalError::Overflow),
            }
        },
        BuiltinOp::Pow => pow_result_s(a, b),
        BuiltinOp::CmpEq => Ok(ValS::Bool(a == b)),
        BuiltinOp::CmpLt => Ok(ValS::Bool(a < b)),
        BuiltinOp::CmpGt => Ok(ValS::Bool(a > b)),
        BuiltinOp::CmpGe => Ok(ValS::Bool(a >= b)),
        BuiltinOp::CmpLe => Ok(ValS::Bool(a <= b)),
        _ => Err(EvalError::InvalidArguments),
    }
}

/// What applying a builtin to evaluated argument values yields, and what
/// it appends to the output stream (`print` appends its argument).
pub open spec fn apply_builtin_s(op: BuiltinOp, vals: Seq<ValS>, out: Seq<ValS>) -> (Result<
    ValS,
    EvalError,
>, Seq<ValS>) {
    if vals.len() != arity_s(op) {
        (Err(EvalError::ArityMismatch), out)
    } else {
        match op {
            BuiltinOp::Print => (Ok(ValS::Number(0)), out.push(vals[0])),
            BuiltinOp::IsZero => match vals[0] {
                ValS::Number(n) => (Ok(ValS::Bool(n == 0)), out),
                _ => (Err(EvalError::InvalidArguments), out),
            },
            _ => match (vals[0], vals[1]) {
                (ValS::Number(x), ValS::Number(y)) => (num_op_s(op, x, y), out),
                _ => (Err(EvalError::InvalidArguments), out),
            },
        }
    }
}

/// Runs one builtin on already-evaluated arguments. `print` appends the
/// value to the output stream and yields integer zero.
pub fn apply_builtin(op: BuiltinOp, vals: Vec<Value>, out: &mut Vec<Value>) -> (r: Result<
    Value,
    EvalError,
>)
    ensures
        ({
            let (rs, os) = apply_builtin_s(op, vals.deep_view(), old(out).deep_view());
            res_view(r) == rs && final(out).deep_view() == os
        }),
{
    let mut vals = vals;
    let arity = arity_of(op);
    if vals.len() != arity {
        return Err(EvalError::ArityMismatch);
    }
    let ghost vals0 = vals.deep_view();
    let v0 = vals.remove(0);
    proof {
        assert(v0.deep_view() == vals0[0]);
    }
    match op {
        BuiltinOp::Print => {
            let ghost gv = v0@;
            out.push(v0);
            proof {
                assert(out.deep_view() =~= old(out).deep_view().push(gv));
            }
            Ok(Value::Number(0))
        },
        BuiltinOp::IsZero => match v0 {
            Value::Number(n) => Ok(Value::Bool(n == 0)),
            _ => Err(EvalError::InvalidArguments),
        },
        _ => {
            let v1 = vals.remove(0);
            proof {
                assert(v1.deep_view() == vals0[1]);
            }
            match (v0, v1) {
                (Value::Number(x), Value::Number(y)) => match op {
                    BuiltinOp::Add => match x.checked_add(y) {
                        Some(r) => Ok(Value::Number(r)),
                        None => Err(EvalError::Overflow),
                    },
                    BuiltinOp::Sub => match x.checked_sub(y) {
                        Some(r) => Ok(Value::Number(r)),
                        None => Err(EvalError::Overflow),
                    },
                    BuiltinOp::Mul => match x.checked_mul(y) {
                        Some(r) => Ok(Value::Number(r)),
                        None => Err(EvalError::Overflow),
                    },
                    BuiltinOp::Div => if y == 0 {
                        Err(EvalError::DivisionByZero)
                    } else {
                        match x.checked_div(y) {
                            Some(q) => Ok(Value::Number(q)),
                            None => Err(EvalError::Overflow),
                        }
                    },
                    BuiltinOp::Pow => match pow_value(x, y) {
                        Ok(n) => Ok(Value::Number(n)),
                        Err(e) => Err(e),
                    },
                    BuiltinOp::CmpEq => Ok(Value::Bool(x == y)),
                    BuiltinOp::CmpLt => Ok(Value::Bool(x < y)),
                    BuiltinOp::CmpGt => Ok(Value::Bool(x > y)),
                    BuiltinOp::CmpGe => Ok(Value::Bool(x >= y)),
                    BuiltinOp::CmpLe => Ok(Value::Bool(x <= y)),
                    _ => Err(EvalError::InvalidArguments),
                },
                _ => Err(EvalError::InvalidArguments),
            }
        },
    }
}

} // verus!
