//! Laws of the language, stated against the semantics `eval_s` and proved
//! once and for all.
use vstd::prelude::*;

use crate::ast::AstS;
use crate::builtins::{builtin_s, num_op_s, BuiltinOp};
use crate::eval::{apply_s, cond_s, eval_args_s, eval_s, param_names_s, resolve_callee_s};
use crate::values::{bind_s, initial_env_s, is_truthy, lookup_s, EnvS, EvalError, ValS};

use vstd::arithmetic::div_mod::{
    lemma_div_basics, lemma_div_nonincreasing, lemma_div_pos_is_pos,
};

verus! {

/// Truncating 64-bit division is defined for every pair but a zero divisor
/// and the one quotient the machine cannot represent.
proof fn lemma_checked_div_some(a: i64, b: i64)
    requires
        b != 0,
        !(a == i64::MIN && b == -1),
    ensures
        a.checked_div(b) is Some,
{
    let x = a as int;
    let d = b as int;
    lemma_div_basics(d);
    if x == 0 {
    } else if x > 0 && d > 0 {
        lemma_div_pos_is_pos(x, d);
        lemma_div_nonincreasing(x, d);
    } else if x < 0 && d < 0 {
        lemma_div_pos_is_pos(-x, -d);
        lemma_div_nonincreasing(-x, -d);
        lemma_div_basics(-x);
        if a == i64::MIN {
            vstd::arithmetic::div_mod::lemma_div_is_ordered_by_denominator(-x, 2, -d);
            assert((-x) / 2 == 0x4000_0000_0000_0000);
        }
    } else if x < 0 {
        lemma_div_pos_is_pos(-x, d);
        lemma_div_nonincreasing(-x, d);
    } else {
        lemma_div_pos_is_pos(x, -d);
        lemma_div_nonincreasing(x, -d);
    }
}

/// An identifier bound nowhere in the chain evaluates, without error, to
/// the text of its own name.
pub proof fn lemma_unbound_identifier_is_text(name: Seq<char>, env: EnvS, out: Seq<ValS>, fuel: nat)
    requires
        fuel >= 1,
        lookup_s(env, name) is None,
    ensures
        eval_s(AstS::Identifier(name), env, out, fuel) == (Ok::<ValS, EvalError>(ValS::Str(name)), env, out),
{
}

/// The root environment binds exactly the one-letter demonstration names;
/// any longer or empty name is unbound there.
pub proof fn lemma_initial_env_unbound(name: Seq<char>)
    requires
        name.len() != 1,
    ensures
        lookup_s(initial_env_s(), name) is None,
{
    reveal_strlit("x");
    reveal_strlit("v");
    reveal_strlit("i");
}

/// The names of the arithmetic builtins denote them, and are unbound as
/// variables in the root environment.
pub proof fn lemma_arith_names()
    ensures
        builtin_s("add"@) == Some(BuiltinOp::Add),
        builtin_s("sub"@) == Some(BuiltinOp::Sub),
        builtin_s("mul"@) == Some(BuiltinOp::Mul),
        builtin_s("div"@) == Some(BuiltinOp::Div),
        builtin_s("zero?"@) == Some(BuiltinOp::IsZero),
        lookup_s(initial_env_s(), "add"@) is None,
        lookup_s(initial_env_s(), "div"@) is None,
        lookup_s(initial_env_s(), "zero?"@) is None,
{
    reveal_strlit("add");
    reveal_strlit("sub");
    reveal_strlit("mul");
    reveal_strlit("div");
    reveal_strlit("pow");
    reveal_strlit("zero?");
    assert("sub"@[0] == 's' && "add"@[0] == 'a' && "mul"@[0] == 'm' && "div"@[0] == 'd');
    assert("sub"@ != "add"@);
    assert("mul"@ != "add"@ && "mul"@ != "sub"@);
    assert("div"@ != "add"@ && "div"@ != "sub"@ && "div"@ != "mul"@);
    assert("zero?"@.len() == 5);
    assert("zero?"@ != "add"@ && "zero?"@ != "sub"@ && "zero?"@ != "mul"@ && "zero?"@ != "div"@
        && "zero?"@ != "pow"@);
    lemma_initial_env_unbound("add"@);
    lemma_initial_env_unbound("div"@);
    lemma_initial_env_unbound("zero?"@);
}

/// Applying the name of a two-argument numeric builtin to two integer
/// literals, where the name is unbound as a variable, runs that builtin on
/// exactly those integers and leaves environment and output alone.
pub proof fn lemma_numeric_builtin_application(
    name: Seq<char>,
    op: BuiltinOp,
    x: i64,
    y: i64,
    env: EnvS,
    out: Seq<ValS>,
    fuel: nat,
)
    requires
        fuel >= 3,
        lookup_s(env, name) is None,
        builtin_s(name) == Some(op),
        op != BuiltinOp::IsZero && op != BuiltinOp::Print,
    ensures
        eval_s(
            AstS::Application(seq![AstS::Identifier(name), AstS::Number(x), AstS::Number(y)]),
            env,
            out,
            fuel,
        ) == (num_op_s(op, x, y), env, out),
{
    let prog = AstS::Application(seq![AstS::Identifier(name), AstS::Number(x), AstS::Number(y)]);
    let parts = seq![AstS::Identifier(name), AstS::Number(x), AstS::Number(y)];
    let f = (fuel - 1) as nat;
    assert(eval_s(parts[0], env, out, f) == (Ok::<ValS, EvalError>(ValS::Str(name)), env, out));
    assert(resolve_callee_s(ValS::Str(name)) == ValS::Func(op));
    let args = parts.subrange(1, parts.len() as int);
    assert(args =~= seq![AstS::Number(x), AstS::Number(y)]);
    assert(eval_s(args[0], env, out, f) == (Ok::<ValS, EvalError>(ValS::Number(x)), env, out));
    assert(args.drop_first() =~= seq![AstS::Number(y)]);
    assert(eval_s(AstS::Number(y), env, out, f) == (Ok::<ValS, EvalError>(ValS::Number(y)), env, out));
    assert(seq![AstS::Number(y)].drop_first() =~= Seq::<AstS>::empty());
    assert(eval_args_s(Seq::empty(), env, out, f) == (Ok::<Seq<ValS>, EvalError>(Seq::empty()), env, out));
    assert(eval_args_s(seq![AstS::Number(y)], env, out, f)
        == (Ok::<Seq<ValS>, EvalError>(seq![ValS::Number(y)] + Seq::empty()), env, out));
    assert(eval_args_s(args, env, out, f)
        == (Ok::<Seq<ValS>, EvalError>(seq![ValS::Number(x)] + (seq![ValS::Number(y)] + Seq::empty())), env, out));
    let vals = seq![ValS::Number(x)] + (seq![ValS::Number(y)] + Seq::empty());
    assert(vals =~= seq![ValS::Number(x), ValS::Number(y)]);
    assert(vals.len() == 2);
    assert(vals[0] == ValS::Number(x) && vals[1] == ValS::Number(y));
    assert(apply_s(ValS::Func(op), args, env, out, f) == (num_op_s(op, x, y), env, out));
    assert(eval_s(prog, env, out, fuel) == (num_op_s(op, x, y), env, out));
}

/// Division through the evaluator: `div(add(a, 0), b)` with `b` nonzero is
/// exact truncating 64-bit division of `a` by `b`. The one pair the machine
/// cannot represent, the minimum value divided by minus one, is left out.
pub proof fn lemma_div_of_sum(a: i64, b: i64, fuel: nat)
    requires
        fuel >= 5,
        b != 0,
        !(a == i64::MIN && b == -1),
    ensures
        ({
            let prog = AstS::Application(
                seq![
                    AstS::Identifier("div"@),
                    AstS::Application(
                        seq![AstS::Identifier("add"@), AstS::Number(a), AstS::Number(0)],
                    ),
                    AstS::Number(b),
                ],
            );
            eval_s(prog, initial_env_s(), Seq::empty(), fuel)
                == (Ok::<ValS, EvalError>(ValS::Number(a.checked_div(b)->Some_0)), initial_env_s(), Seq::<ValS>::empty())
        }),
{
    lemma_arith_names();
    let env = initial_env_s();
    let out = Seq::<ValS>::empty();
    let inner = AstS::Application(seq![AstS::Identifier("add"@), AstS::Number(a), AstS::Number(0)]);
    let parts = seq![AstS::Identifier("div"@), inner, AstS::Number(b)];
    let prog = AstS::Application(parts);
    let f = (fuel - 1) as nat;
    assert(eval_s(parts[0], env, out, f) == (Ok::<ValS, EvalError>(ValS::Str("div"@)), env, out));
    assert(resolve_callee_s(ValS::Str("div"@)) == ValS::Func(BuiltinOp::Div));
    let args = parts.subrange(1, parts.len() as int);
    assert(args =~= seq![inner, AstS::Number(b)]);
    lemma_numeric_builtin_application("add"@, BuiltinOp::Add, a, 0, env, out, f);
    assert(num_op_s(BuiltinOp::Add, a, 0) == Ok::<ValS, EvalError>(ValS::Number(a)));
    assert(args[0] == inner);
    assert(eval_s(args[0], env, out, f) == (Ok::<ValS, EvalError>(ValS::Number(a)), env, out));
    assert(args.drop_first() =~= seq![AstS::Number(b)]);
    assert(eval_s(AstS::Number(b), env, out, f) == (Ok::<ValS, EvalError>(ValS::Number(b)), env, out));
    assert(seq![AstS::Number(b)].drop_first() =~= Seq::<AstS>::empty());
    assert(eval_args_s(Seq::empty(), env, out, f) == (Ok::<Seq<ValS>, EvalError>(Seq::empty()), env, out));
    assert(eval_args_s(seq![AstS::Number(b)], env, out, f)
        == (Ok::<Seq<ValS>, EvalError>(seq![ValS::Number(b)] + Seq::empty()), env, out));
    assert(eval_args_s(args, env, out, f)
        == (Ok::<Seq<ValS>, EvalError>(seq![ValS::Number(a)] + (seq![ValS::Number(b)] + Seq::empty())), env, out));
    let vals = seq![ValS::Number(a)] + (seq![ValS::Number(b)] + Seq::empty());
    assert(vals =~= seq![ValS::Number(a), ValS::Number(b)]);
    assert(vals.len() == 2 && vals[0] == ValS::Number(a) && vals[1] == ValS::Number(b));
    assert(apply_s(ValS::Func(BuiltinOp::Div), args, env, out, f)
        == (num_op_s(BuiltinOp::Div, a, b), env, out));
    lemma_checked_div_some(a, b);
    assert(num_op_s(BuiltinOp::Div, a, b) == Ok::<ValS, EvalError>(ValS::Number(a.checked_div(b)->Some_0)));
    assert(eval_s(prog, env, out, fuel) == (num_op_s(BuiltinOp::Div, a, b), env, out));
}

/// Division by zero always fails with the division-by-zero reason, whatever
/// the dividend.
pub proof fn lemma_div_by_zero(a: i64, fuel: nat)
    requires
        fuel >= 3,
    ensures
        eval_s(
            AstS::Application(seq![AstS::Identifier("div"@), AstS::Number(a), AstS::Number(0)]),
            initial_env_s(),
            Seq::empty(),
            fuel,
        ).0 == Err::<ValS, EvalError>(EvalError::DivisionByZero),
{
    lemma_arith_names();
    lemma_numeric_builtin_application(
        "div"@,
        BuiltinOp::Div,
        a,
        0,
        initial_env_s(),
        Seq::empty(),
        fuel,
    );
}

/// `zero?` answers exactly whether its integer argument is zero.
pub proof fn lemma_zero_test(n: i64, fuel: nat)
    requires
        fuel >= 3,
    ensures
        eval_s(
            AstS::Application(seq![AstS::Identifier("zero?"@), AstS::Number(n)]),
            initial_env_s(),
            Seq::empty(),
            fuel,
        ).0 == Ok::<ValS, EvalError>(ValS::Bool(n == 0)),
{
    lemma_arith_names();
    let env = initial_env_s();
    let out = Seq::<ValS>::empty();
    let parts = seq![AstS::Identifier("zero?"@), AstS::Number(n)];
    let prog = AstS::Application(parts);
    let f = (fuel - 1) as nat;
    assert(eval_s(parts[0], env, out, f) == (Ok::<ValS, EvalError>(ValS::Str("zero?"@)), env, out));
    assert(resolve_callee_s(ValS::Str("zero?"@)) == ValS::Func(BuiltinOp::IsZero));
    let args = parts.subrange(1, parts.len() as int);
    assert(args =~= seq![AstS::Number(n)]);
    assert(eval_s(args[0], env, out, f) == (Ok::<ValS, EvalError>(ValS::Number(n)), env, out));
    assert(args.drop_first() =~= Seq::<AstS>::empty());
    assert(eval_args_s(Seq::empty(), env, out, f) == (Ok::<Seq<ValS>, EvalError>(Seq::empty()), env, out));
    assert(eval_args_s(args, env, out, f)
        == (Ok::<Seq<ValS>, EvalError>(seq![ValS::Number(n)] + Seq::empty()), env, out));
    let vals = seq![ValS::Number(n)] + Seq::empty();
    assert(vals =~= seq![ValS::Number(n)]);
    assert(vals.len() == 1 && vals[0] == ValS::Number(n));
    assert(apply_s(ValS::Func(BuiltinOp::IsZero), args, env, out, f)
        == (Ok::<ValS, EvalError>(ValS::Bool(n == 0)), env, out));
}

/// `zero?` on a text value, for any text, is the wrong-operand error.
pub proof fn lemma_zero_test_non_integer(s: Seq<char>, fuel: nat)
    requires
        fuel >= 3,
    ensures
        eval_s(
            AstS::Application(seq![AstS::Identifier("zero?"@), AstS::StringLit(s)]),
            initial_env_s(),
            Seq::empty(),
            fuel,
        ).0 == Err::<ValS, EvalError>(EvalError::InvalidArguments),
{
    lemma_arith_names();
    let env = initial_env_s();
    let out = Seq::<ValS>::empty();
    let parts = seq![AstS::Identifier("zero?"@), AstS::StringLit(s)];
    let prog = AstS::Application(parts);
    let f = (fuel - 1) as nat;
    assert(eval_s(parts[0], env, out, f) == (Ok::<ValS, EvalError>(ValS::Str("zero?"@)), env, out));
    assert(resolve_callee_s(ValS::Str("zero?"@)) == ValS::Func(BuiltinOp::IsZero));
    let args = parts.subrange(1, parts.len() as int);
    assert(args =~= seq![AstS::StringLit(s)]);
    assert(eval_s(args[0], env, out, f) == (Ok::<ValS, EvalError>(ValS::Str(s)), env, out));
    assert(args.drop_first() =~= Seq::<AstS>::empty());
    assert(eval_args_s(Seq::empty(), env, out, f) == (Ok::<Seq<ValS>, EvalError>(Seq::empty()), env, out));
    assert(eval_args_s(args, env, out, f)
        == (Ok::<Seq<ValS>, EvalError>(seq![ValS::Str(s)] + Seq::empty()), env, out));
    let vals = seq![ValS::Str(s)] + Seq::empty();
    assert(vals =~= seq![ValS::Str(s)]);
    assert(vals.len() == 1 && vals[0] == ValS::Str(s));
    assert(apply_s(ValS::Func(BuiltinOp::IsZero), args, env, out, f)
        == (Err::<ValS, EvalError>(EvalError::InvalidArguments), env, out));
}

/// A lambda evaluates to a closure that captures the whole current
/// environment, by value, at that moment.
pub proof fn lemma_lambda_captures_environment(
    ps: Seq<AstS>,
    body: AstS,
    env: EnvS,
    out: Seq<ValS>,
    fuel: nat,
)
    requires
        fuel >= 1,
        param_names_s(ps) is Ok,
    ensures
        eval_s(AstS::Lambda(seq![AstS::Parameters(ps), body]), env, out, fuel) == (
            Ok::<ValS, EvalError>(ValS::Lambda(param_names_s(ps)->Ok_0, Box::new(body), Box::new(env))),
            env,
            out,
        ),
{
    let parts = seq![AstS::Parameters(ps), body];
    assert(parts.len() == 2 && parts[0] == AstS::Parameters(ps) && parts[1] == body);
}

/// Capture is by value at definition time: evaluating the same lambda in
/// two environments that disagree about a name yields closures whose
/// captured environments keep that disagreement, so the closures differ.
pub proof fn lemma_capture_is_by_value(
    ps: Seq<AstS>,
    body: AstS,
    env1: EnvS,
    env2: EnvS,
    out: Seq<ValS>,
    name: Seq<char>,
    fuel: nat,
)
    requires
        fuel >= 1,
        param_names_s(ps) is Ok,
        lookup_s(env1, name) != lookup_s(env2, name),
    ensures
        ({
            let c1 = eval_s(AstS::Lambda(seq![AstS::Parameters(ps), body]), env1, out, fuel).0->Ok_0;
            let c2 = eval_s(AstS::Lambda(seq![AstS::Parameters(ps), body]), env2, out, fuel).0->Ok_0;
            &&& c1->Lambda_2 == Box::new(env1)
            &&& c2->Lambda_2 == Box::new(env2)
            &&& c1 != c2
        }),
{
    lemma_lambda_captures_environment(ps, body, env1, out, fuel);
    lemma_lambda_captures_environment(ps, body, env2, out, fuel);
    assert(env1 != env2);
}

/// The first clause whose condition reads as true decides a `Cond`: the
/// clauses after it, whatever they are, are never evaluated. Conditions
/// here are side-effect-free, as the hypotheses state.
pub proof fn lemma_cond_first_true_decides(
    c1: AstS,
    a: AstS,
    c2: AstS,
    b: AstS,
    rest: Seq<AstS>,
    env: EnvS,
    out: Seq<ValS>,
    v1: ValS,
    v2: ValS,
    fuel: nat,
)
    requires
        fuel >= 2,
        eval_s(c1, env, out, (fuel - 1) as nat) == (Ok::<ValS, EvalError>(v1), env, out),
        !is_truthy(v1),
        eval_s(c2, env, out, (fuel - 1) as nat) == (Ok::<ValS, EvalError>(v2), env, out),
        is_truthy(v2),
    ensures
        eval_s(
            AstS::Cond(seq![AstS::Clause(seq![c1, a]), AstS::Clause(seq![c2, b])] + rest),
            env,
            out,
            fuel,
        ) == eval_s(b, env, out, (fuel - 1) as nat),
{
    let f = (fuel - 1) as nat;
    let cs = seq![AstS::Clause(seq![c1, a]), AstS::Clause(seq![c2, b])] + rest;
    assert(cs[0] == AstS::Clause(seq![c1, a]));
    assert(seq![c1, a].len() == 2 && seq![c1, a][0] == c1 && seq![c1, a][1] == a);
    assert(cs.drop_first() =~= seq![AstS::Clause(seq![c2, b])] + rest);
    let cs1 = seq![AstS::Clause(seq![c2, b])] + rest;
    assert(cs1[0] == AstS::Clause(seq![c2, b]));
    assert(seq![c2, b].len() == 2 && seq![c2, b][0] == c2 && seq![c2, b][1] == b);
    assert(cond_s(cs1, env, out, f) == eval_s(b, env, out, f));
    assert(cond_s(cs, env, out, f) == cond_s(cs1, env, out, f));
    assert(eval_s(AstS::Cond(cs), env, out, fuel) == cond_s(cs, env, out, f));
}

/// A `Cond` none of whose clauses has a true condition fails with the
/// no-true-clause reason.
pub proof fn lemma_cond_no_true_clause(
    c1: AstS,
    a: AstS,
    env: EnvS,
    out: Seq<ValS>,
    v1: ValS,
    fuel: nat,
)
    requires
        fuel >= 2,
        eval_s(c1, env, out, (fuel - 1) as nat) == (Ok::<ValS, EvalError>(v1), env, out),
        !is_truthy(v1),
    ensures
        eval_s(AstS::Cond(seq![AstS::Clause(seq![c1, a])]), env, out, fuel) == (
            Err::<ValS, EvalError>(EvalError::NoTrueClause),
            env,
            out,
        ),
{
    let f = (fuel - 1) as nat;
    let cs = seq![AstS::Clause(seq![c1, a])];
    assert(cs[0] == AstS::Clause(seq![c1, a]));
    assert(seq![c1, a].len() == 2 && seq![c1, a][0] == c1 && seq![c1, a][1] == a);
    assert(cs.drop_first() =~= Seq::<AstS>::empty());
    assert(cond_s(Seq::empty(), env, out, f)
        == (Err::<ValS, EvalError>(EvalError::NoTrueClause), env, out));
    assert(cond_s(cs, env, out, f) == cond_s(Seq::empty(), env, out, f));
    assert(eval_s(AstS::Cond(cs), env, out, fuel) == cond_s(cs, env, out, f));
}

/// Calling a closure never changes the caller's environment: arguments and
/// body run against the closure's own captured copy, and whatever they bind
/// there stays there.
pub proof fn lemma_closure_call_preserves_caller_env(
    names: Seq<Seq<char>>,
    body: AstS,
    cenv: EnvS,
    args: Seq<AstS>,
    env: EnvS,
    out: Seq<ValS>,
    fuel: nat,
)
    ensures
        apply_s(ValS::Lambda(names, Box::new(body), Box::new(cenv)), args, env, out, fuel).1
            == env,
{
}

/// `Let` binds in the frame it runs in, not in a child scope: a nested
/// `Let` of the same name overwrites the outer binding, so the body sees
/// the innermost value.
pub proof fn lemma_let_rebinds_same_frame(
    name: Seq<char>,
    v1: i64,
    v2: i64,
    env: EnvS,
    out: Seq<ValS>,
    fuel: nat,
)
    requires
        fuel >= 3,
    ensures
        eval_s(
            AstS::Let(
                Box::new(AstS::Identifier(name)),
                Box::new(AstS::Number(v1)),
                Box::new(AstS::Let(
                    Box::new(AstS::Identifier(name)),
                    Box::new(AstS::Number(v2)),
                    Box::new(AstS::Identifier(name)),
                )),
            ),
            env,
            out,
            fuel,
        ).0 == Ok::<ValS, EvalError>(ValS::Number(v2)),
{
    let f = (fuel - 1) as nat;
    let env1 = bind_s(env, name, ValS::Number(v1));
    let env2 = bind_s(env1, name, ValS::Number(v2));
    let inner = AstS::Let(
        Box::new(AstS::Identifier(name)),
        Box::new(AstS::Number(v2)),
        Box::new(AstS::Identifier(name)),
    );
    let outer = AstS::Let(
        Box::new(AstS::Identifier(name)),
        Box::new(AstS::Number(v1)),
        Box::new(inner),
    );
    assert(eval_s(AstS::Number(v1), env, out, f) == (Ok::<ValS, EvalError>(ValS::Number(v1)), env, out));
    assert(eval_s(AstS::Number(v2), env1, out, (f - 1) as nat)
        == (Ok::<ValS, EvalError>(ValS::Number(v2)), env1, out));
    assert(env2.vars.contains_key(name) && env2.vars[name] == ValS::Number(v2));
    assert(lookup_s(env2, name) == Some(ValS::Number(v2)));
    assert(eval_s(AstS::Identifier(name), env2, out, (f - 1) as nat)
        == (Ok::<ValS, EvalError>(ValS::Number(v2)), env2, out));
    assert(eval_s(inner, env1, out, f)
        == eval_s(AstS::Identifier(name), env2, out, (f - 1) as nat));
    assert(eval_s(outer, env, out, fuel) == eval_s(inner, env1, out, f));
}

} // verus!
