//! The evaluator: a big-step semantics written as spec functions, and the
//! executable interpreter proved to return exactly what the semantics says.
//!
//! Every recursive descent consumes one unit of fuel, a depth budget that
//! rules out unbounded recursion through self-applying closures; running
//! out of it is reported as an error of its own.
use vstd::prelude::*;

use crate::ast::{
    lemma_view_exprs_index, lemma_view_exprs_len, view_expr, view_exprs, AstS, Expr,
};
use crate::builtins::{
    apply_builtin, apply_builtin_s, arity_of, arity_s, builtin_of_name, builtin_s,
};
use crate::values::{
    bind_s, clone_env, is_truthy, lookup_s, res_view, truthy, Env, EnvS, EvalError, ValS, Value,
};

verus! {

broadcast use {lemma_view_exprs_len, lemma_view_exprs_index};

/// The outcome of one evaluation step: the result, the environment as the
/// step leaves it, and the output stream so far.
pub type StepS = (Result<ValS, EvalError>, EnvS, Seq<ValS>);

/// A callee value that reads as the name of a builtin denotes that builtin;
/// any other value stands for itself.
pub open spec fn resolve_callee_s(v: ValS) -> ValS {
    match v {
        ValS::Str(s) => match builtin_s(s) {
            Some(op) => ValS::Func(op),
            None => ValS::Str(s),
        },
        _ => v,
    }
}

/// The parameter names of a lambda: every entry must be an identifier.
pub open spec fn param_names_s(ps: Seq<AstS>) -> Result<Seq<Seq<char>>, EvalError>
    decreases ps.len(),
{
    if ps.len() == 0 {
        Ok(Seq::empty())
    } else {
        match ps[0] {
            AstS::Identifier(n) => match param_names_s(ps.drop_first()) {
                Ok(rest) => Ok(seq![n] + rest),
                Err(e) => Err(e),
            },
            _ => Err(EvalError::InvalidParameter),
        }
    }
}

/// What evaluating one expression yields, changes, and prints.
pub open spec fn eval_s(e: AstS, env: EnvS, out: Seq<ValS>, fuel: nat) -> StepS
    decreases fuel, 0int, 0int,
{
    if fuel == 0 {
        (Err(EvalError::DepthExceeded), env, out)
    } else {
        let f = (fuel - 1) as nat;
        match e {
            AstS::Number(n) => (Ok(ValS::Number(n)), env, out),
            AstS::StringLit(s) => (Ok(ValS::Str(s)), env, out),
            AstS::Identifier(name) => match lookup_s(env, name) {
                Some(v) => (Ok(v), env, out),
                // An unbound identifier is not an error: it reads as the
                // text of its own name.
                None => (Ok(ValS::Str(name)), env, out),
            },
            AstS::Application(parts) => {
                if parts.len() == 0 {
                    (Err(EvalError::EmptyApplication), env, out)
                } else {
                    let (r0, env1, out1) = eval_s(parts[0], env, out, f);
                    match r0 {
                        Ok(callee) => apply_s(
                            resolve_callee_s(callee),
                            parts.subrange(1, parts.len() as int),
                            env1,
                            out1,
                            f,
                        ),
                        Err(er) => (Err(er), env1, out1),
                    }
                }
            },
            AstS::Block(es) => block_s(es, ValS::Number(0), env, out, f),
            AstS::Cond(cs) => cond_s(cs, env, out, f),
            AstS::Clause(_) => (Err(EvalError::ClauseOutsideCond), env, out),
            AstS::Parameters(_) => (Err(EvalError::ParametersOutsideLambda), env, out),
            AstS::Lambda(parts) => {
                if parts.len() != 2 {
                    (Err(EvalError::MalformedLambda), env, out)
                } else {
                    match parts[0] {
                        AstS::Parameters(ps) => match param_names_s(ps) {
                            // The closure captures the current environment
                            // by value, at this moment.
                            Ok(names) => (
                                Ok(ValS::Lambda(names, Box::new(parts[1]), Box::new(env))),
                                env,
                                out,
                            ),
                            Err(er) => (Err(er), env, out),
                        },
                        _ => (Err(EvalError::InvalidParameters), env, out),
                    }
                }
            },
            AstS::Let(n, v, b) => match *n {
                AstS::Identifier(name) => {
                    let (rv, env1, out1) = eval_s(*v, env, out, f);
                    match rv {
                        // The binding goes into the current frame itself:
                        // `Let` introduces no block-local scope.
                        Ok(val) => eval_s(*b, bind_s(env1, name, val), out1, f),
                        Err(er) => (Err(er), env1, out1),
                    }
                },
                _ => (Err(EvalError::InvalidVariableName), env, out),
            },
            AstS::Define(n, v) => match *n {
                AstS::Identifier(name) => {
                    let (rv, env1, out1) = eval_s(*v, env, out, f);
                    match rv {
                        Ok(val) => (Ok(ValS::Number(0)), bind_s(env1, name, val), out1),
                        Err(er) => (Err(er), env1, out1),
                    }
                },
                _ => (Err(EvalError::InvalidVariableName), env, out),
            },
        }
    }
}

/// A block evaluates its children in order and keeps the last value;
/// `cur` is the value so far, integer zero for an empty block.
pub open spec fn block_s(es: Seq<AstS>, cur: ValS, env: EnvS, out: Seq<ValS>, fuel: nat) -> StepS
    decreases fuel, 1int, es.len(),
{
    if es.len() == 0 {
        (Ok(cur), env, out)
    } else {
        let (r, env1, out1) = eval_s(es[0], env, out, fuel);
        match r {
            Ok(v) => block_s(es.drop_first(), v, env1, out1, fuel),
            Err(er) => (Err(er), env1, out1),
        }
    }
}

/// Clauses are tried in order; the first whose condition reads as true
/// decides the result, and nothing after it is evaluated.
pub open spec fn cond_s(cs: Seq<AstS>, env: EnvS, out: Seq<ValS>, fuel: nat) -> StepS
    decreases fuel, 1int, cs.len(),
{
    if cs.len() == 0 {
        (Err(EvalError::NoTrueClause), env, out)
    } else {
        match cs[0] {
            AstS::Clause(parts) => {
                if parts.len() != 2 {
                    (Err(EvalError::MalformedClause), env, out)
                } else {
                    let (rc, env1, out1) = eval_s(parts[0], env, out, fuel);
                    match rc {
                        Ok(cv) => if is_truthy(cv) {
                            eval_s(parts[1], env1, out1, fuel)
                        } else {
                            cond_s(cs.drop_first(), env1, out1, fuel)
                        },
                        Err(er) => (Err(er), env1, out1),
                    }
                }
            },
            _ => (Err(EvalError::InvalidClause), env, out),
        }
    }
}

/// Builtin arguments are evaluated left to right in the caller's
/// environment; the first failure aborts.
pub open spec fn eval_args_s(args: Seq<AstS>, env: EnvS, out: Seq<ValS>, fuel: nat) -> (Result<
    Seq<ValS>,
    EvalError,
>, EnvS, Seq<ValS>)
    decreases fuel, 1int, args.len(),
{
    if args.len() == 0 {
        (Ok(Seq::empty()), env, out)
    } else {
        let (r, env1, out1) = eval_s(args[0], env, out, fuel);
        match r {
            Ok(v) => {
                let (rs, env2, out2) = eval_args_s(args.drop_first(), env1, out1, fuel);
                match rs {
                    Ok(vs) => (Ok(seq![v] + vs), env2, out2),
                    Err(er) => (Err(er), env2, out2),
                }
            },
            Err(er) => (Err(er), env1, out1),
        }
    }
}

/// Closure arguments are evaluated one by one against the closure's own
/// captured environment, each bound there before the next is evaluated.
pub open spec fn bind_args_s(
    names: Seq<Seq<char>>,
    args: Seq<AstS>,
    lenv: EnvS,
    out: Seq<ValS>,
    fuel: nat,
) -> (Result<EnvS, EvalError>, Seq<ValS>)
    decreases fuel, 1int, args.len(),
{
    if args.len() == 0 {
        (Ok(lenv), out)
    } else {
        let (r, lenv1, out1) = eval_s(args[0], lenv, out, fuel);
        match r {
            Ok(v) => bind_args_s(
                names.drop_first(),
                args.drop_first(),
                bind_s(lenv1, names[0], v),
                out1,
                fuel,
            ),
            Err(er) => (Err(er), out1),
        }
    }
}

/// What applying a callee value to unevaluated argument expressions yields.
/// A builtin call can change the caller's environment through its argument
/// expressions; a closure call never does.
pub open spec fn apply_s(f: ValS, args: Seq<AstS>, env: EnvS, out: Seq<ValS>, fuel: nat) -> StepS
    decreases fuel, 1int, args.len() + 1,
{
    match f {
        ValS::Func(op) => {
            if args.len() != arity_s(op) {
                (Err(EvalError::ArityMismatch), env, out)
            } else {
                let (rvs, env1, out1) = eval_args_s(args, env, out, fuel);
                match rvs {
                    Ok(vals) => {
                        let (r, out2) = apply_builtin_s(op, vals, out1);
                        (r, env1, out2)
                    },
                    Err(er) => (Err(er), env1, out1),
                }
            }
        },
        ValS::Lambda(names, body, cenv) => {
            if args.len() != names.len() {
                (Err(EvalError::ArityMismatch), env, out)
            } else {
                let (rb, out1) = bind_args_s(names, args, *cenv, out, fuel);
                match rb {
                    Ok(benv) => {
                        let (r, _benv2, out2) = eval_s(*body, benv, out1, fuel);
                        (r, env, out2)
                    },
                    Err(er) => (Err(er), env, out1),
                }
            }
        },
        _ => (Err(EvalError::NotCallable), env, out),
    }
}

/// Prefixing already-evaluated values onto the outcome of evaluating the
/// remaining argument expressions.
pub open spec fn prepend_vals(p: Seq<ValS>, step: (Result<Seq<ValS>, EvalError>, EnvS, Seq<ValS>))
    -> (Result<Seq<ValS>, EvalError>, EnvS, Seq<ValS>) {
    match step.0 {
        Ok(vs) => (Ok(p + vs), step.1, step.2),
        Err(_) => step,
    }
}

/// Evaluates one expression in `env`, appending whatever `print` emits to
/// `out`. Returns, changes `env`, and extends `out` exactly as the
/// semantics `eval_s` says.
#[verifier::loop_isolation(false)]
#[verifier::rlimit(60)]
pub fn eval_expr(expr: Expr, env: &mut Env, out: &mut Vec<Value>, fuel: u64) -> (r: Result<
    Value,
    EvalError,
>)
    ensures
        ({
            let (rs, es, os) = eval_s(view_expr(expr), old(env)@, old(out).deep_view(), fuel as nat);
            res_view(r) == rs && final(env)@ == es && final(out).deep_view() == os
        }),
    decreases fuel, 0int, 0int,
{
    if fuel == 0 {
        return Err(EvalError::DepthExceeded);
    }
    let ghost f = (fuel - 1) as nat;
    match expr {
        Expr::Number(n) => Ok(Value::Number(n)),
        Expr::StringLit(s) => Ok(Value::Str(s)),
        Expr::Identifier(name) => match env.get_vars(name.as_str()) {
            Some(v) => Ok(v),
            None => Ok(Value::Str(name)),
        },
        Expr::Application(parts) => {
            let mut parts = parts;
            if parts.len() == 0 {
                proof {
                    assert(view_exprs(parts@).len() == 0);
                }
                return Err(EvalError::EmptyApplication);
            }
            let ghost parts0 = view_exprs(parts@);
            let ghost parts_pre = parts@;
            let callee_expr = parts.remove(0);
            proof {
                assert(parts@ =~= parts_pre.drop_first());
                assert(view_exprs(parts@) =~= parts0.subrange(1, parts0.len() as int));
                assert(parts0[0] == view_expr(callee_expr));
            }
            match eval_expr(callee_expr, env, out, fuel - 1) {
                Ok(callee) => {
                    let is_b = if let Value::Str(s) = &callee {
                        builtin_of_name(s)
                    } else {
                        None
                    };
                    let target = match is_b {
                        Some(op) => Value::Func(op),
                        None => callee,
                    };
                    proof {
                        assert(target@ == resolve_callee_s(
                            eval_s(parts0[0], old(env)@, old(out).deep_view(), f).0->Ok_0,
                        ));
                    }
                    apply_function(target, parts, env, out, fuel - 1)
                },
                Err(er) => Err(er),
            }
        },
        Expr::Block(es) => {
            let mut es = es;
            let ghost es0 = view_exprs(es@);
            let mut result = Value::Number(0);
            while es.len() > 0
                invariant
                    fuel >= 1,
                    f == (fuel - 1) as nat,
                    block_s(es0, ValS::Number(0), old(env)@, old(out).deep_view(), f) == block_s(
                        view_exprs(es@),
                        result@,
                        env@,
                        out.deep_view(),
                        f,
                    ),
                decreases es.len(),
            {
                let ghost es_pre = es@;
                let ghost result_pre = result@;
                let ghost env_pre = env@;
                let ghost out_pre = out.deep_view();
                let e0 = es.remove(0);
                proof {
                    assert(es@ =~= es_pre.drop_first());
                    assert(view_exprs(es@) =~= view_exprs(es_pre).drop_first());
                    assert(view_exprs(es_pre)[0] == view_expr(e0));
                }
                match eval_expr(e0, env, out, fuel - 1) {
                    Ok(v) => {
                        result = v;
                    },
                    Err(er) => {
                        proof {
                            assert(block_s(view_exprs(es_pre), result_pre, env_pre, out_pre, f)
                                == (Err::<ValS, EvalError>(er), env@, out.deep_view()));
                        }
                        return Err(er);
                    },
                }
            }
            Ok(result)
        },
        Expr::Cond(cs) => {
            let mut cs = cs;
            let ghost cs0 = view_exprs(cs@);
            while cs.len() > 0
                invariant
                    fuel >= 1,
                    f == (fuel - 1) as nat,
                    cond_s(cs0, old(env)@, old(out).deep_view(), f) == cond_s(
                        view_exprs(cs@),
                        env@,
                        out.deep_view(),
                        f,
                    ),
                decreases cs.len(),
            {
                let ghost cs_pre = cs@;
                let ghost cenv_pre = env@;
                let ghost cout_pre = out.deep_view();
                let c = cs.remove(0);
                proof {
                    assert(cs@ =~= cs_pre.drop_first());
                    assert(view_exprs(cs@) =~= view_exprs(cs_pre).drop_first());
                    assert(view_exprs(cs_pre)[0] == view_expr(c));
                }
                match c {
                    Expr::Clause(parts) => {
                        let mut parts = parts;
                        if parts.len() != 2 {
                            proof {
                                assert(view_exprs(parts@).len() == parts@.len());
                                assert(cond_s(view_exprs(cs_pre), cenv_pre, cout_pre, f)
                                    == (Err::<ValS, EvalError>(EvalError::MalformedClause), env@, out.deep_view()));
                            }
                            return Err(EvalError::MalformedClause);
                        }
                        let ghost cparts = view_exprs(parts@);
                        let ghost cp0 = parts@;
                        let ce = parts.remove(0);
                        let ghost cp1 = parts@;
                        let te = parts.remove(0);
                        proof {
                            assert(cp1 =~= cp0.drop_first());
                            assert(cparts[0] == view_expr(ce));
                            assert(te == cp0[1]);
                            assert(cparts[1] == view_expr(te));
                        }
                        match eval_expr(ce, env, out, fuel - 1) {
                            Ok(cv) => {
                                if truthy(&cv) {
                                    return eval_expr(te, env, out, fuel - 1);
                                }
                            },
                            Err(er) => {
                                return Err(er);
                            },
                        }
                    },
                    other => {
                        proof {
                            assert(!(view_expr(other) is Clause));
                            assert(cond_s(view_exprs(cs_pre), cenv_pre, cout_pre, f)
                                == (Err::<ValS, EvalError>(EvalError::InvalidClause), env@, out.deep_view()));
                        }
                        return Err(EvalError::InvalidClause);
                    },
                }
            }
            Err(EvalError::NoTrueClause)
        },
        Expr::Clause(_) => Err(EvalError::ClauseOutsideCond),
        Expr::Parameters(_) => Err(EvalError::ParametersOutsideLambda),
        Expr::Lambda(parts) => {
            let mut parts = parts;
            if parts.len() != 2 {
                proof {
                    assert(view_exprs(parts@).len() == parts@.len());
                }
                return Err(EvalError::MalformedLambda);
            }
            let ghost parts0 = view_exprs(parts@);
            let ghost lp0 = parts@;
            let params = parts.remove(0);
            let ghost lp1 = parts@;
            let body = parts.remove(0);
            proof {
                assert(lp1 =~= lp0.drop_first());
                assert(parts0[0] == view_expr(params));
                assert(body == lp0[1]);
                assert(parts0[1] == view_expr(body));
            }
            match params {
                Expr::Parameters(ps) => {
                    let mut ps = ps;
                    let ghost ps0 = view_exprs(ps@);
                    let mut names: Vec<String> = Vec::new();
                    proof {
                        if param_names_s(ps0) is Ok {
                            assert(Seq::<Seq<char>>::empty() + param_names_s(ps0)->Ok_0
                                =~= param_names_s(ps0)->Ok_0);
                        }
                        assert(names.deep_view() =~= Seq::<Seq<char>>::empty());
                    }
                    while ps.len() > 0
                        invariant
                            ({
                                match param_names_s(view_exprs(ps@)) {
                                    Ok(rest) => param_names_s(ps0) == Ok::<Seq<Seq<char>>, EvalError>(
                                        names.deep_view() + rest,
                                    ),
                                    Err(e2) => param_names_s(ps0) == Err::<Seq<Seq<char>>, EvalError>(e2),
                                }
                            }),
                        decreases ps.len(),
                    {
                        let ghost ps_pre = ps@;
                        let ghost names_pre = names.deep_view();
                        let p = ps.remove(0);
                        proof {
                            assert(ps@ =~= ps_pre.drop_first());
                            assert(view_exprs(ps@) =~= view_exprs(ps_pre).drop_first());
                            assert(view_exprs(ps_pre)[0] == view_expr(p));
                        }
                        match p {
                            Expr::Identifier(n) => {
                                let ghost gn = n@;
                                names.push(n);
                                proof {
                                    assert(names.deep_view() =~= names_pre.push(gn));
                                    if param_names_s(view_exprs(ps@)) is Ok {
                                        let rest = param_names_s(view_exprs(ps@))->Ok_0;
                                        assert(names_pre + (seq![gn] + rest) =~= names.deep_view()
                                            + rest);
                                    }
                                }
                            },
                            other => {
                                proof {
                                    assert(!(view_expr(other) is Identifier));
                                    assert(param_names_s(view_exprs(ps_pre))
                                        == Err::<Seq<Seq<char>>, EvalError>(EvalError::InvalidParameter));
                                }
                                return Err(EvalError::InvalidParameter);
                            },
                        }
                    }
                    proof {
                        assert(view_exprs(ps@) =~= Seq::<AstS>::empty());
                        assert(names.deep_view() + Seq::<Seq<char>>::empty() =~= names.deep_view());
                    }
                    let cap = clone_env(env);
                    Ok(Value::Lambda(names, Box::new(body), Box::new(cap)))
                },
                _ => Err(EvalError::InvalidParameters),
            }
        },
        Expr::Let(n, v, b) => {
            let nexpr = *n;
            proof {
                assert(expr is Let);
                assert(view_expr(expr) is Let);
                assert(view_expr(expr) == AstS::Let(
                    Box::new(view_expr(nexpr)),
                    Box::new(view_expr(*v)),
                    Box::new(view_expr(*b)),
                ));
            }
            match nexpr {
                Expr::Identifier(name) => {
                    proof {
                        assert(view_expr(nexpr) == AstS::Identifier(name@));
                    }
                    match eval_expr(*v, env, out, fuel - 1) {
                        Ok(val) => {
                            env.insert_vars(name, val);
                            eval_expr(*b, env, out, fuel - 1)
                        },
                        Err(er) => Err(er),
                    }
                },
                other => {
                    proof {
                        assert(!(view_expr(other) is Identifier));
                    }
                    Err(EvalError::InvalidVariableName)
                },
            }
        },
        Expr::Define(n, v) => {
            let nexpr = *n;
            proof {
                assert(view_expr(expr) == AstS::Define(
                    Box::new(view_expr(nexpr)),
                    Box::new(view_expr(*v)),
                ));
            }
            match nexpr {
                Expr::Identifier(name) => {
                    proof {
                        assert(view_expr(nexpr) == AstS::Identifier(name@));
                    }
                    match eval_expr(*v, env, out, fuel - 1) {
                        Ok(val) => {
                            env.insert_vars(name, val);
                            Ok(Value::Number(0))
                        },
                        Err(er) => Err(er),
                    }
                },
                other => {
                    proof {
                        assert(!(view_expr(other) is Identifier));
                    }
                    Err(EvalError::InvalidVariableName)
                },
            }
        },
    }
}

/// Applies a callee value to unevaluated argument expressions, exactly as
/// the semantics `apply_s` says: builtins evaluate their arguments in the
/// caller's environment; closures evaluate and bind theirs in their own
/// captured copy, which the caller's environment never sees.
#[verifier::loop_isolation(false)]
pub fn apply_function(f: Value, args: Vec<Expr>, env: &mut Env, out: &mut Vec<Value>, fuel: u64)
    -> (r: Result<Value, EvalError>)
    ensures
        ({
            let (rs, es, os) = apply_s(
                f@,
                view_exprs(args@),
                old(env)@,
                old(out).deep_view(),
                fuel as nat,
            );
            res_view(r) == rs && final(env)@ == es && final(out).deep_view() == os
        }),
    decreases fuel, 1int, args@.len() + 1,
{
    let mut args = args;
    let ghost args0 = view_exprs(args@);
    match f {
        Value::Func(op) => {
            if args.len() != arity_of(op) {
                return Err(EvalError::ArityMismatch);
            }
            let mut vals: Vec<Value> = Vec::new();
            proof {
                let t = eval_args_s(args0, old(env)@, old(out).deep_view(), fuel as nat);
                if t.0 is Ok {
                    assert(Seq::<ValS>::empty() + t.0->Ok_0 =~= t.0->Ok_0);
                }
                assert(vals.deep_view() =~= Seq::<ValS>::empty());
            }
            while args.len() > 0
                invariant
                    prepend_vals(
                        vals.deep_view(),
                        eval_args_s(view_exprs(args@), env@, out.deep_view(), fuel as nat),
                    ) == eval_args_s(args0, old(env)@, old(out).deep_view(), fuel as nat),
                decreases args.len(),
            {
                let ghost args_pre = args@;
                let ghost vals_pre = vals.deep_view();
                let ghost fenv_pre = env@;
                let ghost fout_pre = out.deep_view();
                let a = args.remove(0);
                proof {
                    assert(args@ =~= args_pre.drop_first());
                    assert(view_exprs(args@) =~= view_exprs(args_pre).drop_first());
                    assert(view_exprs(args_pre)[0] == view_expr(a));
                }
                match eval_expr(a, env, out, fuel) {
                    Ok(v) => {
                        let ghost gv = v@;
                        vals.push(v);
                        proof {
                            assert(vals.deep_view() =~= vals_pre.push(gv));
                            let rest = eval_args_s(
                                view_exprs(args@),
                                env@,
                                out.deep_view(),
                                fuel as nat,
                            );
                            if rest.0 is Ok {
                                assert(vals_pre + (seq![gv] + rest.0->Ok_0) =~= vals.deep_view()
                                    + rest.0->Ok_0);
                            }
                        }
                    },
                    Err(er) => {
                        proof {
                            assert(eval_args_s(view_exprs(args_pre), fenv_pre, fout_pre, fuel as nat)
                                == (Err::<Seq<ValS>, EvalError>(er), env@, out.deep_view()));
                        }
                        return Err(er);
                    },
                }
            }
            proof {
                assert(view_exprs(args@) =~= Seq::<AstS>::empty());
                assert(vals.deep_view() + Seq::<ValS>::empty() =~= vals.deep_view());
            }
            apply_builtin(op, vals, out)
        },
        Value::Lambda(names, body, cenv) => {
            if args.len() != names.len() {
                return Err(EvalError::ArityMismatch);
            }
            let mut names = names;
            let ghost names0 = names.deep_view();
            let mut lenv: Env = *cenv;
            let ghost cenv0 = lenv@;
            while args.len() > 0
                invariant
                    names@.len() == args@.len(),
                    bind_args_s(
                        names.deep_view(),
                        view_exprs(args@),
                        lenv@,
                        out.deep_view(),
                        fuel as nat,
                    ) == bind_args_s(names0, args0, cenv0, old(out).deep_view(), fuel as nat),
                decreases args.len(),
            {
                let ghost args_pre = args@;
                let ghost names_pre = names.deep_view();
                let ghost lenv_pre = lenv@;
                let ghost lout_pre = out.deep_view();
                let a = args.remove(0);
                let n = names.remove(0);
                proof {
                    assert(args@ =~= args_pre.drop_first());
                    assert(view_exprs(args@) =~= view_exprs(args_pre).drop_first());
                    assert(view_exprs(args_pre)[0] == view_expr(a));
                    assert(names.deep_view() =~= names_pre.drop_first());
                    assert(names_pre[0] == n@);
                }
                match eval_expr(a, &mut lenv, out, fuel) {
                    Ok(v) => {
                        lenv.insert_vars(n, v);
                    },
                    Err(er) => {
                        proof {
                            assert(bind_args_s(names_pre, view_exprs(args_pre), lenv_pre, lout_pre, fuel as nat)
                                == (Err::<EnvS, EvalError>(er), out.deep_view()));
                        }
                        return Err(er);
                    },
                }
            }
            proof {
                assert(view_exprs(args@) =~= Seq::<AstS>::empty());
            }
            eval_expr(*body, &mut lenv, out, fuel)
        },
        _ => Err(EvalError::NotCallable),
    }
}

} // verus!
