//! Runtime values, evaluation errors, and the environment: a chain of
//! binding frames, each an insertion list of name/value pairs whose meaning
//! is a map where a later binding of a name overwrites an earlier one.
use vstd::prelude::*;

use crate::ast::{clone_expr, view_expr, AstS, Expr};
use crate::builtins::BuiltinOp;

verus! {

/// Why an evaluation failed. Every failure aborts the whole evaluation.
#[derive(Clone, Copy, PartialEq, Eq, Structural, Debug)]
pub enum EvalError {
    /// An `Application` node with no callee expression.
    EmptyApplication,
    /// The callee evaluated to a value that is neither a builtin nor a closure.
    NotCallable,
    /// A builtin or closure was given a different number of arguments than it takes.
    ArityMismatch,
    /// A builtin was given an operand of the wrong kind.
    InvalidArguments,
    DivisionByZero,
    /// The exact integer result does not fit in 64 bits.
    Overflow,
    /// A `Cond` child that is not a `Clause`.
    InvalidClause,
    /// A `Clause` with a child count other than two.
    MalformedClause,
    /// A `Clause` met outside a `Cond`.
    ClauseOutsideCond,
    /// A `Parameters` node met outside a `Lambda`.
    ParametersOutsideLambda,
    /// A `Lambda` with a child count other than two.
    MalformedLambda,
    /// A `Lambda` whose first child is not a `Parameters` node.
    InvalidParameters,
    /// A parameter that is not an identifier.
    InvalidParameter,
    /// A `Let` or `Define` whose name position is not an identifier.
    InvalidVariableName,
    /// No clause of a `Cond` had a true condition.
    NoTrueClause,
    /// The evaluation depth budget ran out.
    DepthExceeded,
}

impl EvalError {
    /// The textual reason, as the embedding program reports it.
    pub fn message(&self) -> (r: String)
        ensures
            r@ == match *self {
                EvalError::EmptyApplication => "Empty application"@,
                EvalError::NotCallable => "Not a function"@,
                EvalError::ArityMismatch => "Wrong number of arguments"@,
                EvalError::InvalidArguments => "Invalid arguments"@,
                EvalError::DivisionByZero => "Division by zero"@,
                EvalError::Overflow => "Arithmetic overflow"@,
                EvalError::InvalidClause => "Invalid clause"@,
                EvalError::MalformedClause => "Each clause must have exactly 2 expressions"@,
                EvalError::ClauseOutsideCond => "Invalid clause not wrapped in a cond"@,
                EvalError::ParametersOutsideLambda => "Invalid parameters not wrapped in a lambda"@,
                EvalError::MalformedLambda => "Lambda must have exactly 2 expressions"@,
                EvalError::InvalidParameters => "Invalid parameters"@,
                EvalError::InvalidParameter => "Invalid parameter"@,
                EvalError::InvalidVariableName => "Invalid variable name"@,
                EvalError::NoTrueClause => "No true clause"@,
                EvalError::DepthExceeded => "Recursion limit exceeded"@,
            },
    {
        match *self {
            EvalError::EmptyApplication => "Empty application".to_owned(),
            EvalError::NotCallable => "Not a function".to_owned(),
            EvalError::ArityMismatch => "Wrong number of arguments".to_owned(),
            EvalError::InvalidArguments => "Invalid arguments".to_owned(),
            EvalError::DivisionByZero => "Division by zero".to_owned(),
            EvalError::Overflow => "Arithmetic overflow".to_owned(),
            EvalError::InvalidClause => "Invalid clause".to_owned(),
            EvalError::MalformedClause => "Each clause must have exactly 2 expressions".to_owned(),
            EvalError::ClauseOutsideCond => "Invalid clause not wrapped in a cond".to_owned(),
            EvalError::ParametersOutsideLambda => "Invalid parameters not wrapped in a lambda".to_owned(),
            EvalError::MalformedLambda => "Lambda must have exactly 2 expressions".to_owned(),
            EvalError::InvalidParameters => "Invalid parameters".to_owned(),
            EvalError::InvalidParameter => "Invalid parameter".to_owned(),
            EvalError::InvalidVariableName => "Invalid variable name".to_owned(),
            EvalError::NoTrueClause => "No true clause".to_owned(),
            EvalError::DepthExceeded => "Recursion limit exceeded".to_owned(),
        }
    }
}

/// A runtime value: integer, boolean, text, builtin operation, or closure.
///
/// A closure holds its parameter names, its unevaluated body, and a full
/// copy of the environment taken when the `Lambda` node was evaluated.
pub enum Value {
    Number(i64),
    Bool(bool),
    Str(String),
    Func(BuiltinOp),
    Lambda(Vec<String>, Box<Expr>, Box<Env>),
}

/// The mathematical value of a `Value`.
pub enum ValS {
    Number(i64),
    Bool(bool),
    Str(Seq<char>),
    Func(BuiltinOp),
    Lambda(Seq<Seq<char>>, Box<AstS>, Box<EnvS>),
}

/// One frame of the environment chain. Bindings made by `Let` and `Define`
/// go into the current frame; lookup walks toward the root.
pub struct Env {
    pub vars: Vec<(String, Value)>,
    pub parent: Option<Box<Env>>,
}

/// The mathematical value of an `Env`: the bindings as a map, and the
/// parent chain.
pub struct EnvS {
    pub vars: Map<Seq<char>, ValS>,
    pub parent: Option<Box<EnvS>>,
}

/// The map denoted by an insertion list of bindings: a later pair with the
/// same name overwrites an earlier one.
pub open spec fn vars_map(s: Seq<(String, Value)>) -> Map<Seq<char>, ValS>
    decreases s,
{
    if s.len() == 0 {
        Map::empty()
    } else {
        vars_map(s.subrange(0, s.len() - 1)).insert(s.last().0@, view_value(s.last().1))
    }
}

pub open spec fn view_value(v: Value) -> ValS
    decreases v,
{
    match v {
        Value::Number(n) => ValS::Number(n),
        Value::Bool(b) => ValS::Bool(b),
        Value::Str(s) => ValS::Str(s@),
        Value::Func(op) => ValS::Func(op),
        Value::Lambda(ps, b, env) => ValS::Lambda(
            ps.deep_view(),
            Box::new(view_expr(*b)),
            Box::new(view_env(*env)),
        ),
    }
}

pub open spec fn view_env(e: Env) -> EnvS
    decreases e,
{
    EnvS {
        vars: vars_map(e.vars@),
        parent: match e.parent {
            Some(p) => Some(Box::new(view_env(*p))),
            None => None,
        },
    }
}

impl View for Value {
    type V = ValS;

    open spec fn view(&self) -> ValS {
        view_value(*self)
    }
}

impl DeepView for Value {
    type V = ValS;

    open spec fn deep_view(&self) -> ValS {
        view_value(*self)
    }
}

impl View for Env {
    type V = EnvS;

    open spec fn view(&self) -> EnvS {
        view_env(*self)
    }
}

/// Name resolution: the local frame first, then the parent chain.
pub open spec fn lookup_s(env: EnvS, name: Seq<char>) -> Option<ValS>
    decreases env,
{
    if env.vars.contains_key(name) {
        Some(env.vars[name])
    } else {
        match env.parent {
            Some(p) => lookup_s(*p, name),
            None => None,
        }
    }
}

/// Binding mutates the current frame only.
pub open spec fn bind_s(env: EnvS, name: Seq<char>, val: ValS) -> EnvS {
    EnvS { vars: env.vars.insert(name, val), parent: env.parent }
}

/// A condition counts as true exactly when its value reads as the word
/// `true`: the boolean true, or the text `"true"`.
pub open spec fn is_truthy(v: ValS) -> bool {
    v == ValS::Bool(true) || v == ValS::Str("true"@)
}

pub fn truthy(v: &Value) -> (r: bool)
    ensures
        r == is_truthy(v@),
{
    match v {
        Value::Bool(b) => *b,
        Value::Str(s) => *s == "true".to_owned(),
        _ => false,
    }
}

proof fn lemma_vars_map_prefix_step(s: Seq<(String, Value)>, i: int)
    requires
        0 <= i < s.len(),
    ensures
        vars_map(s.subrange(0, i + 1)) == vars_map(s.subrange(0, i)).insert(
            s[i].0@,
            view_value(s[i].1),
        ),
{
    let t = s.subrange(0, i + 1);
    assert(t.subrange(0, t.len() - 1) =~= s.subrange(0, i));
    assert(t.last() == s[i]);
}

proof fn lemma_vars_map_found(s: Seq<(String, Value)>, name: Seq<char>, i: int)
    requires
        0 <= i < s.len(),
        s[i].0@ == name,
        forall|j: int| i < j < s.len() ==> s[j].0@ != name,
    ensures
        vars_map(s).contains_key(name),
        vars_map(s)[name] == view_value(s[i].1),
    decreases s.len(),
{
    let head = s.subrange(0, s.len() - 1);
    if i == s.len() - 1 {
    } else {
        lemma_vars_map_found(head, name, i);
    }
}

proof fn lemma_vars_map_absent(s: Seq<(String, Value)>, name: Seq<char>)
    requires
        forall|j: int| 0 <= j < s.len() ==> s[j].0@ != name,
    ensures
        !vars_map(s).contains_key(name),
    decreases s.len(),
{
    if s.len() > 0 {
        lemma_vars_map_absent(s.subrange(0, s.len() - 1), name);
    }
}

fn clone_strings(ps: &Vec<String>) -> (r: Vec<String>)
    ensures
        r.deep_view() == ps.deep_view(),
{
    let mut r: Vec<String> = Vec::new();
    let mut i: usize = 0;
    while i < ps.len()
        invariant
            i <= ps.len(),
            r@.len() == i,
            forall|j: int| 0 <= j < i ==> r@[j]@ == ps@[j]@,
        decreases ps.len() - i,
    {
        r.push(ps[i].clone());
        i += 1;
    }
    proof {
        assert(r.deep_view() =~= ps.deep_view());
    }
    r
}

/// A full copy of a value; a closure's captured environment is copied too.
pub fn clone_value(v: &Value) -> (r: Value)
    ensures
        r@ == v@,
    decreases v,
{
    match v {
        Value::Number(n) => Value::Number(*n),
        Value::Bool(b) => Value::Bool(*b),
        Value::Str(s) => Value::Str(s.clone()),
        Value::Func(op) => Value::Func(*op),
        Value::Lambda(ps, b, env) => Value::Lambda(
            clone_strings(ps),
            Box::new(clone_expr(b)),
            Box::new(clone_env(env)),
        ),
    }
}

/// A full copy of an environment chain.
pub fn clone_env(e: &Env) -> (r: Env)
    ensures
        r@ == e@,
    decreases e,
{
    let mut vars: Vec<(String, Value)> = Vec::new();
    let mut i: usize = 0;
    while i < e.vars.len()
        invariant
            i <= e.vars.len(),
            vars_map(vars@) == vars_map(e.vars@.subrange(0, i as int)),
        decreases e.vars.len() - i,
    {
        let name = e.vars[i].0.clone();
        let val = clone_value(&e.vars[i].1);
        proof {
            lemma_vars_map_prefix_step(e.vars@, i as int);
            assert(vars@.push((name, val)).subrange(0, vars@.len() as int) =~= vars@);
        }
        vars.push((name, val));
        i += 1;
    }
    let parent = match &e.parent {
        Some(p) => Some(Box::new(clone_env(p))),
        None => None,
    };
    proof {
        assert(e.vars@.subrange(0, e.vars@.len() as int) =~= e.vars@);
    }
    Env { vars, parent }
}

impl Env {
    /// A fresh root environment, pre-seeded with the fixed demonstration
    /// variables `x = 10`, `v = 5`, `i = 1`.
    pub fn new() -> (e: Env)
        ensures
            e@ == initial_env_s(),
    {
        let mut env = Env { vars: Vec::new(), parent: None };
        proof {
            assert(env.vars@ =~= Seq::<(String, Value)>::empty());
            assert(vars_map(env.vars@) =~= Map::<Seq<char>, ValS>::empty());
        }
        env.initialize_vars();
        proof {
            assert(initial_vars_s() =~= env@.vars);
        }
        env
    }

    /// A fresh frame whose parent is `parent`, seeded like a root frame.
    pub fn with_parent(parent: Env) -> (e: Env)
        ensures
            e@.vars == initial_vars_s(),
            e@.parent == Some(Box::new(parent@)),
    {
        let ghost parent_s = parent@;
        let mut env = Env { vars: Vec::new(), parent: Some(Box::new(parent)) };
        proof {
            assert(env.vars@ =~= Seq::<(String, Value)>::empty());
            assert(vars_map(env.vars@) =~= Map::<Seq<char>, ValS>::empty());
        }
        env.initialize_vars();
        proof {
            assert(initial_vars_s() =~= env@.vars);
        }
        env
    }

    /// Seeds the fixed demonstration variables into this frame.
    pub fn initialize_vars(&mut self)
        ensures
            final(self)@.vars == old(self)@.vars.insert("x"@, ValS::Number(10)).insert(
                "v"@,
                ValS::Number(5),
            ).insert("i"@, ValS::Number(1)),
            final(self)@.parent == old(self)@.parent,
    {
        self.insert_vars("x".to_owned(), Value::Number(10));
        self.insert_vars("v".to_owned(), Value::Number(5));
        self.insert_vars("i".to_owned(), Value::Number(1));
    }

    /// Looks `name` up in this frame, then up the parent chain; the value
    /// handed back is a full copy.
    pub fn get_vars(&self, name: &str) -> (r: Option<Value>)
        ensures
            match (r, lookup_s(self@, name@)) {
                (Some(v), Some(vs)) => v@ == vs,
                (None, None) => true,
                _ => false,
            },
        decreases self,
    {
        let key = name.to_owned();
        let mut i: usize = self.vars.len();
        while i > 0
            invariant
                i <= self.vars.len(),
                key@ == name@,
                forall|j: int| i <= j < self.vars@.len() ==> self.vars@[j].0@ != name@,
            decreases i,
        {
            i = i - 1;
            if self.vars[i].0 == key {
                proof {
                    lemma_vars_map_found(self.vars@, name@, i as int);
                }
                return Some(clone_value(&self.vars[i].1));
            }
        }
        proof {
            lemma_vars_map_absent(self.vars@, name@);
        }
        match &self.parent {
            Some(p) => p.get_vars(name),
            None => None,
        }
    }

    /// Binds `name` to `value` in this frame, overwriting any earlier
    /// binding of the same name here; parent frames are never touched.
    pub fn insert_vars(&mut self, name: String, value: Value)
        ensures
            final(self)@ == bind_s(old(self)@, name@, value@),
    {
        let ghost gn = name@;
        let ghost gv = view_value(value);
        self.vars.push((name, value));
        proof {
            let t = self.vars@;
            assert(t.subrange(0, t.len() - 1) =~= old(self).vars@);
            assert(t.last().0@ == gn && view_value(t.last().1) == gv);
            assert(vars_map(t) == vars_map(old(self).vars@).insert(gn, gv));
            assert(self@.parent == old(self)@.parent);
        }
    }
}

/// The mathematical value of an evaluation result.
pub open spec fn res_view(r: Result<Value, EvalError>) -> Result<ValS, EvalError> {
    match r {
        Ok(v) => Ok(view_value(v)),
        Err(e) => Err(e),
    }
}

/// The bindings every fresh frame starts with.
pub open spec fn initial_vars_s() -> Map<Seq<char>, ValS> {
    Map::empty().insert("x"@, ValS::Number(10)).insert("v"@, ValS::Number(5)).insert(
        "i"@,
        ValS::Number(1),
    )
}

/// The environment a whole program is evaluated in.
pub open spec fn initial_env_s() -> EnvS {
    EnvS { vars: initial_vars_s(), parent: None }
}

} // verus!
