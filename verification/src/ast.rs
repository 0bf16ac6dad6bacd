//! Expression trees: the executable nodes the boundary hands in, and the
//! mathematical tree they denote.
use vstd::prelude::*;

verus! {

/// A node of the expression tree, as delivered by the embedding program.
///
/// `Clause` is meaningful only as a direct child of `Cond`, and `Parameters`
/// only as the first child of `Lambda`; the evaluator rejects them anywhere
/// else.
pub enum Expr {
    Application(Vec<Expr>),
    Identifier(String),
    Cond(Vec<Expr>),
    Block(Vec<Expr>),
    Clause(Vec<Expr>),
    Number(i64),
    StringLit(String),
    Parameters(Vec<Expr>),
    Lambda(Vec<Expr>),
    Let(Box<Expr>, Box<Expr>, Box<Expr>),
    Define(Box<Expr>, Box<Expr>),
}

/// The mathematical value of an expression tree: the same shape over
/// `Seq` and `Seq<char>`.
pub enum AstS {
    Application(Seq<AstS>),
    Identifier(Seq<char>),
    Cond(Seq<AstS>),
    Block(Seq<AstS>),
    Clause(Seq<AstS>),
    Number(i64),
    StringLit(Seq<char>),
    Parameters(Seq<AstS>),
    Lambda(Seq<AstS>),
    Let(Box<AstS>, Box<AstS>, Box<AstS>),
    Define(Box<AstS>, Box<AstS>),
}

pub open spec fn view_exprs(es: Seq<Expr>) -> Seq<AstS>
    decreases es,
{
    if es.len() == 0 {
        Seq::empty()
    } else {
        view_exprs(es.subrange(0, es.len() - 1)).push(view_expr(es.last()))
    }
}

pub open spec fn view_expr(e: Expr) -> AstS
    decreases e,
{
    match e {
        Expr::Application(es) => AstS::Application(view_exprs(es@)),
        Expr::Identifier(s) => AstS::Identifier(s@),
        Expr::Cond(es) => AstS::Cond(view_exprs(es@)),
        Expr::Block(es) => AstS::Block(view_exprs(es@)),
        Expr::Clause(es) => AstS::Clause(view_exprs(es@)),
        Expr::Number(n) => AstS::Number(n),
        Expr::StringLit(s) => AstS::StringLit(s@),
        Expr::Parameters(es) => AstS::Parameters(view_exprs(es@)),
        Expr::Lambda(es) => AstS::Lambda(view_exprs(es@)),
        Expr::Let(n, v, b) => AstS::Let(Box::new(view_expr(*n)), Box::new(view_expr(*v)), Box::new(view_expr(*b))),
        Expr::Define(n, v) => AstS::Define(Box::new(view_expr(*n)), Box::new(view_expr(*v))),
    }
}

impl View for Expr {
    type V = AstS;

    open spec fn view(&self) -> AstS {
        view_expr(*self)
    }
}

impl DeepView for Expr {
    type V = AstS;

    open spec fn deep_view(&self) -> AstS {
        self.view()
    }
}

/// A full copy of a list of expression trees.
pub fn clone_exprs(es: &Vec<Expr>) -> (r: Vec<Expr>)
    ensures
        view_exprs(r@) == view_exprs(es@),
    decreases es,
{
    let mut r: Vec<Expr> = Vec::new();
    let mut i: usize = 0;
    while i < es.len()
        invariant
            i <= es.len(),
            r@.len() == i,
            view_exprs(r@) == view_exprs(es@.subrange(0, i as int)),
        decreases es.len() - i,
    {
        let e = clone_expr(&es[i]);
        proof {
            let t = es@.subrange(0, i + 1);
            assert(t.subrange(0, t.len() - 1) =~= es@.subrange(0, i as int));
            assert(t.last() == es@[i as int]);
            let u = r@.push(e);
            assert(u.subrange(0, u.len() - 1) =~= r@);
        }
        r.push(e);
        i += 1;
    }
    proof {
        assert(es@.subrange(0, es@.len() as int) =~= es@);
    }
    r
}

/// A full copy of one expression tree.
pub fn clone_expr(e: &Expr) -> (r: Expr)
    ensures
        r@ == e@,
    decreases e,
{
    match e {
        Expr::Application(es) => Expr::Application(clone_exprs(es)),
        Expr::Identifier(s) => Expr::Identifier(s.clone()),
        Expr::Cond(es) => Expr::Cond(clone_exprs(es)),
        Expr::Block(es) => Expr::Block(clone_exprs(es)),
        Expr::Clause(es) => Expr::Clause(clone_exprs(es)),
        Expr::Number(n) => Expr::Number(*n),
        Expr::StringLit(s) => Expr::StringLit(s.clone()),
        Expr::Parameters(es) => Expr::Parameters(clone_exprs(es)),
        Expr::Lambda(es) => Expr::Lambda(clone_exprs(es)),
        Expr::Let(n, v, b) => Expr::Let(
            Box::new(clone_expr(n)),
            Box::new(clone_expr(v)),
            Box::new(clone_expr(b)),
        ),
        Expr::Define(n, v) => Expr::Define(Box::new(clone_expr(n)), Box::new(clone_expr(v))),
    }
}

pub broadcast proof fn lemma_view_exprs_len(es: Seq<Expr>)
    ensures
        #[trigger] view_exprs(es).len() == es.len(),
    decreases es,
{
    if es.len() > 0 {
        lemma_view_exprs_len(es.subrange(0, es.len() - 1));
    }
}

pub broadcast proof fn lemma_view_exprs_index(es: Seq<Expr>, i: int)
    requires
        0 <= i < es.len(),
    ensures
        #[trigger] view_exprs(es)[i] == es[i]@,
    decreases es,
{
    lemma_view_exprs_len(es);
    let head = es.subrange(0, es.len() - 1);
    if i < es.len() - 1 {
        lemma_view_exprs_index(head, i);
    }
}

} // verus!
