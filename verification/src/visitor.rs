//! Rewriting an expression tree: a visitor may replace each literal, and one
//! failure aborts the rewrite of the whole tree.

use crate::error::Error;
use crate::expr::{
    exprs_view, lemma_exprs_view_take, stmts_view, Expr, ExprV, Function, FunctionV, Stmt, StmtV,
};
use vstd::prelude::*;

verus! {

/// A rewrite of the literals of a tree.
pub trait Visitor: Sized {
    /// What a literal of the given text becomes; `numeric` tells a number
    /// from any other literal.
    spec fn lit_rewrite(&self, text: Seq<char>, numeric: bool) -> Result<ExprV, Error>;

    /// Rewrites one literal.
    fn visit_lit(&self, text: &String, numeric: bool) -> (r: Result<Expr, Error>)
        ensures
            result_view(r) == self.lit_rewrite(text@, numeric),
    ;
}

/// The model of the outcome of a rewrite.
pub open spec fn result_view(r: Result<Expr, Error>) -> Result<ExprV, Error> {
    match r {
        Ok(e) => Ok(e@),
        Err(x) => Err(x),
    }
}

/// The tree that a visitor makes of a tree: each literal is replaced by what
/// the visitor gives for it, every other node is kept with its children
/// rewritten, and the first failure, in reading order, is the outcome.
pub open spec fn rewrite<V: Visitor>(v: V, e: ExprV) -> Result<ExprV, Error>
    decreases e,
{
    match e {
        ExprV::Num(t) => v.lit_rewrite(t, true),
        ExprV::Lit(t) => v.lit_rewrite(t, false),
        ExprV::Int(i) => Ok(e),
        ExprV::Bits(nt, b) => Ok(e),
        ExprV::Var(n) => Ok(e),
        ExprV::Neg(a) => match rewrite(v, *a) {
            Ok(x) => Ok(ExprV::Neg(Box::new(x))),
            Err(f) => Err(f),
        },
        ExprV::Binary(op, a, b) => match rewrite(v, *a) {
            Ok(x) => match rewrite(v, *b) {
                Ok(y) => Ok(ExprV::Binary(op, Box::new(x), Box::new(y))),
                Err(f) => Err(f),
            },
            Err(f) => Err(f),
        },
        ExprV::Call(n, args) => match rewrite_all(v, args) {
            Ok(xs) => Ok(ExprV::Call(n, xs)),
            Err(f) => Err(f),
        },
        ExprV::Method(r, n, args) => match rewrite(v, *r) {
            Ok(x) => match rewrite_all(v, args) {
                Ok(xs) => Ok(ExprV::Method(Box::new(x), n, xs)),
                Err(f) => Err(f),
            },
            Err(f) => Err(f),
        },
        ExprV::Cast(a, ty) => match rewrite(v, *a) {
            Ok(x) => Ok(ExprV::Cast(Box::new(x), ty)),
            Err(f) => Err(f),
        },
        ExprV::If(c, a, b) => match rewrite(v, *c) {
            Ok(z) => match rewrite(v, *a) {
                Ok(x) => match rewrite(v, *b) {
                    Ok(y) => Ok(ExprV::If(Box::new(z), Box::new(x), Box::new(y))),
                    Err(f) => Err(f),
                },
                Err(f) => Err(f),
            },
            Err(f) => Err(f),
        },
        ExprV::Tuple(items) => match rewrite_all(v, items) {
            Ok(xs) => Ok(ExprV::Tuple(xs)),
            Err(f) => Err(f),
        },
        ExprV::Field(a, i) => match rewrite(v, *a) {
            Ok(x) => Ok(ExprV::Field(Box::new(x), i)),
            Err(f) => Err(f),
        },
    }
}

/// The rewrite of a sequence of trees, from the first to the last.
pub open spec fn rewrite_all<V: Visitor>(v: V, es: Seq<ExprV>) -> Result<Seq<ExprV>, Error>
    decreases es,
{
    if es.len() == 0 {
        Ok(Seq::empty())
    } else {
        match rewrite_all(v, es.drop_last()) {
            Ok(front) => match rewrite(v, es.last()) {
                Ok(x) => Ok(front.push(x)),
                Err(f) => Err(f),
            },
            Err(f) => Err(f),
        }
    }
}

/// Whether a tree holds no literal.
pub open spec fn no_literal(e: ExprV) -> bool
    decreases e,
{
    match e {
        ExprV::Num(t) => false,
        ExprV::Lit(t) => false,
        ExprV::Int(i) => true,
        ExprV::Bits(nt, b) => true,
        ExprV::Var(n) => true,
        ExprV::Neg(a) => no_literal(*a),
        ExprV::Binary(op, a, b) => no_literal(*a) && no_literal(*b),
        ExprV::Call(n, args) => no_literals(args),
        ExprV::Method(r, n, args) => no_literal(*r) && no_literals(args),
        ExprV::Cast(a, ty) => no_literal(*a),
        ExprV::If(c, a, b) => no_literal(*c) && no_literal(*a) && no_literal(*b),
        ExprV::Tuple(items) => no_literals(items),
        ExprV::Field(a, i) => no_literal(*a),
    }
}

/// Whether no tree of a sequence holds a literal.
pub open spec fn no_literals(es: Seq<ExprV>) -> bool
    decreases es,
{
    es.len() == 0 || (no_literals(es.drop_last()) && no_literal(es.last()))
}

/// Whether a tree holds no number as a literal: every constant of it is
/// exact.
pub open spec fn no_number(e: ExprV) -> bool
    decreases e,
{
    match e {
        ExprV::Num(t) => false,
        ExprV::Lit(t) => true,
        ExprV::Int(i) => true,
        ExprV::Bits(nt, b) => true,
        ExprV::Var(n) => true,
        ExprV::Neg(a) => no_number(*a),
        ExprV::Binary(op, a, b) => no_number(*a) && no_number(*b),
        ExprV::Call(n, args) => no_numbers(args),
        ExprV::Method(r, n, args) => no_number(*r) && no_numbers(args),
        ExprV::Cast(a, ty) => no_number(*a),
        ExprV::If(c, a, b) => no_number(*c) && no_number(*a) && no_number(*b),
        ExprV::Tuple(items) => no_numbers(items),
        ExprV::Field(a, i) => no_number(*a),
    }
}

/// Whether no tree of a sequence holds a number as a literal.
pub open spec fn no_numbers(es: Seq<ExprV>) -> bool
    decreases es,
{
    es.len() == 0 || (no_numbers(es.drop_last()) && no_number(es.last()))
}

/// A rewrite leaves a tree without literals as it is, whatever the visitor.
pub proof fn lemma_rewrite_without_literals<V: Visitor>(v: V, e: ExprV)
    requires
        no_literal(e),
    ensures
        rewrite(v, e) == Ok::<ExprV, Error>(e),
    decreases e,
{
    match e {
        ExprV::Num(t) => {},
        ExprV::Lit(t) => {},
        ExprV::Int(i) => {},
        ExprV::Bits(nt, b) => {},
        ExprV::Var(n) => {},
        ExprV::Neg(a) => {
            lemma_rewrite_without_literals(v, *a);
        },
        ExprV::Binary(op, a, b) => {
            lemma_rewrite_without_literals(v, *a);
            lemma_rewrite_without_literals(v, *b);
        },
        ExprV::Call(n, args) => {
            lemma_rewrite_all_without_literals(v, args);
        },
        ExprV::Method(r, n, args) => {
            lemma_rewrite_without_literals(v, *r);
            lemma_rewrite_all_without_literals(v, args);
        },
        ExprV::Cast(a, ty) => {
            lemma_rewrite_without_literals(v, *a);
        },
        ExprV::If(c, a, b) => {
            lemma_rewrite_without_literals(v, *c);
            lemma_rewrite_without_literals(v, *a);
            lemma_rewrite_without_literals(v, *b);
        },
        ExprV::Tuple(items) => {
            lemma_rewrite_all_without_literals(v, items);
        },
        ExprV::Field(a, i) => {
            lemma_rewrite_without_literals(v, *a);
        },
    }
}

/// A rewrite leaves a sequence of trees without literals as it is.
pub proof fn lemma_rewrite_all_without_literals<V: Visitor>(v: V, es: Seq<ExprV>)
    requires
        no_literals(es),
    ensures
        rewrite_all(v, es) == Ok::<Seq<ExprV>, Error>(es),
    decreases es,
{
    if es.len() > 0 {
        lemma_rewrite_all_without_literals(v, es.drop_last());
        lemma_rewrite_without_literals(v, es.last());
        assert(es.drop_last().push(es.last()) =~= es);
    } else {
        assert(es =~= Seq::empty());
    }
}

/// Rewrites a sequence of trees, stopping at the first failure.
pub fn visit_all<V: Visitor>(v: &V, es: &Vec<Expr>) -> (r: Result<Vec<Expr>, Error>)
    ensures
        match r {
            Ok(out) => rewrite_all(*v, exprs_view(es@)) == Ok::<Seq<ExprV>, Error>(
                exprs_view(out@),
            ),
            Err(f) => rewrite_all(*v, exprs_view(es@)) == Err::<Seq<ExprV>, Error>(f),
        },
    decreases es,
{
    let mut out: Vec<Expr> = Vec::new();
    let mut i: usize = 0;
    assert(exprs_view(es@.take(0)) =~= Seq::empty());
    assert(exprs_view(out@) =~= Seq::empty());
    while i < es.len()
        invariant
            i <= es.len(),
            rewrite_all(*v, exprs_view(es@.take(i as int))) == Ok::<Seq<ExprV>, Error>(
                exprs_view(out@),
            ),
        decreases es.len() - i,
    {
        proof {
            lemma_exprs_view_take(es@, i as int);
            let next = exprs_view(es@.take(i + 1));
            assert(next.drop_last() =~= exprs_view(es@.take(i as int)));
            assert(next.last() == es@[i as int]@);
            assert(exprs_view(es@).take(i + 1) =~= next);
        }
        match visit(v, &es[i]) {
            Ok(x) => {
                let ghost before = exprs_view(out@);
                out.push(x);
                assert(exprs_view(out@) =~= before.push(x@));
            },
            Err(f) => {
                proof {
                    lemma_rewrite_all_prefix(*v, exprs_view(es@), i + 1);
                }
                return Err(f);
            },
        }
        i += 1;
    }
    assert(es@.take(i as int) =~= es@);
    Ok(out)
}

/// Where the rewrite of a prefix fails, the rewrite of the whole sequence
/// fails in the same way.
pub proof fn lemma_rewrite_all_prefix<V: Visitor>(v: V, es: Seq<ExprV>, k: int)
    requires
        0 <= k <= es.len(),
        rewrite_all(v, es.take(k)) is Err,
    ensures
        rewrite_all(v, es) == rewrite_all(v, es.take(k)),
    decreases es.len() - k,
{
    if k < es.len() {
        assert(es.take(k + 1).drop_last() =~= es.take(k));
        lemma_rewrite_all_prefix(v, es, k + 1);
    } else {
        assert(es.take(k) =~= es);
    }
}

/// Rewrites a tree: the visitor sees every literal, and the first failure
/// aborts the whole rewrite.
pub fn visit<V: Visitor>(v: &V, e: &Expr) -> (r: Result<Expr, Error>)
    ensures
        result_view(r) == rewrite(*v, e@),
    decreases e,
{
    match e {
        Expr::Num(t) => v.visit_lit(t, true),
        Expr::Lit(t) => v.visit_lit(t, false),
        Expr::Int(i) => Ok(Expr::Int(*i)),
        Expr::Bits(nt, b) => Ok(Expr::Bits(*nt, *b)),
        Expr::Var(n) => Ok(Expr::Var(n.clone())),
        Expr::Neg(a) => {
            let x = visit(v, a)?;
            Ok(Expr::Neg(Box::new(x)))
        },
        Expr::Binary(op, a, b) => {
            let x = visit(v, a)?;
            let y = visit(v, b)?;
            Ok(Expr::Binary(*op, Box::new(x), Box::new(y)))
        },
        Expr::Call(n, args) => {
            let xs = visit_all(v, args)?;
            Ok(Expr::Call(n.clone(), xs))
        },
        Expr::Method(r, n, args) => {
            let x = visit(v, r)?;
            let xs = visit_all(v, args)?;
            Ok(Expr::Method(Box::new(x), n.clone(), xs))
        },
        Expr::Cast(a, ty) => {
            let x = visit(v, a)?;
            Ok(Expr::Cast(Box::new(x), *ty))
        },
        Expr::If(c, a, b) => {
            let z = visit(v, c)?;
            let x = visit(v, a)?;
            let y = visit(v, b)?;
            Ok(Expr::If(Box::new(z), Box::new(x), Box::new(y)))
        },
        Expr::Tuple(items) => {
            let xs = visit_all(v, items)?;
            Ok(Expr::Tuple(xs))
        },
        Expr::Field(a, i) => {
            let x = visit(v, a)?;
            Ok(Expr::Field(Box::new(x), *i))
        },
    }
}

/// The statements that a visitor makes of a sequence of statements: each
/// value is rewritten, from the first to the last.
pub open spec fn rewrite_stmts<V: Visitor>(v: V, ss: Seq<StmtV>) -> Result<Seq<StmtV>, Error>
    decreases ss.len(),
{
    if ss.len() == 0 {
        Ok(Seq::empty())
    } else {
        match rewrite_stmts(v, ss.drop_last()) {
            Ok(front) => match rewrite(v, ss.last().value) {
                Ok(x) => Ok(front.push(StmtV { name: ss.last().name, ty: ss.last().ty, value: x })),
                Err(f) => Err(f),
            },
            Err(f) => Err(f),
        }
    }
}

/// The routine that a visitor makes of a routine: its statements are
/// rewritten, then its result.
pub open spec fn rewrite_function<V: Visitor>(v: V, f: FunctionV) -> Result<FunctionV, Error> {
    match rewrite_stmts(v, f.body) {
        Ok(body) => match rewrite(v, f.result) {
            Ok(result) => Ok(
                FunctionV {
                    name: f.name,
                    scalar: f.scalar,
                    number_type: f.number_type,
                    param: f.param,
                    returns_pair: f.returns_pair,
                    body,
                    result,
                },
            ),
            Err(x) => Err(x),
        },
        Err(x) => Err(x),
    }
}

/// The model of the outcome of the rewrite of a routine.
pub open spec fn function_result_view(r: Result<Function, Error>) -> Result<FunctionV, Error> {
    match r {
        Ok(f) => Ok(f@),
        Err(x) => Err(x),
    }
}

/// Where the rewrite of a prefix of the statements fails, the rewrite of all
/// of them fails in the same way.
pub proof fn lemma_rewrite_stmts_prefix<V: Visitor>(v: V, ss: Seq<StmtV>, k: int)
    requires
        0 <= k <= ss.len(),
        rewrite_stmts(v, ss.take(k)) is Err,
    ensures
        rewrite_stmts(v, ss) == rewrite_stmts(v, ss.take(k)),
    decreases ss.len() - k,
{
    if k < ss.len() {
        assert(ss.take(k + 1).drop_last() =~= ss.take(k));
        lemma_rewrite_stmts_prefix(v, ss, k + 1);
    } else {
        assert(ss.take(k) =~= ss);
    }
}

/// Rewrites a routine: the visitor sees every literal of its statements and
/// of its result, and the first failure aborts the rewrite.
pub fn visit_function<V: Visitor>(v: &V, f: &Function) -> (r: Result<Function, Error>)
    ensures
        function_result_view(r) == rewrite_function(*v, f@),
{
    let mut body: Vec<Stmt> = Vec::new();
    let mut i: usize = 0;
    let ghost all = stmts_view(f.body@);
    assert(all.take(0) =~= Seq::empty());
    assert(stmts_view(body@) =~= Seq::empty());
    while i < f.body.len()
        invariant
            i <= f.body.len(),
            all == stmts_view(f.body@),
            rewrite_stmts(*v, all.take(i as int)) == Ok::<Seq<StmtV>, Error>(stmts_view(body@)),
        decreases f.body.len() - i,
    {
        let s = &f.body[i];
        proof {
            assert(all.take(i + 1).drop_last() =~= all.take(i as int));
            assert(all.take(i + 1).last() == s@);
        }
        match visit(v, &s.value) {
            Ok(x) => {
                let ghost before = stmts_view(body@);
                let t = Stmt { name: s.name.clone(), ty: s.ty, value: x };
                body.push(t);
                assert(stmts_view(body@) =~= before.push(t@));
            },
            Err(x) => {
                proof {
                    lemma_rewrite_stmts_prefix(*v, all, i + 1);
                }
                return Err(x);
            },
        }
        i += 1;
    }
    assert(all.take(i as int) =~= all);
    let result = visit(v, &f.result)?;
    Ok(
        Function {
            name: f.name.clone(),
            scalar: f.scalar,
            number_type: f.number_type,
            param: f.param.clone(),
            returns_pair: f.returns_pair,
            body,
            result,
        },
    )
}

} // verus!
