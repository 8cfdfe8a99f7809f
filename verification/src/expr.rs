//! The expression tree of the generated code, and the items built from it.

use crate::number::NumberType;
use vstd::prelude::*;
use vstd::string::StringExecFns;

verus! {

/// A binary operator of the generated code.
#[derive(Debug, Clone, Copy, PartialEq, Eq, Structural)]
pub enum BinOp {
    Add,
    Sub,
    Mul,
    Div,
    BitAnd,
    Eq,
    Le,
}

/// A scalar type of the generated code.
#[derive(Debug, Clone, Copy, PartialEq, Eq, Structural)]
pub enum Ty {
    /// 32-bit floating point.
    Single,
    /// 64-bit floating point.
    Double,
    /// 32-bit signed integer.
    Int,
}

/// An expression of the generated code. Each node owns its children.
#[derive(Debug, PartialEq, Eq)]
pub enum Expr {
    /// A decimal literal, held as its exact text.
    Num(String),
    /// A literal that is no number, held as it is written, quotes included.
    Lit(String),
    /// An integer constant.
    Int(i64),
    /// A constant given by its bit pattern in a number type.
    Bits(NumberType, u64),
    /// A variable or named constant.
    Var(String),
    /// Arithmetic negation.
    Neg(Box<Expr>),
    /// A binary operation.
    Binary(BinOp, Box<Expr>, Box<Expr>),
    /// A call of a named function.
    Call(String, Vec<Expr>),
    /// A call of a named method on a receiver.
    Method(Box<Expr>, String, Vec<Expr>),
    /// A conversion to a scalar type.
    Cast(Box<Expr>, Ty),
    /// A choice between two values.
    If(Box<Expr>, Box<Expr>, Box<Expr>),
    /// A tuple of values.
    Tuple(Vec<Expr>),
    /// One position of a tuple.
    Field(Box<Expr>, u8),
}

/// The mathematical model of an expression.
pub ghost enum ExprV {
    Num(Seq<char>),
    Lit(Seq<char>),
    Int(i64),
    Bits(NumberType, u64),
    Var(Seq<char>),
    Neg(Box<ExprV>),
    Binary(BinOp, Box<ExprV>, Box<ExprV>),
    Call(Seq<char>, Seq<ExprV>),
    Method(Box<ExprV>, Seq<char>, Seq<ExprV>),
    Cast(Box<ExprV>, Ty),
    If(Box<ExprV>, Box<ExprV>, Box<ExprV>),
    Tuple(Seq<ExprV>),
    Field(Box<ExprV>, u8),
}

/// The model of an expression, node by node.
pub open spec fn expr_view(e: Expr) -> ExprV
    decreases e,
{
    match e {
        Expr::Num(t) => ExprV::Num(t@),
        Expr::Lit(t) => ExprV::Lit(t@),
        Expr::Int(i) => ExprV::Int(i),
        Expr::Bits(nt, b) => ExprV::Bits(nt, b),
        Expr::Var(n) => ExprV::Var(n@),
        Expr::Neg(a) => ExprV::Neg(Box::new(expr_view(*a))),
        Expr::Binary(op, a, b) => ExprV::Binary(
            op,
            Box::new(expr_view(*a)),
            Box::new(expr_view(*b)),
        ),
        Expr::Call(n, args) => ExprV::Call(n@, exprs_view(args@)),
        Expr::Method(r, n, args) => ExprV::Method(Box::new(expr_view(*r)), n@, exprs_view(args@)),
        Expr::Cast(a, ty) => ExprV::Cast(Box::new(expr_view(*a)), ty),
        Expr::If(c, a, b) => ExprV::If(
            Box::new(expr_view(*c)),
            Box::new(expr_view(*a)),
            Box::new(expr_view(*b)),
        ),
        Expr::Tuple(items) => ExprV::Tuple(exprs_view(items@)),
        Expr::Field(a, i) => ExprV::Field(Box::new(expr_view(*a)), i),
    }
}

/// The models of a sequence of expressions, in order.
pub open spec fn exprs_view(es: Seq<Expr>) -> Seq<ExprV>
    decreases es,
{
    Seq::new(
        es.len(),
        |i: int|
            if 0 <= i < es.len() {
                expr_view(es[i])
            } else {
                ExprV::Tuple(Seq::empty())
            },
    )
}

impl View for Expr {
    type V = ExprV;

    open spec fn view(&self) -> ExprV {
        expr_view(*self)
    }
}

/// Taking the first `i + 1` expressions adds the model of the `i`-th to the
/// models of the first `i`.
pub proof fn lemma_exprs_view_take(es: Seq<Expr>, i: int)
    requires
        0 <= i < es.len(),
    ensures
        exprs_view(es.take(i + 1)) == exprs_view(es.take(i)).push(expr_view(es[i])),
        exprs_view(es.take(es.len() as int)) == exprs_view(es),
        exprs_view(es).len() == es.len(),
        exprs_view(es)[i] == expr_view(es[i]),
{
    assert(exprs_view(es.take(i + 1)) =~= exprs_view(es.take(i)).push(expr_view(es[i])));
    assert(es.take(es.len() as int) =~= es);
}

/// The models of a sequence are as many as its expressions.
pub proof fn lemma_exprs_view_len(es: Seq<Expr>)
    ensures
        exprs_view(es).len() == es.len(),
{
}

/// A statement of a generated function: a binding of a value to a name.
#[derive(Debug, PartialEq, Eq)]
pub struct Stmt {
    pub name: String,
    pub ty: Option<Ty>,
    pub value: Expr,
}

/// The mathematical model of a statement.
pub ghost struct StmtV {
    pub name: Seq<char>,
    pub ty: Option<Ty>,
    pub value: ExprV,
}

impl View for Stmt {
    type V = StmtV;

    open spec fn view(&self) -> StmtV {
        StmtV { name: self.name@, ty: self.ty, value: self.value@ }
    }
}

/// The models of a sequence of statements, in order.
pub open spec fn stmts_view(ss: Seq<Stmt>) -> Seq<StmtV> {
    Seq::new(ss.len(), |i: int| ss[i]@)
}

/// A generated routine: it takes one argument of its scalar type and returns
/// one value of it, or a pair of them.
#[derive(Debug, PartialEq, Eq)]
pub struct Function {
    pub name: String,
    /// The scalar type of the argument and of the result.
    pub scalar: Ty,
    /// The number type that the constants were quantized for, if any.
    pub number_type: Option<NumberType>,
    pub param: String,
    pub returns_pair: bool,
    pub body: Vec<Stmt>,
    pub result: Expr,
}

/// The mathematical model of a generated routine.
pub ghost struct FunctionV {
    pub name: Seq<char>,
    pub scalar: Ty,
    pub number_type: Option<NumberType>,
    pub param: Seq<char>,
    pub returns_pair: bool,
    pub body: Seq<StmtV>,
    pub result: ExprV,
}

impl View for Function {
    type V = FunctionV;

    open spec fn view(&self) -> FunctionV {
        FunctionV {
            name: self.name@,
            scalar: self.scalar,
            number_type: self.number_type,
            param: self.param@,
            returns_pair: self.returns_pair,
            body: stmts_view(self.body@),
            result: self.result@,
        }
    }
}

/// A bounded-error test of a generated routine: over the sampled domain the
/// candidate may differ from the reference by at most `max_ulps` units in the
/// last place of the target width.
#[derive(Debug, PartialEq, Eq)]
pub struct TestCase {
    pub name: String,
    pub reference: Expr,
    pub candidate: Expr,
    pub max_ulps: u32,
    pub wide: bool,
    pub lo: Expr,
    pub hi: Expr,
}

/// The mathematical model of a test.
pub ghost struct TestCaseV {
    pub name: Seq<char>,
    pub reference: ExprV,
    pub candidate: ExprV,
    pub max_ulps: u32,
    pub wide: bool,
    pub lo: ExprV,
    pub hi: ExprV,
}

impl View for TestCase {
    type V = TestCaseV;

    open spec fn view(&self) -> TestCaseV {
        TestCaseV {
            name: self.name@,
            reference: self.reference@,
            candidate: self.candidate@,
            max_ulps: self.max_ulps,
            wide: self.wide,
            lo: self.lo@,
            hi: self.hi@,
        }
    }
}

/// The models of a sequence of routines, in order.
pub open spec fn functions_view(fs: Seq<Function>) -> Seq<FunctionV> {
    Seq::new(fs.len(), |i: int| fs[i]@)
}

/// The models of a sequence of tests, in order.
pub open spec fn tests_view(ts: Seq<TestCase>) -> Seq<TestCaseV> {
    Seq::new(ts.len(), |i: int| ts[i]@)
}

/// The routines of one family of functions, with their tests.
#[derive(Debug, PartialEq, Eq)]
pub struct Family {
    pub functions: Vec<Function>,
    pub tests: Vec<TestCase>,
}

/// The mathematical model of a family.
pub ghost struct FamilyV {
    pub functions: Seq<FunctionV>,
    pub tests: Seq<TestCaseV>,
}

impl View for Family {
    type V = FamilyV;

    open spec fn view(&self) -> FamilyV {
        FamilyV { functions: functions_view(self.functions@), tests: tests_view(self.tests@) }
    }
}

/// The model of a decimal literal.
pub open spec fn num_v(text: Seq<char>) -> ExprV {
    ExprV::Num(text)
}

/// The model of a literal that is no number.
pub open spec fn literal_v(text: Seq<char>) -> ExprV {
    ExprV::Lit(text)
}

/// The model of an integer constant.
pub open spec fn int_v(i: i64) -> ExprV {
    ExprV::Int(i)
}

/// The model of a variable.
pub open spec fn var_v(name: Seq<char>) -> ExprV {
    ExprV::Var(name)
}

/// The model of a negation.
pub open spec fn neg_v(a: ExprV) -> ExprV {
    ExprV::Neg(Box::new(a))
}

/// The model of a binary operation.
pub open spec fn binary_v(op: BinOp, a: ExprV, b: ExprV) -> ExprV {
    ExprV::Binary(op, Box::new(a), Box::new(b))
}

/// The model of a call of a function on one argument.
pub open spec fn call1_v(name: Seq<char>, a: ExprV) -> ExprV {
    ExprV::Call(name, seq![a])
}

/// The model of a call of a method without arguments.
pub open spec fn method0_v(recv: ExprV, name: Seq<char>) -> ExprV {
    ExprV::Method(Box::new(recv), name, Seq::empty())
}

/// The model of a fused multiply-add.
pub open spec fn mul_add_v(a: ExprV, b: ExprV, c: ExprV) -> ExprV {
    ExprV::Method(Box::new(a), "mul_add"@, seq![b, c])
}

/// The model of a conversion.
pub open spec fn cast_v(a: ExprV, ty: Ty) -> ExprV {
    ExprV::Cast(Box::new(a), ty)
}

/// The model of a choice.
pub open spec fn if_else_v(c: ExprV, a: ExprV, b: ExprV) -> ExprV {
    ExprV::If(Box::new(c), Box::new(a), Box::new(b))
}

/// The model of a pair.
pub open spec fn pair_v(a: ExprV, b: ExprV) -> ExprV {
    ExprV::Tuple(seq![a, b])
}

/// The model of one position of a tuple.
pub open spec fn field_v(a: ExprV, index: u8) -> ExprV {
    ExprV::Field(Box::new(a), index)
}

/// The model of a binding.
pub open spec fn bind_v(name: Seq<char>, ty: Option<Ty>, value: ExprV) -> StmtV {
    StmtV { name, ty, value }
}

/// A decimal literal.
pub fn num(text: &str) -> (e: Expr)
    ensures
        e@ == num_v(text@),
{
    Expr::Num(String::from_str(text))
}

/// A literal that is no number, as it is written.
pub fn literal(text: &str) -> (e: Expr)
    ensures
        e@ == literal_v(text@),
{
    Expr::Lit(String::from_str(text))
}

/// An integer constant.
pub fn integer(i: i64) -> (e: Expr)
    ensures
        e@ == int_v(i),
{
    Expr::Int(i)
}

/// A variable.
pub fn var(name: &str) -> (e: Expr)
    ensures
        e@ == var_v(name@),
{
    Expr::Var(String::from_str(name))
}

/// The negation of an expression.
pub fn neg(a: Expr) -> (e: Expr)
    ensures
        e@ == neg_v(a@),
{
    Expr::Neg(Box::new(a))
}

/// A binary operation on two expressions.
pub fn binary(op: BinOp, a: Expr, b: Expr) -> (e: Expr)
    ensures
        e@ == binary_v(op, a@, b@),
{
    Expr::Binary(op, Box::new(a), Box::new(b))
}

/// A call of a function on one argument.
pub fn call1(name: &str, a: Expr) -> (e: Expr)
    ensures
        e@ == call1_v(name@, a@),
{
    let mut args: Vec<Expr> = Vec::new();
    args.push(a);
    assert(exprs_view(args@) =~= seq![a@]);
    Expr::Call(String::from_str(name), args)
}

/// A call of a method without arguments.
pub fn method0(recv: Expr, name: &str) -> (e: Expr)
    ensures
        e@ == method0_v(recv@, name@),
{
    let args: Vec<Expr> = Vec::new();
    assert(exprs_view(args@) =~= Seq::empty());
    Expr::Method(Box::new(recv), String::from_str(name), args)
}

/// A fused multiply-add: `a * b + c`, rounded once.
pub fn mul_add(a: Expr, b: Expr, c: Expr) -> (e: Expr)
    ensures
        e@ == mul_add_v(a@, b@, c@),
{
    let mut args: Vec<Expr> = Vec::new();
    args.push(b);
    args.push(c);
    assert(exprs_view(args@) =~= seq![b@, c@]);
    Expr::Method(Box::new(a), String::from_str("mul_add"), args)
}

/// A conversion of an expression to a scalar type.
pub fn cast(a: Expr, ty: Ty) -> (e: Expr)
    ensures
        e@ == cast_v(a@, ty),
{
    Expr::Cast(Box::new(a), ty)
}

/// A choice between two expressions.
pub fn if_else(c: Expr, a: Expr, b: Expr) -> (e: Expr)
    ensures
        e@ == if_else_v(c@, a@, b@),
{
    Expr::If(Box::new(c), Box::new(a), Box::new(b))
}

/// A pair of expressions.
pub fn pair(a: Expr, b: Expr) -> (e: Expr)
    ensures
        e@ == pair_v(a@, b@),
{
    let mut items: Vec<Expr> = Vec::new();
    items.push(a);
    items.push(b);
    assert(exprs_view(items@) =~= seq![a@, b@]);
    Expr::Tuple(items)
}

/// One position of a tuple.
pub fn field(a: Expr, index: u8) -> (e: Expr)
    ensures
        e@ == field_v(a@, index),
{
    Expr::Field(Box::new(a), index)
}

/// A binding of a value to a name, with or without a type.
pub fn bind(name: &str, ty: Option<Ty>, value: Expr) -> (s: Stmt)
    ensures
        s@ == bind_v(name@, ty, value@),
{
    Stmt { name: String::from_str(name), ty, value }
}

} // verus!
