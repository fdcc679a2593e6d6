//! The value and type model of the language: runtime types, expression and
//! statement trees, and the payloads stored in an environment.
//!
//! The executable trees are ordinary datatypes; the specification side reads
//! them directly.  [`Val`] is the spec-level image of a runtime value, with
//! unbounded integers and character sequences in place of machine words and
//! heap strings, and [`val_of`] maps a well-formed stored value to it.

use crate::decimal::{real_wf, rv, Real, RealV};
use std::rc::Rc;
use vstd::prelude::*;

verus! {

/// The closed set of runtime types.  A binding's declared type and a value's
/// runtime tag are both drawn from this set.
#[derive(Clone, Copy, Debug, PartialEq, Eq, Structural)]
pub enum Type {
    TInteger,
    TReal,
    TBool,
    TString,
    TFunction,
}

/// An expression tree.  Evaluating an expression never changes the
/// environment; it only reads it.
#[derive(Debug, PartialEq)]
pub enum Expression {
    CInt(i64),
    CReal(Real),
    CString(String),
    CTrue,
    CFalse,
    Var(String),
    Neg(Box<Expression>),
    Not(Box<Expression>),
    Add(Box<Expression>, Box<Expression>),
    Sub(Box<Expression>, Box<Expression>),
    Mul(Box<Expression>, Box<Expression>),
    Div(Box<Expression>, Box<Expression>),
    And(Box<Expression>, Box<Expression>),
    Or(Box<Expression>, Box<Expression>),
    EQ(Box<Expression>, Box<Expression>),
    NEQ(Box<Expression>, Box<Expression>),
    GT(Box<Expression>, Box<Expression>),
    LT(Box<Expression>, Box<Expression>),
    GTE(Box<Expression>, Box<Expression>),
    LTE(Box<Expression>, Box<Expression>),
    FuncCall(String, Vec<Expression>),
}

/// A function value: ordered parameters with their declared types, the
/// declared return type, and the body block.  The parameter list and the
/// body are shared, so that binding a function in an environment and
/// calling it never copies the tree.
#[derive(Debug, PartialEq)]
pub struct Function {
    pub params: Rc<Vec<(String, Type)>>,
    pub ret: Type,
    pub body: Rc<Vec<Statement>>,
}

/// A statement.  Executing a statement may produce a new environment or end
/// the enclosing block early with a return value.
#[derive(Debug, PartialEq)]
pub enum Statement {
    Assignment(String, Box<Expression>),
    IfThenElse(Box<Expression>, Vec<Statement>, Vec<Statement>),
    While(Box<Expression>, Vec<Statement>),
    Block(Vec<Statement>),
    FuncDecl(String, Function),
    Return(Box<Expression>),
}

/// The payload bound to a name in an environment: an evaluated constant or a
/// function value.
#[derive(Debug, PartialEq)]
pub enum EnvValue {
    Exp(Expression),
    Func(Function),
}

/// Spec-level image of a runtime value.
pub enum Val {
    VInt(int),
    VReal(RealV),
    VBool(bool),
    VStr(Seq<char>),
    VFunc(Function),
}

/// The runtime type of a spec-level value.
pub open spec fn type_of_val(v: Val) -> Type {
    match v {
        Val::VInt(_) => Type::TInteger,
        Val::VReal(_) => Type::TReal,
        Val::VBool(_) => Type::TBool,
        Val::VStr(_) => Type::TString,
        Val::VFunc(_) => Type::TFunction,
    }
}

/// Every real literal in an expression stays within the representable scale.
pub open spec fn expr_wf(e: Expression) -> bool
    decreases e,
{
    match e {
        Expression::CInt(_) => true,
        Expression::CReal(r) => real_wf(r),
        Expression::CString(_) => true,
        Expression::CTrue => true,
        Expression::CFalse => true,
        Expression::Var(_) => true,
        Expression::Neg(x) => expr_wf(*x),
        Expression::Not(x) => expr_wf(*x),
        Expression::Add(l, r) => expr_wf(*l) && expr_wf(*r),
        Expression::Sub(l, r) => expr_wf(*l) && expr_wf(*r),
        Expression::Mul(l, r) => expr_wf(*l) && expr_wf(*r),
        Expression::Div(l, r) => expr_wf(*l) && expr_wf(*r),
        Expression::And(l, r) => expr_wf(*l) && expr_wf(*r),
        Expression::Or(l, r) => expr_wf(*l) && expr_wf(*r),
        Expression::EQ(l, r) => expr_wf(*l) && expr_wf(*r),
        Expression::NEQ(l, r) => expr_wf(*l) && expr_wf(*r),
        Expression::GT(l, r) => expr_wf(*l) && expr_wf(*r),
        Expression::LT(l, r) => expr_wf(*l) && expr_wf(*r),
        Expression::GTE(l, r) => expr_wf(*l) && expr_wf(*r),
        Expression::LTE(l, r) => expr_wf(*l) && expr_wf(*r),
        Expression::FuncCall(_, args) => exprs_wf(args@),
    }
}

pub open spec fn exprs_wf(s: Seq<Expression>) -> bool
    decreases s,
{
    if s.len() == 0 {
        true
    } else {
        expr_wf(s[0]) && exprs_wf(s.drop_first())
    }
}

pub open spec fn stmt_wf(st: Statement) -> bool
    decreases st,
{
    match st {
        Statement::Assignment(_, e) => expr_wf(*e),
        Statement::IfThenElse(c, t, f) => expr_wf(*c) && stmts_wf(t@) && stmts_wf(f@),
        Statement::While(c, b) => expr_wf(*c) && stmts_wf(b@),
        Statement::Block(b) => stmts_wf(b@),
        Statement::FuncDecl(_, f) => func_wf(f),
        Statement::Return(e) => expr_wf(*e),
    }
}

pub open spec fn stmts_wf(s: Seq<Statement>) -> bool
    decreases s,
{
    if s.len() == 0 {
        true
    } else {
        stmt_wf(s[0]) && stmts_wf(s.drop_first())
    }
}

pub open spec fn func_wf(f: Function) -> bool
    decreases f,
{
    stmts_wf(f.body@)
}

/// A stored value is a literal constant or a well-formed function value.
pub open spec fn value_wf(v: EnvValue) -> bool {
    match v {
        EnvValue::Exp(Expression::CInt(_)) => true,
        EnvValue::Exp(Expression::CReal(r)) => real_wf(r),
        EnvValue::Exp(Expression::CString(_)) => true,
        EnvValue::Exp(Expression::CTrue) => true,
        EnvValue::Exp(Expression::CFalse) => true,
        EnvValue::Func(f) => func_wf(f),
        EnvValue::Exp(_) => false,
    }
}

/// The spec-level value of a well-formed stored payload.
pub open spec fn val_of(v: EnvValue) -> Val {
    match v {
        EnvValue::Exp(Expression::CInt(i)) => Val::VInt(i as int),
        EnvValue::Exp(Expression::CReal(r)) => Val::VReal(rv(r)),
        EnvValue::Exp(Expression::CString(s)) => Val::VStr(s@),
        EnvValue::Exp(Expression::CTrue) => Val::VBool(true),
        EnvValue::Exp(Expression::CFalse) => Val::VBool(false),
        EnvValue::Func(f) => Val::VFunc(f),
        EnvValue::Exp(_) => arbitrary(),
    }
}

/// The shape of an expression: the same tree with every name and string
/// read as its character sequence.  Two expressions with the same shape
/// cannot be told apart by evaluation or by rendering, so the shape is what
/// a parser's output is specified by.
pub enum ExprV {
    CInt(i64),
    CReal(Real),
    CStr(Seq<char>),
    CTrue,
    CFalse,
    Var(Seq<char>),
    Neg(Box<ExprV>),
    Not(Box<ExprV>),
    Add(Box<ExprV>, Box<ExprV>),
    Sub(Box<ExprV>, Box<ExprV>),
    Mul(Box<ExprV>, Box<ExprV>),
    Div(Box<ExprV>, Box<ExprV>),
    And(Box<ExprV>, Box<ExprV>),
    Or(Box<ExprV>, Box<ExprV>),
    EQ(Box<ExprV>, Box<ExprV>),
    NEQ(Box<ExprV>, Box<ExprV>),
    GT(Box<ExprV>, Box<ExprV>),
    LT(Box<ExprV>, Box<ExprV>),
    GTE(Box<ExprV>, Box<ExprV>),
    LTE(Box<ExprV>, Box<ExprV>),
    FuncCall(Seq<char>, Seq<ExprV>),
}

/// The shape of a function value.
pub struct FuncV {
    pub params: Seq<(Seq<char>, Type)>,
    pub ret: Type,
    pub body: Seq<StmtV>,
}

/// The shape of a statement.
pub enum StmtV {
    Assignment(Seq<char>, Box<ExprV>),
    IfThenElse(Box<ExprV>, Seq<StmtV>, Seq<StmtV>),
    While(Box<ExprV>, Seq<StmtV>),
    Block(Seq<StmtV>),
    FuncDecl(Seq<char>, FuncV),
    Return(Box<ExprV>),
}

/// The shape of an expression tree.
pub open spec fn expr_v(e: Expression) -> ExprV
    decreases e,
{
    match e {
        Expression::CInt(i) => ExprV::CInt(i),
        Expression::CReal(r) => ExprV::CReal(r),
        Expression::CString(s) => ExprV::CStr(s@),
        Expression::CTrue => ExprV::CTrue,
        Expression::CFalse => ExprV::CFalse,
        Expression::Var(n) => ExprV::Var(n@),
        Expression::Neg(x) => ExprV::Neg(Box::new(expr_v(*x))),
        Expression::Not(x) => ExprV::Not(Box::new(expr_v(*x))),
        Expression::Add(l, r) => ExprV::Add(Box::new(expr_v(*l)), Box::new(expr_v(*r))),
        Expression::Sub(l, r) => ExprV::Sub(Box::new(expr_v(*l)), Box::new(expr_v(*r))),
        Expression::Mul(l, r) => ExprV::Mul(Box::new(expr_v(*l)), Box::new(expr_v(*r))),
        Expression::Div(l, r) => ExprV::Div(Box::new(expr_v(*l)), Box::new(expr_v(*r))),
        Expression::And(l, r) => ExprV::And(Box::new(expr_v(*l)), Box::new(expr_v(*r))),
        Expression::Or(l, r) => ExprV::Or(Box::new(expr_v(*l)), Box::new(expr_v(*r))),
        Expression::EQ(l, r) => ExprV::EQ(Box::new(expr_v(*l)), Box::new(expr_v(*r))),
        Expression::NEQ(l, r) => ExprV::NEQ(Box::new(expr_v(*l)), Box::new(expr_v(*r))),
        Expression::GT(l, r) => ExprV::GT(Box::new(expr_v(*l)), Box::new(expr_v(*r))),
        Expression::LT(l, r) => ExprV::LT(Box::new(expr_v(*l)), Box::new(expr_v(*r))),
        Expression::GTE(l, r) => ExprV::GTE(Box::new(expr_v(*l)), Box::new(expr_v(*r))),
        Expression::LTE(l, r) => ExprV::LTE(Box::new(expr_v(*l)), Box::new(expr_v(*r))),
        Expression::FuncCall(n, args) => ExprV::FuncCall(n@, exprs_v(args@)),
    }
}

pub open spec fn exprs_v(s: Seq<Expression>) -> Seq<ExprV>
    decreases s,
{
    if s.len() == 0 {
        Seq::empty()
    } else {
        seq![expr_v(s[0])] + exprs_v(s.drop_first())
    }
}

/// The shape of a statement tree.
pub open spec fn stmt_v(st: Statement) -> StmtV
    decreases st,
{
    match st {
        Statement::Assignment(n, e) => StmtV::Assignment(n@, Box::new(expr_v(*e))),
        Statement::IfThenElse(c, t, f) => StmtV::IfThenElse(
            Box::new(expr_v(*c)),
            stmts_v(t@),
            stmts_v(f@),
        ),
        Statement::While(c, b) => StmtV::While(Box::new(expr_v(*c)), stmts_v(b@)),
        Statement::Block(b) => StmtV::Block(stmts_v(b@)),
        Statement::FuncDecl(n, f) => StmtV::FuncDecl(n@, func_v(f)),
        Statement::Return(e) => StmtV::Return(Box::new(expr_v(*e))),
    }
}

pub open spec fn stmts_v(s: Seq<Statement>) -> Seq<StmtV>
    decreases s,
{
    if s.len() == 0 {
        Seq::empty()
    } else {
        seq![stmt_v(s[0])] + stmts_v(s.drop_first())
    }
}

pub open spec fn params_v(s: Seq<(String, Type)>) -> Seq<(Seq<char>, Type)>
    decreases s,
{
    if s.len() == 0 {
        Seq::empty()
    } else {
        seq![(s[0].0@, s[0].1)] + params_v(s.drop_first())
    }
}

/// The shape of a function value.
pub open spec fn func_v(f: Function) -> FuncV
    decreases f,
{
    FuncV { params: params_v(f.params@), ret: f.ret, body: stmts_v(f.body@) }
}

/// An owned copy of a stored value, equal to the original.  Constants are
/// rebuilt; function values share their parameter list and body.
pub fn dup_value(v: &EnvValue) -> (r: EnvValue)
    requires
        value_wf(*v),
    ensures
        r == *v,
{
    match v {
        EnvValue::Exp(Expression::CInt(i)) => EnvValue::Exp(Expression::CInt(*i)),
        EnvValue::Exp(Expression::CReal(x)) => EnvValue::Exp(Expression::CReal(*x)),
        EnvValue::Exp(Expression::CString(s)) => EnvValue::Exp(Expression::CString(s.clone())),
        EnvValue::Exp(Expression::CTrue) => EnvValue::Exp(Expression::CTrue),
        EnvValue::Exp(Expression::CFalse) => EnvValue::Exp(Expression::CFalse),
        EnvValue::Func(f) => EnvValue::Func(dup_function(f)),
        _ => {
            proof {
                assert(false);
            }
            EnvValue::Exp(Expression::CTrue)
        },
    }
}

/// An owned copy of a function value, equal to the original; the parameter
/// list and body are shared, not copied.
pub fn dup_function(f: &Function) -> (r: Function)
    ensures
        r == *f,
{
    Function { params: rc_share(&f.params), ret: f.ret, body: rc_share(&f.body) }
}

/// Relies on `Rc::clone`: the new handle points at the same allocation, so
/// it holds the very same value.
#[verifier::external_body]
pub(crate) fn rc_share<T>(rc: &Rc<T>) -> (r: Rc<T>)
    ensures
        r == *rc,
{
    Rc::clone(rc)
}

/// The runtime type tag of a well-formed stored value.
pub fn type_of_value(v: &EnvValue) -> (t: Type)
    requires
        value_wf(*v),
    ensures
        t == type_of_val(val_of(*v)),
{
    match v {
        EnvValue::Exp(Expression::CInt(_)) => Type::TInteger,
        EnvValue::Exp(Expression::CReal(_)) => Type::TReal,
        EnvValue::Exp(Expression::CString(_)) => Type::TString,
        EnvValue::Exp(Expression::CTrue) => Type::TBool,
        EnvValue::Exp(Expression::CFalse) => Type::TBool,
        EnvValue::Func(_) => Type::TFunction,
        _ => {
            proof {
                assert(false);
            }
            Type::TInteger
        },
    }
}

} // verus!
