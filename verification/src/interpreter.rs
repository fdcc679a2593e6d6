//! The executable evaluation engine: the expression evaluator, the statement
//! executor with its control-flow signal, and function invocation.
//!
//! Every function here is proved to agree with the definitional interpreter
//! of [`crate::semantics`]: a returned value maps to the spec-level value,
//! and a returned error carries exactly the specified message.

use crate::ast::{
    dup_function, dup_value, exprs_wf, func_wf, stmt_wf, stmts_wf, type_of_val, type_of_value,
    val_of, value_wf, EnvValue, Expression, Function, Statement, Type, Val,
};
use crate::decimal::{
    iabs, real_add, real_div, real_from_int, real_mul, real_neg, real_sub, real_wf, rv, scale_up,
    Real,
};
use crate::env::{entry_val, entry_wf, Environment};
use crate::semantics::{
    as_scaled, bind_params, eq_vals, first_param_mismatch, int_rv, lift_real, msg_add, msg_and,
    msg_arity, msg_assign_type, msg_cmp, msg_div, msg_div_inexact, msg_div_zero, msg_eq,
    msg_if_cond, msg_missing_return, msg_mul, msg_neg, msg_neq, msg_not, msg_not_callable,
    msg_or, msg_overflow, msg_param_type, msg_recursion, msg_return_type, msg_sub,
    msg_var_not_found, msg_while_cond, num_add, num_cmp, num_div, num_mul, num_neg, num_sub, spec_eval, spec_eval_args, spec_exec, spec_exec_block, spec_invoke, trunc_div, Ctl,
    EnvMap,
};
use vstd::prelude::*;
use vstd::string::StringExecFns;

verus! {

/// Fuel handed to the engine by the public entry points.  Each nested
/// evaluation step and each loop iteration consumes one unit; exhaustion is
/// reported as an error rather than running without bound.
pub const DEFAULT_FUEL: u64 = 1_000_000;

/// The outcome of executing a statement or block: continue with the new
/// environment, or an early return carrying a value.
#[derive(Debug, PartialEq)]
pub enum ControlFlow {
    Continue(Environment),
    Return(EnvValue),
}

/// An evaluation outcome agrees with a spec-level outcome.
pub open spec fn ev_matches(r: Result<EnvValue, String>, s: Result<Val, Seq<char>>) -> bool {
    match (r, s) {
        (Ok(v), Ok(w)) => value_wf(v) && val_of(v) == w,
        (Err(m), Err(w)) => m@ == w,
        _ => false,
    }
}

/// An execution outcome agrees with a spec-level outcome.
pub open spec fn cf_matches(r: Result<ControlFlow, String>, s: Result<Ctl, Seq<char>>) -> bool {
    match (r, s) {
        (Ok(ControlFlow::Continue(e)), Ok(Ctl::Next(m))) => e@ == m && e.wf(),
        (Ok(ControlFlow::Return(v)), Ok(Ctl::Ret(w))) => value_wf(v) && val_of(v) == w,
        (Err(m), Err(w)) => m@ == w,
        _ => false,
    }
}

/// The spec-level values of a list of stored values.
pub open spec fn vals_of(vs: Seq<EnvValue>) -> Seq<Val> {
    vs.map_values(|v: EnvValue| val_of(v))
}

fn m_recursion() -> (s: String)
    ensures
        s@ == msg_recursion(),
{
    String::from_str("recursion limit reached.")
}

fn m_var_not_found(name: &str) -> (s: String)
    ensures
        s@ == msg_var_not_found(name@),
{
    String::from_str("Variable ").concat(name).concat(" not found")
}

fn m_add() -> (s: String)
    ensures
        s@ == msg_add(),
{
    String::from_str("addition '(+)' is only defined for numbers (integers and real).")
}

fn m_sub() -> (s: String)
    ensures
        s@ == msg_sub(),
{
    String::from_str("subtraction '(-)' is only defined for numbers (integers and real).")
}

fn m_mul() -> (s: String)
    ensures
        s@ == msg_mul(),
{
    String::from_str("multiplication '(*)' is only defined for numbers (integers and real).")
}

fn m_div() -> (s: String)
    ensures
        s@ == msg_div(),
{
    String::from_str("division '(/)' is only defined for numbers (integers and real).")
}

fn m_neg() -> (s: String)
    ensures
        s@ == msg_neg(),
{
    String::from_str("negation '(-)' is only defined for numbers (integers and real).")
}

fn m_not() -> (s: String)
    ensures
        s@ == msg_not(),
{
    String::from_str("negation '(not)' is only defined for booleans.")
}

fn m_and() -> (s: String)
    ensures
        s@ == msg_and(),
{
    String::from_str("conjunction '(and)' is only defined for booleans.")
}

fn m_or() -> (s: String)
    ensures
        s@ == msg_or(),
{
    String::from_str("disjunction '(or)' is only defined for booleans.")
}

fn m_cmp(op: &str) -> (s: String)
    ensures
        s@ == msg_cmp(op@),
{
    String::from_str("comparison '(").concat(op).concat(
        ")' is only defined for numbers (integers and real).",
    )
}

fn m_eq() -> (s: String)
    ensures
        s@ == msg_eq(),
{
    String::from_str("equality '(==)' is only defined for operands of the same type.")
}

fn m_neq() -> (s: String)
    ensures
        s@ == msg_neq(),
{
    String::from_str("equality '(!=)' is only defined for operands of the same type.")
}

fn m_div_zero() -> (s: String)
    ensures
        s@ == msg_div_zero(),
{
    String::from_str("division by zero.")
}

fn m_overflow() -> (s: String)
    ensures
        s@ == msg_overflow(),
{
    String::from_str("arithmetic overflow.")
}

fn m_div_inexact() -> (s: String)
    ensures
        s@ == msg_div_inexact(),
{
    String::from_str("division result is not representable as a decimal.")
}

fn m_not_callable(name: &str) -> (s: String)
    ensures
        s@ == msg_not_callable(name@),
{
    String::from_str("Variable ").concat(name).concat(" is not a function")
}

fn m_arity(name: &str) -> (s: String)
    ensures
        s@ == msg_arity(name@),
{
    String::from_str("wrong number of arguments in call to ").concat(name)
}

fn m_param_type(pname: &str) -> (s: String)
    ensures
        s@ == msg_param_type(pname@),
{
    String::from_str("argument for parameter ").concat(pname).concat(" has the wrong type")
}

fn m_return_type() -> (s: String)
    ensures
        s@ == msg_return_type(),
{
    String::from_str("return value has the wrong type")
}

fn m_missing_return() -> (s: String)
    ensures
        s@ == msg_missing_return(),
{
    String::from_str("function body finished without a return")
}

fn m_assign_type(name: &str) -> (s: String)
    ensures
        s@ == msg_assign_type(name@),
{
    String::from_str("cannot assign a value of a different type to variable ").concat(name)
}

fn m_if_cond() -> (s: String)
    ensures
        s@ == msg_if_cond(),
{
    String::from_str("'if' condition must be a boolean.")
}

fn m_while_cond() -> (s: String)
    ensures
        s@ == msg_while_cond(),
{
    String::from_str("'while' condition must be a boolean.")
}

/// The stored form of a boolean value.
fn bool_value(p: bool) -> (r: EnvValue)
    ensures
        value_wf(r),
        val_of(r) == Val::VBool(p),
{
    if p {
        EnvValue::Exp(Expression::CTrue)
    } else {
        EnvValue::Exp(Expression::CFalse)
    }
}

/// The boolean a stored value holds, if it holds one.
fn as_bool(v: &EnvValue) -> (r: Option<bool>)
    requires
        value_wf(*v),
    ensures
        match r {
            Some(p) => val_of(*v) == Val::VBool(p),
            None => !(val_of(*v) is VBool),
        },
{
    match v {
        EnvValue::Exp(Expression::CTrue) => Some(true),
        EnvValue::Exp(Expression::CFalse) => Some(false),
        _ => None,
    }
}

/// A represented real result, or the given error message.
fn lift_real_exec(r: Option<Real>, err: String) -> (res: Result<EnvValue, String>)
    requires
        r is Some ==> real_wf(r->Some_0),
    ensures
        ev_matches(res, lift_real(crate::decimal::opt_rv(r), err@)),
{
    match r {
        Some(c) => Ok(EnvValue::Exp(Expression::CReal(c))),
        None => Err(err),
    }
}

/// Addition of two stored values, with numeric promotion.
fn apply_add(a: &EnvValue, b: &EnvValue) -> (r: Result<EnvValue, String>)
    requires
        value_wf(*a),
        value_wf(*b),
    ensures
        ev_matches(r, num_add(val_of(*a), val_of(*b))),
{
    match (a, b) {
        (EnvValue::Exp(Expression::CInt(x)), EnvValue::Exp(Expression::CInt(y))) => match x
            .checked_add(*y) {
            Some(s) => Ok(EnvValue::Exp(Expression::CInt(s))),
            None => Err(m_overflow()),
        },
        (EnvValue::Exp(Expression::CInt(x)), EnvValue::Exp(Expression::CReal(q))) => lift_real_exec(
            real_add(real_from_int(*x), *q),
            m_overflow(),
        ),
        (EnvValue::Exp(Expression::CReal(p)), EnvValue::Exp(Expression::CInt(y))) => lift_real_exec(
            real_add(*p, real_from_int(*y)),
            m_overflow(),
        ),
        (EnvValue::Exp(Expression::CReal(p)), EnvValue::Exp(Expression::CReal(q))) => lift_real_exec(
            real_add(*p, *q),
            m_overflow(),
        ),
        _ => Err(m_add()),
    }
}

/// Subtraction of two stored values, with numeric promotion.
fn apply_sub(a: &EnvValue, b: &EnvValue) -> (r: Result<EnvValue, String>)
    requires
        value_wf(*a),
        value_wf(*b),
    ensures
        ev_matches(r, num_sub(val_of(*a), val_of(*b))),
{
    match (a, b) {
        (EnvValue::Exp(Expression::CInt(x)), EnvValue::Exp(Expression::CInt(y))) => match x
            .checked_sub(*y) {
            Some(s) => Ok(EnvValue::Exp(Expression::CInt(s))),
            None => Err(m_overflow()),
        },
        (EnvValue::Exp(Expression::CInt(x)), EnvValue::Exp(Expression::CReal(q))) => lift_real_exec(
            real_sub(real_from_int(*x), *q),
            m_overflow(),
        ),
        (EnvValue::Exp(Expression::CReal(p)), EnvValue::Exp(Expression::CInt(y))) => lift_real_exec(
            real_sub(*p, real_from_int(*y)),
            m_overflow(),
        ),
        (EnvValue::Exp(Expression::CReal(p)), EnvValue::Exp(Expression::CReal(q))) => lift_real_exec(
            real_sub(*p, *q),
            m_overflow(),
        ),
        _ => Err(m_sub()),
    }
}

/// Multiplication of two stored values, with numeric promotion.
fn apply_mul(a: &EnvValue, b: &EnvValue) -> (r: Result<EnvValue, String>)
    requires
        value_wf(*a),
        value_wf(*b),
    ensures
        ev_matches(r, num_mul(val_of(*a), val_of(*b))),
{
    match (a, b) {
        (EnvValue::Exp(Expression::CInt(x)), EnvValue::Exp(Expression::CInt(y))) => match x
            .checked_mul(*y) {
            Some(s) => Ok(EnvValue::Exp(Expression::CInt(s))),
            None => Err(m_overflow()),
        },
        (EnvValue::Exp(Expression::CInt(x)), EnvValue::Exp(Expression::CReal(q))) => lift_real_exec(
            real_mul(real_from_int(*x), *q),
            m_overflow(),
        ),
        (EnvValue::Exp(Expression::CReal(p)), EnvValue::Exp(Expression::CInt(y))) => lift_real_exec(
            real_mul(*p, real_from_int(*y)),
            m_overflow(),
        ),
        (EnvValue::Exp(Expression::CReal(p)), EnvValue::Exp(Expression::CReal(q))) => lift_real_exec(
            real_mul(*p, *q),
            m_overflow(),
        ),
        _ => Err(m_mul()),
    }
}

/// The magnitude of an integer as an unsigned word.
fn abs_u64(x: i64) -> (r: u64)
    ensures
        r == iabs(x as int),
{
    if x < 0 {
        (-(x as i128)) as u64
    } else {
        x as u64
    }
}

/// Truncating division of two machine integers.
fn int_div(x: i64, y: i64) -> (r: Result<i64, String>)
    requires
        y != 0,
    ensures
        match r {
            Ok(q) => crate::decimal::fits_i64(trunc_div(x as int, y as int)) && q == trunc_div(
                x as int,
                y as int,
            ),
            Err(m) => !crate::decimal::fits_i64(trunc_div(x as int, y as int)) && m@
                == msg_overflow(),
        },
{
    let xu = abs_u64(x);
    let yu = abs_u64(y);
    let q = xu / yu;
    let neg = (x < 0) != (y < 0);
    if neg {
        if q == 9223372036854775808u64 {
            Ok(i64::MIN)
        } else {
            proof {
                assert(q <= xu);
            }
            Ok(-(q as i64))
        }
    } else {
        if q > i64::MAX as u64 {
            Err(m_overflow())
        } else {
            Ok(q as i64)
        }
    }
}

/// Division of two stored values: truncating between integers, exact
/// decimal division when a real is involved.
fn apply_div(a: &EnvValue, b: &EnvValue) -> (r: Result<EnvValue, String>)
    requires
        value_wf(*a),
        value_wf(*b),
    ensures
        ev_matches(r, num_div(val_of(*a), val_of(*b))),
{
    match (a, b) {
        (EnvValue::Exp(Expression::CInt(x)), EnvValue::Exp(Expression::CInt(y))) => {
            if *y == 0 {
                Err(m_div_zero())
            } else {
                match int_div(*x, *y) {
                    Ok(q) => Ok(EnvValue::Exp(Expression::CInt(q))),
                    Err(m) => Err(m),
                }
            }
        },
        (EnvValue::Exp(Expression::CInt(x)), EnvValue::Exp(Expression::CReal(q))) => {
            if q.mant == 0 {
                Err(m_div_zero())
            } else {
                lift_real_exec(real_div(real_from_int(*x), *q), m_div_inexact())
            }
        },
        (EnvValue::Exp(Expression::CReal(p)), EnvValue::Exp(Expression::CInt(y))) => {
            if *y == 0 {
                Err(m_div_zero())
            } else {
                lift_real_exec(real_div(*p, real_from_int(*y)), m_div_inexact())
            }
        },
        (EnvValue::Exp(Expression::CReal(p)), EnvValue::Exp(Expression::CReal(q))) => {
            if q.mant == 0 {
                Err(m_div_zero())
            } else {
                lift_real_exec(real_div(*p, *q), m_div_inexact())
            }
        },
        _ => Err(m_div()),
    }
}

/// Unary negation of a stored value.
fn apply_neg(a: &EnvValue) -> (r: Result<EnvValue, String>)
    requires
        value_wf(*a),
    ensures
        ev_matches(r, num_neg(val_of(*a))),
{
    match a {
        EnvValue::Exp(Expression::CInt(x)) => {
            if *x == i64::MIN {
                Err(m_overflow())
            } else {
                Ok(EnvValue::Exp(Expression::CInt(-*x)))
            }
        },
        EnvValue::Exp(Expression::CReal(p)) => lift_real_exec(real_neg(*p), m_overflow()),
        _ => Err(m_neg()),
    }
}

/// A numeric stored value scaled to the common comparison scale.
fn to_scaled(v: &EnvValue) -> (r: Option<i128>)
    requires
        value_wf(*v),
    ensures
        match r {
            Some(x) => as_scaled(val_of(*v)) == Some(x as int),
            None => as_scaled(val_of(*v)) is None,
        },
{
    match v {
        EnvValue::Exp(Expression::CInt(x)) => Some(scale_up(real_from_int(*x))),
        EnvValue::Exp(Expression::CReal(p)) => Some(scale_up(*p)),
        _ => None,
    }
}

/// A numeric comparison of two stored values.
fn apply_cmp(a: &EnvValue, b: &EnvValue, op: &str, lt: bool, eq: bool, gt: bool) -> (r: Result<
    EnvValue,
    String,
>)
    requires
        value_wf(*a),
        value_wf(*b),
    ensures
        ev_matches(r, num_cmp(val_of(*a), val_of(*b), op@, lt, eq, gt)),
{
    let sa = to_scaled(a);
    let sb = to_scaled(b);
    match (sa, sb) {
        (Some(x), Some(y)) => {
            if x < y {
                Ok(bool_value(lt))
            } else if x == y {
                Ok(bool_value(eq))
            } else {
                Ok(bool_value(gt))
            }
        },
        _ => Err(m_cmp(op)),
    }
}

/// Same-type equality of two stored values, or `None` when the comparison
/// itself is ill-typed.
fn value_eq(a: &EnvValue, b: &EnvValue) -> (r: Option<bool>)
    requires
        value_wf(*a),
        value_wf(*b),
    ensures
        r == eq_vals(val_of(*a), val_of(*b)),
{
    match (a, b) {
        (EnvValue::Exp(Expression::CInt(x)), EnvValue::Exp(Expression::CInt(y))) => Some(x == y),
        (EnvValue::Exp(Expression::CReal(p)), EnvValue::Exp(Expression::CReal(q))) => Some(
            crate::decimal::real_eq_val(*p, *q),
        ),
        (EnvValue::Exp(Expression::CTrue), EnvValue::Exp(Expression::CTrue)) => Some(true),
        (EnvValue::Exp(Expression::CTrue), EnvValue::Exp(Expression::CFalse)) => Some(false),
        (EnvValue::Exp(Expression::CFalse), EnvValue::Exp(Expression::CTrue)) => Some(false),
        (EnvValue::Exp(Expression::CFalse), EnvValue::Exp(Expression::CFalse)) => Some(true),
        (EnvValue::Exp(Expression::CString(p)), EnvValue::Exp(Expression::CString(q))) => Some(
            crate::env::str_eq(p.as_str(), q.as_str()),
        ),
        _ => None,
    }
}

/// Every statement of a well-formed block is well formed.
proof fn lemma_stmts_wf_index(s: Seq<Statement>, i: int)
    requires
        stmts_wf(s),
        0 <= i < s.len(),
    ensures
        stmt_wf(s[i]),
    decreases i,
{
    if i > 0 {
        lemma_stmts_wf_index(s.drop_first(), i - 1);
    }
}

/// Every argument of a well-formed argument list is well formed.
proof fn lemma_exprs_wf_index(s: Seq<Expression>, i: int)
    requires
        exprs_wf(s),
        0 <= i < s.len(),
    ensures
        crate::ast::expr_wf(s[i]),
    decreases i,
{
    if i > 0 {
        lemma_exprs_wf_index(s.drop_first(), i - 1);
    }
}

/// Evaluate an expression under the given fuel.
#[verifier::rlimit(100)]
pub fn eval_fuel(e: &Expression, env: &Environment, fuel: u64) -> (r: Result<EnvValue, String>)
    requires
        crate::ast::expr_wf(*e),
        env.wf(),
    ensures
        ev_matches(r, spec_eval(*e, env@, fuel as nat)),
    decreases fuel, 2int,
{
    if fuel == 0 {
        return Err(m_recursion());
    }
    let f = fuel - 1;
    match e {
        Expression::CInt(i) => Ok(EnvValue::Exp(Expression::CInt(*i))),
        Expression::CReal(p) => Ok(EnvValue::Exp(Expression::CReal(*p))),
        Expression::CString(s) => Ok(EnvValue::Exp(Expression::CString(s.clone()))),
        Expression::CTrue => Ok(EnvValue::Exp(Expression::CTrue)),
        Expression::CFalse => Ok(EnvValue::Exp(Expression::CFalse)),
        Expression::Var(name) => match env.get(name.as_str()) {
            Some(p) => match &p.0 {
                Some(v) => Ok(dup_value(v)),
                None => Err(m_var_not_found(name.as_str())),
            },
            None => Err(m_var_not_found(name.as_str())),
        },
        Expression::Neg(x) => match eval_fuel(x, env, f) {
            Ok(v) => apply_neg(&v),
            Err(m) => Err(m),
        },
        Expression::Not(x) => match eval_fuel(x, env, f) {
            Ok(v) => match as_bool(&v) {
                Some(p) => Ok(bool_value(!p)),
                None => Err(m_not()),
            },
            Err(m) => Err(m),
        },
        Expression::Add(_, _) => eval_binary_fuel(e, env, fuel),
        Expression::Sub(_, _) => eval_binary_fuel(e, env, fuel),
        Expression::Mul(_, _) => eval_binary_fuel(e, env, fuel),
        Expression::Div(_, _) => eval_binary_fuel(e, env, fuel),
        Expression::And(_, _) => eval_binary_fuel(e, env, fuel),
        Expression::Or(_, _) => eval_binary_fuel(e, env, fuel),
        Expression::EQ(_, _) => eval_binary_fuel(e, env, fuel),
        Expression::NEQ(_, _) => eval_binary_fuel(e, env, fuel),
        Expression::GT(_, _) => eval_binary_fuel(e, env, fuel),
        Expression::LT(_, _) => eval_binary_fuel(e, env, fuel),
        Expression::GTE(_, _) => eval_binary_fuel(e, env, fuel),
        Expression::LTE(_, _) => eval_binary_fuel(e, env, fuel),
        Expression::FuncCall(name, args) => match env.get(name.as_str()) {
            None => Err(m_var_not_found(name.as_str())),
            Some(p) => match &p.0 {
                None => Err(m_var_not_found(name.as_str())),
                Some(EnvValue::Func(fv)) => {
                    let fv2 = dup_function(fv);
                    proof {
                        assert(args@.skip(0) =~= args@);
                    }
                    match eval_args_from(args, 0, env, f) {
                        Err(m) => Err(m),
                        Ok(vals) => invoke_fuel(name.as_str(), &fv2, &vals, env, f),
                    }
                },
                Some(_) => Err(m_not_callable(name.as_str())),
            },
        },
    }
}

/// Evaluate a binary operator expression under the given fuel.
#[verifier::rlimit(100)]
fn eval_binary_fuel(e: &Expression, env: &Environment, fuel: u64) -> (r: Result<EnvValue, String>)
    requires
        crate::ast::expr_wf(*e),
        env.wf(),
        fuel >= 1,
        e matches Expression::Add(_, _) || e matches Expression::Sub(_, _) || e
            matches Expression::Mul(_, _) || e matches Expression::Div(_, _) || e
            matches Expression::And(_, _) || e matches Expression::Or(_, _) || e
            matches Expression::EQ(_, _) || e matches Expression::NEQ(_, _) || e
            matches Expression::GT(_, _) || e matches Expression::LT(_, _) || e
            matches Expression::GTE(_, _) || e matches Expression::LTE(_, _),
    ensures
        ev_matches(r, spec_eval(*e, env@, fuel as nat)),
    decreases fuel, 1int,
{
    let f = fuel - 1;
    match e {
        Expression::Add(l, r) => match eval_fuel(l, env, f) {
            Err(m) => Err(m),
            Ok(a) => match eval_fuel(r, env, f) {
                Err(m) => Err(m),
                Ok(b) => apply_add(&a, &b),
            },
        },
        Expression::Sub(l, r) => match eval_fuel(l, env, f) {
            Err(m) => Err(m),
            Ok(a) => match eval_fuel(r, env, f) {
                Err(m) => Err(m),
                Ok(b) => apply_sub(&a, &b),
            },
        },
        Expression::Mul(l, r) => match eval_fuel(l, env, f) {
            Err(m) => Err(m),
            Ok(a) => match eval_fuel(r, env, f) {
                Err(m) => Err(m),
                Ok(b) => apply_mul(&a, &b),
            },
        },
        Expression::Div(l, r) => match eval_fuel(l, env, f) {
            Err(m) => Err(m),
            Ok(a) => match eval_fuel(r, env, f) {
                Err(m) => Err(m),
                Ok(b) => apply_div(&a, &b),
            },
        },
        Expression::And(l, r) => match eval_fuel(l, env, f) {
            Err(m) => Err(m),
            Ok(a) => match eval_fuel(r, env, f) {
                Err(m) => Err(m),
                Ok(b) => match (as_bool(&a), as_bool(&b)) {
                    (Some(p), Some(q)) => Ok(bool_value(p && q)),
                    _ => Err(m_and()),
                },
            },
        },
        Expression::Or(l, r) => match eval_fuel(l, env, f) {
            Err(m) => Err(m),
            Ok(a) => match eval_fuel(r, env, f) {
                Err(m) => Err(m),
                Ok(b) => match (as_bool(&a), as_bool(&b)) {
                    (Some(p), Some(q)) => Ok(bool_value(p || q)),
                    _ => Err(m_or()),
                },
            },
        },
        Expression::EQ(l, r) => match eval_fuel(l, env, f) {
            Err(m) => Err(m),
            Ok(a) => match eval_fuel(r, env, f) {
                Err(m) => Err(m),
                Ok(b) => match value_eq(&a, &b) {
                    Some(p) => Ok(bool_value(p)),
                    None => Err(m_eq()),
                },
            },
        },
        Expression::NEQ(l, r) => match eval_fuel(l, env, f) {
            Err(m) => Err(m),
            Ok(a) => match eval_fuel(r, env, f) {
                Err(m) => Err(m),
                Ok(b) => match value_eq(&a, &b) {
                    Some(p) => Ok(bool_value(!p)),
                    None => Err(m_neq()),
                },
            },
        },
        Expression::GT(l, r) => match eval_fuel(l, env, f) {
            Err(m) => Err(m),
            Ok(a) => match eval_fuel(r, env, f) {
                Err(m) => Err(m),
                Ok(b) => apply_cmp(&a, &b, ">", false, false, true),
            },
        },
        Expression::LT(l, r) => match eval_fuel(l, env, f) {
            Err(m) => Err(m),
            Ok(a) => match eval_fuel(r, env, f) {
                Err(m) => Err(m),
                Ok(b) => apply_cmp(&a, &b, "<", true, false, false),
            },
        },
        Expression::GTE(l, r) => match eval_fuel(l, env, f) {
            Err(m) => Err(m),
            Ok(a) => match eval_fuel(r, env, f) {
                Err(m) => Err(m),
                Ok(b) => apply_cmp(&a, &b, ">=", false, true, true),
            },
        },
        Expression::LTE(l, r) => match eval_fuel(l, env, f) {
            Err(m) => Err(m),
            Ok(a) => match eval_fuel(r, env, f) {
                Err(m) => Err(m),
                Ok(b) => apply_cmp(&a, &b, "<=", true, true, false),
            },
        },
        _ => {
            proof {
                assert(false);
            }
            Err(m_recursion())
        },
    }
}

/// Evaluate the arguments from position `i` on, left to right.
fn eval_args_from(args: &Vec<Expression>, i: usize, env: &Environment, fuel: u64) -> (r: Result<
    Vec<EnvValue>,
    String,
>)
    requires
        exprs_wf(args@),
        env.wf(),
        i <= args@.len(),
    ensures
        match (r, spec_eval_args(args@.skip(i as int), env@, fuel as nat)) {
            (Ok(vs), Ok(ss)) => vals_of(vs@) == ss && forall|j: int|
                0 <= j < vs@.len() ==> value_wf(#[trigger] vs@[j]),
            (Err(m), Err(w)) => m@ == w,
            _ => false,
        },
    decreases fuel,
{
    if fuel == 0 {
        return Err(m_recursion());
    }
    if i == args.len() {
        let out: Vec<EnvValue> = Vec::new();
        proof {
            assert(args@.skip(i as int).len() == 0);
            assert(vals_of(out@) =~= Seq::<Val>::empty());
        }
        return Ok(out);
    }
    proof {
        lemma_exprs_wf_index(args@, i as int);
        assert(args@.skip(i as int)[0] == args@[i as int]);
        assert(args@.skip(i as int).drop_first() =~= args@.skip(i as int + 1));
    }
    match eval_fuel(&args[i], env, fuel - 1) {
        Err(m) => Err(m),
        Ok(v) => match eval_args_from(args, i + 1, env, fuel - 1) {
            Err(m) => Err(m),
            Ok(mut rest) => {
                let ghost old_rest = rest@;
                rest.insert(0, v);
                proof {
                    assert(rest@ =~= seq![v] + old_rest);
                    assert(vals_of(rest@) =~= seq![val_of(v)] + vals_of(old_rest));
                    assert(forall|j: int|
                        0 <= j < rest@.len() ==> value_wf(#[trigger] rest@[j]));
                }
                Ok(rest)
            },
        },
    }
}

/// The first parameter from position `i` on whose declared type its
/// argument value misses.
fn check_params_from(params: &Vec<(String, Type)>, vals: &Vec<EnvValue>, i: usize) -> (r: Option<
    String,
>)
    requires
        vals@.len() == params@.len(),
        i <= params@.len(),
        forall|j: int| 0 <= j < vals@.len() ==> value_wf(#[trigger] vals@[j]),
    ensures
        match r {
            Some(p) => first_param_mismatch(
                params@.skip(i as int),
                vals_of(vals@).skip(i as int),
            ) == Some(p@),
            None => first_param_mismatch(params@.skip(i as int), vals_of(vals@).skip(i as int))
                is None,
        },
    decreases params@.len() - i,
{
    if i == params.len() {
        None
    } else {
        proof {
            assert(params@.skip(i as int)[0] == params@[i as int]);
            assert(vals_of(vals@).skip(i as int)[0] == val_of(vals@[i as int]));
        }
        if type_of_value(&vals[i]) != params[i].1 {
            Some(params[i].0.clone())
        } else {
            proof {
                assert(params@.skip(i as int).drop_first() =~= params@.skip(i as int + 1));
                assert(vals_of(vals@).skip(i as int).drop_first() =~= vals_of(vals@).skip(
                    i as int + 1,
                ));
            }
            check_params_from(params, vals, i + 1)
        }
    }
}

/// Invoke a function value on evaluated arguments: arity and parameter-type
/// checks, a fresh scope over the caller's environment, the body, and the
/// return-type check.
pub fn invoke_fuel(
    name: &str,
    fv: &Function,
    vals: &Vec<EnvValue>,
    env: &Environment,
    fuel: u64,
) -> (r: Result<EnvValue, String>)
    requires
        func_wf(*fv),
        env.wf(),
        forall|j: int| 0 <= j < vals@.len() ==> value_wf(#[trigger] vals@[j]),
    ensures
        ev_matches(r, spec_invoke(name@, *fv, vals_of(vals@), env@, fuel as nat)),
    decreases fuel,
{
    if fuel == 0 {
        return Err(m_recursion());
    }
    let params: &Vec<(String, Type)> = &*fv.params;
    if vals.len() != params.len() {
        return Err(m_arity(name));
    }
    proof {
        assert(params@.skip(0) =~= params@);
        assert(vals_of(vals@).skip(0) =~= vals_of(vals@));
    }
    match check_params_from(params, vals, 0) {
        Some(pname) => Err(m_param_type(pname.as_str())),
        None => {
            let mut env2 = env.duplicate();
            let mut i: usize = 0;
            while i < params.len()
                invariant
                    env2.wf(),
                    i <= params@.len(),
                    vals@.len() == params@.len(),
                    forall|j: int| 0 <= j < vals@.len() ==> value_wf(#[trigger] vals@[j]),
                    bind_params(env@, params@, vals_of(vals@)) == bind_params(
                        env2@,
                        params@.skip(i as int),
                        vals_of(vals@).skip(i as int),
                    ),
                decreases params@.len() - i,
            {
                proof {
                    assert(params@.skip(i as int)[0] == params@[i as int]);
                    assert(vals_of(vals@).skip(i as int)[0] == val_of(vals@[i as int]));
                    assert(params@.skip(i as int).drop_first() =~= params@.skip(i as int + 1));
                    assert(vals_of(vals@).skip(i as int).drop_first() =~= vals_of(vals@).skip(
                        i as int + 1,
                    ));
                }
                let v = dup_value(&vals[i]);
                env2.insert(params[i].0.clone(), (Some(v), params[i].1));
                i = i + 1;
            }
            proof {
                assert(params@.skip(params@.len() as int) =~= Seq::<(String, Type)>::empty());
                assert(vals_of(vals@).skip(params@.len() as int) =~= Seq::<Val>::empty());
            }
            let body: &Vec<Statement> = &*fv.body;
            match execute_block_fuel(body, env2, fuel - 1) {
                Err(m) => Err(m),
                Ok(ControlFlow::Return(v)) => {
                    if type_of_value(&v) == fv.ret {
                        Ok(v)
                    } else {
                        Err(m_return_type())
                    }
                },
                Ok(ControlFlow::Continue(_)) => Err(m_missing_return()),
            }
        },
    }
}

/// Execute one statement under the given fuel.
pub fn execute_fuel(st: &Statement, env: Environment, fuel: u64) -> (r: Result<ControlFlow, String>)
    requires
        stmt_wf(*st),
        env.wf(),
    ensures
        cf_matches(r, spec_exec(*st, env@, fuel as nat)),
    decreases fuel,
{
    if fuel == 0 {
        return Err(m_recursion());
    }
    let f = fuel - 1;
    match st {
        Statement::Assignment(name, e) => match eval_fuel(e, &env, f) {
            Err(m) => Err(m),
            Ok(v) => {
                let declared: Option<Type> = match env.get(name.as_str()) {
                    Some(p) => Some(p.1),
                    None => None,
                };
                match declared {
                    Some(t) => {
                        if type_of_value(&v) == t {
                            let mut env2 = env;
                            env2.insert(name.clone(), (Some(v), t));
                            Ok(ControlFlow::Continue(env2))
                        } else {
                            Err(m_assign_type(name.as_str()))
                        }
                    },
                    None => {
                        let t = type_of_value(&v);
                        let mut env2 = env;
                        env2.insert(name.clone(), (Some(v), t));
                        Ok(ControlFlow::Continue(env2))
                    },
                }
            },
        },
        Statement::IfThenElse(c, t, els) => match eval_fuel(c, &env, f) {
            Err(m) => Err(m),
            Ok(v) => match as_bool(&v) {
                Some(true) => execute_block_fuel(t, env, f),
                Some(false) => execute_block_fuel(els, env, f),
                None => Err(m_if_cond()),
            },
        },
        Statement::While(c, b) => {
            let mut cur_env = env;
            let mut cur_fuel = fuel;
            loop
                invariant
                    cur_env.wf(),
                    1 <= cur_fuel <= fuel,
                    stmt_wf(*st),
                    *st == Statement::While(*c, *b),
                    crate::ast::expr_wf(**c),
                    stmts_wf(b@),
                    spec_exec(*st, env@, fuel as nat) == spec_exec(
                        *st,
                        cur_env@,
                        cur_fuel as nat,
                    ),
                decreases cur_fuel,
            {
                let g = cur_fuel - 1;
                match eval_fuel(c, &cur_env, g) {
                    Err(m) => {
                        return Err(m);
                    },
                    Ok(v) => match as_bool(&v) {
                        Some(false) => {
                            return Ok(ControlFlow::Continue(cur_env));
                        },
                        Some(true) => match execute_block_fuel(b, cur_env, g) {
                            Err(m) => {
                                return Err(m);
                            },
                            Ok(ControlFlow::Return(rv2)) => {
                                return Ok(ControlFlow::Return(rv2));
                            },
                            Ok(ControlFlow::Continue(e2)) => {
                                if g == 0 {
                                    return Err(m_recursion());
                                }
                                cur_env = e2;
                                cur_fuel = g;
                            },
                        },
                        None => {
                            return Err(m_while_cond());
                        },
                    },
                }
            }
        },
        Statement::Block(b) => execute_block_fuel(b, env, f),
        Statement::FuncDecl(name, fv) => {
            let fv2 = dup_function(fv);
            let mut env2 = env;
            env2.insert(name.clone(), (Some(EnvValue::Func(fv2)), Type::TFunction));
            Ok(ControlFlow::Continue(env2))
        },
        Statement::Return(e) => match eval_fuel(e, &env, f) {
            Err(m) => Err(m),
            Ok(v) => Ok(ControlFlow::Return(v)),
        },
    }
}

/// Execute the statements of a block in order, threading the environment
/// forward; the first early return short-circuits the rest.
pub fn execute_block_fuel(ss: &Vec<Statement>, env: Environment, fuel: u64) -> (r: Result<
    ControlFlow,
    String,
>)
    requires
        stmts_wf(ss@),
        env.wf(),
    ensures
        cf_matches(r, spec_exec_block(ss@, env@, fuel as nat)),
    decreases fuel,
{
    let mut cur_env = env;
    let mut cur_fuel = fuel;
    let mut i: usize = 0;
    proof {
        assert(ss@.skip(0) =~= ss@);
    }
    loop
        invariant
            cur_env.wf(),
            stmts_wf(ss@),
            i <= ss@.len(),
            cur_fuel <= fuel,
            spec_exec_block(ss@, env@, fuel as nat) == spec_exec_block(
                ss@.skip(i as int),
                cur_env@,
                cur_fuel as nat,
            ),
        decreases cur_fuel,
    {
        if cur_fuel == 0 {
            return Err(m_recursion());
        }
        if i == ss.len() {
            proof {
                assert(ss@.skip(i as int) =~= Seq::<Statement>::empty());
            }
            return Ok(ControlFlow::Continue(cur_env));
        }
        proof {
            lemma_stmts_wf_index(ss@, i as int);
            assert(ss@.skip(i as int)[0] == ss@[i as int]);
            assert(ss@.skip(i as int).drop_first() =~= ss@.skip(i as int + 1));
        }
        match execute_fuel(&ss[i], cur_env, cur_fuel - 1) {
            Err(m) => {
                return Err(m);
            },
            Ok(ControlFlow::Return(v)) => {
                return Ok(ControlFlow::Return(v));
            },
            Ok(ControlFlow::Continue(e2)) => {
                cur_env = e2;
                cur_fuel = cur_fuel - 1;
                i = i + 1;
            },
        }
    }
}

/// Evaluate an expression against an environment, with the default fuel.
pub fn eval(expr: Expression, env: &Environment) -> (r: Result<EnvValue, String>)
    requires
        crate::ast::expr_wf(expr),
        env.wf(),
    ensures
        ev_matches(r, spec_eval(expr, env@, DEFAULT_FUEL as nat)),
{
    eval_fuel(&expr, env, DEFAULT_FUEL)
}

/// Execute one statement against an environment, with the default fuel.
pub fn execute(stmt: &Statement, env: &Environment) -> (r: Result<ControlFlow, String>)
    requires
        stmt_wf(*stmt),
        env.wf(),
    ensures
        cf_matches(r, spec_exec(*stmt, env@, DEFAULT_FUEL as nat)),
{
    execute_fuel(stmt, env.duplicate(), DEFAULT_FUEL)
}

/// Execute a block of statements against an environment, with the default
/// fuel.
pub fn execute_block(stmts: &Vec<Statement>, env: &Environment) -> (r: Result<ControlFlow, String>)
    requires
        stmts_wf(stmts@),
        env.wf(),
    ensures
        cf_matches(r, spec_exec_block(stmts@, env@, DEFAULT_FUEL as nat)),
{
    execute_block_fuel(stmts, env.duplicate(), DEFAULT_FUEL)
}

} // verus!
