//! The definitional interpreter: the meaning of expressions and statements,
//! written as specification functions over the spec-level value model.
//!
//! Evaluation is leaves-first and type-checked at each operation site; an
//! ill-typed operation yields the error message fixed here.  Executing a
//! statement yields either `Ctl::Next` with the new environment or
//! `Ctl::Ret` with an early-return value, and that signal propagates
//! unchanged through blocks and loops until a function-call boundary absorbs
//! it.  Recursion through stored function bodies is measured by a fuel
//! parameter; the executable engine runs with a generous default and reports
//! exhaustion as an error.

use crate::ast::{type_of_val, Expression, Function, Statement, Type, Val};
use crate::decimal::{
    fits_i64, iabs, pow10, spec_real_add, spec_real_div, spec_real_mul, spec_real_neg,
    spec_real_sub, sval, RealV, MAX_SCALE,
};
use vstd::prelude::*;

verus! {

/// The view of an environment: name to (optional value, declared type).
pub type EnvMap = Map<Seq<char>, (Option<Val>, Type)>;

/// The spec-level control-flow signal of executing a statement.
pub enum Ctl {
    Next(EnvMap),
    Ret(Val),
}

pub open spec fn msg_recursion() -> Seq<char> {
    "recursion limit reached."@
}

pub open spec fn msg_var_not_found(name: Seq<char>) -> Seq<char> {
    "Variable "@ + name + " not found"@
}

pub open spec fn msg_add() -> Seq<char> {
    "addition '(+)' is only defined for numbers (integers and real)."@
}

pub open spec fn msg_sub() -> Seq<char> {
    "subtraction '(-)' is only defined for numbers (integers and real)."@
}

pub open spec fn msg_mul() -> Seq<char> {
    "multiplication '(*)' is only defined for numbers (integers and real)."@
}

pub open spec fn msg_div() -> Seq<char> {
    "division '(/)' is only defined for numbers (integers and real)."@
}

pub open spec fn msg_neg() -> Seq<char> {
    "negation '(-)' is only defined for numbers (integers and real)."@
}

pub open spec fn msg_not() -> Seq<char> {
    "negation '(not)' is only defined for booleans."@
}

pub open spec fn msg_and() -> Seq<char> {
    "conjunction '(and)' is only defined for booleans."@
}

pub open spec fn msg_or() -> Seq<char> {
    "disjunction '(or)' is only defined for booleans."@
}

pub open spec fn msg_cmp(op: Seq<char>) -> Seq<char> {
    "comparison '("@ + op + ")' is only defined for numbers (integers and real)."@
}

pub open spec fn msg_eq() -> Seq<char> {
    "equality '(==)' is only defined for operands of the same type."@
}

pub open spec fn msg_neq() -> Seq<char> {
    "equality '(!=)' is only defined for operands of the same type."@
}

pub open spec fn msg_div_zero() -> Seq<char> {
    "division by zero."@
}

pub open spec fn msg_overflow() -> Seq<char> {
    "arithmetic overflow."@
}

pub open spec fn msg_div_inexact() -> Seq<char> {
    "division result is not representable as a decimal."@
}

pub open spec fn msg_not_callable(name: Seq<char>) -> Seq<char> {
    "Variable "@ + name + " is not a function"@
}

pub open spec fn msg_arity(name: Seq<char>) -> Seq<char> {
    "wrong number of arguments in call to "@ + name
}

pub open spec fn msg_param_type(pname: Seq<char>) -> Seq<char> {
    "argument for parameter "@ + pname + " has the wrong type"@
}

pub open spec fn msg_return_type() -> Seq<char> {
    "return value has the wrong type"@
}

pub open spec fn msg_missing_return() -> Seq<char> {
    "function body finished without a return"@
}

pub open spec fn msg_assign_type(name: Seq<char>) -> Seq<char> {
    "cannot assign a value of a different type to variable "@ + name
}

pub open spec fn msg_if_cond() -> Seq<char> {
    "'if' condition must be a boolean."@
}

pub open spec fn msg_while_cond() -> Seq<char> {
    "'while' condition must be a boolean."@
}

/// The real with the value of the integer `x`.
pub open spec fn int_rv(x: int) -> RealV {
    RealV { m: x, k: 0 }
}

/// A numeric value scaled to `10^MAX_SCALE`, or `None` when not numeric.
pub open spec fn as_scaled(v: Val) -> Option<int> {
    match v {
        Val::VInt(x) => Some(x * pow10(MAX_SCALE as nat)),
        Val::VReal(r) => Some(sval(r)),
        _ => None,
    }
}

/// Both operands as scaled numerics, or `None` when either is not numeric.
pub open spec fn num_pair(a: Val, b: Val) -> Option<(int, int)> {
    match (as_scaled(a), as_scaled(b)) {
        (Some(x), Some(y)) => Some((x, y)),
        _ => None,
    }
}

/// Same-type equality, or `None` for a cross-type or function comparison.
pub open spec fn eq_vals(a: Val, b: Val) -> Option<bool> {
    match (a, b) {
        (Val::VInt(x), Val::VInt(y)) => Some(x == y),
        (Val::VReal(p), Val::VReal(q)) => Some(sval(p) == sval(q)),
        (Val::VBool(p), Val::VBool(q)) => Some(p == q),
        (Val::VStr(p), Val::VStr(q)) => Some(p == q),
        _ => None,
    }
}

/// Truncating integer division (quotient rounded toward zero).
pub open spec fn trunc_div(x: int, y: int) -> int {
    if (x < 0) == (y < 0) {
        iabs(x) / iabs(y)
    } else {
        -(iabs(x) / iabs(y))
    }
}

/// A represented real result, or the given error.
pub open spec fn lift_real(r: Option<RealV>, err: Seq<char>) -> Result<Val, Seq<char>> {
    match r {
        Some(c) => Ok(Val::VReal(c)),
        None => Err(err),
    }
}

/// Addition with numeric promotion: two integers add as integers; a real
/// operand promotes the other side.
pub open spec fn num_add(a: Val, b: Val) -> Result<Val, Seq<char>> {
    match (a, b) {
        (Val::VInt(x), Val::VInt(y)) => if fits_i64(x + y) {
            Ok(Val::VInt(x + y))
        } else {
            Err(msg_overflow())
        },
        (Val::VInt(x), Val::VReal(r)) => lift_real(spec_real_add(int_rv(x), r), msg_overflow()),
        (Val::VReal(r), Val::VInt(y)) => lift_real(spec_real_add(r, int_rv(y)), msg_overflow()),
        (Val::VReal(p), Val::VReal(q)) => lift_real(spec_real_add(p, q), msg_overflow()),
        _ => Err(msg_add()),
    }
}

pub open spec fn num_sub(a: Val, b: Val) -> Result<Val, Seq<char>> {
    match (a, b) {
        (Val::VInt(x), Val::VInt(y)) => if fits_i64(x - y) {
            Ok(Val::VInt(x - y))
        } else {
            Err(msg_overflow())
        },
        (Val::VInt(x), Val::VReal(r)) => lift_real(spec_real_sub(int_rv(x), r), msg_overflow()),
        (Val::VReal(r), Val::VInt(y)) => lift_real(spec_real_sub(r, int_rv(y)), msg_overflow()),
        (Val::VReal(p), Val::VReal(q)) => lift_real(spec_real_sub(p, q), msg_overflow()),
        _ => Err(msg_sub()),
    }
}

pub open spec fn num_mul(a: Val, b: Val) -> Result<Val, Seq<char>> {
    match (a, b) {
        (Val::VInt(x), Val::VInt(y)) => if fits_i64(x * y) {
            Ok(Val::VInt(x * y))
        } else {
            Err(msg_overflow())
        },
        (Val::VInt(x), Val::VReal(r)) => lift_real(spec_real_mul(int_rv(x), r), msg_overflow()),
        (Val::VReal(r), Val::VInt(y)) => lift_real(spec_real_mul(r, int_rv(y)), msg_overflow()),
        (Val::VReal(p), Val::VReal(q)) => lift_real(spec_real_mul(p, q), msg_overflow()),
        _ => Err(msg_mul()),
    }
}

/// Division: integer over integer truncates; any real operand makes the
/// division exact decimal division.
pub open spec fn num_div(a: Val, b: Val) -> Result<Val, Seq<char>> {
    match (a, b) {
        (Val::VInt(x), Val::VInt(y)) => if y == 0 {
            Err(msg_div_zero())
        } else if fits_i64(trunc_div(x, y)) {
            Ok(Val::VInt(trunc_div(x, y)))
        } else {
            Err(msg_overflow())
        },
        (Val::VInt(x), Val::VReal(r)) => if r.m == 0 {
            Err(msg_div_zero())
        } else {
            lift_real(spec_real_div(int_rv(x), r), msg_div_inexact())
        },
        (Val::VReal(r), Val::VInt(y)) => if y == 0 {
            Err(msg_div_zero())
        } else {
            lift_real(spec_real_div(r, int_rv(y)), msg_div_inexact())
        },
        (Val::VReal(p), Val::VReal(q)) => if q.m == 0 {
            Err(msg_div_zero())
        } else {
            lift_real(spec_real_div(p, q), msg_div_inexact())
        },
        _ => Err(msg_div()),
    }
}

/// Unary negation of a numeric value.
pub open spec fn num_neg(a: Val) -> Result<Val, Seq<char>> {
    match a {
        Val::VInt(x) => if fits_i64(-x) {
            Ok(Val::VInt(-x))
        } else {
            Err(msg_overflow())
        },
        Val::VReal(r) => lift_real(spec_real_neg(r), msg_overflow()),
        _ => Err(msg_neg()),
    }
}

/// A numeric comparison with the given operator spelling and outcome.
pub open spec fn num_cmp(a: Val, b: Val, op: Seq<char>, lt: bool, eq: bool, gt: bool) -> Result<
    Val,
    Seq<char>,
> {
    match num_pair(a, b) {
        Some((x, y)) => Ok(
            Val::VBool(
                if x < y {
                    lt
                } else if x == y {
                    eq
                } else {
                    gt
                },
            ),
        ),
        None => Err(msg_cmp(op)),
    }
}

/// The meaning of an expression: its value, or the error message, under the
/// given environment and fuel.
pub open spec fn spec_eval(e: Expression, env: EnvMap, fuel: nat) -> Result<Val, Seq<char>>
    decreases fuel,
{
    if fuel == 0 {
        Err(msg_recursion())
    } else {
        let f = (fuel - 1) as nat;
        match e {
            Expression::CInt(i) => Ok(Val::VInt(i as int)),
            Expression::CReal(r) => Ok(Val::VReal(crate::decimal::rv(r))),
            Expression::CString(s) => Ok(Val::VStr(s@)),
            Expression::CTrue => Ok(Val::VBool(true)),
            Expression::CFalse => Ok(Val::VBool(false)),
            Expression::Var(name) => match env.contains_key(name@) {
                true => match env[name@].0 {
                    Some(v) => Ok(v),
                    None => Err(msg_var_not_found(name@)),
                },
                false => Err(msg_var_not_found(name@)),
            },
            Expression::Neg(x) => match spec_eval(*x, env, f) {
                Ok(v) => num_neg(v),
                Err(m) => Err(m),
            },
            Expression::Not(x) => match spec_eval(*x, env, f) {
                Ok(Val::VBool(p)) => Ok(Val::VBool(!p)),
                Ok(_) => Err(msg_not()),
                Err(m) => Err(m),
            },
            Expression::Add(l, r) => match (spec_eval(*l, env, f), spec_eval(*r, env, f)) {
                (Ok(a), Ok(b)) => num_add(a, b),
                (Err(m), _) => Err(m),
                (_, Err(m)) => Err(m),
            },
            Expression::Sub(l, r) => match (spec_eval(*l, env, f), spec_eval(*r, env, f)) {
                (Ok(a), Ok(b)) => num_sub(a, b),
                (Err(m), _) => Err(m),
                (_, Err(m)) => Err(m),
            },
            Expression::Mul(l, r) => match (spec_eval(*l, env, f), spec_eval(*r, env, f)) {
                (Ok(a), Ok(b)) => num_mul(a, b),
                (Err(m), _) => Err(m),
                (_, Err(m)) => Err(m),
            },
            Expression::Div(l, r) => match (spec_eval(*l, env, f), spec_eval(*r, env, f)) {
                (Ok(a), Ok(b)) => num_div(a, b),
                (Err(m), _) => Err(m),
                (_, Err(m)) => Err(m),
            },
            Expression::And(l, r) => match (spec_eval(*l, env, f), spec_eval(*r, env, f)) {
                (Ok(Val::VBool(p)), Ok(Val::VBool(q))) => Ok(Val::VBool(p && q)),
                (Err(m), _) => Err(m),
                (_, Err(m)) => Err(m),
                _ => Err(msg_and()),
            },
            Expression::Or(l, r) => match (spec_eval(*l, env, f), spec_eval(*r, env, f)) {
                (Ok(Val::VBool(p)), Ok(Val::VBool(q))) => Ok(Val::VBool(p || q)),
                (Err(m), _) => Err(m),
                (_, Err(m)) => Err(m),
                _ => Err(msg_or()),
            },
            Expression::EQ(l, r) => match (spec_eval(*l, env, f), spec_eval(*r, env, f)) {
                (Ok(a), Ok(b)) => match eq_vals(a, b) {
                    Some(p) => Ok(Val::VBool(p)),
                    None => Err(msg_eq()),
                },
                (Err(m), _) => Err(m),
                (_, Err(m)) => Err(m),
            },
            Expression::NEQ(l, r) => match (spec_eval(*l, env, f), spec_eval(*r, env, f)) {
                (Ok(a), Ok(b)) => match eq_vals(a, b) {
                    Some(p) => Ok(Val::VBool(!p)),
                    None => Err(msg_neq()),
                },
                (Err(m), _) => Err(m),
                (_, Err(m)) => Err(m),
            },
            Expression::GT(l, r) => match (spec_eval(*l, env, f), spec_eval(*r, env, f)) {
                (Ok(a), Ok(b)) => num_cmp(a, b, ">"@, false, false, true),
                (Err(m), _) => Err(m),
                (_, Err(m)) => Err(m),
            },
            Expression::LT(l, r) => match (spec_eval(*l, env, f), spec_eval(*r, env, f)) {
                (Ok(a), Ok(b)) => num_cmp(a, b, "<"@, true, false, false),
                (Err(m), _) => Err(m),
                (_, Err(m)) => Err(m),
            },
            Expression::GTE(l, r) => match (spec_eval(*l, env, f), spec_eval(*r, env, f)) {
                (Ok(a), Ok(b)) => num_cmp(a, b, ">="@, false, true, true),
                (Err(m), _) => Err(m),
                (_, Err(m)) => Err(m),
            },
            Expression::LTE(l, r) => match (spec_eval(*l, env, f), spec_eval(*r, env, f)) {
                (Ok(a), Ok(b)) => num_cmp(a, b, "<="@, true, true, false),
                (Err(m), _) => Err(m),
                (_, Err(m)) => Err(m),
            },
            Expression::FuncCall(name, args) => match env.contains_key(name@) {
                false => Err(msg_var_not_found(name@)),
                true => match env[name@].0 {
                    None => Err(msg_var_not_found(name@)),
                    Some(Val::VFunc(fv)) => match spec_eval_args(args@, env, f) {
                        Ok(vals) => spec_invoke(name@, fv, vals, env, f),
                        Err(m) => Err(m),
                    },
                    Some(_) => Err(msg_not_callable(name@)),
                },
            },
        }
    }
}

/// Argument values, evaluated left to right.
pub open spec fn spec_eval_args(args: Seq<Expression>, env: EnvMap, fuel: nat) -> Result<
    Seq<Val>,
    Seq<char>,
>
    decreases fuel,
{
    if fuel == 0 {
        Err(msg_recursion())
    } else if args.len() == 0 {
        Ok(Seq::empty())
    } else {
        match spec_eval(args[0], env, (fuel - 1) as nat) {
            Err(m) => Err(m),
            Ok(v) => match spec_eval_args(args.drop_first(), env, (fuel - 1) as nat) {
                Err(m) => Err(m),
                Ok(rest) => Ok(seq![v] + rest),
            },
        }
    }
}

/// The first parameter whose declared type the argument value misses.
pub open spec fn first_param_mismatch(params: Seq<(String, Type)>, vals: Seq<Val>) -> Option<
    Seq<char>,
>
    decreases params.len(),
{
    if params.len() == 0 || vals.len() == 0 {
        None
    } else if type_of_val(vals[0]) != params[0].1 {
        Some(params[0].0@)
    } else {
        first_param_mismatch(params.drop_first(), vals.drop_first())
    }
}

/// The caller's environment with each parameter bound to its argument.
pub open spec fn bind_params(env: EnvMap, params: Seq<(String, Type)>, vals: Seq<Val>) -> EnvMap
    decreases params.len(),
{
    if params.len() == 0 || vals.len() == 0 {
        env
    } else {
        bind_params(
            env.insert(params[0].0@, (Some(vals[0]), params[0].1)),
            params.drop_first(),
            vals.drop_first(),
        )
    }
}

/// The meaning of a call: check arity and parameter types, bind the
/// parameters over the caller's environment, run the body, and check the
/// returned value against the declared return type.  A body that falls
/// through without returning is an error.
pub open spec fn spec_invoke(
    name: Seq<char>,
    fv: Function,
    vals: Seq<Val>,
    env: EnvMap,
    fuel: nat,
) -> Result<Val, Seq<char>>
    decreases fuel,
{
    if fuel == 0 {
        Err(msg_recursion())
    } else if vals.len() != fv.params@.len() {
        Err(msg_arity(name))
    } else {
        match first_param_mismatch(fv.params@, vals) {
            Some(pname) => Err(msg_param_type(pname)),
            None => match spec_exec_block(fv.body@, bind_params(env, fv.params@, vals), (fuel - 1) as nat) {
                Err(m) => Err(m),
                Ok(Ctl::Ret(v)) => if type_of_val(v) == fv.ret {
                    Ok(v)
                } else {
                    Err(msg_return_type())
                },
                Ok(Ctl::Next(_)) => Err(msg_missing_return()),
            },
        }
    }
}

/// The meaning of one statement.
pub open spec fn spec_exec(st: Statement, env: EnvMap, fuel: nat) -> Result<Ctl, Seq<char>>
    decreases fuel,
{
    if fuel == 0 {
        Err(msg_recursion())
    } else {
        let f = (fuel - 1) as nat;
        match st {
            Statement::Assignment(name, e) => match spec_eval(*e, env, f) {
                Err(m) => Err(m),
                Ok(v) => if env.contains_key(name@) {
                    if type_of_val(v) == env[name@].1 {
                        Ok(Ctl::Next(env.insert(name@, (Some(v), env[name@].1))))
                    } else {
                        Err(msg_assign_type(name@))
                    }
                } else {
                    Ok(Ctl::Next(env.insert(name@, (Some(v), type_of_val(v)))))
                },
            },
            Statement::IfThenElse(c, t, els) => match spec_eval(*c, env, f) {
                Err(m) => Err(m),
                Ok(Val::VBool(true)) => spec_exec_block(t@, env, f),
                Ok(Val::VBool(false)) => spec_exec_block(els@, env, f),
                Ok(_) => Err(msg_if_cond()),
            },
            Statement::While(c, b) => match spec_eval(*c, env, f) {
                Err(m) => Err(m),
                Ok(Val::VBool(false)) => Ok(Ctl::Next(env)),
                Ok(Val::VBool(true)) => match spec_exec_block(b@, env, f) {
                    Err(m) => Err(m),
                    Ok(Ctl::Ret(v)) => Ok(Ctl::Ret(v)),
                    Ok(Ctl::Next(e2)) => spec_exec(st, e2, f),
                },
                Ok(_) => Err(msg_while_cond()),
            },
            Statement::Block(b) => spec_exec_block(b@, env, f),
            Statement::FuncDecl(name, fv) => Ok(
                Ctl::Next(env.insert(name@, (Some(Val::VFunc(fv)), Type::TFunction))),
            ),
            Statement::Return(e) => match spec_eval(*e, env, f) {
                Err(m) => Err(m),
                Ok(v) => Ok(Ctl::Ret(v)),
            },
        }
    }
}

/// The meaning of a block: statements in order, the environment threaded
/// forward, the first `Ret` short-circuiting the rest.
pub open spec fn spec_exec_block(ss: Seq<Statement>, env: EnvMap, fuel: nat) -> Result<
    Ctl,
    Seq<char>,
>
    decreases fuel,
{
    if fuel == 0 {
        Err(msg_recursion())
    } else if ss.len() == 0 {
        Ok(Ctl::Next(env))
    } else {
        match spec_exec(ss[0], env, (fuel - 1) as nat) {
            Err(m) => Err(m),
            Ok(Ctl::Ret(v)) => Ok(Ctl::Ret(v)),
            Ok(Ctl::Next(e2)) => spec_exec_block(ss.drop_first(), e2, (fuel - 1) as nat),
        }
    }
}

} // verus!
