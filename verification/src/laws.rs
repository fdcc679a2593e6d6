//! General properties of the semantics, stated and proved once and for all:
//! exactness of addition with numeric promotion, the exact texts of the
//! undefined-variable and ill-typed-addition errors, idempotence of
//! re-running a variable-copy assignment, the way an early return passes
//! through a loop to the caller, and the fact that evaluation depends only
//! on a tree's shape.

use crate::ast::{
    expr_v, exprs_v, type_of_val, Expression, Function, Statement, Type, Val,
};
use crate::decimal::{
    lemma_pow10_pos, lemma_real_add_exact, pow10, rv, spec_real_add, sval, MAX_SCALE,
};
use crate::semantics::{
    as_scaled, bind_params, first_param_mismatch, int_rv, msg_add, msg_var_not_found, num_add,
    spec_eval, spec_exec, spec_exec_block, spec_invoke, Ctl, EnvMap,
};
use vstd::arithmetic::mul::lemma_mul_is_distributive_add_other_way;
use vstd::prelude::*;

verus! {

/// A numeric literal, and its spec-level value.
pub open spec fn is_num_literal(x: Expression) -> bool {
    x is CInt || (x matches Expression::CReal(r) && r.scale <= MAX_SCALE)
}

pub open spec fn literal_val(x: Expression) -> Val {
    match x {
        Expression::CInt(i) => Val::VInt(i as int),
        Expression::CReal(r) => Val::VReal(rv(r)),
        _ => arbitrary(),
    }
}

/// Addition of two numeric values that succeeds is the exact mathematical
/// sum, read at the common scale, and the result is real exactly when one
/// of the operands is.
pub proof fn lemma_num_add_exact(a: Val, b: Val)
    requires
        as_scaled(a) is Some,
        as_scaled(b) is Some,
        a matches Val::VReal(p) ==> p.k <= MAX_SCALE,
        b matches Val::VReal(q) ==> q.k <= MAX_SCALE,
        num_add(a, b) is Ok,
    ensures
        as_scaled(num_add(a, b)->Ok_0) == Some(as_scaled(a)->Some_0 + as_scaled(b)->Some_0),
        num_add(a, b)->Ok_0 is VReal <==> (a is VReal || b is VReal),
{
    let p18 = pow10(MAX_SCALE as nat);
    match (a, b) {
        (Val::VInt(x), Val::VInt(y)) => {
            lemma_mul_is_distributive_add_other_way(p18, x, y);
        },
        (Val::VInt(x), Val::VReal(q)) => {
            let c = spec_real_add(int_rv(x), q)->Some_0;
            lemma_real_add_exact(int_rv(x), q, c);
            assert(sval(int_rv(x)) == x * p18);
        },
        (Val::VReal(p), Val::VInt(y)) => {
            let c = spec_real_add(p, int_rv(y))->Some_0;
            lemma_real_add_exact(p, int_rv(y), c);
            assert(sval(int_rv(y)) == y * p18);
        },
        (Val::VReal(p), Val::VReal(q)) => {
            let c = spec_real_add(p, q)->Some_0;
            lemma_real_add_exact(p, q, c);
        },
        _ => {},
    }
}

/// Evaluating `a + b` on numeric literals applies `num_add` to their
/// values; together with `lemma_num_add_exact`, a sum that succeeds is the
/// exact mathematical sum, with promotion to real exactly when a real
/// operand is present.
pub proof fn lemma_eval_add_literals(e: Expression, env: EnvMap, fuel: nat)
    requires
        fuel >= 2,
        e matches Expression::Add(l, r) && is_num_literal(*l) && is_num_literal(*r),
    ensures
        ({
            let l = e->Add_0;
            let r = e->Add_1;
            spec_eval(e, env, fuel) == num_add(literal_val(*l), literal_val(*r))
        }),
{
    let l = e->Add_0;
    let r = e->Add_1;
    assert(spec_eval(*l, env, (fuel - 1) as nat) == Ok::<Val, Seq<char>>(literal_val(*l)));
    assert(spec_eval(*r, env, (fuel - 1) as nat) == Ok::<Val, Seq<char>>(literal_val(*r)));
}

/// The two lemmas above composed: evaluating `a + b` on numeric literals
/// either reports an error or yields the exact mathematical sum of the two
/// literals, at the common scale, and the result is a real exactly when
/// one of the operands is a real literal.
pub proof fn lemma_addition_of_literals_is_exact(e: Expression, env: EnvMap, fuel: nat)
    requires
        fuel >= 2,
        e matches Expression::Add(l, r) && is_num_literal(*l) && is_num_literal(*r),
        spec_eval(e, env, fuel) is Ok,
    ensures
        ({
            let a = literal_val(*e->Add_0);
            let b = literal_val(*e->Add_1);
            let v = spec_eval(e, env, fuel)->Ok_0;
            &&& as_scaled(v) == Some(as_scaled(a)->Some_0 + as_scaled(b)->Some_0)
            &&& (v is VReal <==> (*e->Add_0 is CReal || *e->Add_1 is CReal))
        }),
{
    lemma_eval_add_literals(e, env, fuel);
    lemma_num_add_exact(literal_val(*e->Add_0), literal_val(*e->Add_1));
}

/// Looking up a name that the environment does not hold fails with exactly
/// the text `Variable <name> not found`.
pub proof fn lemma_undefined_variable_message(e: Expression, env: EnvMap, fuel: nat)
    requires
        fuel >= 1,
        e is Var,
        !env.contains_key(e->Var_0@),
    ensures
        spec_eval(e, env, fuel) == Err::<Val, Seq<char>>(msg_var_not_found(e->Var_0@)),
        msg_var_not_found(e->Var_0@) == "Variable "@ + e->Var_0@ + " not found"@,
{
}

/// Adding a boolean to an integer fails with exactly the text
/// `addition '(+)' is only defined for numbers (integers and real).`
pub proof fn lemma_boolean_plus_integer(e: Expression, env: EnvMap, fuel: nat)
    requires
        fuel >= 1,
        e is Add,
        spec_eval(*e->Add_0, env, (fuel - 1) as nat) matches Ok(a) && a is VBool,
        spec_eval(*e->Add_1, env, (fuel - 1) as nat) matches Ok(b) && b is VInt,
    ensures
        spec_eval(e, env, fuel) == Err::<Val, Seq<char>>(msg_add()),
        msg_add() == "addition '(+)' is only defined for numbers (integers and real)."@,
{
}

/// Re-executing an assignment that copies one variable into another leaves
/// the environment unchanged: running `x = y` (with `x` and `y` distinct)
/// twice gives the same environment as running it once.
pub proof fn lemma_copy_assignment_idempotent(st: Statement, env: EnvMap, fuel: nat)
    requires
        fuel >= 2,
        st matches Statement::Assignment(x, e) && *e matches Expression::Var(y) && x@ != y@,
        spec_exec(st, env, fuel) matches Ok(c) && c is Next,
    ensures
        spec_exec(st, spec_exec(st, env, fuel)->Ok_0->Next_0, fuel) == spec_exec(st, env, fuel),
{
    let x = st->Assignment_0;
    let y = (*st->Assignment_1)->Var_0;
    let f = (fuel - 1) as nat;
    let e1 = spec_exec(st, env, fuel)->Ok_0->Next_0;
    assert(env.contains_key(y@) && env[y@].0 is Some) by {
        assert(spec_eval(*st->Assignment_1, env, f) is Ok);
    }
    let v = env[y@].0->Some_0;
    assert(spec_eval(*st->Assignment_1, env, f) == Ok::<Val, Seq<char>>(v));
    let t = if env.contains_key(x@) {
        env[x@].1
    } else {
        type_of_val(v)
    };
    assert(type_of_val(v) == t || !env.contains_key(x@));
    assert(e1 == env.insert(x@, (Some(v), t)));
    assert(e1.contains_key(y@) && e1[y@] == env[y@]);
    assert(spec_eval(*st->Assignment_1, e1, f) == Ok::<Val, Seq<char>>(v));
    assert(e1.contains_key(x@) && e1[x@].1 == t);
    assert(e1.insert(x@, (Some(v), t)) =~= e1);
}

/// A loop whose condition holds and whose body signals a return does not
/// iterate again: the return value passes out of the loop unchanged.
pub proof fn lemma_loop_return_short_circuits(st: Statement, env: EnvMap, v: Val, fuel: nat)
    requires
        fuel >= 1,
        st is While,
        spec_eval(*st->While_0, env, (fuel - 1) as nat) == Ok::<Val, Seq<char>>(Val::VBool(true)),
        spec_exec_block(st->While_1@, env, (fuel - 1) as nat) == Ok::<Ctl, Seq<char>>(Ctl::Ret(v)),
    ensures
        spec_exec(st, env, fuel) == Ok::<Ctl, Seq<char>>(Ctl::Ret(v)),
{
}

proof fn lemma_exprs_v_len(s: Seq<Expression>)
    ensures
        exprs_v(s).len() == s.len(),
    decreases s.len(),
{
    if s.len() > 0 {
        lemma_exprs_v_len(s.drop_first());
    }
}

/// Evaluation cannot tell two expressions of the same shape apart: the
/// result depends only on the characters of the names and strings in the
/// tree, never on their identity as heap values.  This is what makes the
/// parsed-line contracts of `crate::front` outcome-determined.
pub proof fn lemma_eval_shape_determined(e1: Expression, e2: Expression, env: EnvMap, fuel: nat)
    requires
        expr_v(e1) == expr_v(e2),
    ensures
        spec_eval(e1, env, fuel) == spec_eval(e2, env, fuel),
    decreases fuel, 1int,
{
    if fuel == 0 {
    } else {
        let f = (fuel - 1) as nat;
        match e1 {
            Expression::CInt(_) => {},
            Expression::CReal(_) => {},
            Expression::CString(_) => {},
            Expression::CTrue => {},
            Expression::CFalse => {},
            Expression::Var(_) => {},
            Expression::Neg(x1) => {
                lemma_eval_shape_determined(*x1, *e2->Neg_0, env, f);
            },
            Expression::Not(x1) => {
                lemma_eval_shape_determined(*x1, *e2->Not_0, env, f);
            },
            Expression::Add(l1, r1) => {
                lemma_eval_shape_determined(*l1, *e2->Add_0, env, f);
                lemma_eval_shape_determined(*r1, *e2->Add_1, env, f);
            },
            Expression::Sub(l1, r1) => {
                lemma_eval_shape_determined(*l1, *e2->Sub_0, env, f);
                lemma_eval_shape_determined(*r1, *e2->Sub_1, env, f);
            },
            Expression::Mul(l1, r1) => {
                lemma_eval_shape_determined(*l1, *e2->Mul_0, env, f);
                lemma_eval_shape_determined(*r1, *e2->Mul_1, env, f);
            },
            Expression::Div(l1, r1) => {
                lemma_eval_shape_determined(*l1, *e2->Div_0, env, f);
                lemma_eval_shape_determined(*r1, *e2->Div_1, env, f);
            },
            Expression::And(l1, r1) => {
                lemma_eval_shape_determined(*l1, *e2->And_0, env, f);
                lemma_eval_shape_determined(*r1, *e2->And_1, env, f);
            },
            Expression::Or(l1, r1) => {
                lemma_eval_shape_determined(*l1, *e2->Or_0, env, f);
                lemma_eval_shape_determined(*r1, *e2->Or_1, env, f);
            },
            Expression::EQ(l1, r1) => {
                lemma_eval_shape_determined(*l1, *e2->EQ_0, env, f);
                lemma_eval_shape_determined(*r1, *e2->EQ_1, env, f);
            },
            Expression::NEQ(l1, r1) => {
                lemma_eval_shape_determined(*l1, *e2->NEQ_0, env, f);
                lemma_eval_shape_determined(*r1, *e2->NEQ_1, env, f);
            },
            Expression::GT(l1, r1) => {
                lemma_eval_shape_determined(*l1, *e2->GT_0, env, f);
                lemma_eval_shape_determined(*r1, *e2->GT_1, env, f);
            },
            Expression::LT(l1, r1) => {
                lemma_eval_shape_determined(*l1, *e2->LT_0, env, f);
                lemma_eval_shape_determined(*r1, *e2->LT_1, env, f);
            },
            Expression::GTE(l1, r1) => {
                lemma_eval_shape_determined(*l1, *e2->GTE_0, env, f);
                lemma_eval_shape_determined(*r1, *e2->GTE_1, env, f);
            },
            Expression::LTE(l1, r1) => {
                lemma_eval_shape_determined(*l1, *e2->LTE_0, env, f);
                lemma_eval_shape_determined(*r1, *e2->LTE_1, env, f);
            },
            Expression::FuncCall(n1, args1) => {
                lemma_eval_args_shape_determined(args1@, e2->FuncCall_1@, env, f);
            },
        }
    }
}

/// Argument evaluation cannot tell two lists of the same shape apart.
pub proof fn lemma_eval_args_shape_determined(
    a1: Seq<Expression>,
    a2: Seq<Expression>,
    env: EnvMap,
    fuel: nat,
)
    requires
        exprs_v(a1) == exprs_v(a2),
    ensures
        crate::semantics::spec_eval_args(a1, env, fuel) == crate::semantics::spec_eval_args(
            a2,
            env,
            fuel,
        ),
    decreases fuel, 0int,
{
    lemma_exprs_v_len(a1);
    lemma_exprs_v_len(a2);
    if fuel == 0 || a1.len() == 0 {
    } else {
        assert(exprs_v(a1)[0] == expr_v(a1[0]));
        assert(exprs_v(a2)[0] == expr_v(a2[0]));
        assert(exprs_v(a1).drop_first() =~= exprs_v(a1.drop_first()));
        assert(exprs_v(a2).drop_first() =~= exprs_v(a2.drop_first()));
        lemma_eval_shape_determined(a1[0], a2[0], env, (fuel - 1) as nat);
        lemma_eval_args_shape_determined(a1.drop_first(), a2.drop_first(), env, (fuel - 1) as nat);
    }
}

/// A return signal that leaves a function's body becomes the value of the
/// call, provided it has the declared return type.
pub proof fn lemma_return_reaches_caller(
    name: Seq<char>,
    f: Function,
    vals: Seq<Val>,
    env: EnvMap,
    v: Val,
    fuel: nat,
)
    requires
        fuel >= 1,
        vals.len() == f.params@.len(),
        first_param_mismatch(f.params@, vals) is None,
        spec_exec_block(f.body@, bind_params(env, f.params@, vals), (fuel - 1) as nat)
            == Ok::<Ctl, Seq<char>>(Ctl::Ret(v)),
        type_of_val(v) == f.ret,
    ensures
        spec_invoke(name, f, vals, env, fuel) == Ok::<Val, Seq<char>>(v),
{
}

} // verus!
