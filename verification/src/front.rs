//! The string-in, string-out entry points that the front ends drive: parse
//! a line as an expression or as statements, run it through the verified
//! engine, and render the outcome.
//!
//! Each contract is driven by the spec-level parser: when
//! [`spec_parse_expression`] or [`spec_parse_statements`] assigns the input
//! a shape, the result must be the rendered outcome of running a tree of
//! exactly that shape under the definitional interpreter; when it assigns
//! none, the result must be the fixed parse-failure text.  A return signal
//! reaching the top level is an error, never a normal result.

use crate::ast::{expr_v, expr_wf, stmts_v, stmts_wf, ExprV, Expression, Statement, StmtV};
use crate::env::Environment;
use crate::fmt::{disp_val, format_env_value};
use crate::interpreter::{eval, execute_block, ControlFlow, DEFAULT_FUEL};
use crate::parser::{
    parse_expression, parse_statements, spec_parse_expression, spec_parse_statements,
};
use crate::semantics::{spec_eval, spec_exec_block, Ctl, EnvMap};
use vstd::prelude::*;
use vstd::string::StringExecFns;

verus! {

/// Running the expression `e` yields the given rendered result: the
/// value's text on success, the prefixed message on an evaluation error.
pub open spec fn expr_run_renders(e: Expression, env: EnvMap, r: Result<String, String>) -> bool {
    match spec_eval(e, env, DEFAULT_FUEL as nat) {
        Ok(v) => r is Ok && r->Ok_0@ == disp_val(v),
        Err(m) => r is Err && r->Err_0@ == "Evaluation Error: "@ + m,
    }
}

/// The outcome owed for an expression line of shape `ev`: the rendered run
/// of a well-formed tree of exactly that shape.
pub open spec fn expr_line_outcome(r: Result<String, String>, env: EnvMap, ev: ExprV) -> bool {
    exists|e: Expression| expr_v(e) == ev && expr_wf(e) && expr_run_renders(e, env, r)
}

/// Running the block `ss` yields the given environment result: the new
/// environment on plain completion, an error on a top-level return or an
/// execution failure.
pub open spec fn stmts_run_env(ss: Seq<Statement>, env: EnvMap, r: Result<
    Environment,
    String,
>) -> bool {
    match spec_exec_block(ss, env, DEFAULT_FUEL as nat) {
        Ok(Ctl::Next(m)) => r is Ok && r->Ok_0@ == m && r->Ok_0.wf(),
        Ok(Ctl::Ret(_)) => r is Err && r->Err_0@
            == "Execution Error: Return value not in a Function"@,
        Err(m) => r is Err && r->Err_0@ == "Execution Error: "@ + m,
    }
}

/// The outcome owed for a statement line of shape `ssv`.
pub open spec fn stmts_line_outcome(
    r: Result<Environment, String>,
    env: EnvMap,
    ssv: Seq<StmtV>,
) -> bool {
    exists|ss: Seq<Statement>| stmts_v(ss) == ssv && stmts_wf(ss) && stmts_run_env(ss, env, r)
}

/// Running the block `ss` yields the given rendered result: the empty text
/// on plain completion, an error on a top-level return or an execution
/// failure.
pub open spec fn stmts_run_output(ss: Seq<Statement>, env: EnvMap, r: Result<
    String,
    String,
>) -> bool {
    match spec_exec_block(ss, env, DEFAULT_FUEL as nat) {
        Ok(Ctl::Next(_)) => r is Ok && r->Ok_0@ == Seq::<char>::empty(),
        Ok(Ctl::Ret(_)) => r is Err && r->Err_0@
            == "Execution Error: Return value not in a Function"@,
        Err(m) => r is Err && r->Err_0@ == "Execution Error: "@ + m,
    }
}

/// The outcome owed for a statement command of shape `ssv`.
pub open spec fn stmts_cmd_outcome(r: Result<String, String>, env: EnvMap, ssv: Seq<StmtV>) -> bool {
    exists|ss: Seq<Statement>| stmts_v(ss) == ssv && stmts_wf(ss) && stmts_run_output(ss, env, r)
}

/// Evaluate an already-parsed expression against an environment and render
/// the value, or the evaluation error with its prefix.
pub fn evaluate_expression(expr: Expression, env: &Environment) -> (r: Result<String, String>)
    requires
        expr_wf(expr),
        env.wf(),
    ensures
        match (r, spec_eval(expr, env@, DEFAULT_FUEL as nat)) {
            (Ok(s), Ok(v)) => s@ == disp_val(v),
            (Err(m), Err(w)) => m@ == "Evaluation Error: "@ + w,
            _ => false,
        },
{
    match eval(expr, env) {
        Ok(v) => Ok(format_env_value(&v)),
        Err(e) => Err(String::from_str("Evaluation Error: ").concat(e.as_str())),
    }
}

/// Parse a line as one expression and evaluate it against the environment.
pub fn repl_parse_expression(input: &str, current_env: &Environment) -> (r: Result<String, String>)
    requires
        current_env.wf(),
    ensures
        match spec_parse_expression(input@) {
            None => r is Err && r->Err_0@ == "Parsing Expression Error"@,
            Some(ev) => expr_line_outcome(r, current_env@, ev),
        },
{
    match parse_expression(input) {
        None => Err(String::from_str("Parsing Expression Error")),
        Some(e) => {
            let ghost ge = e;
            let res = evaluate_expression(e, current_env);
            proof {
                assert(expr_run_renders(ge, current_env@, res));
                assert(expr_line_outcome(res, current_env@, spec_parse_expression(input@)->0));
            }
            res
        },
    }
}

/// Parse a line as statements and execute them against the environment,
/// yielding the new environment.  A return signal reaching this level is an
/// error, not a result.
pub fn repl_parse_statements(input: &str, current_env: Environment) -> (r: Result<
    Environment,
    String,
>)
    requires
        current_env.wf(),
    ensures
        match spec_parse_statements(input@) {
            None => r is Err && r->Err_0@ == "Statement Parse Error"@,
            Some(ssv) => stmts_line_outcome(r, current_env@, ssv),
        },
{
    match parse_statements(input) {
        None => Err(String::from_str("Statement Parse Error")),
        Some(stmts) => {
            let ghost gs = stmts@;
            let ghost ssv = spec_parse_statements(input@)->0;
            match execute_block(&stmts, &current_env) {
                Ok(ControlFlow::Continue(env2)) => {
                    let out: Result<Environment, String> = Ok(env2);
                    proof {
                        assert(stmts_run_env(gs, current_env@, out));
                        assert(stmts_line_outcome(out, current_env@, ssv));
                    }
                    out
                },
                Ok(ControlFlow::Return(_)) => {
                    let out: Result<Environment, String> = Err(
                        String::from_str("Execution Error: Return value not in a Function"),
                    );
                    proof {
                        assert(stmts_run_env(gs, current_env@, out));
                        assert(stmts_line_outcome(out, current_env@, ssv));
                    }
                    out
                },
                Err(e) => {
                    let out: Result<Environment, String> = Err(
                        String::from_str("Execution Error: ").concat(e.as_str()),
                    );
                    proof {
                        assert(stmts_run_env(gs, current_env@, out));
                        assert(stmts_line_outcome(out, current_env@, ssv));
                    }
                    out
                },
            }
        },
    }
}

/// Parse a command as statements and execute it against the environment.
/// Plain completion renders nothing; a return signal reaching this level
/// is an error, as everywhere outside a function body.
pub fn parse_and_execute_statements(command: &str, env: &Environment) -> (r: Result<String, String>)
    requires
        env.wf(),
    ensures
        match spec_parse_statements(command@) {
            None => r is Err && r->Err_0@ == "Parse Error: Invalid syntax"@,
            Some(ssv) => stmts_cmd_outcome(r, env@, ssv),
        },
{
    match parse_statements(command) {
        None => Err(String::from_str("Parse Error: Invalid syntax")),
        Some(stmts) => {
            let ghost gs = stmts@;
            let ghost ssv = spec_parse_statements(command@)->0;
            match execute_block(&stmts, env) {
                Ok(ControlFlow::Continue(_)) => {
                    let out: Result<String, String> = Ok(String::new());
                    proof {
                        assert(stmts_run_output(gs, env@, out));
                        assert(stmts_cmd_outcome(out, env@, ssv));
                    }
                    out
                },
                Ok(ControlFlow::Return(_)) => {
                    let out: Result<String, String> = Err(
                        String::from_str("Execution Error: Return value not in a Function"),
                    );
                    proof {
                        assert(stmts_run_output(gs, env@, out));
                        assert(stmts_cmd_outcome(out, env@, ssv));
                    }
                    out
                },
                Err(e) => {
                    let out: Result<String, String> = Err(
                        String::from_str("Execution Error: ").concat(e.as_str()),
                    );
                    proof {
                        assert(stmts_run_output(gs, env@, out));
                        assert(stmts_cmd_outcome(out, env@, ssv));
                    }
                    out
                },
            }
        },
    }
}

/// Run one command string against a fresh empty environment: as an
/// expression when it parses as one, else as statements.
pub fn execute_inline_command(command: &str) -> (r: Result<String, String>)
    ensures
        match spec_parse_expression(command@) {
            Some(ev) => expr_line_outcome(r, Map::<Seq<char>, _>::empty(), ev),
            None => match spec_parse_statements(command@) {
                None => r is Err && r->Err_0@ == "Parse Error: Invalid syntax"@,
                Some(ssv) => stmts_cmd_outcome(r, Map::<Seq<char>, _>::empty(), ssv),
            },
        },
{
    let env = Environment::new();
    match parse_expression(command) {
        Some(e) => {
            let ghost ge = e;
            let res = evaluate_expression(e, &env);
            proof {
                assert(expr_run_renders(ge, env@, res));
                assert(expr_line_outcome(res, env@, spec_parse_expression(command@)->0));
            }
            res
        },
        None => parse_and_execute_statements(command, &env),
    }
}

} // verus!
