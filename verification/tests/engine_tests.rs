use std::rc::Rc;

use rpython::ast::EnvValue;
use rpython::ast::Expression;
use rpython::ast::Expression::{CInt, CString, CTrue, Var};
use rpython::ast::Function;
use rpython::ast::Statement;
use rpython::ast::Type::{TBool, TInteger, TReal, TString};
use rpython::decimal::Real;
use rpython::env::Environment;
use rpython::fmt::format_env_value;
use rpython::front::{
    execute_inline_command, evaluate_expression, parse_and_execute_statements,
    repl_parse_expression, repl_parse_statements,
};
use rpython::interpreter::{eval, execute, execute_block, ControlFlow};

fn num(i: i64) -> Box<Expression> {
    Box::new(CInt(i))
}

fn var(n: &str) -> Box<Expression> {
    Box::new(Var(String::from(n)))
}

#[test]
fn test_real_addition_exact_decimal() {
    let env = Environment::new();
    let output = repl_parse_expression("10.5 + 20.1", &env);
    assert_eq!(output, Ok(String::from("30.6")));
}

#[test]
fn test_real_display_drops_trailing_zeros() {
    let env = Environment::new();
    let output = repl_parse_expression("1.50 + 1.50", &env);
    assert_eq!(output, Ok(String::from("3")));
}

#[test]
fn test_real_negative_fraction() {
    let env = Environment::new();
    let output = repl_parse_expression("0.5 - 1", &env);
    assert_eq!(output, Ok(String::from("-0.5")));
}

#[test]
fn test_integer_division_truncates() {
    let env = Environment::new();
    assert_eq!(repl_parse_expression("7 / 2", &env), Ok(String::from("3")));
    assert_eq!(repl_parse_expression("(-7) / 2", &env), Ok(String::from("-3")));
}

#[test]
fn test_division_by_zero_message() {
    let env = Environment::new();
    assert_eq!(
        repl_parse_expression("10 / 0", &env),
        Err(String::from("Evaluation Error: division by zero."))
    );
}

#[test]
fn test_overflow_message() {
    let env = Environment::new();
    assert_eq!(
        repl_parse_expression("9223372036854775807 + 1", &env),
        Err(String::from("Evaluation Error: arithmetic overflow."))
    );
}

#[test]
fn test_inexact_real_division_message() {
    let env = Environment::new();
    assert_eq!(
        repl_parse_expression("1.0 / 3.0", &env),
        Err(String::from(
            "Evaluation Error: division result is not representable as a decimal."
        ))
    );
}

#[test]
fn test_comparisons_yield_booleans() {
    let env = Environment::new();
    assert_eq!(repl_parse_expression("1 < 2", &env), Ok(String::from("True")));
    assert_eq!(repl_parse_expression("2 <= 1", &env), Ok(String::from("False")));
    assert_eq!(repl_parse_expression("3 >= 3", &env), Ok(String::from("True")));
    assert_eq!(repl_parse_expression("1 != 2", &env), Ok(String::from("True")));
}

#[test]
fn test_mixed_comparison_promotes() {
    let env = Environment::new();
    assert_eq!(repl_parse_expression("0.5 < 1", &env), Ok(String::from("True")));
}

#[test]
fn test_string_equality() {
    let mut env = Environment::new();
    env.insert(
        String::from("a"),
        (Some(EnvValue::Exp(CString(String::from("hi")))), TString),
    );
    env.insert(
        String::from("b"),
        (Some(EnvValue::Exp(CString(String::from("hi")))), TString),
    );
    assert_eq!(repl_parse_expression("a == b", &env), Ok(String::from("True")));
}

#[test]
fn test_cross_type_equality_is_error() {
    let mut env = Environment::new();
    env.insert(String::from("a"), (Some(EnvValue::Exp(CTrue)), TBool));
    env.insert(String::from("b"), (Some(EnvValue::Exp(CInt(1))), TInteger));
    assert_eq!(
        repl_parse_expression("a == b", &env),
        Err(String::from(
            "Evaluation Error: equality '(==)' is only defined for operands of the same type."
        ))
    );
}

#[test]
fn test_assignment_type_mismatch() {
    let env = Environment::new();
    let env2 = repl_parse_statements("a = 10", env).unwrap();
    let result = repl_parse_statements("a = 10 > 5", env2);
    assert_eq!(
        result,
        Err(String::from(
            "Execution Error: cannot assign a value of a different type to variable a"
        ))
    );
}

#[test]
fn test_reassignment_idempotent() {
    let env = Environment::new();
    let env1 = repl_parse_statements("a = 10", env).unwrap();
    let env2 = repl_parse_statements("b = a", env1).unwrap();
    let env3 = repl_parse_statements("b = a", env2.duplicate()).unwrap();
    assert_eq!(env2, env3);
}

#[test]
fn test_statement_sequence_threads_environment() {
    let env = Environment::new();
    let env2 = repl_parse_statements("a = 10; b = a + 5; c = b * 2", env).unwrap();
    assert_eq!(env2.get("c"), Some(&(Some(EnvValue::Exp(CInt(30))), TInteger)));
}

#[test]
fn test_return_inside_loop_stops_iteration() {
    // f() { while 1 < 2 { return 42 } } -- the loop must not spin.
    let f = Function {
        params: Rc::new(vec![]),
        ret: TInteger,
        body: Rc::new(vec![Statement::While(
            Box::new(Expression::LT(num(1), num(2))),
            vec![Statement::Return(num(42))],
        )]),
    };
    let env = Environment::new();
    let r = execute(&Statement::FuncDecl(String::from("f"), f), &env).unwrap();
    let env2 = match r {
        ControlFlow::Continue(e) => e,
        ControlFlow::Return(_) => panic!("declaration must not return"),
    };
    let out = eval(Expression::FuncCall(String::from("f"), vec![]), &env2).unwrap();
    assert_eq!(out, EnvValue::Exp(CInt(42)));
}

#[test]
fn test_return_propagates_through_block() {
    let stmts = vec![
        Statement::Assignment(String::from("a"), num(1)),
        Statement::Return(num(7)),
        Statement::Assignment(String::from("a"), num(2)),
    ];
    let env = Environment::new();
    match execute_block(&stmts, &env).unwrap() {
        ControlFlow::Return(v) => assert_eq!(v, EnvValue::Exp(CInt(7))),
        ControlFlow::Continue(_) => panic!("expected an early return"),
    }
}

fn factorial_function() -> Function {
    // fact(n: Integer) -> Integer {
    //     if n <= 1 { return 1 } else { return n * fact(n - 1) }
    // }
    Function {
        params: Rc::new(vec![(String::from("n"), TInteger)]),
        ret: TInteger,
        body: Rc::new(vec![Statement::IfThenElse(
            Box::new(Expression::LTE(var("n"), num(1))),
            vec![Statement::Return(num(1))],
            vec![Statement::Return(Box::new(Expression::Mul(
                var("n"),
                Box::new(Expression::FuncCall(
                    String::from("fact"),
                    vec![Expression::Sub(var("n"), num(1))],
                )),
            )))],
        )]),
    }
}

#[test]
fn test_recursive_factorial() {
    let env = Environment::new();
    let r = execute(
        &Statement::FuncDecl(String::from("fact"), factorial_function()),
        &env,
    )
    .unwrap();
    let env2 = match r {
        ControlFlow::Continue(e) => e,
        ControlFlow::Return(_) => panic!("declaration must not return"),
    };
    let out = eval(
        Expression::FuncCall(String::from("fact"), vec![CInt(5)]),
        &env2,
    )
    .unwrap();
    assert_eq!(out, EnvValue::Exp(CInt(120)));
}

fn env_with_factorial() -> Environment {
    let env = Environment::new();
    match execute(
        &Statement::FuncDecl(String::from("fact"), factorial_function()),
        &env,
    )
    .unwrap()
    {
        ControlFlow::Continue(e) => e,
        ControlFlow::Return(_) => panic!("declaration must not return"),
    }
}

#[test]
fn test_call_arity_mismatch() {
    let env = env_with_factorial();
    let out = eval(
        Expression::FuncCall(String::from("fact"), vec![CInt(1), CInt(2)]),
        &env,
    );
    assert_eq!(out, Err(String::from("wrong number of arguments in call to fact")));
}

#[test]
fn test_call_parameter_type_mismatch() {
    let env = env_with_factorial();
    let out = eval(Expression::FuncCall(String::from("fact"), vec![CTrue]), &env);
    assert_eq!(
        out,
        Err(String::from("argument for parameter n has the wrong type"))
    );
}

#[test]
fn test_call_of_non_function() {
    let mut env = Environment::new();
    env.insert(String::from("a"), (Some(EnvValue::Exp(CInt(1))), TInteger));
    let out = eval(Expression::FuncCall(String::from("a"), vec![]), &env);
    assert_eq!(out, Err(String::from("Variable a is not a function")));
}

#[test]
fn test_missing_return_is_an_error() {
    let f = Function {
        params: Rc::new(vec![]),
        ret: TInteger,
        body: Rc::new(vec![Statement::Assignment(String::from("x"), num(1))]),
    };
    let env = Environment::new();
    let env2 = match execute(&Statement::FuncDecl(String::from("f"), f), &env).unwrap() {
        ControlFlow::Continue(e) => e,
        ControlFlow::Return(_) => panic!("declaration must not return"),
    };
    let out = eval(Expression::FuncCall(String::from("f"), vec![]), &env2);
    assert_eq!(out, Err(String::from("function body finished without a return")));
}

#[test]
fn test_return_type_mismatch() {
    let f = Function {
        params: Rc::new(vec![]),
        ret: TBool,
        body: Rc::new(vec![Statement::Return(num(3))]),
    };
    let env = Environment::new();
    let env2 = match execute(&Statement::FuncDecl(String::from("f"), f), &env).unwrap() {
        ControlFlow::Continue(e) => e,
        ControlFlow::Return(_) => panic!("declaration must not return"),
    };
    let out = eval(Expression::FuncCall(String::from("f"), vec![]), &env2);
    assert_eq!(out, Err(String::from("return value has the wrong type")));
}

#[test]
fn test_endless_loop_exhausts_fuel() {
    let st = Statement::While(Box::new(Expression::LT(num(1), num(2))), vec![]);
    let env = Environment::new();
    let out = execute(&st, &env);
    assert_eq!(out, Err(String::from("recursion limit reached.")));
}

#[test]
fn test_conditional_takes_one_branch() {
    let st = Statement::IfThenElse(
        Box::new(Expression::GT(num(2), num(1))),
        vec![Statement::Assignment(String::from("a"), num(1))],
        vec![Statement::Assignment(String::from("a"), num(2))],
    );
    let env = Environment::new();
    match execute(&st, &env).unwrap() {
        ControlFlow::Continue(e) => {
            assert_eq!(e.get("a"), Some(&(Some(EnvValue::Exp(CInt(1))), TInteger)))
        }
        ControlFlow::Return(_) => panic!("expected fall-through"),
    }
}

#[test]
fn test_while_loop_counts() {
    // i = 0; s = 0; while i < 5 { s = s + i; i = i + 1 }
    let body = vec![
        Statement::Assignment(
            String::from("s"),
            Box::new(Expression::Add(var("s"), var("i"))),
        ),
        Statement::Assignment(
            String::from("i"),
            Box::new(Expression::Add(var("i"), num(1))),
        ),
    ];
    let stmts = vec![
        Statement::Assignment(String::from("i"), num(0)),
        Statement::Assignment(String::from("s"), num(0)),
        Statement::While(Box::new(Expression::LT(var("i"), num(5))), body),
    ];
    let env = Environment::new();
    match execute_block(&stmts, &env).unwrap() {
        ControlFlow::Continue(e) => {
            assert_eq!(e.get("s"), Some(&(Some(EnvValue::Exp(CInt(10))), TInteger)))
        }
        ControlFlow::Return(_) => panic!("expected fall-through"),
    }
}

#[test]
fn test_evaluate_expression_renders_value() {
    let env = Environment::new();
    let out = evaluate_expression(Expression::Add(num(2), num(3)), &env);
    assert_eq!(out, Ok(String::from("5")));
}

#[test]
fn test_format_env_value_spellings() {
    assert_eq!(format_env_value(&EnvValue::Exp(CInt(-42))), "-42");
    assert_eq!(
        format_env_value(&EnvValue::Exp(Expression::CReal(Real { mant: 5, scale: 2 }))),
        "0.05"
    );
    assert_eq!(format_env_value(&EnvValue::Exp(CTrue)), "True");
    assert_eq!(format_env_value(&EnvValue::Exp(Expression::CFalse)), "False");
    assert_eq!(
        format_env_value(&EnvValue::Exp(CString(String::from("hey")))),
        "hey"
    );
    assert_eq!(
        format_env_value(&EnvValue::Func(factorial_function())),
        "<function>"
    );
}

#[test]
fn test_execute_inline_command_expression() {
    assert_eq!(execute_inline_command("6 * 7"), Ok(String::from("42")));
}

#[test]
fn test_execute_inline_command_statements() {
    assert_eq!(execute_inline_command("x = 6 * 7"), Ok(String::from("")));
}

#[test]
fn test_parse_and_execute_statements_runs() {
    let env = Environment::new();
    assert_eq!(
        parse_and_execute_statements("x = 1; y = x + 1", &env),
        Ok(String::from(""))
    );
}

#[test]
fn test_parse_failure_message() {
    let env = Environment::new();
    assert_eq!(
        repl_parse_expression("10 +", &env),
        Err(String::from("Parsing Expression Error"))
    );
}

#[test]
fn test_too_many_decimal_places_rejected() {
    let env = Environment::new();
    assert_eq!(
        repl_parse_expression("0.1234567890123456789", &env),
        Err(String::from("Parsing Expression Error"))
    );
}

#[test]
fn test_subtraction_type_error_message() {
    let mut env = Environment::new();
    env.insert(String::from("a"), (Some(EnvValue::Exp(CTrue)), TBool));
    assert_eq!(
        repl_parse_expression("a - 1", &env),
        Err(String::from(
            "Evaluation Error: subtraction '(-)' is only defined for numbers (integers and real)."
        ))
    );
}

#[test]
fn test_multiplication_type_error_message() {
    let mut env = Environment::new();
    env.insert(String::from("a"), (Some(EnvValue::Exp(CTrue)), TBool));
    assert_eq!(
        repl_parse_expression("a * 2", &env),
        Err(String::from(
            "Evaluation Error: multiplication '(*)' is only defined for numbers (integers and real)."
        ))
    );
}

#[test]
fn test_division_type_error_message() {
    let mut env = Environment::new();
    env.insert(String::from("a"), (Some(EnvValue::Exp(CTrue)), TBool));
    assert_eq!(
        repl_parse_expression("a / 2", &env),
        Err(String::from(
            "Evaluation Error: division '(/)' is only defined for numbers (integers and real)."
        ))
    );
}

#[test]
fn test_negation_type_error_message() {
    let mut env = Environment::new();
    env.insert(String::from("a"), (Some(EnvValue::Exp(CTrue)), TBool));
    assert_eq!(
        repl_parse_expression("-a", &env),
        Err(String::from(
            "Evaluation Error: negation '(-)' is only defined for numbers (integers and real)."
        ))
    );
}

#[test]
fn test_comparison_type_error_message() {
    let mut env = Environment::new();
    env.insert(String::from("a"), (Some(EnvValue::Exp(CTrue)), TBool));
    assert_eq!(
        repl_parse_expression("a > 1", &env),
        Err(String::from(
            "Evaluation Error: comparison '(>)' is only defined for numbers (integers and real)."
        ))
    );
}

#[test]
fn test_boolean_connectives() {
    let env = Environment::new();
    let both = Expression::And(Box::new(CTrue), Box::new(Expression::CFalse));
    assert_eq!(eval(both, &env), Ok(EnvValue::Exp(Expression::CFalse)));
    let either = Expression::Or(Box::new(CTrue), Box::new(Expression::CFalse));
    assert_eq!(eval(either, &env), Ok(EnvValue::Exp(CTrue)));
    let flipped = Expression::Not(Box::new(CTrue));
    assert_eq!(eval(flipped, &env), Ok(EnvValue::Exp(Expression::CFalse)));
}

#[test]
fn test_conjunction_type_error() {
    let env = Environment::new();
    let e = Expression::And(Box::new(CTrue), Box::new(CInt(1)));
    assert_eq!(
        eval(e, &env),
        Err(String::from("conjunction '(and)' is only defined for booleans."))
    );
}

#[test]
fn test_if_condition_must_be_boolean() {
    let st = Statement::IfThenElse(num(1), vec![], vec![]);
    let env = Environment::new();
    assert_eq!(
        execute(&st, &env),
        Err(String::from("'if' condition must be a boolean."))
    );
}

#[test]
fn test_while_condition_must_be_boolean() {
    let st = Statement::While(num(1), vec![]);
    let env = Environment::new();
    assert_eq!(
        execute(&st, &env),
        Err(String::from("'while' condition must be a boolean."))
    );
}

#[test]
fn test_call_of_unknown_function() {
    let env = Environment::new();
    let out = eval(Expression::FuncCall(String::from("nope"), vec![]), &env);
    assert_eq!(out, Err(String::from("Variable nope not found")));
}

#[test]
fn test_inline_command_invalid_syntax() {
    assert_eq!(
        execute_inline_command("$%"),
        Err(String::from("Parse Error: Invalid syntax"))
    );
}

#[test]
fn test_statement_parse_error_message() {
    let env = Environment::new();
    assert_eq!(
        repl_parse_statements("1 = 2", env),
        Err(String::from("Statement Parse Error"))
    );
}

#[test]
fn test_boolean_literals_parse() {
    let env = Environment::new();
    assert_eq!(repl_parse_expression("True", &env), Ok(String::from("True")));
    assert_eq!(repl_parse_expression("False", &env), Ok(String::from("False")));
}

#[test]
fn test_string_literal_parses() {
    let env = Environment::new();
    assert_eq!(repl_parse_expression("\"hey\"", &env), Ok(String::from("hey")));
}

#[test]
fn test_keyword_is_not_a_variable() {
    let env = Environment::new();
    assert_eq!(
        repl_parse_expression("if", &env),
        Err(String::from("Parsing Expression Error"))
    );
}

#[test]
fn test_conditional_from_text() {
    let env = Environment::new();
    let env2 = repl_parse_statements("x = 1; if x > 0 { y = 2 } else { y = 3 }", env).unwrap();
    assert_eq!(env2.get("y"), Some(&(Some(EnvValue::Exp(CInt(2))), TInteger)));
}

#[test]
fn test_while_loop_from_text() {
    let env = Environment::new();
    let env2 = repl_parse_statements("i = 0; s = 0; while i < 3 { s = s + i; i = i + 1 }", env)
        .unwrap();
    assert_eq!(env2.get("s"), Some(&(Some(EnvValue::Exp(CInt(3))), TInteger)));
}

#[test]
fn test_function_declaration_and_call_from_text() {
    let env = Environment::new();
    let env2 = repl_parse_statements(
        "def inc(n: Integer) -> Integer { return n + 1 }; a = inc(41)",
        env,
    )
    .unwrap();
    assert_eq!(env2.get("a"), Some(&(Some(EnvValue::Exp(CInt(42))), TInteger)));
}

#[test]
fn test_recursive_factorial_from_text() {
    let env = Environment::new();
    let program = "def fact(n: Integer) -> Integer { if n <= 1 { return 1 } else { return n * fact(n - 1) } }; a = fact(5)";
    let env2 = repl_parse_statements(program, env).unwrap();
    assert_eq!(env2.get("a"), Some(&(Some(EnvValue::Exp(CInt(120))), TInteger)));
}

#[test]
fn test_loop_return_reaches_caller_from_text() {
    let env = Environment::new();
    let program = "def f() -> Integer { while True { return 42 } }; a = f()";
    let env2 = repl_parse_statements(program, env).unwrap();
    assert_eq!(env2.get("a"), Some(&(Some(EnvValue::Exp(CInt(42))), TInteger)));
}

#[test]
fn test_top_level_return_is_an_error() {
    let env = Environment::new();
    assert_eq!(
        repl_parse_statements("return 1", env),
        Err(String::from("Execution Error: Return value not in a Function"))
    );
}

#[test]
fn test_inline_top_level_return_is_an_error() {
    assert_eq!(
        execute_inline_command("return 1"),
        Err(String::from("Execution Error: Return value not in a Function"))
    );
}
