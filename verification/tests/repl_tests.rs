use rpython::ast::EnvValue;
use rpython::ast::Expression::{CInt, CReal, CTrue};
use rpython::ast::Type::{TBool, TInteger, TReal};
use rpython::decimal::Real;
use rpython::env::Environment;
use rpython::front::{repl_parse_expression, repl_parse_statements};

#[test]
fn test_simple_repl_parse_expression1() {
    let input = "10 + 10";
    let env = Environment::new();
    let output = repl_parse_expression(input, &env);
    match output {
        Ok(result) => assert_eq!("20", result),
        Err(e) => panic!("Error: {}", e),
    }
}

#[test]
fn test_simple_repl_parse_expression2() {
    let input = "(10+100) * (500/100)";
    let env = Environment::new();
    let output = repl_parse_expression(input, &env);
    match output {
        Ok(result) => assert_eq!("550", result),
        Err(e) => panic!("Error: {}", e),
    }
}

#[test]
fn test_simple_repl_parse_expression3() {
    let input = "10-100";
    let env = Environment::new();
    let output = repl_parse_expression(input, &env);
    match output {
        Ok(result) => assert_eq!("-90", result),
        Err(e) => panic!("Error: {}", e),
    }
}

#[test]
fn test_simple_repl_parse_expression4() {
    let input = "90 -                                                           (100)";
    let env = Environment::new();
    let output = repl_parse_expression(input, &env);
    match output {
        Ok(result) => assert_eq!("-10", result),
        Err(e) => panic!("Error: {}", e),
    }
}

#[test]
fn test_simple_repl_parse_expression5() {
    let input = "(-90)*(-20) - (100)";
    let env = Environment::new();
    let output = repl_parse_expression(input, &env);
    match output {
        Ok(result) => assert_eq!("1700", result),
        Err(e) => panic!("Error: {}", e),
    }
}

#[test]
fn test_simple_repl_parse_expression6() {
    let input = "- 90*(- 20) - (200)";
    let env = Environment::new();
    let output = repl_parse_expression(input, &env);
    match output {
        Ok(result) => assert_eq!("1600", result),
        Err(e) => panic!("Error: {}", e),
    }
}

#[test]
fn test_sad_path_repl_parse_expression1() {
    let input = "a + b";
    let env = Environment::new();
    let output = repl_parse_expression(input, &env);
    match output {
        Ok(_) => panic!("Error was expected"),
        Err(e) => assert_eq!("Evaluation Error: Variable a not found", e),
    }
}

#[test]
fn test_sad_path_repl_parse_expression2() {
    let input = "exit";
    let env = Environment::new();
    let output = repl_parse_expression(input, &env);
    match output {
        Ok(_) => panic!("Error was expected"),
        Err(e) => assert_eq!("Evaluation Error: Variable exit not found", e),
    }
}

#[test]
fn test_happy_path_repl_parse_expression1() {
    let input = "a + b";
    let mut env = Environment::new();
    env.insert(
        String::from("a"),
        (Some(EnvValue::Exp(CReal(Real { mant: 105, scale: 1 }))), TReal),
    );
    env.insert(
        String::from("b"),
        (Some(EnvValue::Exp(CReal(Real { mant: 201, scale: 1 }))), TReal),
    );
    let output = repl_parse_expression(input, &env);
    match output {
        Ok(result) => assert_eq!("30.6", result),
        Err(e) => panic!("Error: {}", e),
    }
}

#[test]
fn test_happy_path_repl_parse_expression2() {
    let input = "a + b";
    let mut env = Environment::new();
    env.insert(String::from("a"), (Some(EnvValue::Exp(CInt(10))), TInteger));
    env.insert(String::from("b"), (Some(EnvValue::Exp(CInt(20))), TInteger));
    let output = repl_parse_expression(input, &env);
    match output {
        Ok(result) => assert_eq!("30", result),
        Err(e) => panic!("Error: {}", e),
    }
}

#[test]
fn test_happy_path_repl_parse_expression3() {
    let input = "a * 500";
    let mut env = Environment::new();
    env.insert(
        String::from("a"),
        (Some(EnvValue::Exp(CReal(Real { mant: 100, scale: 1 }))), TReal),
    );
    let output = repl_parse_expression(input, &env);
    match output {
        Ok(result) => assert_eq!("5000", result),
        Err(e) => panic!("Error: {}", e),
    }
}

#[test]
fn test_typechecker_sad_path_repl_parse_expression() {
    let input = "a + b";
    let mut env = Environment::new();
    env.insert(String::from("a"), (Some(EnvValue::Exp(CTrue)), TBool));
    env.insert(String::from("b"), (Some(EnvValue::Exp(CInt(20))), TInteger));
    let output = repl_parse_expression(input, &env);
    match output {
        Ok(_) => panic!("Error was expected"),
        Err(e) => assert_eq!(
            "Evaluation Error: addition '(+)' is only defined for numbers (integers and real).",
            e
        ),
    }
}

#[test]
fn test_negative_first_argument() {
    let input = "-10-100";
    let env = Environment::new();
    let output = repl_parse_expression(input, &env);
    match output {
        Ok(result) => assert_eq!("-110", result),
        Err(e) => panic!("Error: {}", e),
    }
}

#[test]
fn test_repl_parse_assigment1() {
    let input = "a = 10";
    let env = Environment::new();
    let env_output = repl_parse_statements(input, env);
    match env_output {
        Ok(new_env) => assert_eq!(
            new_env.get("a"),
            Some(&(Some(EnvValue::Exp(CInt(10))), TInteger))
        ),
        Err(_) => panic!("New enviroment was expected"),
    }
}

#[test]
fn test_repl_parse_assigment2() {
    let input = "a = 10 + 30";
    let env = Environment::new();
    let env_output = repl_parse_statements(input, env);
    match env_output {
        Ok(new_env) => assert_eq!(
            new_env.get("a"),
            Some(&(Some(EnvValue::Exp(CInt(40))), TInteger))
        ),
        Err(_) => panic!("New enviroment was expected"),
    }
}

#[test]
fn test_repl_parse_assigment4() {
    let input = "a = 10 > 10";
    let env = Environment::new();
    let mut env_expected = Environment::new();
    env_expected.insert(
        String::from("a"),
        (Some(EnvValue::Exp(rpython::ast::Expression::CFalse)), TBool),
    );
    let env_output = repl_parse_statements(input, env);
    match env_output {
        Ok(new_env) => assert_eq!(new_env, env_expected),
        Err(_) => panic!("New enviroment was expected"),
    }
}

#[test]
fn test_repl_parse_assigment5() {
    let input = "a = 10 == 10";
    let env = Environment::new();
    let mut env_expected = Environment::new();
    env_expected.insert(
        String::from("a"),
        (Some(EnvValue::Exp(rpython::ast::Expression::CTrue)), TBool),
    );
    let env_output = repl_parse_statements(input, env);
    match env_output {
        Ok(new_env) => assert_eq!(new_env, env_expected),
        Err(_) => panic!("New enviroment was expected"),
    }
}

#[test]
fn test_complex_repl_parse_assigment1() {
    let input = "a = 10";
    let mut env = Environment::new();
    let mut env_expected = Environment::new();
    env_expected.insert(
        String::from("a"),
        (Some(EnvValue::Exp(rpython::ast::Expression::CInt(10))), TInteger),
    );
    match repl_parse_statements(input, env) {
        Ok(new_env) => {
            assert_eq!(new_env, env_expected);
            env = new_env;
        }
        Err(_) => panic!("New enviroment was expected"),
    }

    let input = "b = a";
    env_expected.insert(
        String::from("b"),
        (Some(EnvValue::Exp(rpython::ast::Expression::CInt(10))), TInteger),
    );
    let result = repl_parse_statements(input, env);

    match result {
        Ok(new_env) => assert_eq!(new_env, env_expected),
        Err(_) => panic!("New enviroment was expected"),
    }
}
