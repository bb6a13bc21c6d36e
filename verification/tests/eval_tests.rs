use monkey::ast::{Expression, InfixExpression, IntegralExpression, PrefixExpression};
use monkey::enviroment::Enviroment;
use monkey::eval::eval;
use monkey::token::TokenType;
use monkey::lexer::Lexer;
use monkey::object::ObjectType;
use monkey::parser::Parser;

const FUEL: u64 = 1_000_000;

/// Lex, parse and evaluate one source text under a fresh environment, and
/// return what would be printed: one line per non-null value.
fn run(src: &str) -> Vec<String> {
    let lexer = Lexer::new(src);
    let mut parser = Parser::new(lexer);
    let program = parser.parse_program();
    assert!(
        parser.errors().is_empty(),
        "unexpected parse errors: {:?}",
        parser.errors()
    );
    let mut env = Enviroment::new();
    let values = eval(&program, &mut env, FUEL).expect("evaluation ran out of fuel");
    values
        .iter()
        .filter(|v| v.get_type() != ObjectType::Null)
        .map(|v| v.to_string())
        .collect()
}

#[test]
fn let_binding_then_use() {
    assert_eq!(run("let x = 10; x;"), vec!["10"]);
}

#[test]
fn grouped_arithmetic() {
    assert_eq!(run("(1 + 2) * 3;"), vec!["9"]);
}

#[test]
fn if_else_takes_the_true_branch() {
    assert_eq!(run("if (1 < 2) { 10 } else { 20 };"), vec!["10"]);
}

#[test]
fn closures_see_their_defining_scope() {
    assert_eq!(
        run("let adder = fn(x) { fn(y) { x + y } };\nlet add2 = adder(2);\nadd2(40);"),
        vec!["42"]
    );
}

#[test]
fn early_return_leaves_the_function() {
    assert_eq!(
        run("let f = fn(x) { if (x < 0) { return 0; }; x * 2 };\nf(-5);"),
        vec!["0"]
    );
    assert_eq!(
        run("let f = fn(x) { if (x < 0) { return 0; }; x * 2 };\nf(4);"),
        vec!["8"]
    );
}

#[test]
fn unbound_variable_is_an_error_and_binds_nothing() {
    assert_eq!(run("let y = foo + 1; y;"), vec!["Variable foo not in scope."]);
}

#[test]
fn arithmetic_and_comparisons() {
    assert_eq!(run("5 + 5 * 2;"), vec!["15"]);
    assert_eq!(run("10 - 2 - 3;"), vec!["5"]);
    assert_eq!(run("10 / 2 / 5;"), vec!["1"]);
    assert_eq!(run("7 / 2;"), vec!["3"]);
    assert_eq!(run("1 < 2;"), vec!["true"]);
    assert_eq!(run("1 > 2;"), vec!["false"]);
    assert_eq!(run("2 == 2;"), vec!["true"]);
    assert_eq!(run("2 != 2;"), vec!["false"]);
    assert_eq!(run("true == true;"), vec!["true"]);
    assert_eq!(run("true != false;"), vec!["true"]);
}

#[test]
fn prefix_operators() {
    assert_eq!(run("-5;"), vec!["-5"]);
    assert_eq!(run("!true;"), vec!["false"]);
    assert_eq!(run("!false;"), vec!["true"]);
    assert_eq!(run("-(2 + 3);"), vec!["-5"]);
}

#[test]
fn addition_wraps_around_on_overflow() {
    assert_eq!(
        run("9223372036854775807 + 1;"),
        vec!["-9223372036854775808"]
    );
}

#[test]
fn division_by_zero_is_an_error_value() {
    assert_eq!(run("1 / 0;"), vec!["Division by zero."]);
}

#[test]
fn error_absorption_in_infix_expressions() {
    assert_eq!(run("foo + 1;"), vec!["Variable foo not in scope."]);
    assert_eq!(run("1 + foo;"), vec!["Variable foo not in scope."]);
    assert_eq!(run("(1 / 0) * (bar + 1);"), vec!["Division by zero."]);
}

#[test]
fn mixed_operand_types_are_an_error() {
    assert_eq!(
        run("5 + true;"),
        vec!["Infix operands must both be integers or both be booleans."]
    );
    assert_eq!(
        run("true < false;"),
        vec!["Boolean infix being evaluated with invalid operand."]
    );
}

#[test]
fn prefix_operand_type_errors() {
    assert_eq!(
        run("-true;"),
        vec!["Error: Prefix operand is not an integer as expected"]
    );
    assert_eq!(
        run("!5;"),
        vec!["Error: Prefix operand is not a boolean as expected"]
    );
}

#[test]
fn condition_must_be_boolean() {
    assert_eq!(run("if (1) { 2 };"), vec!["Condition is not of boolean type."]);
}

#[test]
fn if_without_alternative_yields_nothing_printable() {
    assert_eq!(run("if (false) { 10 };"), Vec::<String>::new());
}

#[test]
fn calling_a_non_function_is_an_error() {
    assert_eq!(run("let x = 5; x(3);"), vec!["Invalid function."]);
}

#[test]
fn wrong_argument_count_is_an_error() {
    assert_eq!(
        run("let f = fn(x, y) { x + y }; f(1);"),
        vec!["Wrong number of arguments."]
    );
}

#[test]
fn arguments_evaluate_left_to_right_stopping_at_the_first_error() {
    assert_eq!(
        run("let f = fn(x, y) { x }; f(nope + 1, 1 / 0);"),
        vec!["Variable nope not in scope."]
    );
}

#[test]
fn top_level_return_short_circuits_the_program() {
    assert_eq!(run("return 5; 10;"), vec!["5"]);
}

#[test]
fn shadowing_rebinds_in_the_same_scope() {
    assert_eq!(run("let x = 1; let x = 2; x;"), vec!["2"]);
}

#[test]
fn call_parameters_shadow_outer_bindings() {
    assert_eq!(run("let x = 1; let f = fn(x) { x }; f(9);"), vec!["9"]);
    assert_eq!(run("let x = 1; let f = fn(x) { x }; f(9); x;"), vec!["9", "1"]);
}

#[test]
fn functions_are_first_class_values() {
    assert_eq!(
        run("let apply = fn(f, v) { f(v) }; let inc = fn(n) { n + 1 }; apply(inc, 41);"),
        vec!["42"]
    );
}

#[test]
fn recursive_functions_run() {
    assert_eq!(
        run("let fact = fn(n) { if (n < 2) { 1 } else { n * fact(n - 1) } }; fact(5);"),
        vec!["120"]
    );
}

#[test]
fn an_error_does_not_bind_and_later_lookup_fails() {
    assert_eq!(
        run("let y = 1 / 0; y;"),
        vec!["Division by zero."]
    );
}

#[test]
fn nonterminating_program_runs_out_of_fuel() {
    let lexer = Lexer::new("let f = fn() { f() }; f();");
    let mut parser = Parser::new(lexer);
    let program = parser.parse_program();
    assert!(parser.errors().is_empty());
    let mut env = Enviroment::new();
    assert!(eval(&program, &mut env, 2_000).is_none());
}

#[test]
fn repl_environment_persists_across_programs() {
    let mut env = Enviroment::new();
    let lexer = Lexer::new("let x = 41;");
    let mut parser = Parser::new(lexer);
    let program = parser.parse_program();
    assert!(parser.errors().is_empty());
    eval(&program, &mut env, FUEL).expect("fuel");
    let lexer = Lexer::new("x + 1;");
    let mut parser = Parser::new(lexer);
    let program = parser.parse_program();
    assert!(parser.errors().is_empty());
    let values = eval(&program, &mut env, FUEL).expect("fuel");
    assert_eq!(values.len(), 1);
    assert_eq!(values[0].to_string(), "42");
}

#[test]
fn evaluation_is_deterministic() {
    let first = run("let adder = fn(x) { fn(y) { x + y } }; adder(2)(3) * adder(1)(4);");
    let second = run("let adder = fn(x) { fn(y) { x + y } }; adder(2)(3) * adder(1)(4);");
    assert_eq!(first, vec!["25"]);
    assert_eq!(first, second);
}

#[test]
fn division_overflow_is_an_error_value() {
    assert_eq!(
        run("let min = 0 - 9223372036854775807 - 1; min / (0 - 1);"),
        vec!["Integer overflow in division."]
    );
}

#[test]
fn hand_built_nodes_with_impossible_operators_evaluate_to_errors() {
    let mut env = Enviroment::new();
    let bad_infix = Expression::Infix(InfixExpression {
        operator: TokenType::Bang,
        left: Box::new(Expression::Integral(IntegralExpression { value: 1 })),
        right: Box::new(Expression::Integral(IntegralExpression { value: 2 })),
    });
    let v = bad_infix.eval(&mut env, 0, 100).unwrap();
    assert_eq!(
        v.to_string(),
        "Integer infix being evaluated with invalid operand."
    );
    let bad_prefix = Expression::Prefix(PrefixExpression {
        operator: TokenType::Plus,
        right: Box::new(Expression::Integral(IntegralExpression { value: 1 })),
    });
    let v = bad_prefix.eval(&mut env, 0, 100).unwrap();
    assert_eq!(v.to_string(), "Error: Prefix operator not - or !..");
}
