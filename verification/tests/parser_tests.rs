use monkey::ast::NodeType;
use monkey::lexer::Lexer;
use monkey::parser::{Parser, Program};

fn parse(src: &str) -> (Program, Vec<String>) {
    let lexer = Lexer::new(src);
    let mut parser = Parser::new(lexer);
    let program = parser.parse_program();
    (program, parser.errors().clone())
}

fn first_statement_string(src: &str) -> String {
    let (program, errors) = parse(src);
    assert!(errors.is_empty(), "unexpected parse errors: {:?}", errors);
    assert_eq!(program.statements.len(), 1);
    program.statements[0].to_string()
}

#[test]
fn product_binds_tighter_than_sum() {
    assert_eq!(first_statement_string("a + b * c;"), "[[a + [b * c]]]");
    assert_eq!(first_statement_string("a * b + c;"), "[[[a * b] + c]]");
}

#[test]
fn comparisons_bind_tighter_than_equality() {
    assert_eq!(first_statement_string("a == b < c;"), "[[a == [b < c]]]");
    assert_eq!(first_statement_string("a < b == c;"), "[[[a < b] == c]]");
}

#[test]
fn equal_precedence_associates_to_the_left() {
    assert_eq!(first_statement_string("a - b + c;"), "[[[a - b] + c]]");
    assert_eq!(first_statement_string("a / b * c;"), "[[[a / b] * c]]");
}

#[test]
fn parentheses_group_explicitly() {
    assert_eq!(first_statement_string("(a + b) * c;"), "[[[a + b] * c]]");
}

#[test]
fn prefix_operators_bind_tighter_than_infix() {
    assert_eq!(first_statement_string("-a + b;"), "[[[- a] + b]]");
    assert_eq!(first_statement_string("!t == f;"), "[[[! t] == f]]");
}

#[test]
fn call_binds_tightest() {
    assert_eq!(first_statement_string("f(a) + b;"), "[[[f (a)] + b]]");
    assert_eq!(first_statement_string("f(a, b + c);"), "[[f (a,[b + c])]]");
}

#[test]
fn let_statement_parses() {
    assert_eq!(first_statement_string("let x = 5;"), "[Let x = 5]");
}

#[test]
fn return_statement_parses() {
    assert_eq!(first_statement_string("return 2 + 3;"), "[Return [2 + 3]]");
}

#[test]
fn if_else_parses() {
    assert_eq!(
        first_statement_string("if (x < y) { x } else { y };"),
        "[If [x < y] do \n[x]\nelse do \n[y]\n]"
    );
}

#[test]
fn function_literal_and_call_parse() {
    assert_eq!(
        first_statement_string("fn(x, y) { x + y };"),
        "[Func (x,y)\n[[x + y]]\n]"
    );
    assert_eq!(first_statement_string("add(1, 2);"), "[[add (1,2)]]");
}

#[test]
fn trailing_semicolon_is_optional() {
    assert_eq!(first_statement_string("a + b"), "[[a + b]]");
    let (program, errors) = parse("let x = 1");
    assert!(errors.is_empty(), "unexpected parse errors: {:?}", errors);
    assert_eq!(program.statements.len(), 1);
}

#[test]
fn let_without_identifier_is_an_error_and_adds_no_let_statement() {
    let (program, errors) = parse("let = 5;");
    assert!(!errors.is_empty());
    assert!(errors[0].contains("identifier"), "got: {:?}", errors);
    assert!(
        program.statements.iter().all(|s| s.get_type() != NodeType::LetStatement),
        "a let statement was added"
    );
}

#[test]
fn let_without_assignment_is_an_error() {
    let (program, errors) = parse("let x 5;");
    assert!(errors.iter().any(|e| e.contains("assignment")), "got: {:?}", errors);
    assert!(
        program.statements.iter().all(|s| s.get_type() != NodeType::LetStatement),
        "a let statement was added"
    );
}

#[test]
fn missing_closing_parenthesis_is_reported() {
    let (_, errors) = parse("(1 + 2;");
    assert!(
        errors.iter().any(|e| e.contains("closing parenthesis")),
        "got: {:?}",
        errors
    );
}

#[test]
fn expected_token_errors_name_both_tokens() {
    let (_, errors) = parse("if x { 1 };");
    assert!(
        errors.iter().any(|e| e == "Expected next token to be ( but got x instead"),
        "got: {:?}",
        errors
    );
}

#[test]
fn oversized_integer_literal_is_a_parse_error() {
    let (program, errors) = parse("9223372036854775808;");
    assert_eq!(program.statements.len(), 0);
    assert!(
        errors.iter().any(|e| e.contains("Integral value")),
        "got: {:?}",
        errors
    );
    let (program, errors) = parse("9223372036854775807;");
    assert!(errors.is_empty(), "got: {:?}", errors);
    assert_eq!(program.statements.len(), 1);
}

#[test]
fn parsing_continues_after_an_error() {
    let (program, errors) = parse("let = 5; let y = 2;");
    assert!(!errors.is_empty());
    assert!(
        program.statements.iter().any(|s| s.to_string() == "[Let y = 2]"),
        "later statements should still parse"
    );
}

#[test]
fn return_without_expression_is_an_error() {
    let (_, errors) = parse("return ;");
    assert!(
        errors.iter().any(|e| e.contains("Return statement missing")),
        "got: {:?}",
        errors
    );
}

#[test]
fn prefix_operator_without_operand_is_an_error() {
    let (_, errors) = parse("-;");
    assert!(
        errors.iter().any(|e| e.contains("missing right operand")),
        "got: {:?}",
        errors
    );
}

#[test]
fn parameters_must_be_separated_by_commas() {
    let (_, errors) = parse("fn(x y) { x };");
    assert!(
        errors.iter().any(|e| e.contains("Missing comma")),
        "got: {:?}",
        errors
    );
}

#[test]
fn parameters_must_be_identifiers() {
    let (_, errors) = parse("fn(1) { 2 };");
    assert!(
        errors.iter().any(|e| e.contains("identifiers")),
        "got: {:?}",
        errors
    );
}

#[test]
fn call_argument_errors_are_reported() {
    let (_, errors) = parse("f(;);");
    assert!(
        errors.iter().any(|e| e.contains("Error in call argument")),
        "got: {:?}",
        errors
    );
    let (_, errors) = parse("f(1,;);");
    assert!(
        errors.iter().any(|e| e.contains("Error in parsing call argument")),
        "got: {:?}",
        errors
    );
}

#[test]
fn call_must_close_its_parenthesis() {
    let (_, errors) = parse("f(1;");
    assert!(
        errors.iter().any(|e| e == "Expected next token to be ) but got ; instead"),
        "got: {:?}",
        errors
    );
}

#[test]
fn invalid_condition_is_reported() {
    let (_, errors) = parse("if (;) { 1 };");
    assert!(
        errors.iter().any(|e| e.contains("Invalid conditional.")),
        "got: {:?}",
        errors
    );
}
