use monkey::enviroment::Enviroment;
use monkey::eval::eval;
use monkey::lexer::Lexer;
use monkey::object::{Boolean, Error, Integer, Null, Object, ObjectType};
use monkey::parser::Parser;

#[test]
fn integers_print_in_decimal() {
    assert_eq!(Object::Integer(Integer { value: 0 }).to_string(), "0");
    assert_eq!(Object::Integer(Integer { value: 42 }).to_string(), "42");
    assert_eq!(Object::Integer(Integer { value: -7 }).to_string(), "-7");
    assert_eq!(
        Object::Integer(Integer { value: i64::MAX }).to_string(),
        "9223372036854775807"
    );
    assert_eq!(
        Object::Integer(Integer { value: i64::MIN }).to_string(),
        "-9223372036854775808"
    );
}

#[test]
fn booleans_and_null_print_their_keywords() {
    assert_eq!(Object::Boolean(Boolean { value: true }).to_string(), "true");
    assert_eq!(Object::Boolean(Boolean { value: false }).to_string(), "false");
    assert_eq!(Object::Null(Null {}).to_string(), "null");
}

#[test]
fn errors_print_their_message() {
    let e = Object::Error(Error { message: "boom".to_owned() });
    assert_eq!(e.to_string(), "boom");
}

#[test]
fn return_values_print_what_they_carry() {
    let v = Object::ReturnValue(Box::new(Object::Integer(Integer { value: 3 })));
    assert_eq!(v.to_string(), "3");
    assert_eq!(v.get_type(), ObjectType::ReturnValue);
}

#[test]
fn function_values_print_parameters_and_body() {
    let lexer = Lexer::new("fn(x, y) { x + y };");
    let mut parser = Parser::new(lexer);
    let program = parser.parse_program();
    assert!(parser.errors().is_empty());
    let mut env = Enviroment::new();
    let values = eval(&program, &mut env, 1_000).expect("fuel");
    assert_eq!(values.len(), 1);
    assert_eq!(values[0].get_type(), ObjectType::Function);
    assert_eq!(values[0].to_string(), "Func (x,y)\n[[x + y]]\n");
}

#[test]
fn duplicate_preserves_kind_and_rendering() {
    let v = Object::Integer(Integer { value: 9 });
    let w = v.duplicate();
    assert_eq!(w.get_type(), ObjectType::Integer);
    assert_eq!(w.to_string(), "9");
    let e = Object::Error(Error { message: "m".to_owned() });
    let f = e.duplicate();
    assert_eq!(f.get_type(), ObjectType::Error);
    assert_eq!(f.to_string(), "m");
}

#[test]
fn get_type_names_each_variant() {
    assert_eq!(Object::Integer(Integer { value: 1 }).get_type(), ObjectType::Integer);
    assert_eq!(Object::Boolean(Boolean { value: true }).get_type(), ObjectType::Boolean);
    assert_eq!(Object::Null(Null {}).get_type(), ObjectType::Null);
    assert_eq!(
        Object::Error(Error { message: String::new() }).get_type(),
        ObjectType::Error
    );
}
