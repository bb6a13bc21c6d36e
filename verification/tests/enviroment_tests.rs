use monkey::enviroment::Enviroment;
use monkey::object::{Integer, Object, ObjectType};

fn int_value(v: i64) -> Object {
    Object::Integer(Integer { value: v })
}

#[test]
fn insert_then_get_finds_the_binding() {
    let mut env = Enviroment::new();
    env.insert(0, "x".to_owned(), int_value(5));
    let got = env.get(0, &"x".to_owned()).expect("x should be bound");
    assert_eq!(got.to_string(), "5");
}

#[test]
fn missing_names_are_absent() {
    let env = Enviroment::new();
    assert!(env.get(0, &"nope".to_owned()).is_none());
}

#[test]
fn a_later_insert_shadows_an_earlier_one_in_the_same_scope() {
    let mut env = Enviroment::new();
    env.insert(0, "x".to_owned(), int_value(1));
    env.insert(0, "x".to_owned(), int_value(2));
    let got = env.get(0, &"x".to_owned()).expect("x should be bound");
    assert_eq!(got.to_string(), "2");
}

#[test]
fn lookup_walks_outward_through_enclosing_scopes() {
    let mut env = Enviroment::new();
    env.insert(0, "x".to_owned(), int_value(1));
    let inner = env.push_scope(0);
    assert_eq!(inner, 1);
    let got = env.get(inner, &"x".to_owned()).expect("x visible from inner scope");
    assert_eq!(got.to_string(), "1");
}

#[test]
fn inner_bindings_shadow_outer_ones_without_touching_them() {
    let mut env = Enviroment::new();
    env.insert(0, "x".to_owned(), int_value(1));
    let inner = env.push_scope(0);
    env.insert(inner, "x".to_owned(), int_value(2));
    assert_eq!(env.get(inner, &"x".to_owned()).unwrap().to_string(), "2");
    assert_eq!(env.get(0, &"x".to_owned()).unwrap().to_string(), "1");
}

#[test]
fn sibling_scopes_do_not_see_each_other() {
    let mut env = Enviroment::new();
    let a = env.push_scope(0);
    let b = env.push_scope(0);
    env.insert(a, "x".to_owned(), int_value(1));
    assert!(env.get(b, &"x".to_owned()).is_none());
}

#[test]
fn scope_count_grows_with_push_scope() {
    let mut env = Enviroment::new();
    assert_eq!(env.scope_count(), 1);
    env.push_scope(0);
    env.push_scope(1);
    assert_eq!(env.scope_count(), 3);
}

#[test]
fn stored_values_keep_their_kind() {
    let mut env = Enviroment::new();
    env.insert(0, "b".to_owned(), Object::Boolean(monkey::object::Boolean { value: true }));
    let got = env.get(0, &"b".to_owned()).unwrap();
    assert_eq!(got.get_type(), ObjectType::Boolean);
    assert_eq!(got.to_string(), "true");
}
