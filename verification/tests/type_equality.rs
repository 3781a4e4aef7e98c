use cty::Type;

#[test]
fn primitive_types_compare_structurally() {
    assert!(Type::String == Type::String);
    assert!(Type::Bool == Type::Bool);
    assert!(Type::Number == Type::Number);
    assert!(Type::String != Type::Bool);
}

#[test]
fn any_equals_only_any() {
    assert!(Type::Any == Type::Any);
    assert!(Type::Any != Type::String);
    assert!(Type::String != Type::Any);
}

#[test]
fn parameterized_types_compare_recursively() {
    assert!(Type::List(Box::new(Type::String)) == Type::List(Box::new(Type::String)));
    assert!(Type::List(Box::new(Type::String)) != Type::List(Box::new(Type::Bool)));
    assert!(Type::MapOf(Box::new(Type::Bool)) == Type::MapOf(Box::new(Type::Bool)));
    assert!(Type::MapOf(Box::new(Type::Bool)) != Type::SetOf(Box::new(Type::Bool)));
}

#[test]
fn tuple_types_compare_elementwise_in_order() {
    let a = Type::Tuple(vec![Type::String, Type::Bool]);
    let b = Type::Tuple(vec![Type::String, Type::Bool]);
    let c = Type::Tuple(vec![Type::Bool, Type::String]);
    let d = Type::Tuple(vec![Type::String]);
    assert!(a == b);
    assert!(a != c);
    assert!(a != d);
}

#[test]
fn object_types_ignore_field_order() {
    let a = Type::Object(vec![
        ("a".to_string(), Type::String),
        ("b".to_string(), Type::Bool),
    ]);
    let b = Type::Object(vec![
        ("b".to_string(), Type::Bool),
        ("a".to_string(), Type::String),
    ]);
    assert!(a == b);
}

#[test]
fn object_types_compare_fields_by_name() {
    let a = Type::Object(vec![("a".to_string(), Type::String)]);
    let b = Type::Object(vec![("a".to_string(), Type::String)]);
    let c = Type::Object(vec![("a".to_string(), Type::Bool)]);
    let d = Type::Object(vec![("b".to_string(), Type::String)]);
    let e = Type::Object(vec![]);
    assert!(a == b);
    assert!(a != c);
    assert!(a != d);
    assert!(a != e);
}

#[test]
fn nested_object_types_compare_recursively() {
    let a = Type::Object(vec![(
        "inner".to_string(),
        Type::Object(vec![("x".to_string(), Type::Number)]),
    )]);
    let b = Type::Object(vec![(
        "inner".to_string(),
        Type::Object(vec![("x".to_string(), Type::Number)]),
    )]);
    let c = Type::Object(vec![(
        "inner".to_string(),
        Type::Object(vec![("x".to_string(), Type::Bool)]),
    )]);
    assert!(a == b);
    assert!(a != c);
}

#[test]
fn cloned_types_are_structurally_equal() {
    let t = Type::Object(vec![
        ("a".to_string(), Type::List(Box::new(Type::String))),
        ("b".to_string(), Type::Tuple(vec![Type::Bool, Type::Number])),
    ]);
    assert!(t.clone() == t);
    assert!(Type::Any.clone() == Type::Any);
}
