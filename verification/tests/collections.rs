use cty::MismatchContext;
use cty::Type;
use cty::Value;
use cty::ValueInner;

#[test]
fn list_rejects_mixed_element_types() {
    let r = Value::list(Type::String, vec![Value::string("a"), Value::bool(true)]);
    let e = r.unwrap_err();
    assert_eq!(e.expected, Type::String);
    assert_eq!(e.actual, Type::Bool);
    assert_eq!(e.context, MismatchContext::ListElement);
    assert!(e.key.is_none());
}

#[test]
fn list_preserves_input_order() {
    let v = Value::list(Type::String, vec![Value::string("a"), Value::string("b")]).unwrap();
    assert_eq!(v.type_(), &Type::List(Box::new(Type::String)));
    match v.payload() {
        ValueInner::Sequence(elems) => {
            assert_eq!(elems.len(), 2);
            assert_eq!(elems[0], ValueInner::String("a".to_string()));
            assert_eq!(elems[1], ValueInner::String("b".to_string()));
        },
        _ => panic!("expected a sequence payload"),
    }
}

#[test]
fn empty_list_succeeds() {
    let v = Value::list(Type::Bool, vec![]).unwrap();
    assert_eq!(v.type_(), &Type::List(Box::new(Type::Bool)));
    match v.payload() {
        ValueInner::Sequence(elems) => assert!(elems.is_empty()),
        _ => panic!("expected a sequence payload"),
    }
}

#[test]
fn nested_lists_carry_nested_types() {
    let inner1 = Value::list(Type::Bool, vec![Value::bool(true)]).unwrap();
    let inner2 = Value::list(Type::Bool, vec![Value::bool(false)]).unwrap();
    let outer =
        Value::list(Type::List(Box::new(Type::Bool)), vec![inner1, inner2]).unwrap();
    assert_eq!(
        outer.type_(),
        &Type::List(Box::new(Type::List(Box::new(Type::Bool))))
    );
}

#[test]
fn list_element_type_must_match_exactly() {
    // Any is a distinct type, not a wildcard: a Bool element does not inhabit
    // a list of Any.
    let r = Value::list(Type::Any, vec![Value::bool(true)]);
    assert!(r.is_err());
}

#[test]
fn map_last_write_wins_for_duplicate_keys() {
    let v = Value::map(
        Type::Bool,
        vec![
            ("x".to_string(), Value::bool(true)),
            ("x".to_string(), Value::bool(false)),
        ],
    )
    .unwrap();
    assert_eq!(v.type_(), &Type::MapOf(Box::new(Type::Bool)));
    match v.payload() {
        ValueInner::Mapping(entries) => {
            assert_eq!(entries.len(), 1);
            assert_eq!(entries[0].0.as_str(), "x");
            assert_eq!(entries[0].1, ValueInner::Bool(false));
        },
        _ => panic!("expected a mapping payload"),
    }
}

#[test]
fn map_keeps_distinct_keys() {
    let v = Value::map(
        Type::Bool,
        vec![
            ("x".to_string(), Value::bool(true)),
            ("y".to_string(), Value::bool(false)),
        ],
    )
    .unwrap();
    match v.payload() {
        ValueInner::Mapping(entries) => {
            assert_eq!(entries.len(), 2);
        },
        _ => panic!("expected a mapping payload"),
    }
}

#[test]
fn map_rejects_mismatched_entry() {
    let r = Value::map(
        Type::Bool,
        vec![
            ("x".to_string(), Value::bool(true)),
            ("y".to_string(), Value::string("s")),
        ],
    );
    let e = r.unwrap_err();
    assert_eq!(e.expected, Type::Bool);
    assert_eq!(e.actual, Type::String);
    assert_eq!(e.context, MismatchContext::MapEntry);
    assert_eq!(e.key.as_deref(), Some("y"));
}

#[test]
fn empty_map_succeeds() {
    let v = Value::map(Type::String, vec![]).unwrap();
    assert_eq!(v.type_(), &Type::MapOf(Box::new(Type::String)));
    match v.payload() {
        ValueInner::Mapping(entries) => assert!(entries.is_empty()),
        _ => panic!("expected a mapping payload"),
    }
}
