use cty::Type;
use cty::Value;
use cty::ValueInner;

#[test]
fn null_keeps_type() {
    let v = Value::null(Type::Number);
    assert_eq!(v.type_(), &Type::Number);
    assert!(matches!(v.payload(), ValueInner::Null));
}

#[test]
fn unknown_keeps_type() {
    let v = Value::unknown(Type::Bool);
    assert_eq!(v.type_(), &Type::Bool);
    assert!(matches!(v.payload(), ValueInner::Unknown));
}

#[test]
fn dynamic_is_unknown_any() {
    let v = Value::dynamic();
    assert_eq!(v.type_(), &Type::Any);
    assert!(matches!(v.payload(), ValueInner::Unknown));
}

#[test]
fn bool_keeps_flag() {
    let v = Value::bool(true);
    assert_eq!(v.type_(), &Type::Bool);
    match v.payload() {
        ValueInner::Bool(b) => assert!(*b),
        _ => panic!("expected a bool payload"),
    }
}

#[test]
fn string_is_nfc_normalized() {
    // "e" + combining acute accent composes to the single code point U+00E9.
    let v = Value::string("e\u{0301}");
    assert_eq!(v.type_(), &Type::String);
    match v.payload() {
        ValueInner::String(t) => assert_eq!(t.as_str(), "\u{e9}"),
        _ => panic!("expected a string payload"),
    }
}

#[test]
fn string_already_composed_is_kept() {
    let v = Value::string("\u{e9}");
    match v.payload() {
        ValueInner::String(t) => assert_eq!(t.as_str(), "\u{e9}"),
        _ => panic!("expected a string payload"),
    }
}

#[test]
fn empty_string_stays_empty() {
    let v = Value::string("");
    match v.payload() {
        ValueInner::String(t) => assert_eq!(t.as_str(), ""),
        _ => panic!("expected a string payload"),
    }
}
