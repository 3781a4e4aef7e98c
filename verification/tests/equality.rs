use cty::Type;
use cty::Value;

#[test]
fn string_equality_is_by_text() {
    assert!(Value::string("a") == Value::string("a"));
    assert!(Value::string("a") != Value::string("b"));
}

#[test]
fn canonically_equivalent_strings_are_equal() {
    // Decomposed and precomposed forms of "é" are byte-different on input
    // but canonically equivalent, so the constructed values are equal.
    let decomposed = Value::string("e\u{0301}");
    let composed = Value::string("\u{e9}");
    assert!(decomposed == composed);
    assert_eq!(decomposed.payload(), composed.payload());
}

#[test]
fn unknown_is_never_equal() {
    let a = Value::unknown(Type::String);
    let b = Value::unknown(Type::String);
    assert!(a != b);
    // Not even to itself: equality on unknowns is not reflexive.
    assert!(a != a);
    assert!(a != Value::null(Type::String));
    assert!(Value::null(Type::String) != a);
}

#[test]
fn null_equality_is_reflexive() {
    let a = Value::null(Type::Bool);
    let b = Value::null(Type::Bool);
    assert!(a == b);
    assert!(a == a);
    // Nulls of different types differ.
    assert!(Value::null(Type::Bool) != Value::null(Type::String));
}

#[test]
fn bool_equality_is_by_flag() {
    assert!(Value::bool(true) == Value::bool(true));
    assert!(Value::bool(true) != Value::bool(false));
}

#[test]
fn cross_variant_comparison_is_false_not_an_error() {
    assert!(Value::string("x") != Value::bool(true));
    assert!(Value::bool(true) != Value::string("x"));
    assert!(Value::null(Type::Bool) != Value::bool(true));
}

#[test]
fn collection_values_never_compare_equal() {
    // Collection payloads have no deep-equality rule: structurally identical
    // lists still compare unequal.
    let a = Value::list(Type::Bool, vec![Value::bool(true)]).unwrap();
    let b = Value::list(Type::Bool, vec![Value::bool(true)]).unwrap();
    assert!(a != b);
    let m1 = Value::map(Type::Bool, vec![("x".to_string(), Value::bool(true))]).unwrap();
    let m2 = Value::map(Type::Bool, vec![("x".to_string(), Value::bool(true))]).unwrap();
    assert!(m1 != m2);
}

#[test]
fn string_of_normalized_text_equals_original() {
    // Building a string from the already-normalized stored text of another
    // string value yields an equal value: normalization is idempotent.
    let first = Value::string("e\u{0301}");
    let stored = match first.payload() {
        cty::ValueInner::String(t) => t.clone(),
        _ => panic!("expected a string payload"),
    };
    let second = Value::string(&stored);
    assert!(first == second);
}

#[test]
fn cloned_values_follow_the_equality_policy() {
    let b = Value::bool(true);
    assert!(b.clone() == b);
    let n = Value::null(Type::String);
    assert!(n.clone() == n);
    // A clone of an unknown value is still never equal to its original.
    let u = Value::unknown(Type::String);
    assert!(u.clone() != u);
}
