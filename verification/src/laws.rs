//! General laws of the value model, stated and proved over the same models
//! the contracts use.

use vstd::prelude::*;

verus! {

use crate::types::Type;
use crate::types::lemma_type_eq_reflexive;
use crate::types::obj_matched;
use crate::types::obj_provides;
use crate::types::type_eq;
use crate::value::PayloadView;
use crate::value::ValueModel;
use crate::value::nfc_of;
use crate::value::payload_eq;
use crate::value::string_payload;
use crate::value::value_eq;

/// String values store the NFC form of their text, so two string values are
/// equal exactly when their input texts are canonically equivalent — in
/// particular, string values built from one text are always equal.
pub proof fn lemma_string_equality(a: Seq<char>, b: Seq<char>)
    ensures
        payload_eq(string_payload(a), string_payload(b)) <==> nfc_of(a) == nfc_of(b),
        value_eq(
            (ValueModel { ty: Type::String, payload: string_payload(a) }),
            (ValueModel { ty: Type::String, payload: string_payload(b) }),
        ) <==> nfc_of(a) == nfc_of(b),
{
}

/// An unknown value is never equal to anything — not even to itself.
pub proof fn lemma_unknown_never_equal(a: ValueModel, b: ValueModel)
    requires
        a.payload is Unknown,
    ensures
        !value_eq(a, b),
        !value_eq(b, a),
{
}

/// Equality on null values is reflexive: two null values of equal types are
/// equal, and in particular every null value equals itself.
pub proof fn lemma_null_reflexive(a: ValueModel, b: ValueModel)
    requires
        a.payload is Null,
        b.payload is Null,
        type_eq(a.ty, b.ty),
    ensures
        value_eq(a, b),
        value_eq(a, a),
{
    lemma_type_eq_reflexive(a.ty);
}

/// Payload equality is a total comparison that never holds across payload
/// variants: it can hold only between two nulls, two booleans, or two texts.
pub proof fn lemma_payload_eq_same_variant(a: PayloadView, b: PayloadView)
    ensures
        payload_eq(a, b) ==> ((a is Null && b is Null) || (a is Boolean && b is Boolean) || (
        a is Text && b is Text)),
{
}

/// Structural equality of types is symmetric.
pub proof fn lemma_type_eq_symmetric(a: Type, b: Type)
    requires
        type_eq(a, b),
    ensures
        type_eq(b, a),
    decreases a,
{
    match (a, b) {
        (Type::List(x), Type::List(y)) => lemma_type_eq_symmetric(*x, *y),
        (Type::MapOf(x), Type::MapOf(y)) => lemma_type_eq_symmetric(*x, *y),
        (Type::SetOf(x), Type::SetOf(y)) => lemma_type_eq_symmetric(*x, *y),
        (Type::Tuple(xs), Type::Tuple(ys)) => {
            assert forall|i: int| 0 <= i < ys@.len() implies type_eq(
                #[trigger] ys@[i],
                xs@[i],
            ) by {
                lemma_type_eq_symmetric(xs@[i], ys@[i]);
            }
        },
        (Type::Object(xs), Type::Object(ys)) => {
            assert forall|i: int| 0 <= i < ys@.len() implies obj_matched(
                #[trigger] ys@[i],
                xs@,
            ) by {
                assert(obj_provides(xs@, ys@[i]));
                let j = choose|j: int|
                    0 <= j < xs@.len() && (#[trigger] xs@[j]).0@ == ys@[i].0@ && type_eq(
                        xs@[j].1,
                        ys@[i].1,
                    );
                lemma_type_eq_symmetric(xs@[j].1, ys@[i].1);
                assert(0 <= j < xs@.len() && (xs@[j]).0@ == (ys@[i]).0@ && type_eq(
                    ys@[i].1,
                    xs@[j].1,
                ));
            }
            assert forall|i: int| 0 <= i < xs@.len() implies obj_provides(
                ys@,
                #[trigger] xs@[i],
            ) by {
                assert(obj_matched(xs@[i], ys@));
                let j = choose|j: int|
                    0 <= j < ys@.len() && (#[trigger] ys@[j]).0@ == xs@[i].0@ && type_eq(
                        xs@[i].1,
                        ys@[j].1,
                    );
                lemma_type_eq_symmetric(xs@[i].1, ys@[j].1);
                assert(0 <= j < ys@.len() && (ys@[j]).0@ == (xs@[i]).0@ && type_eq(
                    ys@[j].1,
                    xs@[i].1,
                ));
            }
        },
        _ => {},
    }
}

/// Value equality is symmetric (and payload equality with it).
pub proof fn lemma_value_eq_symmetric(a: ValueModel, b: ValueModel)
    requires
        value_eq(a, b),
    ensures
        value_eq(b, a),
{
    lemma_type_eq_symmetric(a.ty, b.ty);
}

/// Object types with the same named fields are structurally equal whatever
/// order the fields stand in.
pub proof fn lemma_object_eq_any_order(xs: Vec<(String, Type)>, ys: Vec<(String, Type)>)
    requires
        xs@.to_multiset() == ys@.to_multiset(),
    ensures
        type_eq(Type::Object(xs), Type::Object(ys)),
{
    xs@.to_multiset_ensures();
    ys@.to_multiset_ensures();
    assert(xs@.len() == ys@.len());
    assert forall|i: int| 0 <= i < xs@.len() implies obj_matched(#[trigger] xs@[i], ys@) by {
        assert(xs@.contains(xs@[i]));
        assert(xs@.to_multiset().count(xs@[i]) > 0);
        assert(ys@.to_multiset().count(xs@[i]) > 0);
        assert(ys@.contains(xs@[i]));
        let j = choose|j: int| 0 <= j < ys@.len() && ys@[j] == xs@[i];
        lemma_type_eq_reflexive(xs@[i].1);
        assert(0 <= j < ys@.len() && (ys@[j]).0@ == (xs@[i]).0@ && type_eq(xs@[i].1, ys@[j].1));
    }
    assert forall|i: int| 0 <= i < ys@.len() implies obj_provides(xs@, #[trigger] ys@[i]) by {
        assert(ys@.contains(ys@[i]));
        assert(ys@.to_multiset().count(ys@[i]) > 0);
        assert(xs@.to_multiset().count(ys@[i]) > 0);
        assert(xs@.contains(ys@[i]));
        let j = choose|j: int| 0 <= j < xs@.len() && xs@[j] == ys@[i];
        lemma_type_eq_reflexive(ys@[i].1);
        assert(0 <= j < xs@.len() && (xs@[j]).0@ == (ys@[i]).0@ && type_eq(xs@[j].1, ys@[i].1));
    }
}

} // verus!

