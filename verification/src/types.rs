//! The type algebra: a closed, recursive description of the shapes values can
//! take, compared structurally.

use vstd::prelude::*;

verus! {

/// A structural description of a value's shape.
///
/// `List`, `MapOf` and `SetOf` describe homogeneous collections of one
/// element type; `Tuple` a heterogeneous fixed-arity sequence; `Object` a
/// collection of named fields (the field order carries no meaning); `Any`
/// places no static shape constraint. A `Type` is a pure, immutable
/// description: it carries no lifecycle of its own.
#[derive(Debug)]
pub enum Type {
    String,
    Bool,
    Number,
    List(Box<Type>),
    MapOf(Box<Type>),
    SetOf(Box<Type>),
    Tuple(Vec<Type>),
    Object(Vec<(String, Type)>),
    Any,
}

/// Structural equality of types: two types are equal iff they are the same
/// variant and their parameters are recursively equal. `Object` fields are
/// compared as an unordered collection: each entry of either side must be
/// matched by an entry of the other with the same name and an equal type.
/// `Any` equals only `Any`; there is no subtyping and no implicit widening.
pub open spec fn type_eq(a: Type, b: Type) -> bool
    decreases a, 0int,
{
    match (a, b) {
        (Type::String, Type::String) => true,
        (Type::Bool, Type::Bool) => true,
        (Type::Number, Type::Number) => true,
        (Type::Any, Type::Any) => true,
        (Type::List(x), Type::List(y)) => type_eq(*x, *y),
        (Type::MapOf(x), Type::MapOf(y)) => type_eq(*x, *y),
        (Type::SetOf(x), Type::SetOf(y)) => type_eq(*x, *y),
        (Type::Tuple(xs), Type::Tuple(ys)) => {
            &&& xs@.len() == ys@.len()
            &&& forall|i: int| 0 <= i < xs@.len() ==> type_eq(#[trigger] xs@[i], ys@[i])
        },
        (Type::Object(xs), Type::Object(ys)) => {
            &&& xs@.len() == ys@.len()
            &&& forall|i: int| 0 <= i < xs@.len() ==> obj_matched(#[trigger] xs@[i], ys@)
            &&& forall|i: int| 0 <= i < ys@.len() ==> obj_provides(xs@, #[trigger] ys@[i])
        },
        _ => false,
    }
}

/// Some entry of `ys` carries the same field name as `e` and a type equal to
/// `e`'s (the entry's own type standing on the right of the comparison).
pub open spec fn obj_matched(e: (String, Type), ys: Seq<(String, Type)>) -> bool
    decreases e.1, 1int,
{
    exists|j: int| 0 <= j < ys.len() && (#[trigger] ys[j]).0@ == e.0@ && type_eq(e.1, ys[j].1)
}

/// Some entry of `xs` carries the same field name as `e` and a type equal to
/// `e`'s (the entry's own type standing on the left of the comparison).
pub open spec fn obj_provides(xs: Seq<(String, Type)>, e: (String, Type)) -> bool
    decreases xs, 1int,
{
    exists|j: int| 0 <= j < xs.len() && (#[trigger] xs[j]).0@ == e.0@ && type_eq(xs[j].1, e.1)
}

/// Decides `obj_matched` by scanning `ys`.
#[verifier::loop_isolation(false)]
fn obj_matched_rec(e: &(String, Type), ys: &Vec<(String, Type)>) -> (r: bool)
    ensures
        r == obj_matched(*e, ys@),
    decreases e.1, 1int,
{
    let n = ys.len();
    let mut j: usize = 0;
    while j < n
        invariant
            j <= n,
            forall|l: int|
                0 <= l < j ==> !((#[trigger] ys@[l]).0@ == e.0@ && type_eq(e.1, ys@[l].1)),
        decreases n - j,
    {
        if ys[j].0 == e.0 && type_eq_rec(&e.1, &ys[j].1) {
            return true;
        }
        j += 1;
    }
    false
}

/// Decides `obj_provides` by scanning `xs`.
#[verifier::loop_isolation(false)]
fn obj_provides_rec(xs: &Vec<(String, Type)>, e: &(String, Type)) -> (r: bool)
    ensures
        r == obj_provides(xs@, *e),
    decreases xs, 1int,
{
    let n = xs.len();
    let mut j: usize = 0;
    while j < n
        invariant
            j <= n,
            forall|l: int|
                0 <= l < j ==> !((#[trigger] xs@[l]).0@ == e.0@ && type_eq(xs@[l].1, e.1)),
        decreases n - j,
    {
        if xs[j].0 == e.0 && type_eq_rec(&xs[j].1, &e.1) {
            return true;
        }
        j += 1;
    }
    false
}

/// Decides structural equality of two types.
#[verifier::loop_isolation(false)]
pub fn type_eq_rec(a: &Type, b: &Type) -> (r: bool)
    ensures
        r == type_eq(*a, *b),
    decreases a, 0int,
{
    match (a, b) {
        (Type::String, Type::String) => true,
        (Type::Bool, Type::Bool) => true,
        (Type::Number, Type::Number) => true,
        (Type::Any, Type::Any) => true,
        (Type::List(x), Type::List(y)) => type_eq_rec(&**x, &**y),
        (Type::MapOf(x), Type::MapOf(y)) => type_eq_rec(&**x, &**y),
        (Type::SetOf(x), Type::SetOf(y)) => type_eq_rec(&**x, &**y),
        (Type::Tuple(xs), Type::Tuple(ys)) => {
            if xs.len() != ys.len() {
                return false;
            }
            let n = xs.len();
            let mut i: usize = 0;
            while i < n
                invariant
                    i <= n,
                    forall|k: int| 0 <= k < i ==> type_eq(#[trigger] xs@[k], ys@[k]),
                decreases n - i,
            {
                if !type_eq_rec(&xs[i], &ys[i]) {
                    return false;
                }
                i += 1;
            }
            true
        },
        (Type::Object(xs), Type::Object(ys)) => {
            if xs.len() != ys.len() {
                return false;
            }
            let n = xs.len();
            let mut i: usize = 0;
            while i < n
                invariant
                    i <= n,
                    forall|k: int| 0 <= k < i ==> obj_matched(#[trigger] xs@[k], ys@),
                decreases n - i,
            {
                if !obj_matched_rec(&xs[i], ys) {
                    return false;
                }
                i += 1;
            }
            let mut i2: usize = 0;
            while i2 < n
                invariant
                    i2 <= n,
                    forall|k: int| 0 <= k < i2 ==> obj_provides(xs@, #[trigger] ys@[k]),
                decreases n - i2,
            {
                if !obj_provides_rec(xs, &ys[i2]) {
                    return false;
                }
                i2 += 1;
            }
            true
        },
        _ => false,
    }
}

impl Clone for Type {
    /// A structurally equal copy.
    fn clone(&self) -> (res: Type)
        ensures
            type_eq(*self, res),
    {
        clone_type(self)
    }
}

/// Copies a type; the copy is structurally equal, with field order kept.
#[verifier::loop_isolation(false)]
fn clone_type(t: &Type) -> (res: Type)
    ensures
        type_eq(*t, res),
    decreases t,
{
    match t {
        Type::String => Type::String,
        Type::Bool => Type::Bool,
        Type::Number => Type::Number,
        Type::Any => Type::Any,
        Type::List(x) => Type::List(Box::new(clone_type(&**x))),
        Type::MapOf(x) => Type::MapOf(Box::new(clone_type(&**x))),
        Type::SetOf(x) => Type::SetOf(Box::new(clone_type(&**x))),
        Type::Tuple(xs) => {
            let n = xs.len();
            let mut out: Vec<Type> = Vec::new();
            let mut i: usize = 0;
            while i < n
                invariant
                    i <= n,
                    out@.len() == i,
                    forall|k: int| 0 <= k < i ==> type_eq(#[trigger] xs@[k], out@[k]),
                decreases n - i,
            {
                out.push(clone_type(&xs[i]));
                i += 1;
            }
            Type::Tuple(out)
        },
        Type::Object(xs) => {
            let n = xs.len();
            let mut out: Vec<(String, Type)> = Vec::new();
            let mut i: usize = 0;
            while i < n
                invariant
                    i <= n,
                    out@.len() == i,
                    forall|k: int|
                        0 <= k < i ==> (#[trigger] out@[k]).0@ == xs@[k].0@ && type_eq(
                            xs@[k].1,
                            out@[k].1,
                        ),
                decreases n - i,
            {
                let name = xs[i].0.clone();
                let tv = clone_type(&xs[i].1);
                out.push((name, tv));
                i += 1;
            }
            proof {
                assert forall|i2: int| 0 <= i2 < xs@.len() implies obj_matched(
                    #[trigger] xs@[i2],
                    out@,
                ) by {
                    assert(0 <= i2 < out@.len() && (out@[i2]).0@ == (xs@[i2]).0@ && type_eq(
                        xs@[i2].1,
                        out@[i2].1,
                    ));
                }
                assert forall|i2: int| 0 <= i2 < out@.len() implies obj_provides(
                    xs@,
                    #[trigger] out@[i2],
                ) by {
                    assert(0 <= i2 < xs@.len() && (xs@[i2]).0@ == (out@[i2]).0@ && type_eq(
                        xs@[i2].1,
                        out@[i2].1,
                    ));
                }
            }
            Type::Object(out)
        },
    }
}

impl PartialEq for Type {
    /// Structural equality, per `type_eq`.
    fn eq(&self, other: &Type) -> bool {
        type_eq_rec(self, other)
    }
}

impl vstd::std_specs::cmp::PartialEqSpecImpl for Type {
    open spec fn obeys_eq_spec() -> bool {
        true
    }

    open spec fn eq_spec(&self, other: &Type) -> bool {
        type_eq(*self, *other)
    }
}

/// Structural equality is reflexive: every type equals itself.
pub proof fn lemma_type_eq_reflexive(t: Type)
    ensures
        type_eq(t, t),
    decreases t,
{
    match t {
        Type::List(x) => lemma_type_eq_reflexive(*x),
        Type::MapOf(x) => lemma_type_eq_reflexive(*x),
        Type::SetOf(x) => lemma_type_eq_reflexive(*x),
        Type::Tuple(xs) => {
            assert forall|i: int| 0 <= i < xs@.len() implies type_eq(
                #[trigger] xs@[i],
                xs@[i],
            ) by {
                lemma_type_eq_reflexive(xs@[i]);
            }
        },
        Type::Object(xs) => {
            assert forall|i: int| 0 <= i < xs@.len() implies obj_matched(
                #[trigger] xs@[i],
                xs@,
            ) by {
                lemma_type_eq_reflexive(xs@[i].1);
                assert(0 <= i < xs@.len() && (xs@[i]).0@ == (xs@[i]).0@ && type_eq(
                    xs@[i].1,
                    xs@[i].1,
                ));
            }
            assert forall|i: int| 0 <= i < xs@.len() implies obj_provides(
                xs@,
                #[trigger] xs@[i],
            ) by {
                lemma_type_eq_reflexive(xs@[i].1);
                assert(0 <= i < xs@.len() && (xs@[i]).0@ == (xs@[i]).0@ && type_eq(
                    xs@[i].1,
                    xs@[i].1,
                ));
            }
        },
        _ => {},
    }
}

} // verus!

