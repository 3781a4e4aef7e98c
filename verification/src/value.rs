//! The tagged value representation: an immutable pair of declared type and
//! payload, produced only by validating constructors.

use unicode_normalization::UnicodeNormalization;
use vstd::prelude::*;

verus! {

use crate::types::Type;
use crate::types::type_eq;
use crate::types::type_eq_rec;

/// The NFC (canonical composed) form of a text, as Unicode Standard Annex #15
/// defines it. A function of the characters alone.
pub uninterp spec fn nfc_of(s: Seq<char>) -> Seq<char>;

/// Relies on unicode_normalization's `nfc()` on `&str`: it yields the text in
/// Unicode Normalization Form C per UAX #15, a function of the characters
/// alone; UAX #15 also states that normalization is idempotent, so the result
/// is its own NFC form.
#[verifier::external_body]
fn normalize_nfc(s: &str) -> (r: String)
    ensures
        r@ == nfc_of(s@),
        nfc_of(r@) == r@,
{
    s.nfc().collect()
}

/// The abstract shape of a stored payload: text as characters, sequences in
/// order, mappings as name-payload pairs in storage order.
pub enum PayloadView {
    Text(Seq<char>),
    Boolean(bool),
    Sequence(Seq<PayloadView>),
    Mapping(Seq<(Seq<char>, PayloadView)>),
    Unknown,
    Null,
}

/// A stored payload. `Null` means "this slot has no value, but its type is
/// known"; `Unknown` means "this value's type is known but its concrete
/// content has not yet been determined". Collection payloads hold the
/// payloads of their elements, not whole values: the element types were
/// checked and discharged at construction.
#[derive(Debug)]
pub enum ValueInner {
    String(String),
    Bool(bool),
    Sequence(Vec<ValueInner>),
    Mapping(Vec<(String, ValueInner)>),
    Unknown,
    Null,
}

/// The abstract content of a payload.
pub open spec fn payload_view(p: ValueInner) -> PayloadView
    decreases p, 0int,
{
    match p {
        ValueInner::String(s) => PayloadView::Text(s@),
        ValueInner::Bool(b) => PayloadView::Boolean(b),
        ValueInner::Sequence(elems) => PayloadView::Sequence(elem_views(elems@)),
        ValueInner::Mapping(entries) => PayloadView::Mapping(entry_views(entries@)),
        ValueInner::Unknown => PayloadView::Unknown,
        ValueInner::Null => PayloadView::Null,
    }
}

/// The abstract contents of a sequence of stored payloads, in order.
pub open spec fn elem_views(s: Seq<ValueInner>) -> Seq<PayloadView>
    decreases s, 1int,
{
    if s.len() == 0 {
        Seq::empty()
    } else {
        elem_views(s.drop_last()).push(payload_view(s.last()))
    }
}

/// The abstract contents of stored mapping entries, as name-payload pairs in
/// storage order.
pub open spec fn entry_views(s: Seq<(String, ValueInner)>) -> Seq<(Seq<char>, PayloadView)>
    decreases s, 1int,
{
    if s.len() == 0 {
        Seq::empty()
    } else {
        entry_views(s.drop_last()).push((s.last().0@, payload_view(s.last().1)))
    }
}

/// `elem_views` maps the sequence pointwise.
pub proof fn lemma_elem_views(s: Seq<ValueInner>)
    ensures
        elem_views(s).len() == s.len(),
        forall|i: int| 0 <= i < s.len() ==> elem_views(s)[i] == payload_view(#[trigger] s[i]),
    decreases s.len(),
{
    if s.len() > 0 {
        lemma_elem_views(s.drop_last());
        assert forall|i: int| 0 <= i < s.len() implies elem_views(s)[i] == payload_view(
            #[trigger] s[i],
        ) by {
            if i < s.len() - 1 {
                assert(s.drop_last()[i] == s[i]);
            }
        }
    }
}

/// `entry_views` maps the sequence pointwise.
pub proof fn lemma_entry_views(s: Seq<(String, ValueInner)>)
    ensures
        entry_views(s).len() == s.len(),
        forall|i: int|
            0 <= i < s.len() ==> entry_views(s)[i] == ((#[trigger] s[i]).0@, payload_view(
                s[i].1,
            )),
    decreases s.len(),
{
    if s.len() > 0 {
        lemma_entry_views(s.drop_last());
        assert forall|i: int| 0 <= i < s.len() implies entry_views(s)[i] == ((#[trigger] s[i]).0@,
        payload_view(s[i].1)) by {
            if i < s.len() - 1 {
                assert(s.drop_last()[i] == s[i]);
            }
        }
    }
}

impl View for ValueInner {
    type V = PayloadView;

    open spec fn view(&self) -> PayloadView {
        payload_view(*self)
    }
}

/// Payload equality policy. `Unknown` compared against anything, itself
/// included, is never equal: an unknown value is never provably equal to any
/// value. `Null` equals `Null` only; booleans compare by flag; texts compare
/// by their (already NFC-normalized) characters. Any other combination —
/// including two sequences or two mappings — is not equal: collection
/// payloads have no deep-equality rule in this model.
pub open spec fn payload_eq(a: PayloadView, b: PayloadView) -> bool {
    match (a, b) {
        (PayloadView::Unknown, _) => false,
        (_, PayloadView::Unknown) => false,
        (PayloadView::Null, PayloadView::Null) => true,
        (PayloadView::Boolean(x), PayloadView::Boolean(y)) => x == y,
        (PayloadView::Text(x), PayloadView::Text(y)) => x == y,
        (_, _) => false,
    }
}

impl PartialEq for ValueInner {
    /// The payload equality policy, per `payload_eq`.
    fn eq(&self, rhs: &ValueInner) -> bool {
        match (self, rhs) {
            (ValueInner::Unknown, _) => false,
            (_, ValueInner::Unknown) => false,
            (ValueInner::Null, ValueInner::Null) => true,
            (ValueInner::Bool(x), ValueInner::Bool(y)) => *x == *y,
            (ValueInner::String(x), ValueInner::String(y)) => *x == *y,
            _ => false,
        }
    }
}

impl Clone for ValueInner {
    /// A copy with identical abstract content.
    fn clone(&self) -> (res: ValueInner)
        ensures
            payload_view(res) == payload_view(*self),
    {
        clone_inner(self)
    }
}

/// Copies a stored payload; the copy's abstract content is identical.
#[verifier::loop_isolation(false)]
fn clone_inner(p: &ValueInner) -> (res: ValueInner)
    ensures
        payload_view(res) == payload_view(*p),
    decreases p,
{
    match p {
        ValueInner::String(s) => ValueInner::String(s.clone()),
        ValueInner::Bool(b) => ValueInner::Bool(*b),
        ValueInner::Unknown => ValueInner::Unknown,
        ValueInner::Null => ValueInner::Null,
        ValueInner::Sequence(elems) => {
            let n = elems.len();
            let mut out: Vec<ValueInner> = Vec::new();
            let mut i: usize = 0;
            while i < n
                invariant
                    i <= n,
                    out@.len() == i,
                    forall|k: int|
                        0 <= k < i ==> payload_view(#[trigger] out@[k]) == payload_view(elems@[k]),
                decreases n - i,
            {
                out.push(clone_inner(&elems[i]));
                i += 1;
            }
            proof {
                lemma_elem_views(out@);
                lemma_elem_views(elems@);
                assert forall|k: int| 0 <= k < n implies elem_views(out@)[k] == elem_views(
                    elems@,
                )[k] by {
                    assert(elem_views(out@)[k] == payload_view(out@[k]));
                    assert(elem_views(elems@)[k] == payload_view(elems@[k]));
                }
                assert(elem_views(out@) =~= elem_views(elems@));
            }
            ValueInner::Sequence(out)
        },
        ValueInner::Mapping(entries) => {
            let n = entries.len();
            let mut out: Vec<(String, ValueInner)> = Vec::new();
            let mut i: usize = 0;
            while i < n
                invariant
                    i <= n,
                    out@.len() == i,
                    forall|k: int|
                        0 <= k < i ==> (#[trigger] out@[k]).0@ == entries@[k].0@ && payload_view(
                            out@[k].1,
                        ) == payload_view(entries@[k].1),
                decreases n - i,
            {
                let name = entries[i].0.clone();
                let pv = clone_inner(&entries[i].1);
                out.push((name, pv));
                i += 1;
            }
            proof {
                lemma_entry_views(out@);
                lemma_entry_views(entries@);
                assert forall|k: int| 0 <= k < n implies entry_views(out@)[k] == entry_views(
                    entries@,
                )[k] by {
                    assert(entry_views(out@)[k] == (out@[k].0@, payload_view(out@[k].1)));
                    assert(entry_views(entries@)[k] == (entries@[k].0@, payload_view(
                        entries@[k].1,
                    )));
                }
                assert(entry_views(out@) =~= entry_views(entries@));
            }
            ValueInner::Mapping(out)
        },
    }
}

impl vstd::std_specs::cmp::PartialEqSpecImpl for ValueInner {
    open spec fn obeys_eq_spec() -> bool {
        true
    }

    open spec fn eq_spec(&self, rhs: &ValueInner) -> bool {
        payload_eq(payload_view(*self), payload_view(*rhs))
    }
}

/// An immutable pair of declared type and payload. Values are created only
/// through the validating constructors and never mutated, so a collection
/// value's elements are guaranteed to carry the collection's declared element
/// type.
#[derive(Debug)]
pub struct Value {
    ty: Type,
    v: ValueInner,
}

/// The abstract content of a value: its declared type and its payload shape.
pub struct ValueModel {
    pub ty: Type,
    pub payload: PayloadView,
}

impl View for Value {
    type V = ValueModel;

    closed spec fn view(&self) -> ValueModel {
        ValueModel { ty: self.ty, payload: payload_view(self.v) }
    }
}

/// Two values are equal iff their declared types are structurally equal and
/// their payloads are equal under the payload policy. Equality is total, but
/// deliberately not reflexive for values with an `Unknown` payload.
pub open spec fn value_eq(a: ValueModel, b: ValueModel) -> bool {
    type_eq(a.ty, b.ty) && payload_eq(a.payload, b.payload)
}

impl PartialEq for Value {
    /// Value equality, per `value_eq`.
    fn eq(&self, rhs: &Value) -> bool {
        self.ty == rhs.ty && self.v == rhs.v
    }
}

impl Clone for Value {
    /// A copy with the same abstract content: a structurally equal declared
    /// type and an identical payload. Whether the copy compares equal to the
    /// original follows the equality policy — for an `Unknown` payload it
    /// does not.
    fn clone(&self) -> (res: Value)
        ensures
            type_eq(self@.ty, res@.ty),
            res@.payload == self@.payload,
    {
        Value { ty: self.ty.clone(), v: self.v.clone() }
    }
}

impl vstd::std_specs::cmp::PartialEqSpecImpl for Value {
    open spec fn obeys_eq_spec() -> bool {
        true
    }

    open spec fn eq_spec(&self, rhs: &Value) -> bool {
        value_eq(self@, rhs@)
    }
}

/// The payload a string constructor stores: the NFC form of the input text.
pub open spec fn string_payload(s: Seq<char>) -> PayloadView {
    PayloadView::Text(nfc_of(s))
}

/// Where in a collection constructor a type mismatch arose.
#[derive(Debug, Clone, Copy, PartialEq, Eq, Structural)]
pub enum MismatchContext {
    ListElement,
    MapEntry,
}

/// The one construction error: an element handed to a homogeneous collection
/// constructor does not carry the declared element type. Construction either
/// fully succeeds with a checked value, or yields this error and no value at
/// all.
#[derive(Debug)]
pub struct TypeMismatchError {
    /// The collection's declared element type.
    pub expected: Type,
    /// The offending element's declared type.
    pub actual: Type,
    /// Whether a list element or a map entry was at fault.
    pub context: MismatchContext,
    /// The entry's name, where a map entry was at fault.
    pub key: Option<String>,
}

/// The payload views of a sequence of values, in order.
pub open spec fn seq_payloads(vals: Seq<Value>) -> Seq<PayloadView> {
    Seq::new(vals.len(), |i: int| vals[i]@.payload)
}

/// Every value in `vals` declares exactly the element type `ty`.
pub open spec fn all_elems_typed(vals: Seq<Value>, ty: Type) -> bool {
    forall|i: int| 0 <= i < vals.len() ==> type_eq((#[trigger] vals[i])@.ty, ty)
}

/// `vals[i]` is the first value whose declared type is not `ty`.
pub open spec fn first_mismatch_at(vals: Seq<Value>, ty: Type, i: int) -> bool {
    &&& 0 <= i < vals.len()
    &&& !type_eq(vals[i]@.ty, ty)
    &&& forall|j: int| 0 <= j < i ==> type_eq((#[trigger] vals[j])@.ty, ty)
}

/// Name-payload pairs of map-constructor entries, in input order.
pub open spec fn entry_pairs(vals: Seq<(String, Value)>) -> Seq<(Seq<char>, PayloadView)> {
    Seq::new(vals.len(), |i: int| (vals[i].0@, vals[i].1@.payload))
}

/// Reading name-payload pairs as a mapping, a later write under a name
/// overriding an earlier one: last write wins.
pub open spec fn pairs_as_map(s: Seq<(Seq<char>, PayloadView)>) -> Map<Seq<char>, PayloadView>
    decreases s.len(),
{
    if s.len() == 0 {
        Map::empty()
    } else {
        pairs_as_map(s.drop_last()).insert(s.last().0, s.last().1)
    }
}

/// No two entries share a name.
pub open spec fn keys_unique(s: Seq<(Seq<char>, PayloadView)>) -> bool {
    forall|i: int, j: int| 0 <= i < j < s.len() ==> (#[trigger] s[i]).0 != (#[trigger] s[j]).0
}

/// Every entry's value declares exactly the element type `ty`.
pub open spec fn all_entries_typed(vals: Seq<(String, Value)>, ty: Type) -> bool {
    forall|i: int| 0 <= i < vals.len() ==> type_eq((#[trigger] vals[i]).1@.ty, ty)
}

/// `vals[i]` is the first entry whose value's declared type is not `ty`.
pub open spec fn first_entry_mismatch_at(vals: Seq<(String, Value)>, ty: Type, i: int) -> bool {
    &&& 0 <= i < vals.len()
    &&& !type_eq(vals[i].1@.ty, ty)
    &&& forall|j: int| 0 <= j < i ==> type_eq((#[trigger] vals[j]).1@.ty, ty)
}

/// Appending a pair acts on the mapping reading as an insert of its name.
proof fn lemma_pairs_as_map_push(s: Seq<(Seq<char>, PayloadView)>, k: Seq<char>, v: PayloadView)
    ensures
        pairs_as_map(s.push((k, v))) == pairs_as_map(s).insert(k, v),
{
    assert(s.push((k, v)).drop_last() =~= s);
    assert(s.push((k, v)).last() == (k, v));
}

/// Overwriting the one entry that holds name `k` acts on the mapping reading
/// as an insert of `k`.
proof fn lemma_pairs_as_map_update(
    s: Seq<(Seq<char>, PayloadView)>,
    j: int,
    k: Seq<char>,
    v: PayloadView,
)
    requires
        0 <= j < s.len(),
        s[j].0 == k,
        keys_unique(s),
    ensures
        pairs_as_map(s.update(j, (k, v))) == pairs_as_map(s).insert(k, v),
    decreases s.len(),
{
    let t = s.update(j, (k, v));
    let m = pairs_as_map(s.drop_last());
    if j == s.len() - 1 {
        assert(t.drop_last() =~= s.drop_last());
        assert(t.last() == (k, v));
        assert(pairs_as_map(s).insert(k, v) =~= pairs_as_map(t));
    } else {
        assert(t.drop_last() =~= s.drop_last().update(j, (k, v)));
        assert(t.last() == s.last());
        assert(s.drop_last()[j] == s[j]);
        assert forall|i1: int, j1: int| 0 <= i1 < j1 < s.drop_last().len() implies (#[trigger] s
            .drop_last()[i1]).0 != (#[trigger] s.drop_last()[j1]).0 by {
            assert(s.drop_last()[i1] == s[i1]);
            assert(s.drop_last()[j1] == s[j1]);
        }
        lemma_pairs_as_map_update(s.drop_last(), j, k, v);
        assert(s.last().0 != k) by {
            assert((s[j]).0 != (s[s.len() - 1]).0);
        }
        assert(pairs_as_map(t) == m.insert(k, v).insert(s.last().0, s.last().1));
        assert(m.insert(k, v).insert(s.last().0, s.last().1) =~= m.insert(
            s.last().0,
            s.last().1,
        ).insert(k, v));
        assert(pairs_as_map(s) == m.insert(s.last().0, s.last().1));
    }
}

/// Finds the stored entry carrying the given name, if any.
#[verifier::loop_isolation(false)]
fn find_key(entries: &Vec<(String, ValueInner)>, k: &String) -> (r: Option<usize>)
    ensures
        match r {
            Option::Some(j) => j < entries@.len() && entries@[j as int].0@ == k@,
            Option::None => forall|j: int| 0 <= j < entries@.len() ==> (#[trigger] entries@[j]).0@
                != k@,
        },
{
    let n = entries.len();
    let mut j: usize = 0;
    while j < n
        invariant
            j <= n,
            forall|l: int| 0 <= l < j ==> (#[trigger] entries@[l]).0@ != k@,
        decreases n - j,
    {
        if entries[j].0 == *k {
            return Some(j);
        }
        j += 1;
    }
    None
}

impl Value {
    /// The declared type this value claims to inhabit.
    pub fn type_(&self) -> (r: &Type)
        ensures
            *r == self@.ty,
    {
        &self.ty
    }

    /// The stored payload.
    pub fn payload(&self) -> (r: &ValueInner)
        ensures
            r@ == self@.payload,
    {
        &self.v
    }

    /// A value of the given type whose slot holds no value.
    pub fn null(ty: Type) -> (r: Value)
        ensures
            r@.ty == ty,
            r@.payload == PayloadView::Null,
    {
        Value { ty, v: ValueInner::Null }
    }

    /// A value of the given type whose content is not yet determined.
    pub fn unknown(ty: Type) -> (r: Value)
        ensures
            r@.ty == ty,
            r@.payload == PayloadView::Unknown,
    {
        Value { ty, v: ValueInner::Unknown }
    }

    /// An unknown value with no static shape constraint: `unknown` at `Any`.
    pub fn dynamic() -> (r: Value)
        ensures
            r@.ty == Type::Any,
            r@.payload == PayloadView::Unknown,
    {
        Value::unknown(Type::Any)
    }

    /// A string value. The text is normalized to Unicode Normalization Form C
    /// before storing: every stored string is NFC-normalized, whatever the
    /// input's original form, so canonically equivalent inputs yield equal
    /// payloads.
    pub fn string(v: &str) -> (r: Value)
        ensures
            r@.ty == Type::String,
            r@.payload == string_payload(v@),
            nfc_of(nfc_of(v@)) == nfc_of(v@),
    {
        let s = normalize_nfc(v);
        Value { ty: Type::String, v: ValueInner::String(s) }
    }

    /// A boolean value.
    pub fn bool(b: bool) -> (r: Value)
        ensures
            r@.ty == Type::Bool,
            r@.payload == PayloadView::Boolean(b),
    {
        Value { ty: Type::Bool, v: ValueInner::Bool(b) }
    }

    /// A homogeneous list value. Every element must declare exactly the
    /// element type `ty` (structural equality); at the first mismatch,
    /// construction fails with a type-mismatch error naming the offending
    /// element's actual type, and no value is produced. On success the
    /// elements' payloads are stored in input order, and order is
    /// significant.
    #[verifier::loop_isolation(false)]
    pub fn list(ty: Type, vals: Vec<Value>) -> (r: Result<Value, TypeMismatchError>)
        ensures
            r is Ok <==> all_elems_typed(vals@, ty),
            r matches Ok(v) ==> {
                &&& v@.ty == Type::List(Box::new(ty))
                &&& v@.payload == PayloadView::Sequence(seq_payloads(vals@))
            },
            r matches Err(e) ==> {
                &&& exists|i: int|
                    {
                        &&& #[trigger] first_mismatch_at(vals@, ty, i)
                        &&& e.actual == vals@[i]@.ty
                    }
                &&& e.expected == ty
                &&& e.context == MismatchContext::ListElement
                &&& e.key is None
            },
    {
        let ghost orig = vals@;
        let mut rest = vals;
        let mut out: Vec<ValueInner> = Vec::new();
        proof {
            assert(rest@ =~= orig.subrange(0, orig.len() as int));
        }
        while rest.len() > 0
            invariant
                out@.len() + rest@.len() == orig.len(),
                rest@ == orig.subrange(out@.len() as int, orig.len() as int),
                forall|j: int| 0 <= j < out@.len() ==> type_eq((#[trigger] orig[j])@.ty, ty),
                forall|j: int|
                    0 <= j < out@.len() ==> payload_view(#[trigger] out@[j]) == orig[j]@.payload,
            decreases rest@.len(),
        {
            let ghost k = out@.len() as int;
            let ev = rest.remove(0);
            proof {
                assert(ev == orig[k]);
                assert(rest@ =~= orig.subrange(k + 1, orig.len() as int));
            }
            let Value { ty: ety, v: inner } = ev;
            if !type_eq_rec(&ety, &ty) {
                proof {
                    assert(first_mismatch_at(orig, ty, k));
                }
                return Err(TypeMismatchError {
                    expected: ty,
                    actual: ety,
                    context: MismatchContext::ListElement,
                    key: None,
                });
            }
            out.push(inner);
        }
        proof {
            lemma_elem_views(out@);
            assert forall|i: int| 0 <= i < orig.len() implies elem_views(out@)[i]
                == seq_payloads(orig)[i] by {
                assert(payload_view(out@[i]) == orig[i]@.payload);
            }
            assert(elem_views(out@) =~= seq_payloads(orig));
        }
        Ok(Value { ty: Type::List(Box::new(ty)), v: ValueInner::Sequence(out) })
    }

    /// A homogeneous map value. Entries are given as name-value pairs; every
    /// value must declare exactly the element type `ty`, and at the first
    /// mismatch (in input order) construction fails with a type-mismatch
    /// error naming the entry. On success the entries' payloads are stored
    /// under their names; entry order carries no meaning, and a later entry
    /// under an already-used name replaces the earlier one: the last write
    /// wins.
    #[verifier::loop_isolation(false)]
    #[verifier::rlimit(60)]
    pub fn map(ty: Type, vals: Vec<(String, Value)>) -> (r: Result<Value, TypeMismatchError>)
        ensures
            r is Ok <==> all_entries_typed(vals@, ty),
            r matches Ok(v) ==> {
                &&& v@.ty == Type::MapOf(Box::new(ty))
                &&& v@.payload matches PayloadView::Mapping(es) && keys_unique(es)
                    && pairs_as_map(es) == pairs_as_map(entry_pairs(vals@))
            },
            r matches Err(e) ==> {
                &&& exists|i: int|
                    {
                        &&& #[trigger] first_entry_mismatch_at(vals@, ty, i)
                        &&& e.actual == vals@[i].1@.ty
                        &&& e.key matches Some(kk) && kk@ == vals@[i].0@
                    }
                &&& e.expected == ty
                &&& e.context == MismatchContext::MapEntry
            },
    {
        let ghost orig = vals@;
        let mut rest = vals;
        let mut out: Vec<(String, ValueInner)> = Vec::new();
        let ghost mut done: int = 0;
        proof {
            assert(rest@ =~= orig.subrange(0, orig.len() as int));
            assert(entry_pairs(orig.subrange(0, 0)) =~= Seq::<(Seq<char>, PayloadView)>::empty());
        }
        while rest.len() > 0
            invariant
                0 <= done,
                done + rest@.len() == orig.len(),
                rest@ == orig.subrange(done, orig.len() as int),
                forall|j: int| 0 <= j < done ==> type_eq((#[trigger] orig[j]).1@.ty, ty),
                keys_unique(entry_views(out@)),
                pairs_as_map(entry_views(out@)) == pairs_as_map(
                    entry_pairs(orig.subrange(0, done)),
                ),
            decreases rest@.len(),
        {
            let (key, ev) = rest.remove(0);
            proof {
                assert((key, ev) == orig[done]);
                assert(rest@ =~= orig.subrange(done + 1, orig.len() as int));
            }
            let Value { ty: ety, v: inner } = ev;
            if !type_eq_rec(&ety, &ty) {
                proof {
                    assert(first_entry_mismatch_at(orig, ty, done));
                }
                return Err(TypeMismatchError {
                    expected: ty,
                    actual: ety,
                    context: MismatchContext::MapEntry,
                    key: Some(key),
                });
            }
            proof {
                assert(ev@.payload == payload_view(inner));
                assert(entry_pairs(orig.subrange(0, done + 1)) =~= entry_pairs(
                    orig.subrange(0, done),
                ).push((key@, payload_view(inner))));
                lemma_pairs_as_map_push(
                    entry_pairs(orig.subrange(0, done)),
                    key@,
                    payload_view(inner),
                );
            }
            let ghost old_out = out@;
            match find_key(&out, &key) {
                Option::Some(j) => {
                    out[j] = (key, inner);
                    proof {
                        lemma_entry_views(old_out);
                        lemma_entry_views(out@);
                        assert forall|i1: int|
                            0 <= i1 < entry_views(out@).len() implies #[trigger] entry_views(
                            out@,
                        )[i1] == entry_views(old_out).update(
                            j as int,
                            (old_out[j as int].0@, payload_view(inner)),
                        )[i1] by {
                            if i1 == j as int {
                                assert(out@[i1].0@ == old_out[j as int].0@);
                            } else {
                                assert(out@[i1] == old_out[i1]);
                            }
                        }
                        assert(entry_views(out@) =~= entry_views(old_out).update(
                            j as int,
                            (old_out[j as int].0@, payload_view(inner)),
                        ));
                        lemma_pairs_as_map_update(
                            entry_views(old_out),
                            j as int,
                            old_out[j as int].0@,
                            payload_view(inner),
                        );
                        assert forall|i1: int, j1: int|
                            0 <= i1 < j1 < entry_views(out@).len() implies (#[trigger] entry_views(
                            out@,
                        )[i1]).0 != (#[trigger] entry_views(out@)[j1]).0 by {
                            assert(entry_views(out@)[i1].0 == entry_views(old_out)[i1].0);
                            assert(entry_views(out@)[j1].0 == entry_views(old_out)[j1].0);
                        }
                        done = done + 1;
                    }
                },
                Option::None => {
                    out.push((key, inner));
                    proof {
                        lemma_entry_views(old_out);
                        lemma_entry_views(out@);
                        assert forall|i1: int|
                            0 <= i1 < entry_views(out@).len() implies #[trigger] entry_views(
                            out@,
                        )[i1] == entry_views(old_out).push((key@, payload_view(inner)))[i1] by {
                            if i1 < old_out.len() as int {
                                assert(out@[i1] == old_out[i1]);
                            }
                        }
                        assert(entry_views(out@) =~= entry_views(old_out).push(
                            (key@, payload_view(inner)),
                        ));
                        lemma_pairs_as_map_push(entry_views(old_out), key@, payload_view(inner));
                        assert forall|i1: int, j1: int|
                            0 <= i1 < j1 < entry_views(out@).len() implies (#[trigger] entry_views(
                            out@,
                        )[i1]).0 != (#[trigger] entry_views(out@)[j1]).0 by {
                            if j1 == entry_views(out@).len() - 1 {
                                assert(entry_views(out@)[i1].0 == old_out[i1].0@);
                                assert(old_out[i1].0@ != key@);
                            } else {
                                assert(entry_views(out@)[i1].0 == entry_views(old_out)[i1].0);
                                assert(entry_views(out@)[j1].0 == entry_views(old_out)[j1].0);
                            }
                        }
                        done = done + 1;
                    }
                },
            }
        }
        proof {
            assert(orig.subrange(0, done) =~= orig);
        }
        Ok(Value { ty: Type::MapOf(Box::new(ty)), v: ValueInner::Mapping(out) })
    }
}

} // verus!

