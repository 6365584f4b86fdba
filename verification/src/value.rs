//! The payload model: a JSON-shaped value as the connectors see it.
//!
//! The bus runtime hands each sink a decoded payload; the connectors read
//! fields out of it, coerce scalars, and flatten nested objects.  Numbers
//! keep the distinction the decoder makes between signed integers, unsigned
//! integers and floating-point values; a floating-point value is carried as
//! its IEEE-754 bit pattern, so the connectors move it without arithmetic.

use vstd::prelude::*;

verus! {

/// A JSON number: a signed integer, an unsigned integer that does not fit
/// `i64`, or a floating-point value carried as its `f64` bit pattern.
#[derive(Clone, Copy, Debug, PartialEq, Eq)]
pub enum Number {
    Int(i64),
    UInt(u64),
    Float(u64),
}

/// A decoded payload value.  Objects are ordered lists of distinct keys,
/// in the order the decoder produced them.
#[derive(Debug, PartialEq, Eq)]
pub enum Value {
    Null,
    Bool(bool),
    Num(Number),
    Str(String),
    Arr(Vec<Value>),
    Obj(Vec<(String, Value)>),
}

/// The mathematical model of a `Value`: strings as character sequences,
/// arrays and objects as sequences of models.
#[verifier::ext_equal]
pub enum ValModel {
    Null,
    Bool(bool),
    Num(Number),
    Str(Seq<char>),
    Arr(Seq<ValModel>),
    Obj(Seq<(Seq<char>, ValModel)>),
}

/// The model of an array's elements.
pub open spec fn arr_model(items: Seq<Value>) -> Seq<ValModel>
    decreases items,
{
    if items.len() == 0 {
        Seq::empty()
    } else {
        seq![items[0].model()] + arr_model(items.drop_first())
    }
}

/// The model of an object's entries.
pub open spec fn obj_model(entries: Seq<(String, Value)>) -> Seq<(Seq<char>, ValModel)>
    decreases entries,
{
    if entries.len() == 0 {
        Seq::empty()
    } else {
        seq![(entries[0].0@, entries[0].1.model())] + obj_model(entries.drop_first())
    }
}

impl Value {
    /// The model of this value.
    pub open spec fn model(self) -> ValModel
        decreases self,
    {
        match self {
            Value::Null => ValModel::Null,
            Value::Bool(b) => ValModel::Bool(b),
            Value::Num(n) => ValModel::Num(n),
            Value::Str(s) => ValModel::Str(s@),
            Value::Arr(items) => ValModel::Arr(arr_model(items@)),
            Value::Obj(entries) => ValModel::Obj(obj_model(entries@)),
        }
    }
}

impl View for Value {
    type V = ValModel;

    open spec fn view(&self) -> ValModel {
        self.model()
    }
}

/// `arr_model` maps the sequence pointwise.
pub broadcast proof fn lemma_arr_model_len(items: Seq<Value>)
    ensures
        (#[trigger] arr_model(items)).len() == items.len(),
        forall|i: int| 0 <= i < items.len() ==> arr_model(items)[i] == items[i].model(),
    decreases items,
{
    if items.len() > 0 {
        lemma_arr_model_len(items.drop_first());
    }
}

/// `obj_model` maps the entry sequence pointwise.
pub broadcast proof fn lemma_obj_model_len(entries: Seq<(String, Value)>)
    ensures
        (#[trigger] obj_model(entries)).len() == entries.len(),
        forall|i: int|
            0 <= i < entries.len() ==> obj_model(entries)[i] == (
            entries[i].0@,
            entries[i].1.model(),
            ),
    decreases entries,
{
    if entries.len() > 0 {
        lemma_obj_model_len(entries.drop_first());
    }
}

/// Look a key up in an object model: the first entry with that key.
pub open spec fn entries_lookup(entries: Seq<(Seq<char>, ValModel)>, name: Seq<char>) -> Option<
    ValModel,
>
    decreases entries.len(),
{
    if entries.len() == 0 {
        Option::None
    } else if entries[0].0 == name {
        Option::Some(entries[0].1)
    } else {
        entries_lookup(entries.drop_first(), name)
    }
}

/// The field of an object value, if the value is an object holding it.
pub open spec fn value_field(v: ValModel, name: Seq<char>) -> Option<ValModel> {
    match v {
        ValModel::Obj(entries) => entries_lookup(entries, name),
        _ => Option::None,
    }
}

impl Value {
    /// Fetch a field by name; `None` when this is not an object or the
    /// object has no such field.
    pub fn get_field<'a>(&'a self, name: &str) -> (r: Option<&'a Value>)
        ensures
            match r {
                Option::Some(f) => value_field(self@, name@) == Option::Some(f@),
                Option::None => value_field(self@, name@) is None,
            },
    {
        broadcast use lemma_obj_model_len;

        match self {
            Value::Obj(entries) => {
                let n = entries.len();
                let ghost m = obj_model(entries@);
                proof {
                    lemma_obj_model_len(entries@);
                    assert(m.skip(0) =~= m);
                }
                for i in 0..n
                    invariant
                        n == entries.len(),
                        m == obj_model(entries@),
                        m.len() == n,
                        self@ == ValModel::Obj(m),
                        entries_lookup(m, name@) == entries_lookup(m.skip(i as int), name@),
                {
                    proof {
                        lemma_obj_model_len(entries@);
                        assert(m.skip(i as int).drop_first() =~= m.skip(i + 1));
                        assert(m.skip(i as int)[0] == m[i as int]);
                        assert(obj_model(entries@)[i as int] == (
                            entries@[i as int].0@,
                            entries@[i as int].1.model(),
                        ));
                    }
                    if crate::text::str_eq(entries[i].0.as_str(), name) {
                        return Option::Some(&entries[i].1);
                    }
                }
                Option::None
            },
            _ => Option::None,
        }
    }
}

/// Insert a key into an entry list the way a map insert would: replace the
/// first entry with that key, or append a new entry.
pub open spec fn entries_upsert<V>(s: Seq<(Seq<char>, V)>, key: Seq<char>, v: V) -> Seq<
    (Seq<char>, V),
>
    decreases s.len(),
{
    if s.len() == 0 {
        seq![(key, v)]
    } else if s[0].0 == key {
        seq![(key, v)] + s.drop_first()
    } else {
        seq![s[0]] + entries_upsert(s.drop_first(), key, v)
    }
}

/// When the key first occurs at position `p`, the insert replaces exactly
/// that entry.
pub proof fn lemma_upsert_found<V>(s: Seq<(Seq<char>, V)>, key: Seq<char>, v: V, p: int)
    requires
        0 <= p < s.len(),
        s[p].0 == key,
        forall|j: int| 0 <= j < p ==> s[j].0 != key,
    ensures
        entries_upsert(s, key, v) == s.update(p, (key, v)),
    decreases p,
{
    if p == 0 {
        assert(entries_upsert(s, key, v) =~= s.update(0, (key, v)));
    } else {
        lemma_upsert_found(s.drop_first(), key, v, p - 1);
        assert(s.drop_first().update(p - 1, (key, v)) =~= s.update(p, (key, v)).drop_first());
        assert(entries_upsert(s, key, v) =~= s.update(p, (key, v)));
    }
}

/// When the key does not occur, the insert appends.
pub proof fn lemma_upsert_absent<V>(s: Seq<(Seq<char>, V)>, key: Seq<char>, v: V)
    requires
        forall|j: int| 0 <= j < s.len() ==> s[j].0 != key,
    ensures
        entries_upsert(s, key, v) == s.push((key, v)),
    decreases s.len(),
{
    if s.len() == 0 {
        assert(entries_upsert(s, key, v) =~= s.push((key, v)));
    } else {
        lemma_upsert_absent(s.drop_first(), key, v);
        assert(entries_upsert(s, key, v) =~= s.push((key, v)));
    }
}

/// The model of an association list whose values carry their own views.
pub open spec fn assoc_model<V: View>(s: Seq<(String, V)>) -> Seq<(Seq<char>, V::V)>
    decreases s.len(),
{
    if s.len() == 0 {
        Seq::empty()
    } else {
        seq![(s[0].0@, s[0].1@)] + assoc_model(s.drop_first())
    }
}

/// `assoc_model` maps the entry sequence pointwise.
pub broadcast proof fn lemma_assoc_model_len<V: View>(s: Seq<(String, V)>)
    ensures
        (#[trigger] assoc_model(s)).len() == s.len(),
        forall|i: int| 0 <= i < s.len() ==> assoc_model(s)[i] == (s[i].0@, s[i].1@),
    decreases s.len(),
{
    if s.len() > 0 {
        lemma_assoc_model_len(s.drop_first());
    }
}

/// `obj_model` is the association-list model of an object's entries.
pub proof fn lemma_obj_model_is_assoc(entries: Seq<(String, Value)>)
    ensures
        obj_model(entries) == assoc_model(entries),
{
    lemma_obj_model_len(entries);
    lemma_assoc_model_len(entries);
    assert(obj_model(entries) =~= assoc_model(entries));
}

/// Map-style insert on an association list: replace the first entry with
/// this key, or append a new one.
pub fn assoc_upsert<V: View>(entries: &mut Vec<(String, V)>, key: String, v: V)
    ensures
        assoc_model(final(entries)@) == entries_upsert(assoc_model(old(entries)@), key@, v@),
{
    let ghost m = assoc_model(entries@);
    let ghost keym = key@;
    let ghost vm = v@;
    proof {
        lemma_assoc_model_len(entries@);
    }
    let n = entries.len();
    for i in 0..n
        invariant
            n == entries.len(),
            m == assoc_model(entries@),
            m == assoc_model(old(entries)@),
            m.len() == n,
            key@ == keym,
            v@ == vm,
            forall|j: int| 0 <= j < i ==> m[j].0 != keym,
    {
        proof {
            lemma_assoc_model_len(entries@);
            assert(m[i as int] == (entries@[i as int].0@, entries@[i as int].1@));
        }
        if crate::text::str_eq(entries[i].0.as_str(), key.as_str()) {
            let ghost pre = entries@;
            proof {
                lemma_upsert_found(m, keym, vm, i as int);
            }
            entries.set(i, (key, v));
            proof {
                lemma_assoc_model_len(pre);
                lemma_assoc_model_len(entries@);
                assert(m == assoc_model(pre));
                assert(entries@ == pre.update(i as int, entries@[i as int]));
                assert(assoc_model(entries@) =~= m.update(i as int, (keym, vm)));
            }
            return ;
        }
    }
    let ghost pre = entries@;
    proof {
        lemma_assoc_model_len(pre);
        assert(m == assoc_model(pre));
        lemma_upsert_absent(m, keym, vm);
    }
    entries.push((key, v));
    proof {
        lemma_assoc_model_len(entries@);
        assert(entries@ == pre.push(entries@[pre.len() as int]));
        assert(assoc_model(entries@) =~= m.push((keym, vm)));
    }
}

} // verus!

verus! {

/// The number a decoder assigns to an unsigned integer: a signed integer
/// when it fits, the unsigned form otherwise.
pub open spec fn num_of_u64_spec(u: u64) -> Number {
    if u <= i64::MAX {
        Number::Int(u as i64)
    } else {
        Number::UInt(u)
    }
}

/// Build the number for an unsigned integer.
pub fn num_of_u64(u: u64) -> (r: Number)
    ensures
        r == num_of_u64_spec(u),
{
    if u <= i64::MAX as u64 {
        Number::Int(u as i64)
    } else {
        Number::UInt(u)
    }
}

} // verus!

verus! {

impl Value {
    /// A deep copy whose model is the same.  `Value` is recursive, so the
    /// copy is spelled out here rather than derived.
    pub fn duplicate(&self) -> (r: Value)
        ensures
            r@ == self@,
        decreases *self,
    {
        broadcast use vstd::std_specs::vec::axiom_vec_index_decreases;

        match self {
            Value::Null => Value::Null,
            Value::Bool(b) => Value::Bool(*b),
            Value::Num(n) => Value::Num(*n),
            Value::Str(s) => Value::Str(s.clone()),
            Value::Arr(items) => {
                let n = items.len();
                let mut out: Vec<Value> = Vec::new();
                for i in 0..n
                    invariant
                        n == items.len(),
                        *self == Value::Arr(*items),
                        out@.len() == i,
                        forall|j: int| 0 <= j < i ==> (#[trigger] out@[j])@ == items@[j]@,
                {
                    proof {
                        assert(decreases_to!(*self => (*self)->Arr_0));
                        assert((*self)->Arr_0 == *items);
                        assert(decreases_to!(*items => items@[i as int]));
                    }
                    out.push(items[i].duplicate());
                }
                proof {
                    lemma_arr_model_len(out@);
                    lemma_arr_model_len(items@);
                    assert(arr_model(out@) =~= arr_model(items@));
                }
                Value::Arr(out)
            },
            Value::Obj(entries) => {
                let n = entries.len();
                let mut out: Vec<(String, Value)> = Vec::new();
                for i in 0..n
                    invariant
                        n == entries.len(),
                        *self == Value::Obj(*entries),
                        out@.len() == i,
                        forall|j: int|
                            0 <= j < i ==> (#[trigger] out@[j]).0@ == entries@[j].0@
                                && out@[j].1@ == entries@[j].1@,
                {
                    proof {
                        assert(decreases_to!(*self => (*self)->Obj_0));
                        assert((*self)->Obj_0 == *entries);
                        assert(decreases_to!(*entries => entries@[i as int]));
                    }
                    out.push((entries[i].0.clone(), entries[i].1.duplicate()));
                }
                proof {
                    lemma_obj_model_len(out@);
                    lemma_obj_model_len(entries@);
                    assert(obj_model(out@) =~= obj_model(entries@));
                }
                Value::Obj(out)
            },
        }
    }
}

} // verus!
