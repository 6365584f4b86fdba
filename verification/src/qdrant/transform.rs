//! Message shaping for the vector-database sink: a payload carrying an
//! embedding becomes a point with a stable numeric id, the declared
//! dimension enforced, and nested payload fields flattened to dotted keys.

use sha2::{Digest, Sha256};
use vstd::prelude::*;

use crate::bus::SinkRecord;
use crate::value::{Number, ValModel, Value};

verus! {

/// A scalar or list value in a point's payload.
#[derive(Debug, PartialEq, Eq)]
pub enum PayloadValue {
    Bool(bool),
    Num(Number),
    Str(String),
    List(Vec<PayloadValue>),
}

/// The model of a payload value.
#[verifier::ext_equal]
pub enum PayloadModel {
    Bool(bool),
    Num(Number),
    Str(Seq<char>),
    List(Seq<PayloadModel>),
}

/// The model of a list of payload values.
pub open spec fn list_model(items: Seq<PayloadValue>) -> Seq<PayloadModel>
    decreases items,
{
    if items.len() == 0 {
        Seq::empty()
    } else {
        seq![items[0].model()] + list_model(items.drop_first())
    }
}

impl PayloadValue {
    /// The model of this payload value.
    pub open spec fn model(self) -> PayloadModel
        decreases self,
    {
        match self {
            PayloadValue::Bool(b) => PayloadModel::Bool(b),
            PayloadValue::Num(n) => PayloadModel::Num(n),
            PayloadValue::Str(s) => PayloadModel::Str(s@),
            PayloadValue::List(items) => PayloadModel::List(list_model(items@)),
        }
    }
}

impl View for PayloadValue {
    type V = PayloadModel;

    open spec fn view(&self) -> PayloadModel {
        self.model()
    }
}

/// `list_model` maps the sequence pointwise.
pub broadcast proof fn lemma_list_model_len(items: Seq<PayloadValue>)
    ensures
        (#[trigger] list_model(items)).len() == items.len(),
        forall|i: int| 0 <= i < items.len() ==> list_model(items)[i] == items[i].model(),
    decreases items,
{
    if items.len() > 0 {
        lemma_list_model_len(items.drop_first());
    }
}

/// The shape a message must have: an embedding vector, an optional point
/// id, and an optional payload object.
#[derive(Debug)]
pub struct VectorMessage {
    /// Optional point id; generated when absent.
    pub id: Option<String>,
    /// The embedding, as the numbers the decoder produced.
    pub vector: Vec<Number>,
    /// Optional payload carried alongside the embedding.
    pub payload: Option<Value>,
}

/// The model of a vector message.
pub struct VectorMessageModel {
    pub id: Option<Seq<char>>,
    pub vector: Seq<Number>,
    pub payload: Option<ValModel>,
}

impl View for VectorMessage {
    type V = VectorMessageModel;

    open spec fn view(&self) -> VectorMessageModel {
        VectorMessageModel {
            id: match self.id {
                Option::Some(s) => Option::Some(s@),
                Option::None => Option::None,
            },
            vector: self.vector@,
            payload: match self.payload {
                Option::Some(p) => Option::Some(p@),
                Option::None => Option::None,
            },
        }
    }
}

/// The numbers of an all-numeric array; `None` when any element is not a
/// number.
pub open spec fn nums_of(items: Seq<ValModel>) -> Option<Seq<Number>>
    decreases items.len(),
{
    if items.len() == 0 {
        Option::Some(Seq::empty())
    } else {
        match items[0] {
            ValModel::Num(n) => match nums_of(items.drop_first()) {
                Option::Some(t) => Option::Some(seq![n] + t),
                Option::None => Option::None,
            },
            _ => Option::None,
        }
    }
}

/// How an optional `id` field reads: absent or null means no id, a string
/// is the id, anything else is invalid (the outer `None`).
pub open spec fn id_field_of(f: Option<ValModel>) -> Option<Option<Seq<char>>> {
    match f {
        Option::None => Option::Some(Option::None),
        Option::Some(ValModel::Null) => Option::Some(Option::None),
        Option::Some(ValModel::Str(s)) => Option::Some(Option::Some(s)),
        Option::Some(_) => Option::None,
    }
}

/// How an optional `payload` field reads: absent or null means none.
pub open spec fn payload_field_of(f: Option<ValModel>) -> Option<ValModel> {
    match f {
        Option::None => Option::None,
        Option::Some(ValModel::Null) => Option::None,
        Option::Some(v) => Option::Some(v),
    }
}

/// What a payload value parses to as a vector message, if anything: an
/// object with a numeric `vector` array, an optional string `id`, and an
/// optional `payload`.
pub open spec fn parse_vm_spec(v: ValModel) -> Option<VectorMessageModel> {
    match v {
        ValModel::Obj(es) => {
            let idf = id_field_of(crate::value::entries_lookup(es, "id"@));
            match idf {
                Option::None => Option::None,
                Option::Some(id) => match crate::value::entries_lookup(es, "vector"@) {
                    Option::Some(ValModel::Arr(items)) => match nums_of(items) {
                        Option::Some(ns) => Option::Some(
                            VectorMessageModel {
                                id,
                                vector: ns,
                                payload: payload_field_of(
                                    crate::value::entries_lookup(es, "payload"@),
                                ),
                            },
                        ),
                        Option::None => Option::None,
                    },
                    _ => Option::None,
                },
            }
        },
        _ => Option::None,
    }
}

/// All elements up to `i` are numbers and match `ns`; the element at `i`
/// is not a number: the array is not numeric.
proof fn lemma_nums_of_bad(ms: Seq<ValModel>, i: int)
    requires
        0 <= i < ms.len(),
        !(ms[i] is Num),
        forall|j: int| 0 <= j < i ==> ms[j] is Num,
    ensures
        nums_of(ms) is None,
    decreases i,
{
    if i > 0 {
        lemma_nums_of_bad(ms.drop_first(), i - 1);
    }
}

/// Every element is a number: the array parses to exactly those numbers.
proof fn lemma_nums_of_good(ms: Seq<ValModel>, ns: Seq<Number>)
    requires
        ms.len() == ns.len(),
        forall|j: int| 0 <= j < ms.len() ==> ms[j] == ValModel::Num(ns[j]),
    ensures
        nums_of(ms) == Option::Some(ns),
    decreases ms.len(),
{
    if ms.len() == 0 {
        assert(ns =~= Seq::<Number>::empty());
    } else {
        lemma_nums_of_good(ms.drop_first(), ns.drop_first());
        assert(seq![ns[0]] + ns.drop_first() =~= ns);
    }
}

/// Parse a payload value as a vector message; `None` exactly when the
/// value does not have the required shape.
#[verifier::loop_isolation(false)]
pub fn parse_vector_message(v: &Value) -> (r: Option<VectorMessage>)
    ensures
        match r {
            Option::Some(vm) => parse_vm_spec(v@) == Option::Some(vm@),
            Option::None => parse_vm_spec(v@) is None,
        },
{
    broadcast use crate::value::lemma_arr_model_len;

    match v {
        Value::Obj(_) => {},
        _ => {
            return Option::None;
        },
    }
    let id: Option<String> = match v.get_field("id") {
        Option::None => Option::None,
        Option::Some(Value::Null) => Option::None,
        Option::Some(Value::Str(s)) => Option::Some(s.clone()),
        Option::Some(_) => {
            return Option::None;
        },
    };
    let items: &Vec<Value> = match v.get_field("vector") {
        Option::Some(f) => match f {
            Value::Arr(items) => {
                proof {
                    assert(f@ == ValModel::Arr(crate::value::arr_model(items@)));
                }
                items
            },
            _ => {
                return Option::None;
            },
        },
        Option::None => {
            return Option::None;
        },
    };
    let ghost ms = crate::value::arr_model(items@);
    proof {
        assert(crate::value::value_field(v@, "vector"@) == Option::Some(ValModel::Arr(ms)));
    }
    let n = items.len();
    let mut vector: Vec<Number> = Vec::new();
    for i in 0..n
        invariant
            n == items@.len(),
            ms == crate::value::arr_model(items@),
            ms.len() == n,
            vector@.len() == i,
            forall|j: int| 0 <= j < i ==> ms[j] == ValModel::Num(vector@[j]),
    {
        proof {
            crate::value::lemma_arr_model_len(items@);
            assert(ms[i as int] == items@[i as int].model());
        }
        match &items[i] {
            Value::Num(num) => {
                vector.push(*num);
            },
            _ => {
                proof {
                    lemma_nums_of_bad(ms, i as int);
                }
                return Option::None;
            },
        }
    }
    proof {
        lemma_nums_of_good(ms, vector@);
    }
    let payload: Option<Value> = match v.get_field("payload") {
        Option::None => Option::None,
        Option::Some(Value::Null) => Option::None,
        Option::Some(p) => Option::Some(p.duplicate()),
    };
    Option::Some(VectorMessage { id, vector, payload })
}

} // verus!

verus! {

/// Whether a character is a decimal digit.
pub open spec fn is_digit(c: char) -> bool {
    48 <= c as int <= 57
}

/// Every character is a decimal digit.
pub open spec fn all_digits(s: Seq<char>) -> bool {
    forall|i: int| 0 <= i < s.len() ==> is_digit(#[trigger] s[i])
}

/// The value of a digit string, most significant first.
pub open spec fn dec_nat(s: Seq<char>) -> int
    decreases s.len(),
{
    if s.len() == 0 {
        0
    } else {
        dec_nat(s.drop_last()) * 10 + (s.last() as int - 48)
    }
}

/// What an unsigned decimal parse accepts: an optional leading plus sign,
/// then one or more digits, with a value that fits.
pub open spec fn dec_parse_spec(s: Seq<char>) -> Option<u64> {
    let body = if s.len() > 0 && s[0] == '+' {
        s.drop_first()
    } else {
        s
    };
    if body.len() > 0 && all_digits(body) && dec_nat(body) <= u64::MAX {
        Option::Some(dec_nat(body) as u64)
    } else {
        Option::None
    }
}

/// A digit string's value is nonnegative.
proof fn lemma_dec_nat_nonneg(s: Seq<char>)
    requires
        all_digits(s),
    ensures
        dec_nat(s) >= 0,
    decreases s.len(),
{
    if s.len() > 0 {
        assert(forall|i: int| 0 <= i < s.drop_last().len() ==> s.drop_last()[i] == s[i]);
        lemma_dec_nat_nonneg(s.drop_last());
    }
}

/// Extending a digit string never shrinks its value.
proof fn lemma_dec_nat_prefix_le(s: Seq<char>, i: int)
    requires
        all_digits(s),
        0 <= i <= s.len(),
    ensures
        dec_nat(s.take(i)) <= dec_nat(s),
    decreases s.len() - i,
{
    assert(forall|j: int| 0 <= j < i ==> s.take(i)[j] == s[j]);
    if i == s.len() {
        assert(s.take(i) =~= s);
    } else {
        lemma_dec_nat_prefix_le(s, i + 1);
        assert(s.take(i + 1).drop_last() =~= s.take(i));
        lemma_dec_nat_nonneg(s.take(i));
        assert(dec_nat(s.take(i + 1)) == dec_nat(s.take(i)) * 10 + (s[i] as int - 48));
        assert(dec_nat(s.take(i)) <= dec_nat(s.take(i + 1)));
    }
}

/// Parse an unsigned decimal integer the way the standard parser reads it:
/// an optional leading plus, then digits; rejected when empty, when any
/// character is not a digit, or when the value does not fit.
#[verifier::loop_isolation(false)]
pub fn parse_u64(s: &str) -> (r: Option<u64>)
    ensures
        r == dec_parse_spec(s@),
{
    let len = s.unicode_len();
    let start: usize = if len > 0 && s.get_char(0) == '+' {
        1
    } else {
        0
    };
    let ghost body = if s@.len() > 0 && s@[0] == '+' {
        s@.drop_first()
    } else {
        s@
    };
    proof {
        assert(body.len() == len - start);
        assert(forall|j: int| 0 <= j < body.len() ==> body[j] == s@[j + start]);
    }
    if start == len {
        return Option::None;
    }
    let mut acc: u64 = 0;
    for i in start..len
        invariant
            start <= i <= len,
            all_digits(body.take(i - start)),
            acc == dec_nat(body.take(i - start)),
    {
        let c = s.get_char(i);
        let cu = c as u32;
        if cu < 48 || cu > 57 {
            proof {
                assert(!is_digit(body[i - start]));
            }
            return Option::None;
        }
        let d = (cu - 48) as u64;
        proof {
            assert(body.take(i - start + 1).drop_last() =~= body.take(i - start));
            assert(body.take(i - start + 1).last() == body[i - start]);
            assert(all_digits(body.take(i - start + 1)));
        }
        if acc > u64::MAX / 10 || (acc == u64::MAX / 10 && d > u64::MAX % 10) {
            proof {
                assert(dec_nat(body.take(i - start + 1)) > u64::MAX);
                if all_digits(body) {
                    lemma_dec_nat_prefix_le(body, i - start + 1);
                }
            }
            return Option::None;
        }
        acc = acc * 10 + d;
    }
    proof {
        assert(body.take(len - start) =~= body);
    }
    Option::Some(acc)
}

} // verus!

verus! {

/// The first eight bytes of the SHA-256 digest of a string's bytes, read
/// big-endian.
pub uninterp spec fn sha256_prefix64(s: Seq<char>) -> u64;

/// Relies on sha2's Sha256: the digest is a function of the input bytes
/// alone; the result is its first eight bytes read big-endian.
#[verifier::external_body]
pub fn hash_string_to_u64(s: &str) -> (r: u64)
    ensures
        r == sha256_prefix64(s@),
{
    let mut hasher = Sha256::new();
    hasher.update(s.as_bytes());
    let digest = hasher.finalize();
    u64::from_be_bytes(digest[0..8].try_into().unwrap())
}

/// The point id a message gets: its own id when that parses as an
/// unsigned integer, the hash of its id string otherwise, and the hash of
/// `topic:offset` when it carries no id.
pub open spec fn point_id_spec(id: Option<Seq<char>>, topic: Seq<char>, offset: u64) -> u64 {
    match id {
        Option::Some(s) => match dec_parse_spec(s) {
            Option::Some(n) => n,
            Option::None => sha256_prefix64(s),
        },
        Option::None => sha256_prefix64(topic + ":"@ + crate::text::dec_digits(offset as nat)),
    }
}

/// Generate the point id for a message from this record.
pub fn generate_point_id(message: &VectorMessage, record: &SinkRecord) -> (r: u64)
    ensures
        r == point_id_spec(message@.id, record@.topic, record@.offset),
{
    match &message.id {
        Option::Some(id) => match parse_u64(id.as_str()) {
            Option::Some(n) => n,
            Option::None => hash_string_to_u64(id.as_str()),
        },
        Option::None => {
            let composite = record.topic().clone().concat(":").concat(
                crate::text::u64_to_dec(record.offset()).as_str(),
            );
            hash_string_to_u64(composite.as_str())
        },
    }
}

} // verus!

verus! {

/// A nested key joined to its prefix with a dot.
pub open spec fn joined(prefix: Seq<char>, key: Seq<char>) -> Seq<char> {
    if prefix.len() == 0 {
        key
    } else {
        prefix + "."@ + key
    }
}

/// The scalar elements of an array, in order: strings, numbers and
/// booleans keep their places, everything else is left out.
pub open spec fn scalars_of(items: Seq<ValModel>) -> Seq<PayloadModel>
    decreases items.len(),
{
    if items.len() == 0 {
        Seq::empty()
    } else {
        let rest = scalars_of(items.drop_first());
        match items[0] {
            ValModel::Str(s) => seq![PayloadModel::Str(s)] + rest,
            ValModel::Num(n) => seq![PayloadModel::Num(n)] + rest,
            ValModel::Bool(b) => seq![PayloadModel::Bool(b)] + rest,
            _ => rest,
        }
    }
}

/// The scalar contribution of one element.
pub open spec fn scalar_of(x: ValModel) -> Seq<PayloadModel> {
    match x {
        ValModel::Str(s) => seq![PayloadModel::Str(s)],
        ValModel::Num(n) => seq![PayloadModel::Num(n)],
        ValModel::Bool(b) => seq![PayloadModel::Bool(b)],
        _ => Seq::empty(),
    }
}

/// Appending one element appends its scalar contribution.
proof fn lemma_scalars_push(t: Seq<ValModel>, x: ValModel)
    ensures
        scalars_of(t.push(x)) == scalars_of(t) + scalar_of(x),
    decreases t.len(),
{
    if t.len() == 0 {
        assert(t.push(x) =~= seq![x]);
        assert(seq![x].drop_first() =~= Seq::<ValModel>::empty());
        assert(scalars_of(Seq::<ValModel>::empty()) =~= Seq::<PayloadModel>::empty());
        assert(scalars_of(t.push(x)) =~= scalars_of(t) + scalar_of(x));
    } else {
        lemma_scalars_push(t.drop_first(), x);
        assert(t.push(x).drop_first() =~= t.drop_first().push(x));
        assert(t.push(x)[0] == t[0]);
        assert(scalars_of(t.push(x)) =~= scalars_of(t) + scalar_of(x));
    }
}

/// A value flattened into a key-to-scalar map under a prefix: scalars are
/// inserted at the prefix, arrays keep their scalar elements as a list,
/// nulls are elided, and objects recurse with dot-joined keys.
pub open spec fn flatten_value(
    m: Seq<(Seq<char>, PayloadModel)>,
    prefix: Seq<char>,
    v: ValModel,
) -> Seq<(Seq<char>, PayloadModel)>
    decreases v,
{
    match v {
        ValModel::Null => m,
        ValModel::Bool(b) => crate::value::entries_upsert(m, prefix, PayloadModel::Bool(b)),
        ValModel::Num(n) => crate::value::entries_upsert(m, prefix, PayloadModel::Num(n)),
        ValModel::Str(s) => crate::value::entries_upsert(m, prefix, PayloadModel::Str(s)),
        ValModel::Arr(items) => if scalars_of(items).len() > 0 {
            crate::value::entries_upsert(m, prefix, PayloadModel::List(scalars_of(items)))
        } else {
            m
        },
        ValModel::Obj(es) => flatten_entries(m, prefix, es),
    }
}

/// An object's entries flattened in order.
pub open spec fn flatten_entries(
    m: Seq<(Seq<char>, PayloadModel)>,
    prefix: Seq<char>,
    es: Seq<(Seq<char>, ValModel)>,
) -> Seq<(Seq<char>, PayloadModel)>
    decreases es,
{
    if es.len() == 0 {
        m
    } else {
        flatten_entries(flatten_value(m, joined(prefix, es[0].0), es[0].1), prefix, es.drop_first())
    }
}

/// Flatten one value into the payload map under the given prefix.
#[verifier::loop_isolation(false)]
pub fn add_json_to_payload(payload: &mut Vec<(String, PayloadValue)>, prefix: String, value: &Value)
    ensures
        crate::value::assoc_model(final(payload)@) == flatten_value(
            crate::value::assoc_model(old(payload)@),
            prefix@,
            value@,
        ),
    decreases *value,
{
    broadcast use vstd::std_specs::vec::axiom_vec_index_decreases;
    broadcast use lemma_list_model_len;
    broadcast use crate::value::lemma_arr_model_len;
    broadcast use crate::value::lemma_obj_model_len;

    match value {
        Value::Null => {},
        Value::Bool(b) => {
            crate::value::assoc_upsert(payload, prefix, PayloadValue::Bool(*b));
        },
        Value::Num(n) => {
            crate::value::assoc_upsert(payload, prefix, PayloadValue::Num(*n));
        },
        Value::Str(s) => {
            crate::value::assoc_upsert(payload, prefix, PayloadValue::Str(s.clone()));
        },
        Value::Arr(items) => {
            let ghost ms = crate::value::arr_model(items@);
            let n = items.len();
            let mut lv: Vec<PayloadValue> = Vec::new();
            for i in 0..n
                invariant
                    list_model(lv@) == scalars_of(ms.take(i as int)),
            {
                proof {
                    assert(ms.take(i + 1) =~= ms.take(i as int).push(ms[i as int]));
                    lemma_scalars_push(ms.take(i as int), ms[i as int]);
                    assert(ms[i as int] == items@[i as int].model());
                }
                match &items[i] {
                    Value::Str(s) => {
                        let ghost lv_before = lv@;
                        lv.push(PayloadValue::Str(s.clone()));
                        proof {
                            assert(list_model(lv@) =~= list_model(lv_before) + scalar_of(
                                ms[i as int],
                            ));
                        }
                    },
                    Value::Num(nm) => {
                        let ghost lv_before = lv@;
                        lv.push(PayloadValue::Num(*nm));
                        proof {
                            assert(list_model(lv@) =~= list_model(lv_before) + scalar_of(
                                ms[i as int],
                            ));
                        }
                    },
                    Value::Bool(b) => {
                        let ghost lv_before = lv@;
                        lv.push(PayloadValue::Bool(*b));
                        proof {
                            assert(list_model(lv@) =~= list_model(lv_before) + scalar_of(
                                ms[i as int],
                            ));
                        }
                    },
                    _ => {
                        proof {
                            assert(list_model(lv@) =~= list_model(lv@) + scalar_of(ms[i as int]));
                        }
                    },
                }
            }
            proof {
                assert(ms.take(n as int) =~= ms);
            }
            if lv.len() > 0 {
                crate::value::assoc_upsert(payload, prefix, PayloadValue::List(lv));
            }
        },
        Value::Obj(entries) => {
            let ghost es = crate::value::obj_model(entries@);
            let ghost m0 = crate::value::assoc_model(payload@);
            let ghost prefixm = prefix@;
            let n = entries.len();
            proof {
                assert(es.skip(0) =~= es);
            }
            for i in 0..n
                invariant
                    flatten_entries(m0, prefixm, es) == flatten_entries(
                        crate::value::assoc_model(payload@),
                        prefixm,
                        es.skip(i as int),
                    ),
            {
                proof {
                    assert(es.skip(i as int)[0] == es[i as int]);
                    assert(es.skip(i as int).drop_first() =~= es.skip(i + 1));
                    assert(es[i as int] == (entries@[i as int].0@, entries@[i as int].1.model()));
                }
                let new_prefix: String = if prefix.as_str().unicode_len() == 0 {
                    entries[i].0.clone()
                } else {
                    prefix.clone().concat(".").concat(entries[i].0.as_str())
                };
                proof {
                    assert(new_prefix@ == joined(prefixm, es[i as int].0));
                    assert(decreases_to!(*value => (*value)->Obj_0));
                    assert((*value)->Obj_0 == *entries);
                    assert(decreases_to!(*entries => entries@[i as int]));
                    assert(decreases_to!(entries@[i as int] => entries@[i as int].1));
                }
                add_json_to_payload(payload, new_prefix, &entries[i].1);
            }
            proof {
                assert(es.skip(n as int) =~= Seq::<(Seq<char>, ValModel)>::empty());
            }
        },
    }
}

} // verus!

verus! {

/// The attribute key carried into a point's payload.
pub open spec fn attr_key(k: Seq<char>) -> Seq<char> {
    "_danube_attr_"@ + k
}

/// Record attributes folded into the payload map, in order.
pub open spec fn add_attrs_spec(
    m: Seq<(Seq<char>, PayloadModel)>,
    attrs: Seq<(Seq<char>, Seq<char>)>,
) -> Seq<(Seq<char>, PayloadModel)>
    decreases attrs.len(),
{
    if attrs.len() == 0 {
        m
    } else {
        add_attrs_spec(
            crate::value::entries_upsert(m, attr_key(attrs[0].0), PayloadModel::Str(attrs[0].1)),
            attrs.drop_first(),
        )
    }
}

/// The payload map of a point: the message's own payload flattened, then,
/// when asked, the source metadata and the record's attributes.
pub open spec fn build_payload_spec(
    p: Option<ValModel>,
    rec: crate::bus::SinkRecordModel,
    with_metadata: bool,
) -> Seq<(Seq<char>, PayloadModel)> {
    let base = match p {
        Option::Some(v) => flatten_value(Seq::empty(), Seq::empty(), v),
        Option::None => Seq::empty(),
    };
    if with_metadata {
        let m1 = crate::value::entries_upsert(
            base,
            "_danube_topic"@,
            PayloadModel::Str(rec.topic),
        );
        let m2 = crate::value::entries_upsert(
            m1,
            "_danube_offset"@,
            PayloadModel::Num(crate::value::num_of_u64_spec(rec.offset)),
        );
        let m3 = crate::value::entries_upsert(
            m2,
            "_danube_timestamp"@,
            PayloadModel::Num(crate::value::num_of_u64_spec(rec.publish_time)),
        );
        let m4 = crate::value::entries_upsert(
            m3,
            "_danube_producer"@,
            PayloadModel::Str(rec.producer_name),
        );
        add_attrs_spec(m4, rec.attributes)
    } else {
        base
    }
}

/// Build the payload map for a point.
#[verifier::loop_isolation(false)]
pub fn build_payload(
    message_payload: Option<Value>,
    record: &SinkRecord,
    include_danube_metadata: bool,
) -> (r: Vec<(String, PayloadValue)>)
    ensures
        crate::value::assoc_model(r@) == build_payload_spec(
            match message_payload {
                Option::Some(p) => Option::Some(p@),
                Option::None => Option::None,
            },
            record@,
            include_danube_metadata,
        ),
{
    let mut payload: Vec<(String, PayloadValue)> = Vec::new();
    proof {
        assert(crate::value::assoc_model(payload@) =~= Seq::<(Seq<char>, PayloadModel)>::empty());
    }
    match &message_payload {
        Option::Some(jp) => {
            let empty_prefix = String::new();
            proof {
                assert(empty_prefix@ =~= Seq::<char>::empty());
            }
            add_json_to_payload(&mut payload, empty_prefix, jp);
        },
        Option::None => {},
    }
    if include_danube_metadata {
        crate::value::assoc_upsert(
            &mut payload,
            String::from_str("_danube_topic"),
            PayloadValue::Str(record.topic().clone()),
        );
        crate::value::assoc_upsert(
            &mut payload,
            String::from_str("_danube_offset"),
            PayloadValue::Num(crate::value::num_of_u64(record.offset())),
        );
        crate::value::assoc_upsert(
            &mut payload,
            String::from_str("_danube_timestamp"),
            PayloadValue::Num(crate::value::num_of_u64(record.publish_time())),
        );
        crate::value::assoc_upsert(
            &mut payload,
            String::from_str("_danube_producer"),
            PayloadValue::Str(record.producer_name().clone()),
        );
        let ghost attrs = record@.attributes;
        let ghost m4 = crate::value::assoc_model(payload@);
        let n = record.attributes.len();
        proof {
            assert(attrs.skip(0) =~= attrs);
        }
        for i in 0..n
            invariant
                add_attrs_spec(m4, attrs) == add_attrs_spec(
                    crate::value::assoc_model(payload@),
                    attrs.skip(i as int),
                ),
        {
            proof {
                assert(attrs.skip(i as int)[0] == attrs[i as int]);
                assert(attrs.skip(i as int).drop_first() =~= attrs.skip(i + 1));
                assert(attrs[i as int] == (
                    record.attributes@[i as int].0@,
                    record.attributes@[i as int].1@,
                ));
            }
            let key = String::from_str("_danube_attr_").concat(record.attributes[i].0.as_str());
            crate::value::assoc_upsert(
                &mut payload,
                key,
                PayloadValue::Str(record.attributes[i].1.clone()),
            );
        }
        proof {
            assert(attrs.skip(n as int) =~= Seq::<(Seq<char>, Seq<char>)>::empty());
        }
    }
    payload
}

/// A point ready for upsert: a stable id, the embedding, and the payload
/// map.
#[derive(Debug, PartialEq, Eq)]
pub struct Point {
    pub id: u64,
    pub vector: Vec<Number>,
    pub payload: Vec<(String, PayloadValue)>,
}

/// The model of a point.
#[verifier::ext_equal]
pub struct PointModel {
    pub id: u64,
    pub vector: Seq<Number>,
    pub payload: Seq<(Seq<char>, PayloadModel)>,
}

impl View for Point {
    type V = PointModel;

    open spec fn view(&self) -> PointModel {
        PointModel {
            id: self.id,
            vector: self.vector@,
            payload: crate::value::assoc_model(self.payload@),
        }
    }
}

/// The point a parsed message maps to, for a record and the metadata
/// switch.
pub open spec fn point_model_spec(
    vm: VectorMessageModel,
    rm: crate::bus::SinkRecordModel,
    with_metadata: bool,
) -> PointModel {
    PointModel {
        id: point_id_spec(vm.id, rm.topic, rm.offset),
        vector: vm.vector,
        payload: build_payload_spec(vm.payload, rm, with_metadata),
    }
}

/// Shape a bus record into a point.  Rejected as invalid data exactly when
/// the payload does not parse as a vector message or the embedding's
/// length differs from the mapping's declared dimension — a mismatch by
/// even one in either direction is refused.  The result is a function of
/// the record and the settings alone, so shaping the same record twice
/// gives identical points.
pub fn transform_to_point(
    record: &SinkRecord,
    expected_dimension: usize,
    include_danube_metadata: bool,
) -> (r: Result<Point, crate::bus::ConnectorError>)
    ensures
        match parse_vm_spec(record@.payload) {
            Option::None => r matches Result::Err(e) && e.kind == crate::bus::ErrorKind::InvalidData,
            Option::Some(vm) => {
                if vm.vector.len() != expected_dimension {
                    r matches Result::Err(e) && e.kind == crate::bus::ErrorKind::InvalidData
                } else {
                    r matches Result::Ok(p) && p@ == point_model_spec(
                        vm,
                        record@,
                        include_danube_metadata,
                    )
                }
            },
        },
{
    let message = match parse_vector_message(record.payload()) {
        Option::Some(m) => m,
        Option::None => {
            return Result::Err(
                crate::bus::ConnectorError::invalid_data(
                    String::from_str("payload is not a vector message"),
                    Vec::new(),
                ),
            );
        },
    };
    if message.vector.len() != expected_dimension {
        return Result::Err(
            crate::bus::ConnectorError::invalid_data(
                String::from_str("vector dimension mismatch"),
                Vec::new(),
            ),
        );
    }
    let point_id = generate_point_id(&message, record);
    let VectorMessage { vector, payload, .. } = message;
    let payload = build_payload(payload, record, include_danube_metadata);
    let point = Point { id: point_id, vector, payload };
    proof {
        assert(point@ =~= point_model_spec(
            parse_vm_spec(record@.payload)->0,
            record@,
            include_danube_metadata,
        ));
    }
    Result::Ok(point)
}

} // verus!
