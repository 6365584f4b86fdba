//! The connectors' model of the bus runtime: records in flight, endpoint
//! descriptors, and the closed error taxonomy.  The bus client itself is an
//! external collaborator; these are the plain values that cross its boundary.

use vstd::prelude::*;

use crate::value::{ValModel, Value};

verus! {

/// How a consumer shares a subscription.
#[derive(Clone, Copy, Debug, PartialEq, Eq, Structural)]
pub enum SubscriptionType {
    Exclusive,
    Shared,
    FailOver,
}

/// The kind of a connector error, a closed set.
#[derive(Clone, Copy, Debug, PartialEq, Eq, Structural)]
pub enum ErrorKind {
    /// A configuration problem; fatal at startup.
    Config,
    /// A transformer rejected one record.
    InvalidData,
    /// A transient writer failure; the batch was requeued.
    Retryable,
    /// An irrecoverable failure; propagates to shutdown.
    Fatal,
}

/// An error returned by the connector engine.
#[derive(Debug)]
pub struct ConnectorError {
    pub kind: ErrorKind,
    pub message: String,
    /// For invalid data: the raw payload kept for diagnostics.
    pub payload: Vec<u8>,
}

impl ConnectorError {
    pub fn config(message: String) -> (r: ConnectorError)
        ensures
            r.kind == ErrorKind::Config,
            r.message@ == message@,
    {
        ConnectorError { kind: ErrorKind::Config, message, payload: Vec::new() }
    }

    pub fn invalid_data(message: String, payload: Vec<u8>) -> (r: ConnectorError)
        ensures
            r.kind == ErrorKind::InvalidData,
            r.message@ == message@,
            r.payload@ == payload@,
    {
        ConnectorError { kind: ErrorKind::InvalidData, message, payload }
    }

    pub fn retryable(message: String) -> (r: ConnectorError)
        ensures
            r.kind == ErrorKind::Retryable,
            r.message@ == message@,
    {
        ConnectorError { kind: ErrorKind::Retryable, message, payload: Vec::new() }
    }

    pub fn fatal(message: String) -> (r: ConnectorError)
        ensures
            r.kind == ErrorKind::Fatal,
            r.message@ == message@,
    {
        ConnectorError { kind: ErrorKind::Fatal, message, payload: Vec::new() }
    }
}

/// The core settings every connector shares.
#[derive(Debug)]
pub struct ConnectorConfig {
    /// URL of the bus service.
    pub danube_service_url: String,
    /// Name under which this connector registers.
    pub connector_name: String,
}

/// One consumer endpoint, derived from a topic mapping.
#[derive(Debug)]
pub struct ConsumerConfig {
    pub topic: String,
    pub consumer_name: String,
    pub subscription: String,
    pub subscription_type: SubscriptionType,
    pub expected_schema_subject: Option<String>,
}

/// One producer endpoint, derived from a topic mapping.
#[derive(Debug)]
pub struct ProducerConfig {
    pub topic: String,
    /// Partition count; zero means non-partitioned.
    pub partitions: usize,
    /// Whether publishes go through the reliable dispatch path.
    pub reliable_dispatch: bool,
}

/// A committable position on a bus topic.
#[derive(Debug, PartialEq, Eq)]
pub struct Offset {
    pub topic: String,
    pub offset: u64,
}

/// A record delivered by the bus to a sink connector.  The payload arrives
/// already decoded by the runtime.
#[derive(Debug)]
pub struct SinkRecord {
    pub topic: String,
    pub offset: u64,
    /// Microseconds since the epoch at publish time.
    pub publish_time: u64,
    pub producer_name: String,
    /// Producer-set attributes, in delivery order.
    pub attributes: Vec<(String, String)>,
    pub payload: Value,
    pub partition: Option<String>,
}

/// The model of a sink record.
pub struct SinkRecordModel {
    pub topic: Seq<char>,
    pub offset: u64,
    pub publish_time: u64,
    pub producer_name: Seq<char>,
    pub attributes: Seq<(Seq<char>, Seq<char>)>,
    pub payload: ValModel,
    pub partition: Option<Seq<char>>,
}

impl View for SinkRecord {
    type V = SinkRecordModel;

    open spec fn view(&self) -> SinkRecordModel {
        SinkRecordModel {
            topic: self.topic@,
            offset: self.offset,
            publish_time: self.publish_time,
            producer_name: self.producer_name@,
            attributes: attrs_model(self.attributes@),
            payload: self.payload@,
            partition: match self.partition {
                Option::Some(p) => Option::Some(p@),
                Option::None => Option::None,
            },
        }
    }
}

/// The model of an attribute list.
pub open spec fn attrs_model(attrs: Seq<(String, String)>) -> Seq<(Seq<char>, Seq<char>)> {
    attrs.map_values(|a: (String, String)| (a.0@, a.1@))
}

/// Look an attribute up by key: the first entry with that key.
pub open spec fn attrs_lookup(attrs: Seq<(Seq<char>, Seq<char>)>, key: Seq<char>) -> Option<
    Seq<char>,
>
    decreases attrs.len(),
{
    if attrs.len() == 0 {
        Option::None
    } else if attrs[0].0 == key {
        Option::Some(attrs[0].1)
    } else {
        attrs_lookup(attrs.drop_first(), key)
    }
}

impl SinkRecord {
    pub fn topic(&self) -> (r: &String)
        ensures
            r@ == self@.topic,
    {
        &self.topic
    }

    pub fn offset(&self) -> (r: u64)
        ensures
            r == self@.offset,
    {
        self.offset
    }

    pub fn publish_time(&self) -> (r: u64)
        ensures
            r == self@.publish_time,
    {
        self.publish_time
    }

    pub fn producer_name(&self) -> (r: &String)
        ensures
            r@ == self@.producer_name,
    {
        &self.producer_name
    }

    pub fn payload(&self) -> (r: &Value)
        ensures
            r@ == self@.payload,
    {
        &self.payload
    }

    /// The first attribute with the given key, if any.
    pub fn get_attribute(&self, key: &str) -> (r: Option<&String>)
        ensures
            match r {
                Option::Some(v) => attrs_lookup(self@.attributes, key@) == Option::Some(v@),
                Option::None => attrs_lookup(self@.attributes, key@) is None,
            },
    {
        let n = self.attributes.len();
        let ghost m = attrs_model(self.attributes@);
        proof {
            assert(m.skip(0) =~= m);
        }
        for i in 0..n
            invariant
                n == self.attributes.len(),
                m == attrs_model(self.attributes@),
                m.len() == n,
                attrs_lookup(m, key@) == attrs_lookup(m.skip(i as int), key@),
        {
            proof {
                assert(m.skip(i as int).drop_first() =~= m.skip(i + 1));
                assert(m.skip(i as int)[0] == m[i as int]);
            }
            if crate::text::str_eq(self.attributes[i].0.as_str(), key) {
                return Option::Some(&self.attributes[i].1);
            }
        }
        Option::None
    }
}

/// A record bound for the bus, produced by a source connector.
#[derive(Debug)]
pub struct SourceRecord {
    pub topic: String,
    pub payload: SourcePayload,
    /// Attributes, in the order they were attached.
    pub attributes: Vec<(String, String)>,
    /// Optional routing key for partitioned topics.
    pub key: Option<String>,
}

/// The shape of a source payload: the original bytes when they decode as a
/// JSON document, else the canonical base64 envelope around them.
#[derive(Debug, PartialEq, Eq)]
pub enum SourcePayload {
    /// Bytes known to be a valid JSON document.
    Json(Vec<u8>),
    /// The fallback envelope for bytes that are not JSON.
    Envelope(crate::envelope::Envelope),
}

impl SourceRecord {
    pub fn new(topic: String, payload: SourcePayload) -> (r: SourceRecord)
        ensures
            r.topic@ == topic@,
            r.payload == payload,
            r.attributes@ == Seq::<(String, String)>::empty(),
            r.key is None,
    {
        SourceRecord { topic, payload, attributes: Vec::new(), key: Option::None }
    }

    /// Attach an attribute; later attachments keep earlier ones.
    pub fn with_attribute(self, key: String, v: String) -> (r: SourceRecord)
        ensures
            r.topic == self.topic,
            r.payload == self.payload,
            r.attributes@ == self.attributes@.push((key, v)),
            r.key == self.key,
    {
        let mut attributes = self.attributes;
        attributes.push((key, v));
        SourceRecord { topic: self.topic, payload: self.payload, attributes, key: self.key }
    }

    /// Set the routing key.
    pub fn with_key(self, key: String) -> (r: SourceRecord)
        ensures
            r.topic == self.topic,
            r.payload == self.payload,
            r.attributes == self.attributes,
            r.key == Option::Some(key),
    {
        SourceRecord {
            topic: self.topic,
            payload: self.payload,
            attributes: self.attributes,
            key: Option::Some(key),
        }
    }
}

} // verus!

verus! {

impl SinkRecord {
    /// A deep copy whose model is the same.
    pub fn duplicate(&self) -> (r: SinkRecord)
        ensures
            r@ == self@,
    {
        let n = self.attributes.len();
        let mut attributes: Vec<(String, String)> = Vec::new();
        for i in 0..n
            invariant
                n == self.attributes@.len(),
                attributes@.len() == i,
                forall|j: int|
                    0 <= j < i ==> (#[trigger] attributes@[j]).0@ == self.attributes@[j].0@
                        && attributes@[j].1@ == self.attributes@[j].1@,
        {
            attributes.push((self.attributes[i].0.clone(), self.attributes[i].1.clone()));
        }
        proof {
            assert(attrs_model(attributes@) =~= attrs_model(self.attributes@));
        }
        SinkRecord {
            topic: self.topic.clone(),
            offset: self.offset,
            publish_time: self.publish_time,
            producer_name: self.producer_name.clone(),
            attributes,
            payload: self.payload.duplicate(),
            partition: match &self.partition {
                Option::Some(p) => Option::Some(p.clone()),
                Option::None => Option::None,
            },
        }
    }
}

} // verus!

verus! {

/// An attribute list as an object's entries: each value a string.
pub open spec fn attrs_obj_model(attrs: Seq<(Seq<char>, Seq<char>)>) -> Seq<(Seq<char>, ValModel)>
    decreases attrs,
{
    if attrs.len() == 0 {
        Seq::empty()
    } else {
        seq![(attrs[0].0, ValModel::Str(attrs[0].1))] + attrs_obj_model(attrs.drop_first())
    }
}

/// `attrs_obj_model` maps the sequence pointwise.
pub broadcast proof fn lemma_attrs_obj_model_len(attrs: Seq<(Seq<char>, Seq<char>)>)
    ensures
        (#[trigger] attrs_obj_model(attrs)).len() == attrs.len(),
        forall|i: int|
            0 <= i < attrs.len() ==> attrs_obj_model(attrs)[i] == (
            attrs[i].0,
            ValModel::Str(attrs[i].1),
            ),
    decreases attrs,
{
    if attrs.len() > 0 {
        lemma_attrs_obj_model_len(attrs.drop_first());
    }
}

/// Build the object value holding an attribute list.
#[verifier::loop_isolation(false)]
pub fn attrs_to_value(attrs: &Vec<(String, String)>) -> (r: Value)
    ensures
        r@ == ValModel::Obj(attrs_obj_model(attrs_model(attrs@))),
{
    broadcast use lemma_attrs_obj_model_len;
    broadcast use crate::value::lemma_obj_model_len;

    let n = attrs.len();
    let mut entries: Vec<(String, Value)> = Vec::new();
    for i in 0..n
        invariant
            entries@.len() == i,
            forall|j: int|
                0 <= j < i ==> (#[trigger] entries@[j]).0@ == attrs@[j].0@ && entries@[j].1
                    == Value::Str(attrs@[j].1),
    {
        entries.push((attrs[i].0.clone(), Value::Str(attrs[i].1.clone())));
    }
    let ghost m = attrs_model(attrs@);
    proof {
        assert(crate::value::obj_model(entries@) =~= attrs_obj_model(m));
    }
    Value::Obj(entries)
}

} // verus!
