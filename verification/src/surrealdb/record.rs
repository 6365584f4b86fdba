//! Record shaping for the document-database sink: the payload becomes the
//! document, optionally stamped for time-series tables and enriched with
//! source metadata.

use vstd::prelude::*;

use crate::bus::{attrs_lookup, attrs_obj_model, attrs_to_value, ConnectorError, SinkRecord, SinkRecordModel};
use crate::surrealdb::config::{StorageMode, TopicMapping};
use crate::timefmt::{micros_to_rfc3339, rfc3339_of_micros};
use crate::value::{
    assoc_upsert, entries_upsert, lemma_obj_model_is_assoc, lemma_obj_model_len, num_of_u64,
    num_of_u64_spec, obj_model, ValModel, Value,
};

verus! {

/// Instants before this bound (the year 2100, in microseconds) render to
/// timestamp text; later ones are left out of the document.
pub const RENDER_BOUND_MICROS: u64 = 4_102_444_800_000_000;

/// A document ready for insertion: an optional record id taken from the
/// producer's attributes, and the document body.
#[derive(Debug, PartialEq, Eq)]
pub struct SurrealDBRecord {
    pub id: Option<String>,
    pub data: Value,
}

/// The model of a prepared document.
#[verifier::ext_equal]
pub struct SurrealDBRecordModel {
    pub id: Option<Seq<char>>,
    pub data: ValModel,
}

impl View for SurrealDBRecord {
    type V = SurrealDBRecordModel;

    open spec fn view(&self) -> SurrealDBRecordModel {
        SurrealDBRecordModel {
            id: match self.id {
                Option::Some(s) => Option::Some(s@),
                Option::None => Option::None,
            },
            data: self.data@,
        }
    }
}

/// An object value with the time-series timestamp field set; other value
/// shapes pass through unchanged.
pub open spec fn with_timestamp_model(v: ValModel, us: u64) -> ValModel {
    match v {
        ValModel::Obj(es) => if us < RENDER_BOUND_MICROS {
            ValModel::Obj(
                entries_upsert(es, "_timestamp"@, ValModel::Str(rfc3339_of_micros(us as i64))),
            )
        } else {
            ValModel::Obj(es)
        },
        _ => v,
    }
}

/// The metadata object attached to a document: origin topic, offset, the
/// publish instant when it renders, the producer, and the producer-set
/// attributes.
pub open spec fn metadata_model(rec: SinkRecordModel) -> ValModel {
    ValModel::Obj(
        seq![
            ("danube_topic"@, ValModel::Str(rec.topic)),
            ("danube_offset"@, ValModel::Num(num_of_u64_spec(rec.offset))),
        ] + (if rec.publish_time < RENDER_BOUND_MICROS {
            seq![
                (
                    "danube_timestamp"@,
                    ValModel::Str(rfc3339_of_micros(rec.publish_time as i64)),
                ),
            ]
        } else {
            Seq::empty()
        }) + seq![
            ("danube_producer"@, ValModel::Str(rec.producer_name)),
            ("danube_attributes"@, ValModel::Obj(attrs_obj_model(rec.attributes))),
        ],
    )
}

/// An object value with the metadata field set; other value shapes pass
/// through unchanged.
pub open spec fn with_metadata_model(v: ValModel, rec: SinkRecordModel) -> ValModel {
    match v {
        ValModel::Obj(es) => ValModel::Obj(
            entries_upsert(es, "_danube_metadata"@, metadata_model(rec)),
        ),
        _ => v,
    }
}

/// The document body a record maps to under a mapping.
pub open spec fn row_model(rec: SinkRecordModel, mapping: &TopicMapping) -> ValModel {
    let stamped = if mapping.storage_mode == StorageMode::TimeSeries {
        with_timestamp_model(rec.payload, rec.publish_time)
    } else {
        rec.payload
    };
    if mapping.include_danube_metadata {
        with_metadata_model(stamped, rec)
    } else {
        stamped
    }
}

/// Set the time-series timestamp on an object document.
fn add_timestamp(data: Value, publish_time: u64) -> (r: Value)
    ensures
        r@ == with_timestamp_model(data@, publish_time),
{
    match data {
        Value::Obj(mut entries) => {
            if publish_time < RENDER_BOUND_MICROS {
                let ghost before = entries@;
                match micros_to_rfc3339(publish_time as i64) {
                    Option::Some(s) => {
                        assoc_upsert(&mut entries, String::from_str("_timestamp"), Value::Str(s));
                        proof {
                            lemma_obj_model_is_assoc(before);
                            lemma_obj_model_is_assoc(entries@);
                        }
                    },
                    Option::None => {},
                }
            }
            Value::Obj(entries)
        },
        other => {
            proof {
                assert(other@ == with_timestamp_model(other@, publish_time));
            }
            other
        },
    }
}

/// Attach the source-metadata object to an object document.
fn add_metadata(
    data: Value,
    topic: String,
    offset: u64,
    publish_time: u64,
    producer_name: String,
    attributes: Vec<(String, String)>,
    Ghost(rec): Ghost<SinkRecordModel>,
) -> (r: Value)
    requires
        rec.topic == topic@,
        rec.offset == offset,
        rec.publish_time == publish_time,
        rec.producer_name == producer_name@,
        rec.attributes == crate::bus::attrs_model(attributes@),
    ensures
        r@ == with_metadata_model(data@, rec),
{
    match data {
        Value::Obj(mut entries) => {
            let ghost before = entries@;
            let mut md: Vec<(String, Value)> = Vec::new();
            md.push((String::from_str("danube_topic"), Value::Str(topic)));
            md.push((String::from_str("danube_offset"), Value::Num(num_of_u64(offset))));
            if publish_time < RENDER_BOUND_MICROS {
                match micros_to_rfc3339(publish_time as i64) {
                    Option::Some(s) => {
                        md.push((String::from_str("danube_timestamp"), Value::Str(s)));
                    },
                    Option::None => {
                        proof {
                            assert(false);
                        }
                    },
                }
            }
            md.push((String::from_str("danube_producer"), Value::Str(producer_name)));
            md.push((String::from_str("danube_attributes"), attrs_to_value(&attributes)));
            proof {
                lemma_obj_model_len(md@);
                assert(obj_model(md@) =~= match metadata_model(rec) {
                    ValModel::Obj(es) => es,
                    _ => Seq::empty(),
                });
            }
            assoc_upsert(&mut entries, String::from_str("_danube_metadata"), Value::Obj(md));
            proof {
                lemma_obj_model_is_assoc(before);
                lemma_obj_model_is_assoc(entries@);
            }
            Value::Obj(entries)
        },
        other => other,
    }
}

/// Shape a bus record into a document for its mapping's table.  The record
/// id comes from the producer-set `record_id` attribute; the body is the
/// payload, stamped and enriched as the mapping asks.  The result is a
/// function of the record and the mapping alone, so shaping the same
/// record twice gives identical documents.
pub fn to_surrealdb_record(record: SinkRecord, mapping: &TopicMapping) -> (r: Result<
    SurrealDBRecord,
    ConnectorError,
>)
    ensures
        r matches Result::Ok(out) && out@.data == row_model(record@, mapping) && out@.id
            == attrs_lookup(record@.attributes, "record_id"@),
{
    let id: Option<String> = match record.get_attribute("record_id") {
        Option::Some(s) => Option::Some(s.clone()),
        Option::None => Option::None,
    };
    let ghost rec = record@;
    let SinkRecord { topic, offset, publish_time, producer_name, attributes, payload, .. } =
        record;
    let mut data = payload;
    if mapping.storage_mode == StorageMode::TimeSeries {
        data = add_timestamp(data, publish_time);
    }
    if mapping.include_danube_metadata {
        data = add_metadata(
            data,
            topic,
            offset,
            publish_time,
            producer_name,
            attributes,
            Ghost(rec),
        );
    }
    Result::Ok(SurrealDBRecord { id, data })
}

} // verus!
