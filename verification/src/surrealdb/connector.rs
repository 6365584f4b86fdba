//! The document-database sink connector: routes bus records to per-table
//! buffers and drives their flushes.

use vstd::prelude::*;

use crate::buffer::{
    collect_due, due_model, items_models, jobs_items_for, lemma_items_models_push,
    lemma_jobs_items_append, lemma_jobs_items_push, push_and_collect, settle_flush,
    should_flush_model, touched, same_but_clock_and_items, DueMode, FlushBuffer, FlushJob,
    WriteOutcome,
};
use crate::bus::{ConnectorError, ConsumerConfig, ErrorKind, SinkRecord, SubscriptionType};
use crate::surrealdb::config::{SurrealDBSinkConfig, TopicMapping};
use crate::surrealdb::record::{row_model, to_surrealdb_record, SurrealDBRecord, SurrealDBRecordModel};

verus! {

/// The buffering state for one topic-to-table mapping.
#[derive(Debug)]
pub struct TableContext {
    pub mapping: TopicMapping,
    pub batch_buffer: FlushBuffer<SurrealDBRecord>,
}

impl TableContext {
    /// A fresh context with the mapping's effective batch parameters.
    pub fn new(mapping: TopicMapping, global_batch_size: usize, global_flush_interval_ms: u64) -> (r:
        TableContext)
        ensures
            r.mapping == mapping,
            r.batch_buffer@.items == Seq::<SurrealDBRecord>::empty(),
            r.batch_buffer@.batch_size == effective_batch_size(&mapping, global_batch_size),
            r.batch_buffer@.flush_interval_ms == effective_flush_interval(
                &mapping,
                global_flush_interval_ms,
            ),
            r.batch_buffer@.last_flush_ms is None,
            r.batch_buffer@.records_written == 0,
            r.batch_buffer@.batches_flushed == 0,
            r.batch_buffer@.last_error is None,
    {
        let batch_size = match mapping.batch_size {
            Option::Some(b) => b,
            Option::None => global_batch_size,
        };
        let flush_interval_ms = match mapping.flush_interval_ms {
            Option::Some(f) => f,
            Option::None => global_flush_interval_ms,
        };
        TableContext { mapping, batch_buffer: FlushBuffer::new(batch_size, flush_interval_ms) }
    }

    /// Whether this context's buffer should flush at `now`.
    pub fn should_flush(&self, now: u64) -> (r: bool)
        ensures
            r == should_flush_model(self.batch_buffer@, now),
    {
        self.batch_buffer.should_flush(now)
    }
}

/// The effective batch size of a mapping: its own override or the global.
pub open spec fn effective_batch_size(m: &TopicMapping, global: usize) -> usize {
    match m.batch_size {
        Option::Some(b) => b,
        Option::None => global,
    }
}

/// The effective flush interval of a mapping.
pub open spec fn effective_flush_interval(m: &TopicMapping, global: u64) -> u64 {
    match m.flush_interval_ms {
        Option::Some(f) => f,
        Option::None => global,
    }
}

/// The first mapping whose topic matches, if any.
pub open spec fn mapping_index_spec(ms: Seq<TopicMapping>, topic: Seq<char>) -> Option<int>
    decreases ms.len(),
{
    if ms.len() == 0 {
        Option::None
    } else if ms[0].topic@ == topic {
        Option::Some(0int)
    } else {
        match mapping_index_spec(ms.drop_first(), topic) {
            Option::Some(i) => Option::Some(i + 1),
            Option::None => Option::None,
        }
    }
}

/// A found index is in range and matches; everything before it does not.
pub proof fn lemma_mapping_index_spec(ms: Seq<TopicMapping>, topic: Seq<char>)
    ensures
        match mapping_index_spec(ms, topic) {
            Option::Some(i) => 0 <= i < ms.len() && ms[i].topic@ == topic && (forall|j: int|
                0 <= j < i ==> ms[j].topic@ != topic),
            Option::None => forall|j: int| 0 <= j < ms.len() ==> ms[j].topic@ != topic,
        },
    decreases ms.len(),
{
    if ms.len() > 0 {
        lemma_mapping_index_spec(ms.drop_first(), topic);
        let tail = ms.drop_first();
        assert(forall|j: int| 0 <= j < tail.len() ==> #[trigger] tail[j] == ms[j + 1]);
        if ms[0].topic@ != topic {
            match mapping_index_spec(tail, topic) {
                Option::Some(i) => {
                    assert(tail[i] == ms[i + 1]);
                    assert forall|j: int| 0 <= j < i + 1 implies ms[j].topic@ != topic by {
                        if j > 0 {
                            assert(tail[j - 1] == ms[j]);
                        }
                    }
                },
                Option::None => {
                    assert forall|j: int| 0 <= j < ms.len() implies ms[j].topic@ != topic by {
                        if j > 0 {
                            assert(tail[j - 1] == ms[j]);
                        }
                    }
                },
            }
        }
    }
}

/// The document a record becomes under its mapping.
pub open spec fn doc_model(rm: crate::bus::SinkRecordModel, m: &TopicMapping) -> SurrealDBRecordModel {
    SurrealDBRecordModel {
        id: crate::bus::attrs_lookup(rm.attributes, "record_id"@),
        data: row_model(rm, m),
    }
}

/// The models of the documents routed to mapping `i`, in delivery order.
pub open spec fn routed_models(ms: Seq<TopicMapping>, rs: Seq<SinkRecord>, i: int) -> Seq<
    SurrealDBRecordModel,
>
    decreases rs.len(),
{
    if rs.len() == 0 {
        Seq::empty()
    } else {
        (if mapping_index_spec(ms, rs[0]@.topic) == Option::Some(i) && 0 <= i < ms.len() {
            seq![doc_model(rs[0]@, &ms[i])]
        } else {
            Seq::empty()
        }) + routed_models(ms, rs.drop_first(), i)
    }
}

/// Appending one record appends its routing contribution.
pub proof fn lemma_routed_push(ms: Seq<TopicMapping>, rs: Seq<SinkRecord>, r: SinkRecord, i: int)
    ensures
        routed_models(ms, rs.push(r), i) == routed_models(ms, rs, i) + if mapping_index_spec(
            ms,
            r@.topic,
        ) == Option::Some(i) && 0 <= i < ms.len() {
            seq![doc_model(r@, &ms[i])]
        } else {
            Seq::<SurrealDBRecordModel>::empty()
        },
    decreases rs.len(),
{
    if rs.len() == 0 {
        assert(rs.push(r) =~= seq![r]);
        assert(seq![r].drop_first() =~= Seq::<SinkRecord>::empty());
        assert(routed_models(ms, Seq::<SinkRecord>::empty(), i) =~= Seq::<
            SurrealDBRecordModel,
        >::empty());
        assert(routed_models(ms, rs.push(r), i) =~= routed_models(ms, rs, i)
            + if mapping_index_spec(ms, r@.topic) == Option::Some(i) && 0 <= i < ms.len() {
            seq![doc_model(r@, &ms[i])]
        } else {
            Seq::<SurrealDBRecordModel>::empty()
        });
    } else {
        lemma_routed_push(ms, rs.drop_first(), r, i);
        assert(rs.push(r).drop_first() =~= rs.drop_first().push(r));
        assert(rs.push(r)[0] == rs[0]);
        assert(routed_models(ms, rs.push(r), i) =~= routed_models(ms, rs, i)
            + if mapping_index_spec(ms, r@.topic) == Option::Some(i) && 0 <= i < ms.len() {
            seq![doc_model(r@, &ms[i])]
        } else {
            Seq::<SurrealDBRecordModel>::empty()
        });
    }
}

/// Whether some record in the list names a topic with no mapping.
pub open spec fn any_unmapped(ms: Seq<TopicMapping>, rs: Seq<SinkRecord>) -> bool {
    exists|k: int|
        0 <= k < rs.len() && mapping_index_spec(ms, (#[trigger] rs[k])@.topic) is None
}

/// The document-database sink connector: the configuration and one buffer
/// per topic mapping, index-aligned with the mapping list.
#[derive(Debug)]
pub struct SurrealDBSinkConnector {
    pub config: SurrealDBSinkConfig,
    pub tables: Vec<FlushBuffer<SurrealDBRecord>>,
}

impl SurrealDBSinkConnector {
    /// Well-formed: one buffer per mapping, each with the mapping's
    /// effective parameters.
    pub open spec fn wf(&self) -> bool {
        &&& self.tables@.len() == self.config.surrealdb.topic_mappings@.len()
        &&& forall|i: int|
            0 <= i < self.tables@.len() ==> (#[trigger] self.tables@[i])@.batch_size
                == effective_batch_size(
                &self.config.surrealdb.topic_mappings@[i],
                self.config.surrealdb.batch_size,
            ) && self.tables@[i]@.flush_interval_ms == effective_flush_interval(
                &self.config.surrealdb.topic_mappings@[i],
                self.config.surrealdb.flush_interval_ms,
            )
    }

    /// The buffer model for mapping `i`.
    pub open spec fn table_model(&self, i: int) -> crate::buffer::BufferModel<SurrealDBRecord> {
        self.tables@[i]@
    }

    /// The number of mappings.
    pub open spec fn n_mappings(&self) -> int {
        self.config.surrealdb.topic_mappings@.len() as int
    }

    /// Build a connector from a configuration: one empty buffer per
    /// mapping, with that mapping's effective batch size and interval.
    pub fn with_config(config: SurrealDBSinkConfig) -> (r: SurrealDBSinkConnector)
        ensures
            r.wf(),
            r.config == config,
            forall|i: int|
                0 <= i < r.n_mappings() ==> (#[trigger] r.table_model(i)).items.len() == 0
                    && r.table_model(i).records_written == 0 && r.table_model(i).batches_flushed
                    == 0 && r.table_model(i).last_flush_ms is None && r.table_model(
                    i,
                ).last_error is None,
    {
        let n = config.surrealdb.topic_mappings.len();
        let mut tables: Vec<FlushBuffer<SurrealDBRecord>> = Vec::new();
        for i in 0..n
            invariant
                n == config.surrealdb.topic_mappings@.len(),
                tables@.len() == i,
                forall|j: int|
                    0 <= j < i ==> {
                        let b = (#[trigger] tables@[j])@;
                        &&& b.batch_size == effective_batch_size(
                            &config.surrealdb.topic_mappings@[j],
                            config.surrealdb.batch_size,
                        )
                        &&& b.flush_interval_ms == effective_flush_interval(
                            &config.surrealdb.topic_mappings@[j],
                            config.surrealdb.flush_interval_ms,
                        )
                        &&& b.items.len() == 0
                        &&& b.records_written == 0
                        &&& b.batches_flushed == 0
                        &&& b.last_flush_ms is None
                        &&& b.last_error is None
                    },
        {
            let m = &config.surrealdb.topic_mappings[i];
            let batch_size = match m.batch_size {
                Option::Some(b) => b,
                Option::None => config.surrealdb.batch_size,
            };
            let flush_interval_ms = match m.flush_interval_ms {
                Option::Some(f) => f,
                Option::None => config.surrealdb.flush_interval_ms,
            };
            tables.push(FlushBuffer::new(batch_size, flush_interval_ms));
        }
        SurrealDBSinkConnector { config, tables }
    }

    /// Find the buffer index for a topic.
    pub fn mapping_index(&self, topic: &str) -> (r: Option<usize>)
        ensures
            match r {
                Option::Some(i) => mapping_index_spec(
                    self.config.surrealdb.topic_mappings@,
                    topic@,
                ) == Option::Some(i as int),
                Option::None => mapping_index_spec(
                    self.config.surrealdb.topic_mappings@,
                    topic@,
                ) is None,
            },
    {
        let ghost ms = self.config.surrealdb.topic_mappings@;
        let n = self.config.surrealdb.topic_mappings.len();
        for i in 0..n
            invariant
                n == ms.len(),
                ms == self.config.surrealdb.topic_mappings@,
                forall|j: int| 0 <= j < i ==> ms[j].topic@ != topic@,
        {
            if crate::text::str_eq(self.config.surrealdb.topic_mappings[i].topic.as_str(), topic) {
                proof {
                    lemma_mapping_index_spec(ms, topic@);
                    match mapping_index_spec(ms, topic@) {
                        Option::Some(k) => {
                            assert(!(k < i as int));
                            assert(!(k > i as int));
                        },
                        Option::None => {
                            assert(ms[i as int].topic@ != topic@);
                        },
                    }
                }
                return Option::Some(i);
            }
        }
        proof {
            lemma_mapping_index_spec(ms, topic@);
        }
        Option::None
    }

    /// Route one delivered record: shape it for its mapping's table, append
    /// it to that mapping's buffer, and drain the buffer when a threshold
    /// is crossed.  A record on an unconfigured topic is a fatal error and
    /// changes nothing.  On return, either the mapping's buffer is below
    /// its thresholds or the drained batch is handed back for writing.
    pub fn process(&mut self, record: SinkRecord, now_ms: u64) -> (r: Result<
        Option<FlushJob<SurrealDBRecord>>,
        ConnectorError,
    >)
        requires
            old(self).wf(),
        ensures
            final(self).wf(),
            final(self).config == old(self).config,
            ({
                let ms = old(self).config.surrealdb.topic_mappings@;
                let rm = record@;
                match mapping_index_spec(ms, rm.topic) {
                    Option::None => r matches Result::Err(e) && e.kind == ErrorKind::Fatal && (
                    forall|j: int|
                        0 <= j < old(self).n_mappings() ==> final(self).table_model(j) == old(
                            self,
                        ).table_model(j)),
                    Option::Some(i) => {
                        let before = old(self).table_model(i);
                        let after = final(self).table_model(i);
                        let started = touched(before, now_ms);
                        let row = row_model(rm, &ms[i]);
                        &&& (forall|j: int|
                            0 <= j < old(self).n_mappings() && j != i ==> final(self).table_model(
                                j,
                            ) == old(self).table_model(j))
                        &&& same_but_clock_and_items(before, after)
                        &&& match r {
                            Result::Ok(Option::Some(job)) => job.mapping_index == i
                                && job.batch@.len() == before.items.len() + 1
                                && job.batch@.drop_last() == before.items
                                && job.batch@.last()@.data == row && job.batch@.last()@.id
                                == crate::bus::attrs_lookup(rm.attributes, "record_id"@)
                                && after.items.len() == 0 && after.last_flush_ms
                                == started.last_flush_ms,
                            Result::Ok(Option::None) => after.items.len() == before.items.len() + 1
                                && after.items.drop_last() == before.items
                                && after.items.last()@.data == row && after.items.last()@.id
                                == crate::bus::attrs_lookup(rm.attributes, "record_id"@)
                                && after.last_flush_ms == started.last_flush_ms
                                && !should_flush_model(after, now_ms),
                            Result::Err(_) => false,
                        }
                    },
                }
            }),
    {
        let idx = match self.mapping_index(record.topic().as_str()) {
            Option::Some(i) => i,
            Option::None => {
                return Result::Err(
                    ConnectorError::fatal(String::from_str("no mapping for topic")),
                );
            },
        };
        proof {
            lemma_mapping_index_spec(self.config.surrealdb.topic_mappings@, record@.topic);
        }
        let row = match to_surrealdb_record(record, &self.config.surrealdb.topic_mappings[idx]) {
            Result::Ok(row) => row,
            Result::Err(e) => {
                return Result::Err(e);
            },
        };
        let out = push_and_collect(&mut self.tables, idx, row, now_ms);
        proof {
            if out is Some {
                assert(out->0.batch@.drop_last() =~= old(self).table_model(idx as int).items);
            } else {
                assert(final(self).table_model(idx as int).items.drop_last() =~= old(self).table_model(idx as int).items);
            }
        }
        Result::Ok(out)
    }

    /// Settle a flush attempt for mapping `index`: on acknowledgment the
    /// counters advance and the batch is returned as committed; on failure
    /// the batch returns to the head of its buffer and the error carries
    /// the writer's classification.
    pub fn complete_flush(
        &mut self,
        index: usize,
        batch: Vec<SurrealDBRecord>,
        outcome: WriteOutcome,
        now_ms: u64,
    ) -> (r: Result<Vec<SurrealDBRecord>, ConnectorError>)
        requires
            old(self).wf(),
            index < old(self).n_mappings(),
        ensures
            final(self).wf(),
            final(self).config == old(self).config,
            forall|j: int|
                0 <= j < old(self).n_mappings() && j != index ==> final(self).table_model(j)
                    == old(self).table_model(j),
            ({
                let before = old(self).table_model(index as int);
                let after = final(self).table_model(index as int);
                match outcome {
                    WriteOutcome::Ack => r matches Result::Ok(b) && b == batch && after.items
                        == before.items && after.last_flush_ms == Option::Some(now_ms)
                        && after.last_error is None && after.records_written
                        == crate::buffer::sat_add(before.records_written, batch@.len() as u64)
                        && after.batches_flushed == crate::buffer::sat_add(
                        before.batches_flushed,
                        1,
                    ),
                    WriteOutcome::Retry(m) => (r matches Result::Err(e) && e.kind
                        == ErrorKind::Retryable) && after.items == batch@ + before.items
                        && after.last_error == Option::Some(m@)
                        && crate::buffer::same_but_error_and_items(before, after),
                    WriteOutcome::Fatal(m) => (r matches Result::Err(e) && e.kind
                        == ErrorKind::Fatal) && after.items == batch@ + before.items
                        && after.last_error == Option::Some(m@)
                        && crate::buffer::same_but_error_and_items(before, after),
                }
            }),
    {
        settle_flush(&mut self.tables, index, batch, outcome, now_ms)
    }

    /// Drain every buffer whose flush predicate holds at `now`: the pending
    /// pass after a batch of deliveries.
    pub fn flush_all_pending(&mut self, now_ms: u64) -> (r: Vec<FlushJob<SurrealDBRecord>>)
        requires
            old(self).wf(),
        ensures
            final(self).wf(),
            final(self).config == old(self).config,
            forall|i: int|
                #![trigger final(self).table_model(i)]
                0 <= i < old(self).n_mappings() ==> {
                    let before = old(self).table_model(i);
                    let after = final(self).table_model(i);
                    &&& (due_model(before, now_ms, DueMode::SizeOrTime) ==> after.items.len() == 0)
                    &&& (!due_model(before, now_ms, DueMode::SizeOrTime) ==> after == before)
                },
            forall|j: int|
                0 <= j < r@.len() ==> {
                    let job = #[trigger] r@[j];
                    &&& job.mapping_index < old(self).n_mappings()
                    &&& job.batch@ == old(self).table_model(job.mapping_index as int).items
                    &&& job.batch@.len() > 0
                },
            forall|i: int|
                0 <= i < old(self).n_mappings() && due_model(
                    old(self).table_model(i),
                    now_ms,
                    DueMode::SizeOrTime,
                ) ==> crate::buffer::job_indices(r@).contains(i),
            forall|i: int|
                0 <= i < old(self).n_mappings() ==> #[trigger] jobs_items_for(r@, i)
                    == if due_model(old(self).table_model(i), now_ms, DueMode::SizeOrTime) {
                    items_models(old(self).table_model(i).items)
                } else {
                    Seq::<SurrealDBRecordModel>::empty()
                },
    {
        collect_due(&mut self.tables, now_ms, DueMode::SizeOrTime)
    }

    /// Drain every non-empty buffer whose time threshold has elapsed: the
    /// periodic ticker's pass.
    pub fn tick(&mut self, now_ms: u64) -> (r: Vec<FlushJob<SurrealDBRecord>>)
        requires
            old(self).wf(),
        ensures
            final(self).wf(),
            final(self).config == old(self).config,
            forall|i: int|
                #![trigger final(self).table_model(i)]
                0 <= i < old(self).n_mappings() ==> {
                    let before = old(self).table_model(i);
                    let after = final(self).table_model(i);
                    &&& (due_model(before, now_ms, DueMode::TimeOnly) ==> after.items.len() == 0)
                    &&& (!due_model(before, now_ms, DueMode::TimeOnly) ==> after == before)
                },
            forall|j: int|
                0 <= j < r@.len() ==> {
                    let job = #[trigger] r@[j];
                    &&& job.mapping_index < old(self).n_mappings()
                    &&& job.batch@ == old(self).table_model(job.mapping_index as int).items
                    &&& job.batch@.len() > 0
                },
            forall|i: int|
                0 <= i < old(self).n_mappings() && due_model(
                    old(self).table_model(i),
                    now_ms,
                    DueMode::TimeOnly,
                ) ==> crate::buffer::job_indices(r@).contains(i),
            forall|i: int|
                0 <= i < old(self).n_mappings() ==> #[trigger] jobs_items_for(r@, i)
                    == if due_model(old(self).table_model(i), now_ms, DueMode::TimeOnly) {
                    items_models(old(self).table_model(i).items)
                } else {
                    Seq::<SurrealDBRecordModel>::empty()
                },
    {
        collect_due(&mut self.tables, now_ms, DueMode::TimeOnly)
    }

    /// Drain every non-empty buffer: the best-effort final pass before
    /// shutdown.
    pub fn drain_all(&mut self, now_ms: u64) -> (r: Vec<FlushJob<SurrealDBRecord>>)
        requires
            old(self).wf(),
        ensures
            final(self).wf(),
            final(self).config == old(self).config,
            forall|i: int|
                #![trigger final(self).table_model(i)]
                0 <= i < old(self).n_mappings() ==> final(self).table_model(i).items.len() == 0,
            forall|j: int|
                0 <= j < r@.len() ==> {
                    let job = #[trigger] r@[j];
                    &&& job.mapping_index < old(self).n_mappings()
                    &&& job.batch@ == old(self).table_model(job.mapping_index as int).items
                    &&& job.batch@.len() > 0
                },
            forall|i: int|
                0 <= i < old(self).n_mappings() && old(self).table_model(i).items.len() > 0
                    ==> crate::buffer::job_indices(r@).contains(i),
            forall|i: int|
                0 <= i < old(self).n_mappings() ==> #[trigger] jobs_items_for(r@, i)
                    == if old(self).table_model(i).items.len() > 0 {
                    items_models(old(self).table_model(i).items)
                } else {
                    Seq::<SurrealDBRecordModel>::empty()
                },
    {
        let r = collect_due(&mut self.tables, now_ms, DueMode::Always);
        proof {
            assert forall|i: int|
                0 <= i < old(self).n_mappings() implies final(self).table_model(i).items.len()
                == 0 by {
            }
        }
        r
    }

    /// One consumer endpoint per mapping, named after the connector and the
    /// table it feeds.
    pub fn consumer_configs(&self) -> (r: Vec<ConsumerConfig>)
        ensures
            r@.len() == self.config.surrealdb.topic_mappings@.len(),
            forall|i: int|
                0 <= i < r@.len() ==> {
                    let m = &self.config.surrealdb.topic_mappings@[i];
                    let c = #[trigger] r@[i];
                    &&& c.topic@ == m.topic@
                    &&& c.subscription@ == m.subscription@
                    &&& c.consumer_name@ == self.config.core.connector_name@ + "-"@ + m.table_name@
                    &&& c.subscription_type == SubscriptionType::Shared
                    &&& c.expected_schema_subject is None
                },
    {
        let n = self.config.surrealdb.topic_mappings.len();
        let mut out: Vec<ConsumerConfig> = Vec::new();
        for i in 0..n
            invariant
                n == self.config.surrealdb.topic_mappings@.len(),
                out@.len() == i,
                forall|j: int|
                    0 <= j < i ==> {
                        let m = &self.config.surrealdb.topic_mappings@[j];
                        let c = #[trigger] out@[j];
                        &&& c.topic@ == m.topic@
                        &&& c.subscription@ == m.subscription@
                        &&& c.consumer_name@ == self.config.core.connector_name@ + "-"@
                            + m.table_name@
                        &&& c.subscription_type == SubscriptionType::Shared
                        &&& c.expected_schema_subject is None
                    },
        {
            let m = &self.config.surrealdb.topic_mappings[i];
            let consumer_name = self.config.core.connector_name.clone().concat("-").concat(
                m.table_name.as_str(),
            );
            out.push(
                ConsumerConfig {
                    topic: m.topic.clone(),
                    consumer_name,
                    subscription: m.subscription.clone(),
                    subscription_type: SubscriptionType::Shared,
                    expected_schema_subject: Option::None,
                },
            );
        }
        out
    }

    /// Route a batch of deliveries, then drain whatever is pending.  The
    /// result is an error exactly when some record names an unconfigured
    /// topic.  On success, per mapping, the returned jobs' documents
    /// followed by what stays buffered are exactly what was buffered
    /// before followed by the documents of the records routed there, in
    /// delivery order: nothing is lost, invented or reordered.
    #[verifier::loop_isolation(false)]
    pub fn process_batch(&mut self, records: Vec<SinkRecord>, now_ms: u64) -> (r: Result<
        Vec<FlushJob<SurrealDBRecord>>,
        ConnectorError,
    >)
        requires
            old(self).wf(),
        ensures
            final(self).wf(),
            final(self).config == old(self).config,
            r is Err <==> any_unmapped(
                old(self).config.surrealdb.topic_mappings@,
                records@,
            ),
            r matches Result::Ok(jobs) ==> forall|j: int|
                0 <= j < jobs@.len() ==> (#[trigger] jobs@[j]).mapping_index < old(self).n_mappings() && jobs@[j].batch@.len() > 0,
            r matches Result::Ok(jobs) ==> forall|i: int|
                0 <= i < old(self).n_mappings() ==> #[trigger] jobs_items_for(jobs@, i)
                    + items_models(final(self).table_model(i).items) == items_models(
                    old(self).table_model(i).items,
                ) + routed_models(old(self).config.surrealdb.topic_mappings@, records@, i),
    {
        let ghost ms = self.config.surrealdb.topic_mappings@;
        broadcast use crate::buffer::lemma_items_models_len;

        let mut jobs: Vec<FlushJob<SurrealDBRecord>> = Vec::new();
        let n = records.len();
        proof {
            assert(records@.take(0) =~= Seq::<SinkRecord>::empty());
            assert forall|i: int| 0 <= i < old(self).n_mappings() implies #[trigger] jobs_items_for(
                jobs@,
                i,
            ) + items_models(self.table_model(i).items) == items_models(
                old(self).table_model(i).items,
            ) + routed_models(ms, records@.take(0), i) by {
                assert(jobs_items_for(jobs@, i) =~= Seq::<SurrealDBRecordModel>::empty());
                assert(routed_models(ms, records@.take(0), i) =~= Seq::<
                    SurrealDBRecordModel,
                >::empty());
                assert(jobs_items_for(jobs@, i) + items_models(self.table_model(i).items)
                    =~= items_models(old(self).table_model(i).items) + routed_models(
                    ms,
                    records@.take(0),
                    i,
                ));
            }
        }
        for k in 0..n
            invariant
                self.wf(),
                self.config == old(self).config,
                n == records@.len(),
                ms == old(self).config.surrealdb.topic_mappings@,
                forall|j: int|
                    0 <= j < k ==> mapping_index_spec(ms, (#[trigger] records@[j])@.topic) is Some,
                forall|j: int|
                    0 <= j < jobs@.len() ==> (#[trigger] jobs@[j]).mapping_index < old(self).n_mappings() && jobs@[j].batch@.len() > 0,
                forall|i: int|
                    0 <= i < old(self).n_mappings() ==> #[trigger] jobs_items_for(jobs@, i)
                        + items_models(self.table_model(i).items) == items_models(
                        old(self).table_model(i).items,
                    ) + routed_models(ms, records@.take(k as int), i),
        {
            let ghost pre = *self;
            let ghost jobs_before = jobs@;
            let record = records[k].duplicate();
            proof {
                assert(records@.take(k + 1) =~= records@.take(k as int).push(records@[k as int]));
            }
            match self.process(record, now_ms) {
                Result::Ok(Option::Some(job)) => {
                    proof {
                        lemma_mapping_index_spec(ms, records@[k as int]@.topic);
                    }
                    let ghost idx = mapping_index_spec(ms, records@[k as int]@.topic)->0;
                    proof {
                        assert(job.batch@ =~= pre.table_model(idx).items.push(
                            job.batch@.last(),
                        ));
                        lemma_items_models_push(pre.table_model(idx).items, job.batch@.last());
                        assert(job.batch@.last()@ =~= doc_model(records@[k as int]@, &ms[idx]));
                        assert(items_models(job.batch@) =~= items_models(
                            pre.table_model(idx).items,
                        ) + seq![doc_model(records@[k as int]@, &ms[idx])]);
                    }
                    jobs.push(job);
                    proof {
                        assert forall|i: int|
                            0 <= i < old(self).n_mappings() implies #[trigger] jobs_items_for(
                            jobs@,
                            i,
                        ) + items_models(self.table_model(i).items) == items_models(
                            old(self).table_model(i).items,
                        ) + routed_models(ms, records@.take(k + 1), i) by {
                            lemma_jobs_items_push(jobs_before, jobs@[jobs_before.len() as int], i);
                            lemma_routed_push(
                                ms,
                                records@.take(k as int),
                                records@[k as int],
                                i,
                            );
                            if i == idx {
                                assert(items_models(self.table_model(i).items) =~= Seq::<
                                    SurrealDBRecordModel,
                                >::empty());
                                assert((jobs_items_for(jobs_before, i) + (items_models(
                                    pre.table_model(i).items,
                                ) + seq![doc_model(records@[k as int]@, &ms[idx])])) + Seq::<
                                    SurrealDBRecordModel,
                                >::empty() =~= (jobs_items_for(jobs_before, i) + items_models(
                                    pre.table_model(i).items,
                                )) + seq![doc_model(records@[k as int]@, &ms[idx])]);
                                assert((items_models(old(self).table_model(i).items)
                                    + routed_models(ms, records@.take(k as int), i)) + seq![
                                    doc_model(records@[k as int]@, &ms[idx]),
                                ] =~= items_models(old(self).table_model(i).items) + (
                                routed_models(ms, records@.take(k as int), i) + seq![
                                    doc_model(records@[k as int]@, &ms[idx]),
                                ]));
                            } else {
                                assert(jobs_items_for(jobs@, i) =~= jobs_items_for(
                                    jobs_before,
                                    i,
                                ));
                                assert(routed_models(ms, records@.take(k + 1), i)
                                    =~= routed_models(ms, records@.take(k as int), i));
                            }
                        }
                    }
                },
                Result::Ok(Option::None) => {
                    proof {
                        lemma_mapping_index_spec(ms, records@[k as int]@.topic);
                        let idx = mapping_index_spec(ms, records@[k as int]@.topic)->0;
                        assert(self.table_model(idx).items =~= pre.table_model(idx).items.push(
                            self.table_model(idx).items.last(),
                        ));
                        lemma_items_models_push(
                            pre.table_model(idx).items,
                            self.table_model(idx).items.last(),
                        );
                        assert(self.table_model(idx).items.last()@ =~= doc_model(
                            records@[k as int]@,
                            &ms[idx],
                        ));
                        assert forall|i: int|
                            0 <= i < old(self).n_mappings() implies #[trigger] jobs_items_for(
                            jobs@,
                            i,
                        ) + items_models(self.table_model(i).items) == items_models(
                            old(self).table_model(i).items,
                        ) + routed_models(ms, records@.take(k + 1), i) by {
                            lemma_routed_push(
                                ms,
                                records@.take(k as int),
                                records@[k as int],
                                i,
                            );
                            if i == idx {
                                assert(items_models(self.table_model(i).items)
                                    =~= items_models(pre.table_model(i).items) + seq![
                                    doc_model(records@[k as int]@, &ms[idx]),
                                ]);
                                assert((jobs_items_for(jobs@, i) + (items_models(
                                    pre.table_model(i).items,
                                ) + seq![doc_model(records@[k as int]@, &ms[idx])])) =~= (
                                jobs_items_for(jobs@, i) + items_models(pre.table_model(i).items))
                                    + seq![doc_model(records@[k as int]@, &ms[idx])]);
                                assert((items_models(old(self).table_model(i).items)
                                    + routed_models(ms, records@.take(k as int), i)) + seq![
                                    doc_model(records@[k as int]@, &ms[idx]),
                                ] =~= items_models(old(self).table_model(i).items) + (
                                routed_models(ms, records@.take(k as int), i) + seq![
                                    doc_model(records@[k as int]@, &ms[idx]),
                                ]));
                            } else {
                                assert(routed_models(ms, records@.take(k + 1), i)
                                    =~= routed_models(ms, records@.take(k as int), i));
                            }
                        }
                    }
                },
                Result::Err(e) => {
                    proof {
                        assert(mapping_index_spec(ms, (records@[k as int])@.topic) is None);
                        assert(any_unmapped(ms, records@));
                    }
                    return Result::Err(e);
                },
            }
        }
        proof {
            assert(records@.take(n as int) =~= records@);
            if any_unmapped(ms, records@) {
                let k = choose|k: int|
                    0 <= k < records@.len() && mapping_index_spec(
                        ms,
                        (#[trigger] records@[k])@.topic,
                    ) is None;
                assert(mapping_index_spec(ms, (records@[k])@.topic) is Some);
            }
        }
        let ghost mid = *self;
        let mut due = self.flush_all_pending(now_ms);
        let ghost jobs_before = jobs@;
        let ghost due_jobs = due@;
        jobs.append(&mut due);
        proof {
            assert(jobs@ == jobs_before + due_jobs);
            assert forall|i: int| 0 <= i < old(self).n_mappings() implies #[trigger] jobs_items_for(
                jobs@,
                i,
            ) + items_models(self.table_model(i).items) == items_models(
                old(self).table_model(i).items,
            ) + routed_models(ms, records@, i) by {
                lemma_jobs_items_append(jobs_before, due_jobs, i);
                if due_model(mid.table_model(i), now_ms, DueMode::SizeOrTime) {
                    assert(items_models(self.table_model(i).items) =~= Seq::<
                        SurrealDBRecordModel,
                    >::empty());
                    assert((jobs_items_for(jobs_before, i) + items_models(
                        mid.table_model(i).items,
                    )) + Seq::<SurrealDBRecordModel>::empty() =~= jobs_items_for(jobs_before, i)
                        + items_models(mid.table_model(i).items));
                } else {
                    assert(jobs_items_for(due_jobs, i) =~= Seq::<SurrealDBRecordModel>::empty());
                    assert((jobs_items_for(jobs_before, i) + Seq::<
                        SurrealDBRecordModel,
                    >::empty()) + items_models(self.table_model(i).items) =~= jobs_items_for(
                        jobs_before,
                        i,
                    ) + items_models(mid.table_model(i).items));
                }
            }
            assert(forall|j: int|
                0 <= j < jobs@.len() ==> (#[trigger] jobs@[j]).mapping_index < old(self).n_mappings() && jobs@[j].batch@.len() > 0);
        }
        Result::Ok(jobs)
    }
}

} // verus!
