//! The table-lake sink connector: routes bus records to per-table buffers,
//! drives their flushes, and releases offsets only on acknowledged writes.

use vstd::prelude::*;

use crate::buffer::{
    collect_due, due_model, items_models, jobs_items_for, lemma_items_models_push,
    lemma_jobs_items_push, push_and_collect, settle_flush, should_flush_model, touched,
    same_but_clock_and_items, DueMode, FlushBuffer, FlushJob, WriteOutcome,
};
use crate::bus::SinkRecordModel;
use crate::bus::{ConnectorError, ConsumerConfig, ErrorKind, Offset, SinkRecord, SubscriptionType};
use crate::deltalake::config::{DeltaLakeSinkConfig, StorageBackend, TopicMapping};
use crate::deltalake::record::{build_arrow_schema, fields_model, schema_spec, ArrowType, FieldDef};

verus! {

/// The first mapping whose topic matches, if any.
pub open spec fn mapping_index_spec(ms: Seq<TopicMapping>, topic: Seq<char>) -> Option<int>
    decreases ms.len(),
{
    if ms.len() == 0 {
        Option::None
    } else if ms[0].topic@ == topic {
        Option::Some(0int)
    } else {
        match mapping_index_spec(ms.drop_first(), topic) {
            Option::Some(i) => Option::Some(i + 1),
            Option::None => Option::None,
        }
    }
}

/// A found index is in range and matches; everything before it does not.
pub proof fn lemma_mapping_index_spec(ms: Seq<TopicMapping>, topic: Seq<char>)
    ensures
        match mapping_index_spec(ms, topic) {
            Option::Some(i) => 0 <= i < ms.len() && ms[i].topic@ == topic && (forall|j: int|
                0 <= j < i ==> ms[j].topic@ != topic),
            Option::None => forall|j: int| 0 <= j < ms.len() ==> ms[j].topic@ != topic,
        },
    decreases ms.len(),
{
    if ms.len() > 0 {
        lemma_mapping_index_spec(ms.drop_first(), topic);
        let tail = ms.drop_first();
        assert(forall|j: int| 0 <= j < tail.len() ==> #[trigger] tail[j] == ms[j + 1]);
        if ms[0].topic@ != topic {
            match mapping_index_spec(tail, topic) {
                Option::Some(i) => {
                    assert(tail[i] == ms[i + 1]);
                    assert forall|j: int| 0 <= j < i + 1 implies ms[j].topic@ != topic by {
                        if j > 0 {
                            assert(tail[j - 1] == ms[j]);
                        }
                    }
                },
                Option::None => {
                    assert forall|j: int| 0 <= j < ms.len() implies ms[j].topic@ != topic by {
                        if j > 0 {
                            assert(tail[j - 1] == ms[j]);
                        }
                    }
                },
            }
        }
    }
}

/// The effective batch size of a mapping: its own override or the global.
pub open spec fn effective_batch_size(m: &TopicMapping, global: usize) -> usize {
    match m.batch_size {
        Option::Some(b) => b,
        Option::None => global,
    }
}

/// The effective flush interval of a mapping.
pub open spec fn effective_flush_interval(m: &TopicMapping, global: u64) -> u64 {
    match m.flush_interval_ms {
        Option::Some(f) => f,
        Option::None => global,
    }
}

/// The table-lake sink connector: the configuration and one buffer of
/// whole bus records per topic mapping, index-aligned with the mappings.
#[derive(Debug)]
pub struct DeltaLakeSinkConnector {
    pub config: DeltaLakeSinkConfig,
    pub buffers: Vec<FlushBuffer<SinkRecord>>,
}

impl DeltaLakeSinkConnector {
    /// Well-formed: one buffer per mapping, each with the mapping's
    /// effective parameters.
    pub open spec fn wf(&self) -> bool {
        &&& self.buffers@.len() == self.config.deltalake.topic_mappings@.len()
        &&& forall|i: int|
            0 <= i < self.buffers@.len() ==> (#[trigger] self.buffers@[i])@.batch_size
                == effective_batch_size(
                &self.config.deltalake.topic_mappings@[i],
                self.config.deltalake.batch_size,
            ) && self.buffers@[i]@.flush_interval_ms == effective_flush_interval(
                &self.config.deltalake.topic_mappings@[i],
                self.config.deltalake.flush_interval_ms,
            )
    }

    /// The buffer model for mapping `i`.
    pub open spec fn buffer_model(&self, i: int) -> crate::buffer::BufferModel<SinkRecord> {
        self.buffers@[i]@
    }

    /// The number of mappings.
    pub open spec fn n_mappings(&self) -> int {
        self.config.deltalake.topic_mappings@.len() as int
    }

    /// Build a connector from a configuration: one empty buffer per
    /// mapping.  A buffer's flush clock starts when its first record
    /// arrives.
    #[verifier::loop_isolation(false)]
    pub fn with_config(config: DeltaLakeSinkConfig) -> (r: DeltaLakeSinkConnector)
        ensures
            r.wf(),
            r.config == config,
            forall|i: int|
                0 <= i < r.n_mappings() ==> (#[trigger] r.buffer_model(i)).items.len() == 0
                    && r.buffer_model(i).records_written == 0 && r.buffer_model(i).batches_flushed
                    == 0 && r.buffer_model(i).last_flush_ms is None && r.buffer_model(
                    i,
                ).last_error is None,
    {
        let n = config.deltalake.topic_mappings.len();
        let mut buffers: Vec<FlushBuffer<SinkRecord>> = Vec::new();
        for i in 0..n
            invariant
                buffers@.len() == i,
                forall|j: int|
                    0 <= j < i ==> {
                        let b = (#[trigger] buffers@[j])@;
                        &&& b.batch_size == effective_batch_size(
                            &config.deltalake.topic_mappings@[j],
                            config.deltalake.batch_size,
                        )
                        &&& b.flush_interval_ms == effective_flush_interval(
                            &config.deltalake.topic_mappings@[j],
                            config.deltalake.flush_interval_ms,
                        )
                        &&& b.items.len() == 0
                        &&& b.records_written == 0
                        &&& b.batches_flushed == 0
                        &&& b.last_flush_ms is None
                        &&& b.last_error is None
                    },
        {
            let m = &config.deltalake.topic_mappings[i];
            let batch_size = m.effective_batch_size(config.deltalake.batch_size);
            let flush_interval_ms = m.effective_flush_interval_ms(
                config.deltalake.flush_interval_ms,
            );
            buffers.push(FlushBuffer::new(batch_size, flush_interval_ms));
        }
        DeltaLakeSinkConnector { config, buffers }
    }

    /// Find the buffer index for a topic.
    #[verifier::loop_isolation(false)]
    pub fn mapping_index(&self, topic: &str) -> (r: Option<usize>)
        ensures
            match r {
                Option::Some(i) => mapping_index_spec(
                    self.config.deltalake.topic_mappings@,
                    topic@,
                ) == Option::Some(i as int),
                Option::None => mapping_index_spec(
                    self.config.deltalake.topic_mappings@,
                    topic@,
                ) is None,
            },
    {
        let ghost ms = self.config.deltalake.topic_mappings@;
        let n = self.config.deltalake.topic_mappings.len();
        for i in 0..n
            invariant
                forall|j: int| 0 <= j < i ==> ms[j].topic@ != topic@,
        {
            if crate::text::str_eq(self.config.deltalake.topic_mappings[i].topic.as_str(), topic) {
                proof {
                    lemma_mapping_index_spec(ms, topic@);
                    match mapping_index_spec(ms, topic@) {
                        Option::Some(k) => {
                            assert(!(k < i as int));
                            assert(!(k > i as int));
                        },
                        Option::None => {
                            assert(ms[i as int].topic@ != topic@);
                        },
                    }
                }
                return Option::Some(i);
            }
        }
        proof {
            lemma_mapping_index_spec(ms, topic@);
        }
        Option::None
    }

    /// The storage options handed to the object store, as key-value pairs
    /// drawn from the configured backend's settings.
    #[verifier::loop_isolation(false)]
    pub fn build_storage_options(&self) -> (r: Vec<(String, String)>)
        ensures
            crate::bus::attrs_model(r@) == storage_options_model(&self.config.deltalake),
    {
        let c = &self.config.deltalake;
        let mut options: Vec<(String, String)> = Vec::new();
        match c.storage_backend {
            StorageBackend::S3 => {
                match &c.s3_region {
                    Option::Some(region) => {
                        options.push((String::from_str("region"), region.clone()));
                    },
                    Option::None => {},
                }
                match &c.s3_endpoint {
                    Option::Some(endpoint) => {
                        options.push((String::from_str("endpoint"), endpoint.clone()));
                    },
                    Option::None => {},
                }
                if c.s3_allow_http {
                    options.push((String::from_str("allow_http"), String::from_str("true")));
                }
            },
            StorageBackend::Azure => {
                match &c.azure_storage_account {
                    Option::Some(account) => {
                        options.push((String::from_str("account_name"), account.clone()));
                    },
                    Option::None => {},
                }
                match &c.azure_container {
                    Option::Some(container) => {
                        options.push((String::from_str("container_name"), container.clone()));
                    },
                    Option::None => {},
                }
            },
            StorageBackend::GCS => {
                match &c.gcp_project_id {
                    Option::Some(project) => {
                        options.push((String::from_str("project_id"), project.clone()));
                    },
                    Option::None => {},
                }
            },
        }
        proof {
            assert(crate::bus::attrs_model(options@) =~= storage_options_model(
                &self.config.deltalake,
            ));
        }
        options
    }

    /// Route one delivered record into its mapping's buffer; the buffer's
    /// flush clock starts on its first record.  A record on an
    /// unconfigured topic is a fatal error and changes nothing.  On
    /// return, either the buffer is below its thresholds or the drained
    /// batch is handed back for writing.
    pub fn process(&mut self, record: SinkRecord, now_ms: u64) -> (r: Result<
        Option<FlushJob<SinkRecord>>,
        ConnectorError,
    >)
        requires
            old(self).wf(),
        ensures
            final(self).wf(),
            final(self).config == old(self).config,
            ({
                let ms = old(self).config.deltalake.topic_mappings@;
                let rm = record@;
                match mapping_index_spec(ms, rm.topic) {
                    Option::None => (r matches Result::Err(e) && e.kind == ErrorKind::Fatal) && (
                    forall|j: int|
                        0 <= j < old(self).n_mappings() ==> final(self).buffer_model(j) == old(
                            self,
                        ).buffer_model(j)),
                    Option::Some(i) => {
                        let before = old(self).buffer_model(i);
                        let after = final(self).buffer_model(i);
                        let started = touched(before, now_ms);
                        &&& (forall|j: int|
                            0 <= j < old(self).n_mappings() && j != i ==> final(self).buffer_model(
                                j,
                            ) == old(self).buffer_model(j))
                        &&& same_but_clock_and_items(before, after)
                        &&& match r {
                            Result::Ok(Option::Some(job)) => job.mapping_index == i
                                && job.batch@.len() == before.items.len() + 1
                                && job.batch@.drop_last() == before.items && job.batch@.last()
                                == record && after.items.len() == 0 && after.last_flush_ms
                                == started.last_flush_ms,
                            Result::Ok(Option::None) => after.items == before.items.push(record)
                                && after.last_flush_ms == started.last_flush_ms
                                && !should_flush_model(after, now_ms),
                            Result::Err(_) => false,
                        }
                    },
                }
            }),
    {
        let idx = match self.mapping_index(record.topic().as_str()) {
            Option::Some(i) => i,
            Option::None => {
                return Result::Err(
                    ConnectorError::fatal(String::from_str("no mapping for topic")),
                );
            },
        };
        proof {
            lemma_mapping_index_spec(self.config.deltalake.topic_mappings@, record@.topic);
        }
        let out = push_and_collect(&mut self.buffers, idx, record, now_ms);
        proof {
            if out is Some {
                assert(out->0.batch@.drop_last() =~= old(self).buffer_model(idx as int).items);
            } else {
            }
        }
        Result::Ok(out)
    }

    /// Settle a flush attempt for mapping `index`.  On acknowledgment the
    /// batch's offsets come back committable, in delivery order: this is
    /// the commit point, and no offset is committable before it.  On
    /// failure the batch returns to the head of its buffer and nothing is
    /// committable.
    pub fn complete_flush(
        &mut self,
        index: usize,
        batch: Vec<SinkRecord>,
        outcome: WriteOutcome,
        now_ms: u64,
    ) -> (r: Result<Vec<Offset>, ConnectorError>)
        requires
            old(self).wf(),
            index < old(self).n_mappings(),
        ensures
            final(self).wf(),
            final(self).config == old(self).config,
            forall|j: int|
                0 <= j < old(self).n_mappings() && j != index ==> final(self).buffer_model(j)
                    == old(self).buffer_model(j),
            ({
                let before = old(self).buffer_model(index as int);
                let after = final(self).buffer_model(index as int);
                match outcome {
                    WriteOutcome::Ack => (r matches Result::Ok(offs) && offs@.len() == batch@.len()
                        && (forall|k: int|
                        0 <= k < batch@.len() ==> (#[trigger] offs@[k]).topic@ == batch@[k]@.topic
                            && offs@[k].offset == batch@[k]@.offset)) && after.items
                        == before.items && after.last_flush_ms == Option::Some(now_ms)
                        && after.last_error is None && after.records_written
                        == crate::buffer::sat_add(before.records_written, batch@.len() as u64)
                        && after.batches_flushed == crate::buffer::sat_add(
                        before.batches_flushed,
                        1,
                    ),
                    WriteOutcome::Retry(m) => (r matches Result::Err(e) && e.kind
                        == ErrorKind::Retryable) && after.items == batch@ + before.items
                        && after.last_error == Option::Some(m@)
                        && crate::buffer::same_but_error_and_items(before, after),
                    WriteOutcome::Fatal(m) => (r matches Result::Err(e) && e.kind
                        == ErrorKind::Fatal) && after.items == batch@ + before.items
                        && after.last_error == Option::Some(m@)
                        && crate::buffer::same_but_error_and_items(before, after),
                }
            }),
    {
        match settle_flush(&mut self.buffers, index, batch, outcome, now_ms) {
            Result::Ok(batch) => {
                let n = batch.len();
                let mut offsets: Vec<Offset> = Vec::new();
                for k in 0..n
                    invariant
                        n == batch@.len(),
                        offsets@.len() == k,
                        forall|j: int|
                            0 <= j < k ==> (#[trigger] offsets@[j]).topic@ == batch@[j]@.topic
                                && offsets@[j].offset == batch@[j]@.offset,
                {
                    offsets.push(
                        Offset { topic: batch[k].topic().clone(), offset: batch[k].offset() },
                    );
                }
                Result::Ok(offsets)
            },
            Result::Err(e) => Result::Err(e),
        }
    }

    /// Drain every non-empty buffer whose time threshold has elapsed: the
    /// periodic pass run between deliveries.
    pub fn check_and_flush_intervals(&mut self, now_ms: u64) -> (r: Vec<FlushJob<SinkRecord>>)
        requires
            old(self).wf(),
        ensures
            final(self).wf(),
            final(self).config == old(self).config,
            forall|i: int|
                #![trigger final(self).buffer_model(i)]
                0 <= i < old(self).n_mappings() ==> {
                    let before = old(self).buffer_model(i);
                    let after = final(self).buffer_model(i);
                    &&& (due_model(before, now_ms, DueMode::TimeOnly) ==> after.items.len() == 0)
                    &&& (!due_model(before, now_ms, DueMode::TimeOnly) ==> after == before)
                },
            forall|j: int|
                0 <= j < r@.len() ==> {
                    let job = #[trigger] r@[j];
                    &&& job.mapping_index < old(self).n_mappings()
                    &&& job.batch@ == old(self).buffer_model(job.mapping_index as int).items
                    &&& job.batch@.len() > 0
                },
            forall|i: int|
                0 <= i < old(self).n_mappings() && due_model(
                    old(self).buffer_model(i),
                    now_ms,
                    DueMode::TimeOnly,
                ) ==> crate::buffer::job_indices(r@).contains(i),
            forall|i: int|
                0 <= i < old(self).n_mappings() ==> #[trigger] jobs_items_for(r@, i)
                    == if due_model(old(self).buffer_model(i), now_ms, DueMode::TimeOnly) {
                    items_models(old(self).buffer_model(i).items)
                } else {
                    Seq::<SinkRecordModel>::empty()
                },
    {
        collect_due(&mut self.buffers, now_ms, DueMode::TimeOnly)
    }

    /// Drain every non-empty buffer: the best-effort final pass before
    /// shutdown.
    pub fn flush_all(&mut self, now_ms: u64) -> (r: Vec<FlushJob<SinkRecord>>)
        requires
            old(self).wf(),
        ensures
            final(self).wf(),
            final(self).config == old(self).config,
            forall|i: int|
                #![trigger final(self).buffer_model(i)]
                0 <= i < old(self).n_mappings() ==> final(self).buffer_model(i).items.len() == 0,
            forall|j: int|
                0 <= j < r@.len() ==> {
                    let job = #[trigger] r@[j];
                    &&& job.mapping_index < old(self).n_mappings()
                    &&& job.batch@ == old(self).buffer_model(job.mapping_index as int).items
                    &&& job.batch@.len() > 0
                },
            forall|i: int|
                0 <= i < old(self).n_mappings() && old(self).buffer_model(i).items.len() > 0
                    ==> crate::buffer::job_indices(r@).contains(i),
            forall|i: int|
                0 <= i < old(self).n_mappings() ==> #[trigger] jobs_items_for(r@, i)
                    == if old(self).buffer_model(i).items.len() > 0 {
                    items_models(old(self).buffer_model(i).items)
                } else {
                    Seq::<SinkRecordModel>::empty()
                },
    {
        collect_due(&mut self.buffers, now_ms, DueMode::Always)
    }

    /// One consumer endpoint per mapping, named after the connector and
    /// the subscription.
    #[verifier::loop_isolation(false)]
    pub fn consumer_configs(&self) -> (r: Vec<ConsumerConfig>)
        ensures
            r@.len() == self.config.deltalake.topic_mappings@.len(),
            forall|i: int|
                0 <= i < r@.len() ==> {
                    let m = &self.config.deltalake.topic_mappings@[i];
                    let c = #[trigger] r@[i];
                    &&& c.topic@ == m.topic@
                    &&& c.subscription@ == m.subscription@
                    &&& c.consumer_name@ == self.config.core.connector_name@ + "-"@
                        + m.subscription@
                    &&& c.subscription_type == SubscriptionType::Shared
                    &&& c.expected_schema_subject is None
                },
    {
        let n = self.config.deltalake.topic_mappings.len();
        let mut out: Vec<ConsumerConfig> = Vec::new();
        for i in 0..n
            invariant
                out@.len() == i,
                forall|j: int|
                    0 <= j < i ==> {
                        let m = &self.config.deltalake.topic_mappings@[j];
                        let c = #[trigger] out@[j];
                        &&& c.topic@ == m.topic@
                        &&& c.subscription@ == m.subscription@
                        &&& c.consumer_name@ == self.config.core.connector_name@ + "-"@
                            + m.subscription@
                        &&& c.subscription_type == SubscriptionType::Shared
                        &&& c.expected_schema_subject is None
                    },
        {
            let m = &self.config.deltalake.topic_mappings[i];
            let consumer_name = self.config.core.connector_name.clone().concat("-").concat(
                m.subscription.as_str(),
            );
            out.push(
                ConsumerConfig {
                    topic: m.topic.clone(),
                    consumer_name,
                    subscription: m.subscription.clone(),
                    subscription_type: SubscriptionType::Shared,
                    expected_schema_subject: Option::None,
                },
            );
        }
        out
    }

    /// Route a batch of deliveries.  An empty batch is the periodic flush
    /// pass; a non-empty one is routed record by record.  The result is an
    /// error exactly when some record names an unconfigured topic.  On
    /// success, per mapping, the returned jobs' items followed by what
    /// stays buffered are exactly what was buffered before followed by the
    /// records routed there, in delivery order: nothing is lost, invented
    /// or reordered.
    #[verifier::loop_isolation(false)]
    pub fn process_batch(&mut self, records: Vec<SinkRecord>, now_ms: u64) -> (r: Result<
        Vec<FlushJob<SinkRecord>>,
        ConnectorError,
    >)
        requires
            old(self).wf(),
        ensures
            final(self).wf(),
            final(self).config == old(self).config,
            r is Err <==> any_unmapped(old(self).config.deltalake.topic_mappings@, records@),
            r matches Result::Err(e) ==> e.kind == ErrorKind::Fatal,
            r matches Result::Ok(jobs) ==> forall|j: int|
                0 <= j < jobs@.len() ==> (#[trigger] jobs@[j]).mapping_index < old(
                    self,
                ).n_mappings() && jobs@[j].batch@.len() > 0,
            r matches Result::Ok(jobs) ==> forall|i: int|
                0 <= i < old(self).n_mappings() ==> #[trigger] jobs_items_for(jobs@, i)
                    + items_models(final(self).buffer_model(i).items) == items_models(
                    old(self).buffer_model(i).items,
                ) + routed_models(old(self).config.deltalake.topic_mappings@, records@, i),
    {
        let ghost ms = self.config.deltalake.topic_mappings@;
        broadcast use crate::buffer::lemma_items_models_len;

        if records.len() == 0 {
            let r = self.check_and_flush_intervals(now_ms);
            proof {
                assert forall|i: int| 0 <= i < old(self).n_mappings() implies jobs_items_for(
                    r@,
                    i,
                ) + items_models(final(self).buffer_model(i).items) == items_models(
                    old(self).buffer_model(i).items,
                ) + routed_models(ms, records@, i) by {
                    assert(routed_models(ms, records@, i) =~= Seq::<SinkRecordModel>::empty());
                    if due_model(old(self).buffer_model(i), now_ms, DueMode::TimeOnly) {
                        assert(items_models(final(self).buffer_model(i).items) =~= Seq::<
                            SinkRecordModel,
                        >::empty());
                        assert(jobs_items_for(r@, i) + items_models(
                            final(self).buffer_model(i).items,
                        ) =~= items_models(old(self).buffer_model(i).items) + routed_models(
                            ms,
                            records@,
                            i,
                        ));
                    } else {
                        assert(jobs_items_for(r@, i) + items_models(
                            final(self).buffer_model(i).items,
                        ) =~= items_models(old(self).buffer_model(i).items) + routed_models(
                            ms,
                            records@,
                            i,
                        ));
                    }
                }
            }
            return Result::Ok(r);
        }
        let mut jobs: Vec<FlushJob<SinkRecord>> = Vec::new();
        let n = records.len();
        proof {
            assert(records@.take(0) =~= Seq::<SinkRecord>::empty());
            assert forall|i: int| 0 <= i < old(self).n_mappings() implies #[trigger] jobs_items_for(
                jobs@,
                i,
            ) + items_models(self.buffer_model(i).items) == items_models(
                old(self).buffer_model(i).items,
            ) + routed_models(ms, records@.take(0), i) by {
                assert(jobs_items_for(jobs@, i) =~= Seq::<SinkRecordModel>::empty());
                assert(routed_models(ms, records@.take(0), i) =~= Seq::<SinkRecordModel>::empty());
                assert(jobs_items_for(jobs@, i) + items_models(self.buffer_model(i).items)
                    =~= items_models(old(self).buffer_model(i).items) + routed_models(
                    ms,
                    records@.take(0),
                    i,
                ));
            }
        }
        for k in 0..n
            invariant
                self.wf(),
                self.config == old(self).config,
                n == records@.len(),
                ms == old(self).config.deltalake.topic_mappings@,
                forall|j: int|
                    0 <= j < k ==> mapping_index_spec(ms, (#[trigger] records@[j])@.topic) is Some,
                forall|j: int|
                    0 <= j < jobs@.len() ==> (#[trigger] jobs@[j]).mapping_index < old(
                        self,
                    ).n_mappings() && jobs@[j].batch@.len() > 0,
                forall|i: int|
                    0 <= i < old(self).n_mappings() ==> #[trigger] jobs_items_for(jobs@, i)
                        + items_models(self.buffer_model(i).items) == items_models(
                        old(self).buffer_model(i).items,
                    ) + routed_models(ms, records@.take(k as int), i),
        {
            let ghost pre = *self;
            let ghost jobs_before = jobs@;
            let record = records[k].duplicate();
            let ghost rec = record;
            proof {
                assert(records@.take(k + 1) =~= records@.take(k as int).push(records@[k as int]));
            }
            match self.process(record, now_ms) {
                Result::Ok(Option::Some(job)) => {
                    proof {
                        lemma_mapping_index_spec(ms, records@[k as int]@.topic);
                    }
                    let ghost idx = mapping_index_spec(ms, records@[k as int]@.topic)->0;
                    proof {
                        lemma_items_models_push(pre.buffer_model(idx).items, rec);
                        assert(items_models(job.batch@) =~= items_models(
                            pre.buffer_model(idx).items,
                        ) + seq![records@[k as int]@]);
                    }
                    jobs.push(job);
                    proof {
                        assert forall|i: int|
                            0 <= i < old(self).n_mappings() implies #[trigger] jobs_items_for(
                            jobs@,
                            i,
                        ) + items_models(self.buffer_model(i).items) == items_models(
                            old(self).buffer_model(i).items,
                        ) + routed_models(ms, records@.take(k + 1), i) by {
                            lemma_jobs_items_push(jobs_before, jobs@[jobs_before.len() as int], i);
                            lemma_routed_push(
                                ms,
                                records@.take(k as int),
                                records@[k as int],
                                i,
                            );
                            if i == idx {
                                assert(items_models(self.buffer_model(i).items) =~= Seq::<
                                    SinkRecordModel,
                                >::empty());
                                assert((jobs_items_for(jobs_before, i) + (items_models(
                                    pre.buffer_model(i).items,
                                ) + seq![records@[k as int]@])) + Seq::<SinkRecordModel>::empty()
                                    =~= (jobs_items_for(jobs_before, i) + items_models(
                                    pre.buffer_model(i).items,
                                )) + seq![records@[k as int]@]);
                                assert((items_models(old(self).buffer_model(i).items)
                                    + routed_models(ms, records@.take(k as int), i)) + seq![
                                    records@[k as int]@,
                                ] =~= items_models(old(self).buffer_model(i).items) + (
                                routed_models(ms, records@.take(k as int), i) + seq![
                                    records@[k as int]@,
                                ]));
                            } else {
                                assert(jobs_items_for(jobs@, i) =~= jobs_items_for(
                                    jobs_before,
                                    i,
                                ));
                                assert(routed_models(ms, records@.take(k + 1), i)
                                    =~= routed_models(ms, records@.take(k as int), i));
                            }
                        }
                    }
                },
                Result::Ok(Option::None) => {
                    proof {
                        lemma_mapping_index_spec(ms, records@[k as int]@.topic);
                        let idx = mapping_index_spec(ms, records@[k as int]@.topic)->0;
                        lemma_items_models_push(pre.buffer_model(idx).items, rec);
                        assert forall|i: int|
                            0 <= i < old(self).n_mappings() implies #[trigger] jobs_items_for(
                            jobs@,
                            i,
                        ) + items_models(self.buffer_model(i).items) == items_models(
                            old(self).buffer_model(i).items,
                        ) + routed_models(ms, records@.take(k + 1), i) by {
                            lemma_routed_push(
                                ms,
                                records@.take(k as int),
                                records@[k as int],
                                i,
                            );
                            if i == idx {
                                assert(items_models(self.buffer_model(i).items)
                                    =~= items_models(pre.buffer_model(i).items) + seq![
                                    records@[k as int]@,
                                ]);
                                assert((jobs_items_for(jobs@, i) + (items_models(
                                    pre.buffer_model(i).items,
                                ) + seq![records@[k as int]@])) =~= (jobs_items_for(jobs@, i)
                                    + items_models(pre.buffer_model(i).items)) + seq![
                                    records@[k as int]@,
                                ]);
                                assert((items_models(old(self).buffer_model(i).items)
                                    + routed_models(ms, records@.take(k as int), i)) + seq![
                                    records@[k as int]@,
                                ] =~= items_models(old(self).buffer_model(i).items) + (
                                routed_models(ms, records@.take(k as int), i) + seq![
                                    records@[k as int]@,
                                ]));
                            } else {
                                assert(routed_models(ms, records@.take(k + 1), i)
                                    =~= routed_models(ms, records@.take(k as int), i));
                            }
                        }
                    }
                },
                Result::Err(e) => {
                    proof {
                        assert(mapping_index_spec(ms, (records@[k as int])@.topic) is None);
                        assert(any_unmapped(ms, records@));
                    }
                    return Result::Err(e);
                },
            }
        }
        proof {
            assert(records@.take(n as int) =~= records@);
            if any_unmapped(ms, records@) {
                let k = choose|k: int|
                    0 <= k < records@.len() && mapping_index_spec(
                        ms,
                        (#[trigger] records@[k])@.topic,
                    ) is None;
                assert(mapping_index_spec(ms, (records@[k])@.topic) is Some);
            }
        }
        Result::Ok(jobs)
    }
}

/// How a table open attempt ended, as the store client reports it.
#[derive(Clone, Copy, Debug, PartialEq, Eq, Structural)]
pub enum TableOpenOutcome {
    /// The table exists and opened.
    Opened,
    /// There is no table at the path.
    NotFound,
    /// The open failed for any other reason.
    Failed,
}

/// What to do about a mapping's table: use the opened handle, or create
/// the table with the declared fields.
#[derive(Debug)]
pub enum TableAction {
    /// The table opened; use it.
    UseOpened,
    /// Create the table with these fields.
    Create { fields: Vec<FieldDef> },
}

/// Decide what to do about a mapping's table given how the open attempt
/// ended: an opened table is used; an absent one is created with the
/// mapping's declared schema; any other failure is fatal, as is an absent
/// table under a schema whose types do not all parse.
pub fn table_open_plan(mapping: &TopicMapping, outcome: TableOpenOutcome) -> (r: Result<
    TableAction,
    ConnectorError,
>)
    ensures
        outcome == TableOpenOutcome::Opened ==> (r matches Result::Ok(a) && a is UseOpened),
        outcome == TableOpenOutcome::NotFound ==> match schema_spec(mapping.schema@) {
            Option::Some(decl) => r matches Result::Ok(a) && (
            a matches TableAction::Create { fields } && fields_model(fields@) == decl
                + if mapping.include_danube_metadata {
                seq![("_danube_metadata"@, ArrowType::Utf8, false)]
            } else {
                Seq::empty()
            }),
            Option::None => r matches Result::Err(e) && e.kind == ErrorKind::Fatal,
        },
        outcome == TableOpenOutcome::Failed ==> (r matches Result::Err(e) && e.kind
            == ErrorKind::Fatal),
{
    match outcome {
        TableOpenOutcome::Opened => Result::Ok(TableAction::UseOpened),
        TableOpenOutcome::NotFound => {
            match build_arrow_schema(mapping) {
                Result::Ok(fields) => Result::Ok(TableAction::Create { fields }),
                Result::Err(e) => Result::Err(e),
            }
        },
        TableOpenOutcome::Failed => Result::Err(
            ConnectorError::fatal(String::from_str("failed to open the table")),
        ),
    }
}

/// The models of the records routed to mapping `i`, in delivery order.
pub open spec fn routed_models(ms: Seq<TopicMapping>, rs: Seq<SinkRecord>, i: int) -> Seq<
    SinkRecordModel,
>
    decreases rs.len(),
{
    if rs.len() == 0 {
        Seq::empty()
    } else {
        (if mapping_index_spec(ms, rs[0]@.topic) == Option::Some(i) {
            seq![rs[0]@]
        } else {
            Seq::empty()
        }) + routed_models(ms, rs.drop_first(), i)
    }
}

/// Appending one record appends its routing contribution.
pub proof fn lemma_routed_push(ms: Seq<TopicMapping>, rs: Seq<SinkRecord>, r: SinkRecord, i: int)
    ensures
        routed_models(ms, rs.push(r), i) == routed_models(ms, rs, i) + if mapping_index_spec(
            ms,
            r@.topic,
        ) == Option::Some(i) {
            seq![r@]
        } else {
            Seq::<SinkRecordModel>::empty()
        },
    decreases rs.len(),
{
    if rs.len() == 0 {
        assert(rs.push(r) =~= seq![r]);
        assert(seq![r].drop_first() =~= Seq::<SinkRecord>::empty());
        assert(routed_models(ms, Seq::<SinkRecord>::empty(), i) =~= Seq::<
            SinkRecordModel,
        >::empty());
        assert(routed_models(ms, rs.push(r), i) =~= routed_models(ms, rs, i)
            + if mapping_index_spec(ms, r@.topic) == Option::Some(i) {
            seq![r@]
        } else {
            Seq::<SinkRecordModel>::empty()
        });
    } else {
        lemma_routed_push(ms, rs.drop_first(), r, i);
        assert(rs.push(r).drop_first() =~= rs.drop_first().push(r));
        assert(rs.push(r)[0] == rs[0]);
        assert(routed_models(ms, rs.push(r), i) =~= routed_models(ms, rs, i)
            + if mapping_index_spec(ms, r@.topic) == Option::Some(i) {
            seq![r@]
        } else {
            Seq::<SinkRecordModel>::empty()
        });
    }
}

/// Whether some record in the list names a topic with no mapping.
pub open spec fn any_unmapped(ms: Seq<TopicMapping>, rs: Seq<SinkRecord>) -> bool {
    exists|k: int|
        0 <= k < rs.len() && mapping_index_spec(ms, (#[trigger] rs[k])@.topic) is None
}

/// The storage options a backend configuration yields.
pub open spec fn storage_options_model(c: &crate::deltalake::config::DeltaLakeConfig) -> Seq<
    (Seq<char>, Seq<char>),
> {
    match c.storage_backend {
        StorageBackend::S3 => (match c.s3_region {
            Option::Some(region) => seq![("region"@, region@)],
            Option::None => Seq::empty(),
        }) + (match c.s3_endpoint {
            Option::Some(endpoint) => seq![("endpoint"@, endpoint@)],
            Option::None => Seq::empty(),
        }) + (if c.s3_allow_http {
            seq![("allow_http"@, "true"@)]
        } else {
            Seq::empty()
        }),
        StorageBackend::Azure => (match c.azure_storage_account {
            Option::Some(account) => seq![("account_name"@, account@)],
            Option::None => Seq::empty(),
        }) + (match c.azure_container {
            Option::Some(container) => seq![("container_name"@, container@)],
            Option::None => Seq::empty(),
        }),
        StorageBackend::GCS => match c.gcp_project_id {
            Option::Some(project) => seq![("project_id"@, project@)],
            Option::None => Seq::empty(),
        },
    }
}

} // verus!
