//! The vector-database sink connector: routes bus records to per-collection
//! buffers and drives their flushes.

use vstd::prelude::*;

use crate::buffer::{
    collect_due, due_model, items_models, jobs_items_for, lemma_items_models_push,
    lemma_jobs_items_push, push_and_collect, settle_flush, should_flush_model, touched,
    same_but_clock_and_items, DueMode, FlushBuffer, FlushJob, WriteOutcome,
};
use crate::bus::{ConnectorError, ConsumerConfig, ErrorKind, SinkRecord};
use crate::qdrant::config::{Distance, QdrantConfig, TopicMapping};
use crate::qdrant::transform::{
    parse_vm_spec, point_model_spec, transform_to_point, Point, PointModel,
};

verus! {

/// The buffering state for one topic-to-collection mapping.
#[derive(Debug)]
pub struct CollectionContext {
    pub mapping: TopicMapping,
    pub batch_buffer: FlushBuffer<Point>,
}

impl CollectionContext {
    /// A fresh context with the mapping's effective batch parameters; its
    /// flush clock starts at `now_ms`.
    pub fn new(
        mapping: TopicMapping,
        global_batch_size: usize,
        global_batch_timeout: u64,
        now_ms: u64,
    ) -> (r: CollectionContext)
        ensures
            r.mapping == mapping,
            r.batch_buffer@.items == Seq::<Point>::empty(),
            r.batch_buffer@.batch_size == effective_batch_size(&mapping, global_batch_size),
            r.batch_buffer@.flush_interval_ms == effective_batch_timeout(
                &mapping,
                global_batch_timeout,
            ),
            r.batch_buffer@.last_flush_ms == Option::Some(now_ms),
            r.batch_buffer@.records_written == 0,
            r.batch_buffer@.batches_flushed == 0,
            r.batch_buffer@.last_error is None,
    {
        let batch_size = mapping.effective_batch_size(global_batch_size);
        let batch_timeout = mapping.effective_batch_timeout(global_batch_timeout);
        CollectionContext {
            mapping,
            batch_buffer: FlushBuffer::new_started(batch_size, batch_timeout, now_ms),
        }
    }

    /// Whether this context's buffer should flush at `now_ms`.
    pub fn should_flush(&self, now_ms: u64) -> (r: bool)
        ensures
            r == should_flush_model(self.batch_buffer@, now_ms),
    {
        self.batch_buffer.should_flush(now_ms)
    }
}

/// The effective batch size of a mapping: its own override or the global.
pub open spec fn effective_batch_size(m: &TopicMapping, global: usize) -> usize {
    match m.batch_size {
        Option::Some(b) => b,
        Option::None => global,
    }
}

/// The effective batch timeout of a mapping.
pub open spec fn effective_batch_timeout(m: &TopicMapping, global: u64) -> u64 {
    match m.batch_timeout_ms {
        Option::Some(t) => t,
        Option::None => global,
    }
}

/// The first mapping whose topic matches, if any.
pub open spec fn mapping_index_spec(ms: Seq<TopicMapping>, topic: Seq<char>) -> Option<int>
    decreases ms.len(),
{
    if ms.len() == 0 {
        Option::None
    } else if ms[0].topic@ == topic {
        Option::Some(0int)
    } else {
        match mapping_index_spec(ms.drop_first(), topic) {
            Option::Some(i) => Option::Some(i + 1),
            Option::None => Option::None,
        }
    }
}

/// A found index is in range and matches; everything before it does not.
pub proof fn lemma_mapping_index_spec(ms: Seq<TopicMapping>, topic: Seq<char>)
    ensures
        match mapping_index_spec(ms, topic) {
            Option::Some(i) => 0 <= i < ms.len() && ms[i].topic@ == topic && (forall|j: int|
                0 <= j < i ==> ms[j].topic@ != topic),
            Option::None => forall|j: int| 0 <= j < ms.len() ==> ms[j].topic@ != topic,
        },
    decreases ms.len(),
{
    if ms.len() > 0 {
        lemma_mapping_index_spec(ms.drop_first(), topic);
        let tail = ms.drop_first();
        assert(forall|j: int| 0 <= j < tail.len() ==> #[trigger] tail[j] == ms[j + 1]);
        if ms[0].topic@ != topic {
            match mapping_index_spec(tail, topic) {
                Option::Some(i) => {
                    assert(tail[i] == ms[i + 1]);
                    assert forall|j: int| 0 <= j < i + 1 implies ms[j].topic@ != topic by {
                        if j > 0 {
                            assert(tail[j - 1] == ms[j]);
                        }
                    }
                },
                Option::None => {
                    assert forall|j: int| 0 <= j < ms.len() implies ms[j].topic@ != topic by {
                        if j > 0 {
                            assert(tail[j - 1] == ms[j]);
                        }
                    }
                },
            }
        }
    }
}

/// What a collection needs before the first write: nothing when it already
/// exists, creation with the mapping's parameters when it is absent and
/// the mapping allows that.
#[derive(Debug)]
pub enum CollectionAction {
    /// The collection exists; use it.
    UseExisting,
    /// Create the collection with these parameters.
    Create { collection_name: String, vector_dimension: usize, distance: Distance },
}

/// Decide what to do about a mapping's collection given whether the store
/// already has it.  Absent and not auto-created is a fatal error.
pub fn ensure_collection_plan(mapping: &TopicMapping, exists: bool) -> (r: Result<
    CollectionAction,
    ConnectorError,
>)
    ensures
        exists ==> (r matches Result::Ok(a) && a is UseExisting),
        !exists && mapping.auto_create_collection ==> (r matches Result::Ok(a) && (
        a matches CollectionAction::Create { collection_name, vector_dimension, distance }
            && collection_name@ == mapping.collection_name@ && vector_dimension
            == mapping.vector_dimension && distance == mapping.distance)),
        !exists && !mapping.auto_create_collection ==> (r matches Result::Err(e) && e.kind
            == ErrorKind::Fatal),
{
    if exists {
        Result::Ok(CollectionAction::UseExisting)
    } else if mapping.auto_create_collection {
        Result::Ok(
            CollectionAction::Create {
                collection_name: mapping.collection_name.clone(),
                vector_dimension: mapping.vector_dimension,
                distance: mapping.distance,
            },
        )
    } else {
        Result::Err(
            ConnectorError::fatal(
                String::from_str("collection does not exist and auto-create is disabled"),
            ),
        )
    }
}

/// Whether a record is rejected under the mapping list: an unconfigured
/// topic, an unparsable payload, or a wrong dimension.
pub open spec fn record_rejected(ms: Seq<TopicMapping>, rec: crate::bus::SinkRecordModel) -> bool {
    match mapping_index_spec(ms, rec.topic) {
        Option::None => true,
        Option::Some(i) => match parse_vm_spec(rec.payload) {
            Option::None => true,
            Option::Some(vm) => vm.vector.len() != ms[i].vector_dimension,
        },
    }
}

/// The point a record becomes under mapping `i`, when it is accepted.
pub open spec fn routed_point(ms: Seq<TopicMapping>, rm: crate::bus::SinkRecordModel, i: int) -> PointModel
    recommends
        0 <= i < ms.len(),
{
    point_model_spec(parse_vm_spec(rm.payload)->0, rm, ms[i].include_danube_metadata)
}

/// The models of the points routed to mapping `i`, in delivery order.
pub open spec fn routed_models(ms: Seq<TopicMapping>, rs: Seq<SinkRecord>, i: int) -> Seq<
    PointModel,
>
    decreases rs.len(),
{
    if rs.len() == 0 {
        Seq::empty()
    } else {
        (if mapping_index_spec(ms, rs[0]@.topic) == Option::Some(i) && 0 <= i < ms.len()
            && !record_rejected(ms, rs[0]@) {
            seq![routed_point(ms, rs[0]@, i)]
        } else {
            Seq::empty()
        }) + routed_models(ms, rs.drop_first(), i)
    }
}

/// Appending one record appends its routing contribution.
pub proof fn lemma_routed_push(ms: Seq<TopicMapping>, rs: Seq<SinkRecord>, r: SinkRecord, i: int)
    ensures
        routed_models(ms, rs.push(r), i) == routed_models(ms, rs, i) + if mapping_index_spec(
            ms,
            r@.topic,
        ) == Option::Some(i) && 0 <= i < ms.len() && !record_rejected(ms, r@) {
            seq![routed_point(ms, r@, i)]
        } else {
            Seq::<PointModel>::empty()
        },
    decreases rs.len(),
{
    if rs.len() == 0 {
        assert(rs.push(r) =~= seq![r]);
        assert(seq![r].drop_first() =~= Seq::<SinkRecord>::empty());
        assert(routed_models(ms, Seq::<SinkRecord>::empty(), i) =~= Seq::<PointModel>::empty());
        assert(routed_models(ms, rs.push(r), i) =~= routed_models(ms, rs, i)
            + if mapping_index_spec(ms, r@.topic) == Option::Some(i) && 0 <= i < ms.len()
            && !record_rejected(ms, r@) {
            seq![routed_point(ms, r@, i)]
        } else {
            Seq::<PointModel>::empty()
        });
    } else {
        lemma_routed_push(ms, rs.drop_first(), r, i);
        assert(rs.push(r).drop_first() =~= rs.drop_first().push(r));
        assert(rs.push(r)[0] == rs[0]);
        assert(routed_models(ms, rs.push(r), i) =~= routed_models(ms, rs, i)
            + if mapping_index_spec(ms, r@.topic) == Option::Some(i) && 0 <= i < ms.len()
            && !record_rejected(ms, r@) {
            seq![routed_point(ms, r@, i)]
        } else {
            Seq::<PointModel>::empty()
        });
    }
}

/// Whether some record in the list is rejected.
pub open spec fn any_rejected(ms: Seq<TopicMapping>, rs: Seq<SinkRecord>) -> bool {
    exists|k: int| 0 <= k < rs.len() && record_rejected(ms, (#[trigger] rs[k])@)
}

/// The vector-database sink connector: the configuration and one buffer
/// per topic mapping, index-aligned with the mapping list.
#[derive(Debug)]
pub struct QdrantSinkConnector {
    pub config: QdrantConfig,
    pub collections: Vec<FlushBuffer<Point>>,
}

impl QdrantSinkConnector {
    /// Well-formed: one buffer per mapping, each with the mapping's
    /// effective parameters.
    pub open spec fn wf(&self) -> bool {
        &&& self.collections@.len() == self.config.topic_mappings@.len()
        &&& forall|i: int|
            0 <= i < self.collections@.len() ==> (#[trigger] self.collections@[i])@.batch_size
                == effective_batch_size(&self.config.topic_mappings@[i], self.config.batch_size)
                && self.collections@[i]@.flush_interval_ms == effective_batch_timeout(
                &self.config.topic_mappings@[i],
                self.config.batch_timeout_ms,
            ) && self.collections@[i]@.last_flush_ms is Some
    }

    /// The buffer model for mapping `i`.
    pub open spec fn collection_model(&self, i: int) -> crate::buffer::BufferModel<Point> {
        self.collections@[i]@
    }

    /// The number of mappings.
    pub open spec fn n_mappings(&self) -> int {
        self.config.topic_mappings@.len() as int
    }

    /// A connector with an empty configuration and no collections.
    pub fn new() -> (r: QdrantSinkConnector)
        ensures
            r.wf(),
            r.collections@.len() == 0,
            r.config.topic_mappings@.len() == 0,
            r.config.url@.len() == 0,
            r.config.api_key is None,
            r.config.batch_size == 100,
            r.config.batch_timeout_ms == 1000,
            r.config.timeout_secs == 30,
    {
        QdrantSinkConnector {
            config: QdrantConfig {
                url: String::new(),
                api_key: Option::None,
                topic_mappings: Vec::new(),
                batch_size: 100,
                batch_timeout_ms: 1000,
                timeout_secs: 30,
            },
            collections: Vec::new(),
        }
    }

    /// Build a connector from a configuration: one empty buffer per
    /// mapping, with that mapping's effective batch size and timeout; the
    /// flush clocks start at `now_ms`.
    #[verifier::loop_isolation(false)]
    pub fn with_config(config: QdrantConfig, now_ms: u64) -> (r: QdrantSinkConnector)
        ensures
            r.wf(),
            r.config == config,
            forall|i: int|
                0 <= i < r.n_mappings() ==> (#[trigger] r.collection_model(i)).items.len() == 0
                    && r.collection_model(i).records_written == 0 && r.collection_model(
                    i,
                ).batches_flushed == 0 && r.collection_model(i).last_flush_ms == Option::Some(
                    now_ms,
                ) && r.collection_model(i).last_error is None,
    {
        let n = config.topic_mappings.len();
        let mut collections: Vec<FlushBuffer<Point>> = Vec::new();
        for i in 0..n
            invariant
                collections@.len() == i,
                forall|j: int|
                    0 <= j < i ==> {
                        let b = (#[trigger] collections@[j])@;
                        &&& b.batch_size == effective_batch_size(
                            &config.topic_mappings@[j],
                            config.batch_size,
                        )
                        &&& b.flush_interval_ms == effective_batch_timeout(
                            &config.topic_mappings@[j],
                            config.batch_timeout_ms,
                        )
                        &&& b.items.len() == 0
                        &&& b.records_written == 0
                        &&& b.batches_flushed == 0
                        &&& b.last_flush_ms == Option::Some(now_ms)
                        &&& b.last_error is None
                    },
        {
            let m = &config.topic_mappings[i];
            let batch_size = m.effective_batch_size(config.batch_size);
            let batch_timeout = m.effective_batch_timeout(config.batch_timeout_ms);
            collections.push(FlushBuffer::new_started(batch_size, batch_timeout, now_ms));
        }
        QdrantSinkConnector { config, collections }
    }

    /// Find the buffer index for a topic.
    #[verifier::loop_isolation(false)]
    pub fn mapping_index(&self, topic: &str) -> (r: Option<usize>)
        ensures
            match r {
                Option::Some(i) => mapping_index_spec(self.config.topic_mappings@, topic@)
                    == Option::Some(i as int),
                Option::None => mapping_index_spec(self.config.topic_mappings@, topic@) is None,
            },
    {
        let ghost ms = self.config.topic_mappings@;
        let n = self.config.topic_mappings.len();
        for i in 0..n
            invariant
                forall|j: int| 0 <= j < i ==> ms[j].topic@ != topic@,
        {
            if crate::text::str_eq(self.config.topic_mappings[i].topic.as_str(), topic) {
                proof {
                    lemma_mapping_index_spec(ms, topic@);
                    match mapping_index_spec(ms, topic@) {
                        Option::Some(k) => {
                            assert(!(k < i as int));
                            assert(!(k > i as int));
                        },
                        Option::None => {
                            assert(ms[i as int].topic@ != topic@);
                        },
                    }
                }
                return Option::Some(i);
            }
        }
        proof {
            lemma_mapping_index_spec(ms, topic@);
        }
        Option::None
    }

    /// Route one delivered record: shape it into a point for its mapping's
    /// collection, append it, and drain the buffer when a threshold is
    /// crossed.  A record on an unconfigured topic, an unparsable payload,
    /// or a dimension mismatch is invalid data and changes no buffer — the
    /// rejected record is never buffered.
    pub fn process(&mut self, record: &SinkRecord, now_ms: u64) -> (r: Result<
        Option<FlushJob<Point>>,
        ConnectorError,
    >)
        requires
            old(self).wf(),
        ensures
            final(self).wf(),
            final(self).config == old(self).config,
            ({
                let ms = old(self).config.topic_mappings@;
                let rm = record@;
                match mapping_index_spec(ms, rm.topic) {
                    Option::None => (r matches Result::Err(e) && e.kind
                        == ErrorKind::InvalidData) && (forall|j: int|
                        0 <= j < old(self).n_mappings() ==> final(self).collection_model(j) == old(self).collection_model(j)),
                    Option::Some(i) => {
                        let before = old(self).collection_model(i);
                        let after = final(self).collection_model(i);
                        let parsed = parse_vm_spec(rm.payload);
                        let bad = parsed is None || (parsed matches Option::Some(vm)
                            && vm.vector.len() != ms[i].vector_dimension);
                        &&& (forall|j: int|
                            0 <= j < old(self).n_mappings() && j != i ==> final(self).collection_model(j) == old(self).collection_model(j))
                        &&& (bad ==> (r matches Result::Err(e) && e.kind
                            == ErrorKind::InvalidData && after == before))
                        &&& (!bad ==> same_but_clock_and_items(before, after) && match r {
                            Result::Ok(Option::Some(job)) => job.mapping_index == i
                                && job.batch@.len() == before.items.len() + 1
                                && job.batch@.drop_last() == before.items && job.batch@.last()@
                                == point_model_spec(
                                parsed->0,
                                rm,
                                ms[i].include_danube_metadata,
                            ) && after.items.len() == 0 && after.last_flush_ms
                                == before.last_flush_ms,
                            Result::Ok(Option::None) => after.items.len() == before.items.len() + 1
                                && after.items.drop_last() == before.items
                                && after.items.last()@ == point_model_spec(
                                parsed->0,
                                rm,
                                ms[i].include_danube_metadata,
                            ) && after.last_flush_ms == before.last_flush_ms
                                && !should_flush_model(after, now_ms),
                            _ => false,
                        })
                    },
                }
            }),
    {
        let idx = match self.mapping_index(record.topic().as_str()) {
            Option::Some(i) => i,
            Option::None => {
                return Result::Err(
                    ConnectorError::invalid_data(
                        String::from_str("no collection configured for topic"),
                        Vec::new(),
                    ),
                );
            },
        };
        proof {
            lemma_mapping_index_spec(self.config.topic_mappings@, record@.topic);
        }
        let mapping = &self.config.topic_mappings[idx];
        let point = match transform_to_point(
            record,
            mapping.vector_dimension,
            mapping.include_danube_metadata,
        ) {
            Result::Ok(p) => p,
            Result::Err(e) => {
                return Result::Err(e);
            },
        };
        let out = push_and_collect(&mut self.collections, idx, point, now_ms);
        proof {
            let before = old(self).collection_model(idx as int);
            assert(touched(before, now_ms) =~= before);
            if out is Some {
                assert(out->0.batch@.drop_last() =~= before.items);
            } else {
                assert(final(self).collection_model(idx as int).items.drop_last() =~= before.items);
            }
        }
        Result::Ok(out)
    }

    /// Settle a flush attempt for mapping `index`: on acknowledgment the
    /// counters advance and the batch is returned as committed; on failure
    /// the batch returns to the head of its buffer.
    pub fn complete_flush(
        &mut self,
        index: usize,
        batch: Vec<Point>,
        outcome: WriteOutcome,
        now_ms: u64,
    ) -> (r: Result<Vec<Point>, ConnectorError>)
        requires
            old(self).wf(),
            index < old(self).n_mappings(),
        ensures
            final(self).wf(),
            final(self).config == old(self).config,
            forall|j: int|
                0 <= j < old(self).n_mappings() && j != index ==> final(self).collection_model(j)
                    == old(self).collection_model(j),
            ({
                let before = old(self).collection_model(index as int);
                let after = final(self).collection_model(index as int);
                match outcome {
                    WriteOutcome::Ack => r matches Result::Ok(b) && b == batch && after.items
                        == before.items && after.last_flush_ms == Option::Some(now_ms)
                        && after.last_error is None && after.records_written
                        == crate::buffer::sat_add(before.records_written, batch@.len() as u64)
                        && after.batches_flushed == crate::buffer::sat_add(
                        before.batches_flushed,
                        1,
                    ),
                    WriteOutcome::Retry(m) => (r matches Result::Err(e) && e.kind
                        == ErrorKind::Retryable) && after.items == batch@ + before.items
                        && after.last_error == Option::Some(m@)
                        && crate::buffer::same_but_error_and_items(before, after),
                    WriteOutcome::Fatal(m) => (r matches Result::Err(e) && e.kind
                        == ErrorKind::Fatal) && after.items == batch@ + before.items
                        && after.last_error == Option::Some(m@)
                        && crate::buffer::same_but_error_and_items(before, after),
                }
            }),
    {
        settle_flush(&mut self.collections, index, batch, outcome, now_ms)
    }

    /// Drain every non-empty buffer whose flush predicate holds at `now`.
    pub fn flush_all_pending(&mut self, now_ms: u64) -> (r: Vec<FlushJob<Point>>)
        requires
            old(self).wf(),
        ensures
            final(self).wf(),
            final(self).config == old(self).config,
            forall|i: int|
                #![trigger final(self).collection_model(i)]
                0 <= i < old(self).n_mappings() ==> {
                    let before = old(self).collection_model(i);
                    let after = final(self).collection_model(i);
                    &&& (due_model(before, now_ms, DueMode::SizeOrTime) ==> after.items.len() == 0)
                    &&& (!due_model(before, now_ms, DueMode::SizeOrTime) ==> after == before)
                },
            forall|j: int|
                0 <= j < r@.len() ==> {
                    let job = #[trigger] r@[j];
                    &&& job.mapping_index < old(self).n_mappings()
                    &&& job.batch@ == old(self).collection_model(job.mapping_index as int).items
                    &&& job.batch@.len() > 0
                },
            forall|i: int|
                0 <= i < old(self).n_mappings() && due_model(
                    old(self).collection_model(i),
                    now_ms,
                    DueMode::SizeOrTime,
                ) ==> crate::buffer::job_indices(r@).contains(i),
            forall|i: int|
                0 <= i < old(self).n_mappings() ==> #[trigger] jobs_items_for(r@, i)
                    == if due_model(old(self).collection_model(i), now_ms, DueMode::SizeOrTime) {
                    items_models(old(self).collection_model(i).items)
                } else {
                    Seq::<PointModel>::empty()
                },
    {
        collect_due(&mut self.collections, now_ms, DueMode::SizeOrTime)
    }

    /// Drain every non-empty buffer whose time threshold has elapsed: the
    /// periodic ticker's pass.
    pub fn tick(&mut self, now_ms: u64) -> (r: Vec<FlushJob<Point>>)
        requires
            old(self).wf(),
        ensures
            final(self).wf(),
            final(self).config == old(self).config,
            forall|i: int|
                #![trigger final(self).collection_model(i)]
                0 <= i < old(self).n_mappings() ==> {
                    let before = old(self).collection_model(i);
                    let after = final(self).collection_model(i);
                    &&& (due_model(before, now_ms, DueMode::TimeOnly) ==> after.items.len() == 0)
                    &&& (!due_model(before, now_ms, DueMode::TimeOnly) ==> after == before)
                },
            forall|j: int|
                0 <= j < r@.len() ==> {
                    let job = #[trigger] r@[j];
                    &&& job.mapping_index < old(self).n_mappings()
                    &&& job.batch@ == old(self).collection_model(job.mapping_index as int).items
                    &&& job.batch@.len() > 0
                },
            forall|i: int|
                0 <= i < old(self).n_mappings() && due_model(
                    old(self).collection_model(i),
                    now_ms,
                    DueMode::TimeOnly,
                ) ==> crate::buffer::job_indices(r@).contains(i),
            forall|i: int|
                0 <= i < old(self).n_mappings() ==> #[trigger] jobs_items_for(r@, i)
                    == if due_model(old(self).collection_model(i), now_ms, DueMode::TimeOnly) {
                    items_models(old(self).collection_model(i).items)
                } else {
                    Seq::<PointModel>::empty()
                },
    {
        collect_due(&mut self.collections, now_ms, DueMode::TimeOnly)
    }

    /// Drain every non-empty buffer: the best-effort final pass before
    /// shutdown.
    pub fn drain_all(&mut self, now_ms: u64) -> (r: Vec<FlushJob<Point>>)
        requires
            old(self).wf(),
        ensures
            final(self).wf(),
            final(self).config == old(self).config,
            forall|i: int|
                #![trigger final(self).collection_model(i)]
                0 <= i < old(self).n_mappings() ==> final(self).collection_model(i).items.len()
                    == 0,
            forall|j: int|
                0 <= j < r@.len() ==> {
                    let job = #[trigger] r@[j];
                    &&& job.mapping_index < old(self).n_mappings()
                    &&& job.batch@ == old(self).collection_model(job.mapping_index as int).items
                    &&& job.batch@.len() > 0
                },
            forall|i: int|
                0 <= i < old(self).n_mappings() && old(self).collection_model(i).items.len() > 0
                    ==> crate::buffer::job_indices(r@).contains(i),
            forall|i: int|
                0 <= i < old(self).n_mappings() ==> #[trigger] jobs_items_for(r@, i)
                    == if old(self).collection_model(i).items.len() > 0 {
                    items_models(old(self).collection_model(i).items)
                } else {
                    Seq::<PointModel>::empty()
                },
    {
        collect_due(&mut self.collections, now_ms, DueMode::Always)
    }

    /// One consumer endpoint per mapping, named after the collection it
    /// feeds.
    #[verifier::loop_isolation(false)]
    pub fn consumer_configs(&self) -> (r: Vec<ConsumerConfig>)
        ensures
            r@.len() == self.config.topic_mappings@.len(),
            forall|i: int|
                0 <= i < r@.len() ==> {
                    let m = &self.config.topic_mappings@[i];
                    let c = #[trigger] r@[i];
                    &&& c.topic@ == m.topic@
                    &&& c.subscription@ == m.subscription@
                    &&& c.consumer_name@ == "qdrant-sink-"@ + m.collection_name@
                    &&& c.subscription_type == m.subscription_type
                    &&& c.expected_schema_subject is None
                },
    {
        let n = self.config.topic_mappings.len();
        let mut out: Vec<ConsumerConfig> = Vec::new();
        for i in 0..n
            invariant
                out@.len() == i,
                forall|j: int|
                    0 <= j < i ==> {
                        let m = &self.config.topic_mappings@[j];
                        let c = #[trigger] out@[j];
                        &&& c.topic@ == m.topic@
                        &&& c.subscription@ == m.subscription@
                        &&& c.consumer_name@ == "qdrant-sink-"@ + m.collection_name@
                        &&& c.subscription_type == m.subscription_type
                        &&& c.expected_schema_subject is None
                    },
        {
            let m = &self.config.topic_mappings[i];
            let consumer_name = String::from_str("qdrant-sink-").concat(m.collection_name.as_str());
            out.push(
                ConsumerConfig {
                    topic: m.topic.clone(),
                    consumer_name,
                    subscription: m.subscription.clone(),
                    subscription_type: m.subscription_type,
                    expected_schema_subject: Option::None,
                },
            );
        }
        out
    }

    /// Route a batch of deliveries, one record at a time.  The result is
    /// an error exactly when some record is rejected.  On success, per
    /// mapping, the returned jobs' points followed by what stays buffered
    /// are exactly what was buffered before followed by the points of the
    /// records routed there, in delivery order: nothing is lost, invented
    /// or reordered.
    #[verifier::loop_isolation(false)]
    pub fn process_batch(&mut self, records: Vec<SinkRecord>, now_ms: u64) -> (r: Result<
        Vec<FlushJob<Point>>,
        ConnectorError,
    >)
        requires
            old(self).wf(),
        ensures
            final(self).wf(),
            final(self).config == old(self).config,
            r is Err <==> any_rejected(old(self).config.topic_mappings@, records@),
            r matches Result::Err(e) ==> e.kind == ErrorKind::InvalidData,
            r matches Result::Ok(jobs) ==> forall|j: int|
                0 <= j < jobs@.len() ==> (#[trigger] jobs@[j]).mapping_index < old(self).n_mappings() && jobs@[j].batch@.len() > 0,
            r matches Result::Ok(jobs) ==> forall|i: int|
                0 <= i < old(self).n_mappings() ==> #[trigger] jobs_items_for(jobs@, i)
                    + items_models(final(self).collection_model(i).items) == items_models(
                    old(self).collection_model(i).items,
                ) + routed_models(old(self).config.topic_mappings@, records@, i),
    {
        let ghost ms = self.config.topic_mappings@;
        broadcast use crate::buffer::lemma_items_models_len;

        let mut jobs: Vec<FlushJob<Point>> = Vec::new();
        let n = records.len();
        proof {
            assert(records@.take(0) =~= Seq::<SinkRecord>::empty());
            assert forall|i: int| 0 <= i < old(self).n_mappings() implies #[trigger] jobs_items_for(
                jobs@,
                i,
            ) + items_models(self.collection_model(i).items) == items_models(
                old(self).collection_model(i).items,
            ) + routed_models(ms, records@.take(0), i) by {
                assert(jobs_items_for(jobs@, i) =~= Seq::<PointModel>::empty());
                assert(routed_models(ms, records@.take(0), i) =~= Seq::<PointModel>::empty());
                assert(jobs_items_for(jobs@, i) + items_models(self.collection_model(i).items)
                    =~= items_models(old(self).collection_model(i).items) + routed_models(
                    ms,
                    records@.take(0),
                    i,
                ));
            }
        }
        for k in 0..n
            invariant
                self.wf(),
                self.config == old(self).config,
                n == records@.len(),
                ms == old(self).config.topic_mappings@,
                forall|j: int| 0 <= j < k ==> !record_rejected(ms, (#[trigger] records@[j])@),
                forall|j: int|
                    0 <= j < jobs@.len() ==> (#[trigger] jobs@[j]).mapping_index < old(self).n_mappings() && jobs@[j].batch@.len() > 0,
                forall|i: int|
                    0 <= i < old(self).n_mappings() ==> #[trigger] jobs_items_for(jobs@, i)
                        + items_models(self.collection_model(i).items) == items_models(
                        old(self).collection_model(i).items,
                    ) + routed_models(ms, records@.take(k as int), i),
        {
            let ghost pre = *self;
            let ghost jobs_before = jobs@;
            proof {
                assert(records@.take(k + 1) =~= records@.take(k as int).push(records@[k as int]));
            }
            match self.process(&records[k], now_ms) {
                Result::Ok(Option::Some(job)) => {
                    proof {
                        lemma_mapping_index_spec(ms, records@[k as int]@.topic);
                        assert(!record_rejected(ms, records@[k as int]@));
                    }
                    let ghost idx = mapping_index_spec(ms, records@[k as int]@.topic)->0;
                    proof {
                        assert(job.batch@ =~= pre.collection_model(idx).items.push(
                            job.batch@.last(),
                        ));
                        lemma_items_models_push(
                            pre.collection_model(idx).items,
                            job.batch@.last(),
                        );
                        assert(items_models(job.batch@) =~= items_models(
                            pre.collection_model(idx).items,
                        ) + seq![routed_point(ms, records@[k as int]@, idx)]);
                    }
                    jobs.push(job);
                    proof {
                        assert forall|i: int|
                            0 <= i < old(self).n_mappings() implies #[trigger] jobs_items_for(
                            jobs@,
                            i,
                        ) + items_models(self.collection_model(i).items) == items_models(
                            old(self).collection_model(i).items,
                        ) + routed_models(ms, records@.take(k + 1), i) by {
                            lemma_jobs_items_push(jobs_before, jobs@[jobs_before.len() as int], i);
                            lemma_routed_push(
                                ms,
                                records@.take(k as int),
                                records@[k as int],
                                i,
                            );
                            if i == idx {
                                assert(items_models(self.collection_model(i).items) =~= Seq::<
                                    PointModel,
                                >::empty());
                                assert((jobs_items_for(jobs_before, i) + (items_models(
                                    pre.collection_model(i).items,
                                ) + seq![routed_point(ms, records@[k as int]@, idx)])) + Seq::<
                                    PointModel,
                                >::empty() =~= (jobs_items_for(jobs_before, i) + items_models(
                                    pre.collection_model(i).items,
                                )) + seq![routed_point(ms, records@[k as int]@, idx)]);
                                assert((items_models(old(self).collection_model(i).items)
                                    + routed_models(ms, records@.take(k as int), i)) + seq![
                                    routed_point(ms, records@[k as int]@, idx),
                                ] =~= items_models(old(self).collection_model(i).items) + (
                                routed_models(ms, records@.take(k as int), i) + seq![
                                    routed_point(ms, records@[k as int]@, idx),
                                ]));
                            } else {
                                assert(jobs_items_for(jobs@, i) =~= jobs_items_for(
                                    jobs_before,
                                    i,
                                ));
                                assert(routed_models(ms, records@.take(k + 1), i)
                                    =~= routed_models(ms, records@.take(k as int), i));
                            }
                        }
                    }
                },
                Result::Ok(Option::None) => {
                    proof {
                        lemma_mapping_index_spec(ms, records@[k as int]@.topic);
                        assert(!record_rejected(ms, records@[k as int]@));
                        let idx = mapping_index_spec(ms, records@[k as int]@.topic)->0;
                        assert(self.collection_model(idx).items =~= pre.collection_model(
                            idx,
                        ).items.push(self.collection_model(idx).items.last()));
                        lemma_items_models_push(
                            pre.collection_model(idx).items,
                            self.collection_model(idx).items.last(),
                        );
                        assert forall|i: int|
                            0 <= i < old(self).n_mappings() implies #[trigger] jobs_items_for(
                            jobs@,
                            i,
                        ) + items_models(self.collection_model(i).items) == items_models(
                            old(self).collection_model(i).items,
                        ) + routed_models(ms, records@.take(k + 1), i) by {
                            lemma_routed_push(
                                ms,
                                records@.take(k as int),
                                records@[k as int],
                                i,
                            );
                            if i == idx {
                                assert(items_models(self.collection_model(i).items)
                                    =~= items_models(pre.collection_model(i).items) + seq![
                                    routed_point(ms, records@[k as int]@, idx),
                                ]);
                                assert((jobs_items_for(jobs@, i) + (items_models(
                                    pre.collection_model(i).items,
                                ) + seq![routed_point(ms, records@[k as int]@, idx)])) =~= (
                                jobs_items_for(jobs@, i) + items_models(
                                    pre.collection_model(i).items,
                                )) + seq![routed_point(ms, records@[k as int]@, idx)]);
                                assert((items_models(old(self).collection_model(i).items)
                                    + routed_models(ms, records@.take(k as int), i)) + seq![
                                    routed_point(ms, records@[k as int]@, idx),
                                ] =~= items_models(old(self).collection_model(i).items) + (
                                routed_models(ms, records@.take(k as int), i) + seq![
                                    routed_point(ms, records@[k as int]@, idx),
                                ]));
                            } else {
                                assert(routed_models(ms, records@.take(k + 1), i)
                                    =~= routed_models(ms, records@.take(k as int), i));
                            }
                        }
                    }
                },
                Result::Err(e) => {
                    proof {
                        assert(record_rejected(ms, records@[k as int]@));
                        assert(any_rejected(ms, records@));
                    }
                    return Result::Err(e);
                },
            }
        }
        proof {
            assert(records@.take(n as int) =~= records@);
            if any_rejected(ms, records@) {
                let k = choose|k: int|
                    0 <= k < records@.len() && record_rejected(ms, (#[trigger] records@[k])@);
                assert(!record_rejected(ms, records@[k]@));
            }
        }
        Result::Ok(jobs)
    }
}

} // verus!
