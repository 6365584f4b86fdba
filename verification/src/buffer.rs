//! The per-mapping buffer and the flush engine around it.
//!
//! Every sink connector keeps one FIFO buffer per topic mapping.  Records
//! are appended as the bus delivers them; a flush drains the whole buffer
//! into one batch for the destination writer.  On a retryable or fatal
//! writer failure the batch is put back at the head of the buffer, ahead
//! of newer records, so the next flush resubmits it before anything newer.
//! Offsets become committable only when the writer has acknowledged.

use vstd::prelude::*;

use crate::bus::{ConnectorError, ErrorKind};

verus! {

/// A mapping-scoped FIFO of pending items with its flush parameters,
/// last-flush instant and cumulative counters.
#[derive(Debug)]
pub struct FlushBuffer<T> {
    items: Vec<T>,
    /// Milliseconds timestamp of the last flush; `None` until the buffer
    /// has seen its first record or flush.
    last_flush_ms: Option<u64>,
    batch_size: usize,
    flush_interval_ms: u64,
    records_written: u64,
    batches_flushed: u64,
    last_error: Option<String>,
}

/// The mathematical model of a buffer.
#[verifier::ext_equal]
pub struct BufferModel<T> {
    pub items: Seq<T>,
    pub last_flush_ms: Option<u64>,
    pub batch_size: usize,
    pub flush_interval_ms: u64,
    pub records_written: u64,
    pub batches_flushed: u64,
    pub last_error: Option<Seq<char>>,
}

impl<T> View for FlushBuffer<T> {
    type V = BufferModel<T>;

    closed spec fn view(&self) -> BufferModel<T> {
        BufferModel {
            items: self.items@,
            last_flush_ms: self.last_flush_ms,
            batch_size: self.batch_size,
            flush_interval_ms: self.flush_interval_ms,
            records_written: self.records_written,
            batches_flushed: self.batches_flushed,
            last_error: match self.last_error {
                Option::Some(e) => Option::Some(e@),
                Option::None => Option::None,
            },
        }
    }
}

/// Whether the time threshold has elapsed at `now`.
pub open spec fn time_due_model<T>(m: BufferModel<T>, now: u64) -> bool {
    match m.last_flush_ms {
        Option::Some(lf) => now >= lf + m.flush_interval_ms,
        Option::None => false,
    }
}

/// Whether a buffer should flush at `now`: the size threshold is reached,
/// or it is non-empty and the time threshold has elapsed.
pub open spec fn should_flush_model<T>(m: BufferModel<T>, now: u64) -> bool {
    m.items.len() >= m.batch_size || (m.items.len() > 0 && time_due_model(m, now))
}

/// A buffer unchanged but for its item list.
pub open spec fn same_but_items<T>(m: BufferModel<T>, n: BufferModel<T>) -> bool {
    n.last_flush_ms == m.last_flush_ms && n.batch_size == m.batch_size && n.flush_interval_ms
        == m.flush_interval_ms && n.records_written == m.records_written && n.batches_flushed
        == m.batches_flushed && n.last_error == m.last_error
}

impl<T> FlushBuffer<T> {
    /// An empty buffer with the given effective parameters.  The last-flush
    /// instant starts unset and is established by `touch` or a flush.
    pub fn new(batch_size: usize, flush_interval_ms: u64) -> (r: FlushBuffer<T>)
        ensures
            r@.items == Seq::<T>::empty(),
            r@.last_flush_ms is None,
            r@.batch_size == batch_size,
            r@.flush_interval_ms == flush_interval_ms,
            r@.records_written == 0,
            r@.batches_flushed == 0,
            r@.last_error is None,
    {
        FlushBuffer {
            items: Vec::new(),
            last_flush_ms: Option::None,
            batch_size,
            flush_interval_ms,
            records_written: 0,
            batches_flushed: 0,
            last_error: Option::None,
        }
    }

    /// An empty buffer whose flush clock starts at `now`.
    pub fn new_started(batch_size: usize, flush_interval_ms: u64, now: u64) -> (r: FlushBuffer<T>)
        ensures
            r@.items == Seq::<T>::empty(),
            r@.last_flush_ms == Option::Some(now),
            r@.batch_size == batch_size,
            r@.flush_interval_ms == flush_interval_ms,
            r@.records_written == 0,
            r@.batches_flushed == 0,
            r@.last_error is None,
    {
        FlushBuffer {
            items: Vec::new(),
            last_flush_ms: Option::Some(now),
            batch_size,
            flush_interval_ms,
            records_written: 0,
            batches_flushed: 0,
            last_error: Option::None,
        }
    }

    pub fn len(&self) -> (r: usize)
        ensures
            r == self@.items.len(),
    {
        self.items.len()
    }

    pub fn is_empty(&self) -> (r: bool)
        ensures
            r == (self@.items.len() == 0),
    {
        self.items.len() == 0
    }

    pub fn batch_size(&self) -> (r: usize)
        ensures
            r == self@.batch_size,
    {
        self.batch_size
    }

    pub fn flush_interval_ms(&self) -> (r: u64)
        ensures
            r == self@.flush_interval_ms,
    {
        self.flush_interval_ms
    }

    pub fn records_written(&self) -> (r: u64)
        ensures
            r == self@.records_written,
    {
        self.records_written
    }

    pub fn batches_flushed(&self) -> (r: u64)
        ensures
            r == self@.batches_flushed,
    {
        self.batches_flushed
    }

    pub fn last_error(&self) -> (r: &Option<String>)
        ensures
            match r {
                Option::Some(e) => self@.last_error == Option::Some(e@),
                Option::None => self@.last_error is None,
            },
    {
        &self.last_error
    }

    /// Start the flush clock at `now` if it has not started yet.
    pub fn touch(&mut self, now: u64)
        ensures
            final(self)@.items == old(self)@.items,
            final(self)@.last_flush_ms == match old(self)@.last_flush_ms {
                Option::Some(lf) => Option::Some(lf),
                Option::None => Option::Some(now),
            },
            same_but_clock(old(self)@, final(self)@),
    {
        if self.last_flush_ms.is_none() {
            self.last_flush_ms = Option::Some(now);
        }
    }

    /// Append one item; never blocks, never drops.
    pub fn push(&mut self, item: T)
        ensures
            final(self)@.items == old(self)@.items.push(item),
            same_but_items(old(self)@, final(self)@),
    {
        self.items.push(item);
    }

    /// The flush decision at `now`.
    pub fn should_flush(&self, now: u64) -> (r: bool)
        ensures
            r == should_flush_model(self@, now),
    {
        if self.items.len() >= self.batch_size {
            return true;
        }
        if self.items.len() == 0 {
            return false;
        }
        match self.last_flush_ms {
            Option::Some(lf) => now >= lf && now - lf >= self.flush_interval_ms,
            Option::None => false,
        }
    }

    /// Whether only the time threshold has elapsed (the periodic ticker's
    /// criterion).
    pub fn time_due(&self, now: u64) -> (r: bool)
        ensures
            r == (self@.items.len() > 0 && time_due_model(self@, now)),
    {
        if self.items.len() == 0 {
            return false;
        }
        match self.last_flush_ms {
            Option::Some(lf) => now >= lf && now - lf >= self.flush_interval_ms,
            Option::None => false,
        }
    }

    /// Atomically move the whole contents out as one batch.
    pub fn take_batch(&mut self) -> (r: Vec<T>)
        ensures
            r@ == old(self)@.items,
            final(self)@.items == Seq::<T>::empty(),
            same_but_items(old(self)@, final(self)@),
    {
        let mut batch: Vec<T> = Vec::new();
        core::mem::swap(&mut batch, &mut self.items);
        batch
    }

    /// Put a failed batch back at the head of the buffer, its records in
    /// the order they arrived, and record the failure.
    pub fn requeue(&mut self, batch: Vec<T>, message: String)
        ensures
            final(self)@.items == batch@ + old(self)@.items,
            final(self)@.last_error == Option::Some(message@),
            same_but_error_and_items(old(self)@, final(self)@),
    {
        let mut head = batch;
        head.append(&mut self.items);
        self.items = head;
        self.last_error = Option::Some(message);
    }

    /// Account a successful flush of `count` records at `now`.
    pub fn mark_success(&mut self, count: usize, now: u64)
        ensures
            final(self)@.items == old(self)@.items,
            final(self)@.batch_size == old(self)@.batch_size,
            final(self)@.flush_interval_ms == old(self)@.flush_interval_ms,
            final(self)@.last_flush_ms == Option::Some(now),
            final(self)@.last_error is None,
            final(self)@.records_written == sat_add(old(self)@.records_written, count as u64),
            final(self)@.batches_flushed == sat_add(old(self)@.batches_flushed, 1),
    {
        self.records_written = sat_add_exec(self.records_written, count as u64);
        self.batches_flushed = sat_add_exec(self.batches_flushed, 1);
        self.last_flush_ms = Option::Some(now);
        self.last_error = Option::None;
    }
}

/// A buffer unchanged but for its flush clock.
pub open spec fn same_but_clock<T>(m: BufferModel<T>, n: BufferModel<T>) -> bool {
    n.items == m.items && n.batch_size == m.batch_size && n.flush_interval_ms
        == m.flush_interval_ms && n.records_written == m.records_written && n.batches_flushed
        == m.batches_flushed && n.last_error == m.last_error
}

/// A buffer unchanged but for its items and error note.
pub open spec fn same_but_error_and_items<T>(m: BufferModel<T>, n: BufferModel<T>) -> bool {
    n.last_flush_ms == m.last_flush_ms && n.batch_size == m.batch_size && n.flush_interval_ms
        == m.flush_interval_ms && n.records_written == m.records_written && n.batches_flushed
        == m.batches_flushed
}

/// Saturating addition on `u64`.
pub open spec fn sat_add(a: u64, b: u64) -> u64 {
    if a + b <= u64::MAX {
        (a + b) as u64
    } else {
        u64::MAX
    }
}

fn sat_add_exec(a: u64, b: u64) -> (r: u64)
    ensures
        r == sat_add(a, b),
{
    if a <= u64::MAX - b {
        a + b
    } else {
        u64::MAX
    }
}

/// One unit of work for the destination writer: the whole pending batch of
/// one mapping.
#[derive(Debug)]
pub struct FlushJob<T> {
    pub mapping_index: usize,
    pub batch: Vec<T>,
}

/// What the destination writer reported for a batch.
#[derive(Debug)]
pub enum WriteOutcome {
    /// The batch is durably committed.
    Ack,
    /// A transient failure: the batch must be resubmitted.
    Retry(String),
    /// An irrecoverable failure: the connector shuts down.
    Fatal(String),
}

/// Push one item into the buffer at `index`, starting its flush clock at
/// `now` if needed, and drain it when the flush thresholds say so.
///
/// On return either the buffer is strictly below its size threshold and not
/// time-due, or the drained batch — everything buffered, oldest first, the
/// new item last — is handed back for a flush attempt.
pub fn push_and_collect<T>(
    buffers: &mut Vec<FlushBuffer<T>>,
    index: usize,
    item: T,
    now: u64,
) -> (r: Option<FlushJob<T>>)
    requires
        index < old(buffers)@.len(),
    ensures
        final(buffers)@.len() == old(buffers)@.len(),
        forall|j: int|
            0 <= j < old(buffers)@.len() && j != index ==> final(buffers)@[j] == old(buffers)@[j],
        same_but_clock_and_items(old(buffers)@[index as int]@, final(buffers)@[index as int]@),
        ({
            let before = old(buffers)@[index as int]@;
            let after = final(buffers)@[index as int]@;
            let started = touched(before, now);
            match r {
                Option::Some(job) => job.mapping_index == index && job.batch@ == before.items.push(
                    item,
                ) && after.items.len() == 0 && after.last_flush_ms == started.last_flush_ms
                    && should_flush_model(pushed(started, item), now),
                Option::None => after.items == before.items.push(item) && after.last_flush_ms
                    == started.last_flush_ms && !should_flush_model(after, now),
            }
        }),
{
    let buf = &mut buffers[index];
    buf.touch(now);
    buf.push(item);
    if buf.should_flush(now) {
        let batch = buf.take_batch();
        Option::Some(FlushJob { mapping_index: index, batch })
    } else {
        Option::None
    }
}

/// The buffer model after `touch(now)`.
pub open spec fn touched<T>(m: BufferModel<T>, now: u64) -> BufferModel<T> {
    BufferModel {
        last_flush_ms: match m.last_flush_ms {
            Option::Some(lf) => Option::Some(lf),
            Option::None => Option::Some(now),
        },
        ..m
    }
}

/// The buffer model after pushing one item.
pub open spec fn pushed<T>(m: BufferModel<T>, item: T) -> BufferModel<T> {
    BufferModel { items: m.items.push(item), ..m }
}

/// A buffer unchanged but for its items and flush clock.
pub open spec fn same_but_clock_and_items<T>(m: BufferModel<T>, n: BufferModel<T>) -> bool {
    n.batch_size == m.batch_size && n.flush_interval_ms == m.flush_interval_ms && n.records_written
        == m.records_written && n.batches_flushed == m.batches_flushed && n.last_error
        == m.last_error
}

/// Settle a flush attempt for the mapping at `index`.
///
/// On an acknowledgment the counters and the flush clock advance and the
/// batch is handed back so the caller can release its offsets: this is the
/// commit point.  On a retryable or fatal failure the batch is requeued at
/// the head of the buffer, in the order it arrived, and the error propagates;
/// nothing is committable.  Buffers of other mappings are never touched.
pub fn settle_flush<T>(
    buffers: &mut Vec<FlushBuffer<T>>,
    index: usize,
    batch: Vec<T>,
    outcome: WriteOutcome,
    now: u64,
) -> (r: Result<Vec<T>, ConnectorError>)
    requires
        index < old(buffers)@.len(),
    ensures
        final(buffers)@.len() == old(buffers)@.len(),
        forall|j: int|
            0 <= j < old(buffers)@.len() && j != index ==> final(buffers)@[j] == old(buffers)@[j],
        ({
            let before = old(buffers)@[index as int]@;
            let after = final(buffers)@[index as int]@;
            match outcome {
                WriteOutcome::Ack => r matches Result::Ok(b) && b == batch && after.items
                    == before.items && after.batch_size == before.batch_size
                    && after.flush_interval_ms == before.flush_interval_ms && after.last_flush_ms
                    == Option::Some(now) && after.last_error is None && after.records_written
                    == sat_add(before.records_written, batch@.len() as u64)
                    && after.batches_flushed == sat_add(before.batches_flushed, 1),
                WriteOutcome::Retry(m) => r matches Result::Err(e) && e.kind
                    == ErrorKind::Retryable && e.message@ == m@ && after.items == batch@
                    + before.items && after.last_error == Option::Some(m@)
                    && same_but_error_and_items(before, after),
                WriteOutcome::Fatal(m) => r matches Result::Err(e) && e.kind == ErrorKind::Fatal
                    && e.message@ == m@ && after.items == batch@ + before.items && after.last_error
                    == Option::Some(m@) && same_but_error_and_items(before, after),
            }
        }),
{
    let buf = &mut buffers[index];
    match outcome {
        WriteOutcome::Ack => {
            buf.mark_success(batch.len(), now);
            Result::Ok(batch)
        },
        WriteOutcome::Retry(message) => {
            let note = message.clone();
            buf.requeue(batch, message);
            Result::Err(ConnectorError::retryable(note))
        },
        WriteOutcome::Fatal(message) => {
            let note = message.clone();
            buf.requeue(batch, message);
            Result::Err(ConnectorError::fatal(note))
        },
    }
}

/// Which buffers a collection pass drains.
#[derive(Clone, Copy, Debug, PartialEq, Eq, Structural)]
pub enum DueMode {
    /// Non-empty buffers whose time threshold has elapsed: the periodic
    /// ticker's pass.
    TimeOnly,
    /// Non-empty buffers whose flush predicate holds, by size or time.
    SizeOrTime,
    /// Every non-empty buffer: the final pass before shutdown.
    Always,
}

/// Drain every buffer that is due at `now` under the given mode.  Buffers
/// that are not due stay untouched, so one slow mapping never delays
/// another.  Per mapping, the returned jobs carry exactly the items the
/// due buffer held, in order, and nothing else.
pub fn collect_due<T: View>(buffers: &mut Vec<FlushBuffer<T>>, now: u64, size_too: DueMode) -> (r:
    Vec<FlushJob<T>>)
    ensures
        final(buffers)@.len() == old(buffers)@.len(),
        forall|i: int|
            #![trigger final(buffers)@[i]]
            0 <= i < old(buffers)@.len() ==> {
                let before = old(buffers)@[i]@;
                let after = final(buffers)@[i]@;
                &&& (due_model(before, now, size_too) ==> after.items.len() == 0)
                &&& (!due_model(before, now, size_too) ==> after == before)
                &&& same_but_items(before, after)
            },
        forall|j: int|
            0 <= j < r@.len() ==> {
                let job = #[trigger] r@[j];
                &&& job.mapping_index < old(buffers)@.len()
                &&& due_model(old(buffers)@[job.mapping_index as int]@, now, size_too)
                &&& job.batch@ == old(buffers)@[job.mapping_index as int]@.items
                &&& job.batch@.len() > 0
            },
        forall|i: int|
            0 <= i < old(buffers)@.len() && due_model(old(buffers)@[i]@, now, size_too)
                ==> job_indices(r@).contains(i),
        forall|i: int|
            0 <= i < old(buffers)@.len() ==> jobs_items_for(r@, i) == if due_model(
                (#[trigger] old(buffers)@[i])@,
                now,
                size_too,
            ) {
                items_models(old(buffers)@[i]@.items)
            } else {
                Seq::<T::V>::empty()
            },
{
    let n = buffers.len();
    let mut jobs: Vec<FlushJob<T>> = Vec::new();
    for index in 0..n
        invariant
            n == buffers.len(),
            buffers@.len() == old(buffers)@.len(),
            forall|i: int| index <= i < n ==> buffers@[i] == old(buffers)@[i],
            forall|i: int|
                #![trigger buffers@[i]]
                0 <= i < index ==> {
                    let before = old(buffers)@[i]@;
                    let after = buffers@[i]@;
                    &&& (due_model(before, now, size_too) ==> after.items.len() == 0)
                    &&& (!due_model(before, now, size_too) ==> after == before)
                    &&& same_but_items(before, after)
                },
            forall|j: int|
                0 <= j < jobs@.len() ==> {
                    let job = #[trigger] jobs@[j];
                    &&& job.mapping_index < n
                    &&& due_model(old(buffers)@[job.mapping_index as int]@, now, size_too)
                    &&& job.batch@ == old(buffers)@[job.mapping_index as int]@.items
                    &&& job.batch@.len() > 0
                },
            forall|i: int|
                0 <= i < index && due_model(old(buffers)@[i]@, now, size_too) ==> job_indices(
                    jobs@,
                ).contains(i),
            forall|i: int|
                0 <= i < index ==> jobs_items_for(jobs@, i) == if due_model(
                    (#[trigger] old(buffers)@[i])@,
                    now,
                    size_too,
                ) {
                    items_models(old(buffers)@[i]@.items)
                } else {
                    Seq::<T::V>::empty()
                },
            forall|i: int| index <= i < n ==> jobs_items_for(jobs@, i) == Seq::<T::V>::empty(),
    {
        let due = match size_too {
            DueMode::TimeOnly => buffers[index].time_due(now),
            DueMode::SizeOrTime => buffers[index].should_flush(now),
            DueMode::Always => true,
        };
        let nonempty = !buffers[index].is_empty();
        if due && nonempty {
            let ghost jobs_before = jobs@;
            let batch = buffers[index].take_batch();
            jobs.push(FlushJob { mapping_index: index, batch });
            proof {
                let m = jobs_before.len() as int;
                assert(jobs@ == jobs_before.push(jobs@[m]));
                assert(jobs@[m].mapping_index == index);
                assert(job_indices(jobs@)[m] == index as int);
                assert(job_indices(jobs@).contains(index as int));
                assert forall|i: int|
                    0 <= i < index && due_model(
                    old(buffers)@[i]@,
                    now,
                    size_too,
                ) implies job_indices(jobs@).contains(i) by {
                    assert(job_indices(jobs_before).contains(i));
                    let k = choose|k: int|
                        0 <= k < job_indices(jobs_before).len() && job_indices(jobs_before)[k]
                            == i;
                    assert(jobs@[k] == jobs_before[k]);
                    assert(job_indices(jobs@)[k] == i);
                }
                assert forall|i: int| 0 <= i < n implies jobs_items_for(jobs@, i)
                    == jobs_items_for(jobs_before, i) + if i == index {
                    items_models(old(buffers)@[index as int]@.items)
                } else {
                    Seq::<T::V>::empty()
                } by {
                    lemma_jobs_items_push(jobs_before, jobs@[m], i);
                    if i == index {
                        assert(jobs_items_for(jobs_before, i) + items_models(
                            old(buffers)@[index as int]@.items,
                        ) =~= items_models(old(buffers)@[index as int]@.items));
                    } else {
                        assert(jobs_items_for(jobs_before, i) + Seq::<T::V>::empty()
                            =~= jobs_items_for(jobs_before, i));
                    }
                }
            }
        }
    }
    jobs
}

/// Whether a buffer is due for the collector.
pub open spec fn due_model<T>(m: BufferModel<T>, now: u64, size_too: DueMode) -> bool {
    m.items.len() > 0 && match size_too {
        DueMode::TimeOnly => time_due_model(m, now),
        DueMode::SizeOrTime => should_flush_model(m, now),
        DueMode::Always => true,
    }
}

/// The mapping indices of a job list.
pub open spec fn job_indices<T>(jobs: Seq<FlushJob<T>>) -> Seq<int> {
    jobs.map_values(|job: FlushJob<T>| job.mapping_index as int)
}

/// The models of a batch's items, in order.
pub open spec fn items_models<T: View>(items: Seq<T>) -> Seq<T::V>
    decreases items,
{
    if items.len() == 0 {
        Seq::empty()
    } else {
        seq![items[0]@] + items_models(items.drop_first())
    }
}

/// `items_models` maps the sequence pointwise.
pub broadcast proof fn lemma_items_models_len<T: View>(items: Seq<T>)
    ensures
        (#[trigger] items_models(items)).len() == items.len(),
        forall|i: int| 0 <= i < items.len() ==> items_models(items)[i] == items[i]@,
    decreases items,
{
    if items.len() > 0 {
        lemma_items_models_len(items.drop_first());
    }
}

/// Appending one item appends its model.
pub proof fn lemma_items_models_push<T: View>(items: Seq<T>, t: T)
    ensures
        items_models(items.push(t)) == items_models(items) + seq![t@],
    decreases items.len(),
{
    if items.len() == 0 {
        assert(items.push(t) =~= seq![t]);
        assert(seq![t].drop_first() =~= Seq::<T>::empty());
        assert(items_models(Seq::<T>::empty()) =~= Seq::<T::V>::empty());
        assert(items_models(items.push(t)) =~= items_models(items) + seq![t@]);
    } else {
        lemma_items_models_push(items.drop_first(), t);
        assert(items.push(t).drop_first() =~= items.drop_first().push(t));
        assert(items.push(t)[0] == items[0]);
        assert(items_models(items.push(t)) =~= items_models(items) + seq![t@]);
    }
}

/// The items the jobs for mapping `i` carry, concatenated in job order.
pub open spec fn jobs_items_for<T: View>(jobs: Seq<FlushJob<T>>, i: int) -> Seq<T::V>
    decreases jobs,
{
    if jobs.len() == 0 {
        Seq::empty()
    } else {
        (if jobs[0].mapping_index == i {
            items_models(jobs[0].batch@)
        } else {
            Seq::empty()
        }) + jobs_items_for(jobs.drop_first(), i)
    }
}

/// Appending one job appends its contribution.
pub proof fn lemma_jobs_items_push<T: View>(jobs: Seq<FlushJob<T>>, job: FlushJob<T>, i: int)
    ensures
        jobs_items_for(jobs.push(job), i) == jobs_items_for(jobs, i) + if job.mapping_index == i {
            items_models(job.batch@)
        } else {
            Seq::<T::V>::empty()
        },
    decreases jobs.len(),
{
    if jobs.len() == 0 {
        assert(jobs.push(job) =~= seq![job]);
        assert(seq![job].drop_first() =~= Seq::<FlushJob<T>>::empty());
        assert(jobs_items_for(Seq::<FlushJob<T>>::empty(), i) =~= Seq::<T::V>::empty());
        assert(jobs_items_for(jobs.push(job), i) =~= jobs_items_for(jobs, i)
            + if job.mapping_index == i {
            items_models(job.batch@)
        } else {
            Seq::<T::V>::empty()
        });
    } else {
        lemma_jobs_items_push(jobs.drop_first(), job, i);
        assert(jobs.push(job).drop_first() =~= jobs.drop_first().push(job));
        assert(jobs.push(job)[0] == jobs[0]);
        assert(jobs_items_for(jobs.push(job), i) =~= jobs_items_for(jobs, i)
            + if job.mapping_index == i {
            items_models(job.batch@)
        } else {
            Seq::<T::V>::empty()
        });
    }
}

/// Concatenating job lists concatenates their contributions.
pub proof fn lemma_jobs_items_append<T: View>(a: Seq<FlushJob<T>>, b: Seq<FlushJob<T>>, i: int)
    ensures
        jobs_items_for(a + b, i) == jobs_items_for(a, i) + jobs_items_for(b, i),
    decreases a.len(),
{
    if a.len() == 0 {
        assert(a + b =~= b);
        assert(jobs_items_for(a, i) =~= Seq::<T::V>::empty());
        assert(jobs_items_for(a, i) + jobs_items_for(b, i) =~= jobs_items_for(b, i));
    } else {
        lemma_jobs_items_append(a.drop_first(), b, i);
        assert((a + b).drop_first() =~= a.drop_first() + b);
        assert((a + b)[0] == a[0]);
        assert(jobs_items_for(a + b, i) =~= jobs_items_for(a, i) + jobs_items_for(b, i));
    }
}

/// Delivery order is preserved across a failed flush: when a batch is
/// requeued ahead of what is buffered and later records are appended, the
/// next drain submits the failed batch first, then the older remainder,
/// then the newcomers — the bus delivery order.
pub proof fn lemma_retry_preserves_order<T>(failed: Seq<T>, rest: Seq<T>, late: Seq<T>)
    ensures
        (failed + rest) + late == failed + (rest + late),
        ((failed + rest) + late).take(failed.len() as int) == failed,
        ((failed + rest) + late).skip(failed.len() as int) == rest + late,
{
    assert((failed + rest) + late =~= failed + (rest + late));
    assert(((failed + rest) + late).take(failed.len() as int) =~= failed);
    assert(((failed + rest) + late).skip(failed.len() as int) =~= rest + late);
}

/// A mapping whose effective batch size is one flushes on every push: after
/// any single item enters, the size threshold is reached.
pub proof fn lemma_batch_size_one_flushes<T>(m: BufferModel<T>, item: T, now: u64)
    requires
        m.batch_size == 1,
    ensures
        should_flush_model(pushed(m, item), now),
{
}

/// A mapping whose effective flush interval is zero is time-due on every
/// tick that is not before its last flush, whenever it holds anything.
pub proof fn lemma_interval_zero_always_due<T>(m: BufferModel<T>, now: u64, lf: u64)
    requires
        m.flush_interval_ms == 0,
        m.items.len() > 0,
        m.last_flush_ms == Option::Some(lf),
        now >= lf,
    ensures
        time_due_model(m, now),
        due_model(m, now, DueMode::TimeOnly),
{
}

} // verus!
