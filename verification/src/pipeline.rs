//! Resilience building blocks of the ingestion pipeline: circuit breaker,
//! dead letter queue, batch writer and write-retry policy.
use vstd::prelude::*;
use crate::clock::{now_millis, now_secs};
use crate::dedup::Deduplicator;

verus! {

/// Configuration for the ingestion pipeline.
pub struct PipelineConfig {
    /// Maximum number of concurrent source fetches
    pub max_concurrent_sources: usize,
    /// Channel buffer size for backpressure
    pub channel_buffer_size: usize,
    /// Batch size for database writes
    pub batch_size: usize,
    /// Batch timeout in milliseconds
    pub batch_timeout_ms: u64,
    /// Circuit breaker failure threshold
    pub circuit_breaker_threshold: u32,
    /// Circuit breaker reset timeout in seconds
    pub circuit_breaker_reset_secs: u64,
    /// Dead letter queue max size
    pub dlq_max_size: usize,
    /// Deduplication window in seconds
    pub dedup_window_secs: u64,
}

impl PipelineConfig {
    /// The default pipeline settings.
    pub fn default() -> (c: PipelineConfig)
        ensures
            c.max_concurrent_sources == 10,
            c.channel_buffer_size == 10000,
            c.batch_size == 100,
            c.batch_timeout_ms == 1000,
            c.circuit_breaker_threshold == 5,
            c.circuit_breaker_reset_secs == 30,
            c.dlq_max_size == 10000,
            c.dedup_window_secs == 60,
    {
        PipelineConfig {
            max_concurrent_sources: 10,
            channel_buffer_size: 10000,
            batch_size: 100,
            batch_timeout_ms: 1000,
            circuit_breaker_threshold: 5,
            circuit_breaker_reset_secs: 30,
            dlq_max_size: 10000,
            dedup_window_secs: 60,
        }
    }
}

// ---------------------------------------------------------------------------
// Circuit breaker
// ---------------------------------------------------------------------------

/// State of a circuit breaker.
#[derive(PartialEq, Eq, Structural, Clone, Copy, Debug)]
pub enum CircuitState {
    Closed,
    Open,
    HalfOpen,
}

/// Mathematical model of a circuit breaker.
pub struct CircuitModel {
    pub state: CircuitState,
    pub failures: nat,
    pub last_failure: Option<int>,
    pub threshold: nat,
    pub reset_timeout: int,
}

/// Time elapsed from `since` to `now`, never negative.
pub open spec fn elapsed(now: int, since: int) -> int {
    if now >= since {
        now - since
    } else {
        0
    }
}

/// Whether the breaker lets a request through at `now`.
pub open spec fn allows(m: CircuitModel, now: int) -> bool {
    match m.state {
        CircuitState::Closed => true,
        CircuitState::HalfOpen => true,
        CircuitState::Open => match m.last_failure {
            Some(l) => elapsed(now, l) >= m.reset_timeout,
            None => false,
        },
    }
}

/// The breaker after asking whether a request may pass at `now`.
pub open spec fn after_check(m: CircuitModel, now: int) -> CircuitModel {
    if m.state == CircuitState::Open && allows(m, now) {
        CircuitModel { state: CircuitState::HalfOpen, ..m }
    } else {
        m
    }
}

/// The breaker after a successful operation.
pub open spec fn after_success(m: CircuitModel) -> CircuitModel {
    if m.state == CircuitState::HalfOpen {
        CircuitModel { state: CircuitState::Closed, failures: 0, ..m }
    } else {
        m
    }
}

/// The breaker after a failed operation at `now`.
pub open spec fn after_failure(m: CircuitModel, now: int) -> CircuitModel {
    CircuitModel {
        state: if m.failures + 1 >= m.threshold {
            CircuitState::Open
        } else {
            m.state
        },
        failures: m.failures + 1,
        last_failure: Some(now),
        ..m
    }
}

/// Circuit breaker for fault tolerance. Times are milliseconds.
pub struct CircuitBreaker {
    failure_count: u32,
    last_failure: Option<i64>,
    threshold: u32,
    reset_timeout_ms: i64,
    state: CircuitState,
}

impl CircuitBreaker {
    /// The breaker's model.
    pub closed spec fn model(&self) -> CircuitModel {
        CircuitModel {
            state: self.state,
            failures: self.failure_count as nat,
            last_failure: match self.last_failure {
                Some(l) => Some(l as int),
                None => None,
            },
            threshold: self.threshold as nat,
            reset_timeout: self.reset_timeout_ms as int,
        }
    }

    /// A closed breaker that opens after `threshold` failures and tries again
    /// `reset_timeout_secs` seconds after the last failure.
    pub fn new(threshold: u32, reset_timeout_secs: u64) -> (cb: CircuitBreaker)
        requires
            reset_timeout_secs * 1000 <= i64::MAX,
        ensures
            cb.model() == (CircuitModel {
                state: CircuitState::Closed,
                failures: 0,
                last_failure: None,
                threshold: threshold as nat,
                reset_timeout: reset_timeout_secs * 1000,
            }),
    {
        CircuitBreaker {
            failure_count: 0,
            last_failure: None,
            threshold,
            reset_timeout_ms: (reset_timeout_secs * 1000) as i64,
            state: CircuitState::Closed,
        }
    }

    /// Whether a request may proceed at time `now`; an open breaker whose reset
    /// timeout has passed moves to half-open and lets the request through.
    pub fn can_execute_at(&mut self, now: i64) -> (ok: bool)
        ensures
            ok == allows(old(self).model(), now as int),
            final(self).model() == after_check(old(self).model(), now as int),
    {
        match self.state {
            CircuitState::Closed => true,
            CircuitState::HalfOpen => true,
            CircuitState::Open => {
                match self.last_failure {
                    Some(last) => {
                        let waited: i128 = if now >= last {
                            now as i128 - last as i128
                        } else {
                            0
                        };
                        if waited >= self.reset_timeout_ms as i128 {
                            self.state = CircuitState::HalfOpen;
                            true
                        } else {
                            false
                        }
                    },
                    None => false,
                }
            },
        }
    }

    /// Whether a request may proceed now, by the wall clock.
    pub fn can_execute(&mut self) -> (ok: bool)
        ensures
            exists|now: int|
                ok == allows(old(self).model(), now) && final(self).model() == after_check(
                    old(self).model(),
                    now,
                ),
    {
        let now = now_millis();
        self.can_execute_at(now)
    }

    /// Records a successful operation: a half-open breaker closes and forgets its failures.
    pub fn record_success(&mut self)
        ensures
            final(self).model() == after_success(old(self).model()),
    {
        if self.state == CircuitState::HalfOpen {
            self.state = CircuitState::Closed;
            self.failure_count = 0;
        }
    }

    /// Records a failed operation at time `now`; the breaker opens once the
    /// failure count reaches the threshold.
    pub fn record_failure_at(&mut self, now: i64)
        requires
            old(self).model().failures < u32::MAX,
        ensures
            final(self).model() == after_failure(old(self).model(), now as int),
    {
        self.failure_count = self.failure_count + 1;
        self.last_failure = Some(now);
        if self.failure_count >= self.threshold {
            if self.state != CircuitState::Open {
                self.state = CircuitState::Open;
            }
        }
    }

    /// Records a failed operation now, by the wall clock.
    pub fn record_failure(&mut self)
        requires
            old(self).model().failures < u32::MAX,
        ensures
            exists|now: int| final(self).model() == after_failure(old(self).model(), now),
    {
        let now = now_millis();
        self.record_failure_at(now);
    }

    /// Whether the breaker currently refuses requests without a timeout check.
    pub fn is_open(&self) -> (r: bool)
        ensures
            r == (self.model().state == CircuitState::Open),
    {
        self.state == CircuitState::Open
    }
}

/// The breaker after `k` consecutive failures, all at time `now`.
pub open spec fn after_failures(m: CircuitModel, k: nat, now: int) -> CircuitModel
    decreases k,
{
    if k == 0 {
        m
    } else {
        after_failure(after_failures(m, (k - 1) as nat, now), now)
    }
}

/// Failures are counted and the last failure time is kept.
proof fn lemma_failures_counted(m: CircuitModel, k: nat, now: int)
    ensures
        after_failures(m, k, now).failures == m.failures + k,
        after_failures(m, k, now).threshold == m.threshold,
        after_failures(m, k, now).reset_timeout == m.reset_timeout,
        k > 0 ==> after_failures(m, k, now).last_failure == Some(now),
        m.failures + k >= m.threshold && k > 0 ==> after_failures(m, k, now).state
            == CircuitState::Open,
        m.failures + k < m.threshold ==> after_failures(m, k, now).state == m.state,
    decreases k,
{
    if k > 0 {
        lemma_failures_counted(m, (k - 1) as nat, now);
    }
}

/// A fresh breaker opens after `threshold` consecutive failures, and then
/// refuses every request until the reset timeout has passed since the last failure.
pub proof fn law_trips_after_threshold(m: CircuitModel, now: int, later: int)
    requires
        m.state == CircuitState::Closed,
        m.failures == 0,
        m.threshold >= 1,
        later >= now,
        later - now < m.reset_timeout,
    ensures
        after_failures(m, m.threshold, now).state == CircuitState::Open,
        !allows(after_failures(m, m.threshold, now), later),
{
    lemma_failures_counted(m, m.threshold, now);
}

/// Fewer failures than the threshold leave a closed breaker closed and passing requests.
pub proof fn law_stays_closed_below_threshold(m: CircuitModel, k: nat, now: int, later: int)
    requires
        m.state == CircuitState::Closed,
        m.failures + k < m.threshold,
    ensures
        after_failures(m, k, now).state == CircuitState::Closed,
        allows(after_failures(m, k, now), later),
{
    lemma_failures_counted(m, k, now);
}

/// Once the reset timeout has passed, an open breaker lets one probe through
/// (half-open); a success then closes it with a cleared failure count.
pub proof fn law_recovers_after_timeout(m: CircuitModel, now: int)
    requires
        m.state == CircuitState::Open,
        m.last_failure is Some,
        elapsed(now, m.last_failure->0) >= m.reset_timeout,
    ensures
        allows(m, now),
        after_check(m, now).state == CircuitState::HalfOpen,
        after_success(after_check(m, now)).state == CircuitState::Closed,
        after_success(after_check(m, now)).failures == 0,
{
}

// ---------------------------------------------------------------------------
// Dead letter queue
// ---------------------------------------------------------------------------

/// An item that could not be written, with the reason and when it failed (seconds).
pub struct DeadLetterEntry<R> {
    pub reading: R,
    pub error: String,
    pub timestamp: i64,
    pub retry_count: u32,
}

/// Bounded queue of failed writes: when full, the oldest entry makes room.
pub struct DeadLetterQueue<R> {
    queue: Vec<DeadLetterEntry<R>>,
    max_size: usize,
}

/// The queue after appending `e` with capacity `max`.
pub open spec fn queue_after_store<E>(q: Seq<E>, max: nat, e: E) -> Seq<E> {
    if q.len() >= max {
        q.drop_first().push(e)
    } else {
        q.push(e)
    }
}

/// The queue and the replayed count after replaying with `ok[i]` the outcome
/// for the `i`-th entry of the snapshot, from index `i` on.
pub open spec fn replay_from<E>(q: Seq<E>, ok: Seq<bool>, i: nat) -> (Seq<E>, nat)
    decreases ok.len() - i,
{
    if i >= ok.len() {
        (q, 0)
    } else if ok[i as int] {
        let q2 = if i < q.len() {
            q.remove(i as int)
        } else {
            q
        };
        let rest = replay_from(q2, ok, i + 1);
        (rest.0, rest.1 + 1)
    } else {
        replay_from(q, ok, i + 1)
    }
}

/// Number of `true` outcomes at or after index `i`.
pub open spec fn count_true_from(ok: Seq<bool>, i: nat) -> nat
    decreases ok.len() - i,
{
    if i >= ok.len() {
        0
    } else {
        (if ok[i as int] {
            1nat
        } else {
            0nat
        }) + count_true_from(ok, i + 1)
    }
}

impl<R> DeadLetterQueue<R> {
    /// The queued entries, oldest first.
    pub closed spec fn entries(&self) -> Seq<DeadLetterEntry<R>> {
        self.queue@
    }

    /// The capacity.
    pub closed spec fn capacity(&self) -> nat {
        self.max_size as nat
    }

    /// The queue never holds more than its capacity.
    pub closed spec fn well_formed(&self) -> bool {
        self.queue@.len() <= self.max_size
    }

    /// An empty queue holding at most `max_size` entries.
    pub fn new(max_size: usize) -> (q: DeadLetterQueue<R>)
        ensures
            q.entries() == Seq::<DeadLetterEntry<R>>::empty(),
            q.capacity() == max_size,
            q.well_formed(),
    {
        DeadLetterQueue { queue: Vec::new(), max_size }
    }

    /// Queues `reading` with its error at time `now`, dropping the oldest entry when full.
    pub fn store_at(&mut self, reading: R, error: String, now: i64)
        requires
            old(self).well_formed(),
            old(self).capacity() > 0,
        ensures
            final(self).well_formed(),
            final(self).capacity() == old(self).capacity(),
            final(self).entries() == queue_after_store(
                old(self).entries(),
                old(self).capacity(),
                DeadLetterEntry { reading, error, timestamp: now, retry_count: 0 },
            ),
    {
        let entry = DeadLetterEntry { reading, error, timestamp: now, retry_count: 0 };
        if self.queue.len() >= self.max_size {
            self.queue.remove(0);
        }
        self.queue.push(entry);
        proof {
            let q0 = old(self).entries();
            if q0.len() >= old(self).capacity() {
                assert(self.queue@ =~= q0.drop_first().push(
                    DeadLetterEntry { reading, error, timestamp: now, retry_count: 0 },
                ));
            }
        }
    }

    /// Queues `reading` with its error, stamped with the wall clock.
    pub fn store(&mut self, reading: R, error: String)
        requires
            old(self).well_formed(),
            old(self).capacity() > 0,
        ensures
            final(self).well_formed(),
            final(self).capacity() == old(self).capacity(),
            exists|now: i64|
                final(self).entries() == queue_after_store(
                    old(self).entries(),
                    old(self).capacity(),
                    DeadLetterEntry { reading, error, timestamp: now, retry_count: 0 },
                ),
    {
        let now = now_secs();
        self.store_at(reading, error, now);
    }

    /// The queued entries, oldest first.
    pub fn get_entries(&self) -> (v: &Vec<DeadLetterEntry<R>>)
        ensures
            v@ == self.entries(),
    {
        &self.queue
    }

    /// Removes and returns the entry at `index`, if there is one.
    pub fn remove_entry(&mut self, index: usize) -> (r: Option<DeadLetterEntry<R>>)
        requires
            old(self).well_formed(),
        ensures
            final(self).well_formed(),
            final(self).capacity() == old(self).capacity(),
            index < old(self).entries().len() ==> r == Some(old(self).entries()[index as int])
                && final(self).entries() == old(self).entries().remove(index as int),
            index >= old(self).entries().len() ==> r is None && final(self).entries() == old(
                self,
            ).entries(),
    {
        if index < self.queue.len() {
            Some(self.queue.remove(index))
        } else {
            None
        }
    }

    /// Number of queued entries.
    pub fn len(&self) -> (n: usize)
        ensures
            n == self.entries().len(),
    {
        self.queue.len()
    }

    /// Whether the queue is empty.
    pub fn is_empty(&self) -> (b: bool)
        ensures
            b == (self.entries().len() == 0),
    {
        self.queue.len() == 0
    }

    /// Replays the entries as they stand now: `outcomes[i]` says whether
    /// processing the `i`-th of them succeeded. For each success, in order, the
    /// entry at that same index of the queue as it then stands is removed, and
    /// it is counted. Returns the count.
    pub fn replay(&mut self, outcomes: &Vec<bool>) -> (replayed: usize)
        requires
            old(self).well_formed(),
        ensures
            final(self).well_formed(),
            final(self).capacity() == old(self).capacity(),
            (final(self).entries(), replayed as nat) == replay_from(
                old(self).entries(),
                outcomes@,
                0,
            ),
    {
        let mut replayed: usize = 0;
        let mut index: usize = 0;
        let ghost q0 = self.entries();
        while index < outcomes.len()
            invariant
                self.well_formed(),
                self.capacity() == old(self).capacity(),
                index <= outcomes@.len(),
                replayed <= index,
                replay_from(q0, outcomes@, 0) == ({
                    let rest = replay_from(self.entries(), outcomes@, index as nat);
                    (rest.0, (rest.1 + replayed) as nat)
                }),
            decreases outcomes.len() - index,
        {
            if outcomes[index] {
                let _ = self.remove_entry(index);
                replayed = replayed + 1;
            }
            index = index + 1;
        }
        replayed
    }
}

/// Replaying counts exactly the successful outcomes.
pub proof fn law_replay_counts_successes<E>(q: Seq<E>, ok: Seq<bool>, i: nat)
    ensures
        replay_from(q, ok, i).1 == count_true_from(ok, i),
    decreases ok.len() - i,
{
    if i < ok.len() {
        if ok[i as int] {
            let q2 = if i < q.len() {
                q.remove(i as int)
            } else {
                q
            };
            law_replay_counts_successes(q2, ok, i + 1);
        } else {
            law_replay_counts_successes(q, ok, i + 1);
        }
    }
}

/// Storing never lets the queue grow past its capacity, and the newest entry is last.
pub proof fn law_store_bounded<E>(q: Seq<E>, max: nat, e: E)
    requires
        max > 0,
        q.len() <= max,
    ensures
        queue_after_store(q, max, e).len() <= max,
        queue_after_store(q, max, e).last() == e,
        q.len() < max ==> queue_after_store(q, max, e).len() == q.len() + 1,
        q.len() == max ==> queue_after_store(q, max, e).len() == max,
{
}

/// A failed write: when a failure is stored, every earlier entry except the
/// oldest (if the queue was full) keeps its place relative to the others.
pub proof fn law_store_keeps_order<E>(q: Seq<E>, max: nat, e: E)
    requires
        max > 0,
        q.len() <= max,
    ensures
        q.len() < max ==> queue_after_store(q, max, e).subrange(0, q.len() as int) == q,
        q.len() == max ==> queue_after_store(q, max, e).subrange(0, q.len() - 1) == q.drop_first(),
{
    if q.len() < max {
        assert(queue_after_store(q, max, e).subrange(0, q.len() as int) =~= q);
    } else {
        assert(queue_after_store(q, max, e).subrange(0, q.len() - 1) =~= q.drop_first());
    }
}

// ---------------------------------------------------------------------------
// Write retries
// ---------------------------------------------------------------------------

/// What to do after one attempt to write a reading.
#[derive(PartialEq, Eq, Structural, Clone, Copy, Debug)]
pub enum AttemptDecision {
    /// The write succeeded.
    Done,
    /// Try again after this many milliseconds.
    RetryAfterMs(u64),
    /// Give up: the reading goes to the dead letter queue.
    GiveUp,
}

/// Maximum write attempts per reading.
pub const MAX_WRITE_ATTEMPTS: u32 = 3;

/// Decides after an attempt, given the number of failed attempts before it:
/// a success ends the reading; a failure waits 100 ms times the new failure
/// count, until the failures reach `MAX_WRITE_ATTEMPTS`.
pub fn after_write_attempt(failed_before: u32, succeeded: bool) -> (d: AttemptDecision)
    requires
        failed_before < MAX_WRITE_ATTEMPTS,
    ensures
        succeeded ==> d == AttemptDecision::Done,
        !succeeded && failed_before + 1 >= MAX_WRITE_ATTEMPTS ==> d == AttemptDecision::GiveUp,
        !succeeded && failed_before + 1 < MAX_WRITE_ATTEMPTS ==> d == AttemptDecision::RetryAfterMs(
            (100 * (failed_before + 1)) as u64,
        ),
{
    if succeeded {
        AttemptDecision::Done
    } else {
        let attempts = failed_before + 1;
        if attempts >= MAX_WRITE_ATTEMPTS {
            AttemptDecision::GiveUp
        } else {
            AttemptDecision::RetryAfterMs(100 * attempts as u64)
        }
    }
}

// ---------------------------------------------------------------------------
// Batch writer
// ---------------------------------------------------------------------------

/// What the batch writer was woken by.
pub enum WriterEvent<R> {
    /// A reading arrived, from `sensor`, taken at `timestamp` (seconds).
    Received { reading: R, sensor: String, timestamp: i64 },
    /// The channel was closed: no more readings will come.
    ChannelClosed,
    /// No reading arrived within the batch timeout.
    Timeout,
}

/// What the batch writer does in answer.
pub enum WriterAction<R> {
    /// Nothing to write yet.
    Wait,
    /// The reading was a duplicate and was dropped.
    Duplicate,
    /// Write this batch.
    Flush(Vec<R>),
    /// Write this batch, then stop.
    FlushAndStop(Vec<R>),
    /// Stop.
    Stop,
}

/// Groups readings into batches for database writes. Times are milliseconds.
pub struct BatchWriter<R> {
    batch: Vec<R>,
    last_write: i64,
    batch_size: usize,
    batch_timeout_ms: i64,
}

impl<R> BatchWriter<R> {
    /// Readings waiting to be written.
    pub closed spec fn pending(&self) -> Seq<R> {
        self.batch@
    }

    /// When the last batch was written.
    pub closed spec fn last_write(&self) -> int {
        self.last_write as int
    }

    /// Readings per batch.
    pub closed spec fn batch_size(&self) -> nat {
        self.batch_size as nat
    }

    /// Milliseconds after which a waiting batch is written anyway.
    pub closed spec fn batch_timeout(&self) -> int {
        self.batch_timeout_ms as int
    }

    /// An empty writer started at `now`.
    pub fn new(batch_size: usize, batch_timeout_ms: u64, now: i64) -> (w: BatchWriter<R>)
        requires
            batch_timeout_ms <= i64::MAX,
        ensures
            w.pending() == Seq::<R>::empty(),
            w.last_write() == now,
            w.batch_size() == batch_size,
            w.batch_timeout() == batch_timeout_ms,
    {
        BatchWriter { batch: Vec::new(), last_write: now, batch_size, batch_timeout_ms: batch_timeout_ms as i64 }
    }

    fn take_batch(&mut self, now: i64) -> (b: Vec<R>)
        ensures
            b@ == old(self).pending(),
            final(self).pending() == Seq::<R>::empty(),
            final(self).last_write() == now,
            final(self).batch_size() == old(self).batch_size(),
            final(self).batch_timeout() == old(self).batch_timeout(),
    {
        let mut b: Vec<R> = Vec::new();
        std::mem::swap(&mut b, &mut self.batch);
        self.last_write = now;
        b
    }

    /// Handles one wake-up at time `now` (milliseconds); `dedup` works in
    /// seconds and `now_secs` is the same moment in seconds.
    ///
    /// A duplicate reading is dropped. A new one is recorded and queued; a
    /// full batch is written. After a reading or a timeout, a batch that has
    /// waited at least the timeout since the last write is written. When the
    /// channel closes, what is left is written and the writer stops.
    pub fn step(&mut self, event: WriterEvent<R>, now: i64, now_secs: i64, dedup: &mut Deduplicator) -> (a: WriterAction<R>)
        ensures
            final(self).batch_size() == old(self).batch_size(),
            final(self).batch_timeout() == old(self).batch_timeout(),
            match event {
                WriterEvent::Received { reading, sensor, timestamp } => {
                    if old(dedup).is_dup(sensor@, timestamp as int, now_secs as int) {
                        &&& a is Duplicate
                        &&& final(self).pending() == old(self).pending()
                        &&& final(self).last_write() == old(self).last_write()
                        &&& final(dedup).seen() == old(dedup).seen()
                    } else {
                        let queued = old(self).pending().push(reading);
                        &&& final(dedup).seen() == old(dedup).after_record(sensor@, timestamp as int, now_secs as int)
                        &&& if queued.len() >= old(self).batch_size()
                            || elapsed(now as int, old(self).last_write()) >= old(self).batch_timeout() {
                            &&& a matches WriterAction::Flush(b) && b@ == queued
                            &&& final(self).pending() == Seq::<R>::empty()
                            &&& final(self).last_write() == now
                        } else {
                            &&& a is Wait
                            &&& final(self).pending() == queued
                            &&& final(self).last_write() == old(self).last_write()
                        }
                    }
                },
                WriterEvent::ChannelClosed => {
                    &&& final(dedup).seen() == old(dedup).seen()
                    &&& final(self).pending() == Seq::<R>::empty()
                    &&& if old(self).pending().len() > 0 {
                        a matches WriterAction::FlushAndStop(b) && b@ == old(self).pending()
                    } else {
                        a is Stop
                    }
                },
                WriterEvent::Timeout => {
                    &&& final(dedup).seen() == old(dedup).seen()
                    &&& final(self).pending() == Seq::<R>::empty()
                    &&& if old(self).pending().len() > 0 {
                        &&& a matches WriterAction::Flush(b) && b@ == old(self).pending()
                        &&& final(self).last_write() == now
                    } else {
                        &&& a is Wait
                        &&& final(self).last_write() == old(self).last_write()
                    }
                },
            },
    {
        match event {
            WriterEvent::Received { reading, sensor, timestamp } => {
                if dedup.is_duplicate_at(&sensor, timestamp, now_secs) {
                    return WriterAction::Duplicate;
                }
                dedup.record_at(sensor, timestamp, now_secs);
                self.batch.push(reading);
                if self.batch.len() >= self.batch_size {
                    let b = self.take_batch(now);
                    return WriterAction::Flush(b);
                }
                let waited: i128 = if now >= self.last_write {
                    now as i128 - self.last_write as i128
                } else {
                    0
                };
                if waited >= self.batch_timeout_ms as i128 {
                    let b = self.take_batch(now);
                    WriterAction::Flush(b)
                } else {
                    WriterAction::Wait
                }
            },
            WriterEvent::ChannelClosed => {
                if self.batch.len() > 0 {
                    let b = self.take_batch(now);
                    WriterAction::FlushAndStop(b)
                } else {
                    WriterAction::Stop
                }
            },
            WriterEvent::Timeout => {
                if self.batch.len() > 0 {
                    let b = self.take_batch(now);
                    WriterAction::Flush(b)
                } else {
                    WriterAction::Wait
                }
            },
        }
    }
}

// ---------------------------------------------------------------------------
// Writing a batch
// ---------------------------------------------------------------------------

/// A dead-letter entry as plain values: reading, error text, time, retries.
pub open spec fn entry_view<R>(e: DeadLetterEntry<R>) -> (R, Seq<char>, i64, u32) {
    (e.reading, e.error@, e.timestamp, e.retry_count)
}

/// The view of each write outcome: `None` for a written reading, the error
/// text for one that failed every attempt.
pub open spec fn outcome_views(o: Seq<Option<String>>) -> Seq<Option<Seq<char>>> {
    o.map_values(|x: Option<String>| match x {
        Some(s) => Some(s@),
        None => None,
    })
}

/// The dead-letter entries, as views, after storing each `(reading, error)`
/// of `items` in order at time `now`.
pub open spec fn stored_all<R>(q: Seq<(R, Seq<char>, i64, u32)>, max: nat, items: Seq<(R, Seq<char>)>, now: i64) -> Seq<(R, Seq<char>, i64, u32)>
    decreases items.len(),
{
    if items.len() == 0 {
        q
    } else {
        let last = items.last();
        queue_after_store(stored_all(q, max, items.drop_last(), now), max, (last.0, last.1, now, 0u32))
    }
}

/// The breaker after the outcomes of the first `n` writes of a batch.
pub open spec fn breaker_after_writes(m: CircuitModel, outcomes: Seq<Option<Seq<char>>>, n: int, now: int) -> CircuitModel
    decreases n,
{
    if n <= 0 {
        m
    } else {
        let m1 = breaker_after_writes(m, outcomes, n - 1, now);
        if outcomes[n - 1] is None { after_success(m1) } else { after_failure(m1, now) }
    }
}

/// The first `n` readings of a batch that were written, in order.
pub open spec fn written_of<R>(batch: Seq<R>, outcomes: Seq<Option<Seq<char>>>, n: int) -> Seq<R>
    decreases n,
{
    if n <= 0 {
        Seq::empty()
    } else if outcomes[n - 1] is None {
        written_of(batch, outcomes, n - 1).push(batch[n - 1])
    } else {
        written_of(batch, outcomes, n - 1)
    }
}

/// The first `n` readings of a batch that failed, with their errors, in order.
pub open spec fn failed_of<R>(batch: Seq<R>, outcomes: Seq<Option<Seq<char>>>, n: int) -> Seq<(R, Seq<char>)>
    decreases n,
{
    if n <= 0 {
        Seq::empty()
    } else {
        match outcomes[n - 1] {
            Some(e) => failed_of(batch, outcomes, n - 1).push((batch[n - 1], e)),
            None => failed_of(batch, outcomes, n - 1),
        }
    }
}

/// Failures counted by the breaker grow by at most one per write.
proof fn lemma_breaker_failures(m: CircuitModel, outcomes: Seq<Option<Seq<char>>>, n: int, now: int)
    requires
        n >= 0,
    ensures
        breaker_after_writes(m, outcomes, n, now).failures <= m.failures + n,
    decreases n,
{
    if n > 0 {
        lemma_breaker_failures(m, outcomes, n - 1, now);
    }
}

/// The text stored with readings refused by an open breaker.
pub open spec fn breaker_open_text() -> Seq<char> {
    "Circuit breaker open"@
}

impl<R> DeadLetterQueue<R> {
    fn store_view_step(&mut self, reading: R, error: String, now: i64)
        requires
            old(self).well_formed(),
            old(self).capacity() > 0,
        ensures
            final(self).well_formed(),
            final(self).capacity() == old(self).capacity(),
            final(self).entries().map_values(|e: DeadLetterEntry<R>| entry_view(e)) == queue_after_store(
                old(self).entries().map_values(|e: DeadLetterEntry<R>| entry_view(e)),
                old(self).capacity(),
                (reading, error@, now, 0u32),
            ),
    {
        let ghost q0 = self.entries();
        let ghost r = reading;
        let ghost ev = error@;
        self.store_at(reading, error, now);
        proof {
            let e = DeadLetterEntry { reading: r, error: self.entries().last().error, timestamp: now, retry_count: 0u32 };
            let v = |x: DeadLetterEntry<R>| entry_view(x);
            if q0.len() >= old(self).capacity() {
                assert(self.entries().map_values(v) =~= q0.map_values(v).drop_first().push((r, ev, now, 0u32)));
            } else {
                assert(self.entries().map_values(v) =~= q0.map_values(v).push((r, ev, now, 0u32)));
            }
        }
    }
}

/// Sends a batch that the open breaker refused to the dead-letter queue, each
/// reading stored at `now` with the error "Circuit breaker open", in order.
pub fn refuse_batch<R>(batch: Vec<R>, dlq: &mut DeadLetterQueue<R>, now: i64)
    requires
        old(dlq).well_formed(),
        old(dlq).capacity() > 0,
    ensures
        final(dlq).well_formed(),
        final(dlq).capacity() == old(dlq).capacity(),
        final(dlq).entries().map_values(|e: DeadLetterEntry<R>| entry_view(e)) == stored_all(
            old(dlq).entries().map_values(|e: DeadLetterEntry<R>| entry_view(e)),
            old(dlq).capacity(),
            batch@.map_values(|r: R| (r, breaker_open_text())),
            now,
        ),
{
    let ghost all = batch@;
    let ghost q0 = dlq.entries().map_values(|e: DeadLetterEntry<R>| entry_view(e));
    let ghost cap = dlq.capacity();
    let total = batch.len();
    let mut rest = batch;
    let mut i: usize = 0;
    while rest.len() > 0
        invariant
            all.len() == total,
            i + rest@.len() == all.len(),
            rest@ == all.skip(i as int),
            dlq.well_formed(),
            dlq.capacity() == cap,
            cap > 0,
            dlq.entries().map_values(|e: DeadLetterEntry<R>| entry_view(e)) == stored_all(
                q0,
                cap,
                all.take(i as int).map_values(|r: R| (r, breaker_open_text())),
                now,
            ),
        decreases rest.len(),
    {
        let r = rest.remove(0);
        proof {
            assert(r == all[i as int]);
            let f = |r: R| (r, breaker_open_text());
            assert(all.take(i + 1).map_values(f).drop_last() =~= all.take(i as int).map_values(f));
            assert(all.take(i + 1).map_values(f).last() == (all[i as int], breaker_open_text()));
            assert(rest@ =~= all.skip(i + 1));
        }
        dlq.store_view_step(r, String::from_str("Circuit breaker open"), now);
        i = i + 1;
    }
    assert(all.take(i as int) =~= all);
}

/// Settles a batch whose writes have run: `outcomes[i]` is `None` when the
/// `i`-th reading was written and its last error otherwise. Each write is
/// recorded with the breaker in order, a success as a success and a reading
/// that failed every attempt as a failure at `now_ms` (milliseconds, the
/// breaker's clock); the failed readings then go to the dead-letter queue, in
/// order, with their errors, stamped `now` (seconds). Returns the written
/// readings, in order, for publishing.
pub fn settle_batch<R>(batch: Vec<R>, outcomes: Vec<Option<String>>, breaker: &mut CircuitBreaker, dlq: &mut DeadLetterQueue<R>, now_ms: i64, now: i64) -> (written: Vec<R>)
    requires
        batch@.len() == outcomes@.len(),
        old(dlq).well_formed(),
        old(dlq).capacity() > 0,
        old(breaker).model().failures + batch@.len() < u32::MAX,
    ensures
        written@ == written_of(batch@, outcome_views(outcomes@), batch@.len() as int),
        final(breaker).model() == breaker_after_writes(old(breaker).model(), outcome_views(outcomes@), batch@.len() as int, now_ms as int),
        final(dlq).well_formed(),
        final(dlq).capacity() == old(dlq).capacity(),
        final(dlq).entries().map_values(|e: DeadLetterEntry<R>| entry_view(e)) == stored_all(
            old(dlq).entries().map_values(|e: DeadLetterEntry<R>| entry_view(e)),
            old(dlq).capacity(),
            failed_of(batch@, outcome_views(outcomes@), batch@.len() as int),
            now,
        ),
{
    let ghost all = batch@;
    let ghost ov = outcome_views(outcomes@);
    let ghost n = all.len() as int;
    let ghost m0 = breaker.model();
    let total = batch.len();
    let mut rest = batch;
    let mut outs = outcomes;
    let mut written: Vec<R> = Vec::new();
    let mut failed: Vec<(R, String)> = Vec::new();
    let mut i: usize = 0;
    while rest.len() > 0
        invariant
            n == all.len(),
            n == total,
            i + rest@.len() == n,
            rest@.len() == outs@.len(),
            rest@ == all.skip(i as int),
            outcome_views(outs@) == ov.skip(i as int),
            ov.len() == n,
            m0.failures + n < u32::MAX,
            breaker.model() == breaker_after_writes(m0, ov, i as int, now_ms as int),
            written@ == written_of(all, ov, i as int),
            failed@.map_values(|x: (R, String)| (x.0, x.1@)) == failed_of(all, ov, i as int),
        decreases rest.len(),
    {
        let r = rest.remove(0);
        let ghost outs0 = outs@;
        let o = outs.remove(0);
        proof {
            assert(r == all[i as int]);
            assert(outcome_views(outs0)[0] == ov[i as int]);
            assert(rest@ =~= all.skip(i + 1));
            assert forall|j: int| 0 <= j < outs@.len() implies #[trigger] outcome_views(outs@)[j] == ov.skip(i + 1)[j] by {
                assert(outs@[j] == outs0[j + 1]);
                assert(outcome_views(outs0)[j + 1] == ov.skip(i as int)[j + 1]);
            }
            assert(outcome_views(outs@) =~= ov.skip(i + 1));
            lemma_breaker_failures(m0, ov, i as int, now_ms as int);
        }
        let ghost f0 = failed@;
        match o {
            None => {
                breaker.record_success();
                written.push(r);
            },
            Some(e) => {
                breaker.record_failure_at(now_ms);
                failed.push((r, e));
                proof {
                    let v = |x: (R, String)| (x.0, x.1@);
                    assert(failed@.map_values(v) =~= f0.map_values(v).push((all[i as int], ov[i as int]->0)));
                }
            },
        }
        i = i + 1;
    }
    let ghost items = failed@.map_values(|x: (R, String)| (x.0, x.1@));
    let ghost q0 = dlq.entries().map_values(|e: DeadLetterEntry<R>| entry_view(e));
    let ghost cap = dlq.capacity();
    let mut k: usize = 0;
    let ghost fall = failed@;
    let nfail = failed.len();
    while failed.len() > 0
        invariant
            fall.len() == nfail,
            k + failed@.len() == fall.len(),
            failed@ == fall.skip(k as int),
            items == fall.map_values(|x: (R, String)| (x.0, x.1@)),
            dlq.well_formed(),
            dlq.capacity() == cap,
            cap > 0,
            dlq.entries().map_values(|e: DeadLetterEntry<R>| entry_view(e)) == stored_all(q0, cap, items.take(k as int), now),
        decreases failed.len(),
    {
        let (r, e) = failed.remove(0);
        proof {
            assert((r, e) == fall[k as int]);
            assert(items.take(k + 1).drop_last() =~= items.take(k as int));
            assert(items.take(k + 1).last() == (r, e@));
            assert(failed@ =~= fall.skip(k + 1));
        }
        dlq.store_view_step(r, e, now);
        k = k + 1;
    }
    assert(items.take(k as int) =~= items);
    written
}

/// Pipeline statistics.
pub struct PipelineStats {
    pub dlq_size: usize,
    pub circuit_breaker_open: bool,
    pub dedup_cache_size: usize,
}

/// The pipeline's statistics at time `now`: the dead-letter queue's length,
/// whether the breaker refuses a request at `now` (asking it moves an open
/// breaker whose timeout has passed to half-open), and how many sensors the
/// deduplicator tracks.
pub fn pipeline_stats_at<R>(dlq: &DeadLetterQueue<R>, breaker: &mut CircuitBreaker, dedup: &Deduplicator, now: i64) -> (s: PipelineStats)
    ensures
        s.dlq_size == dlq.entries().len(),
        s.circuit_breaker_open == !allows(old(breaker).model(), now as int),
        final(breaker).model() == after_check(old(breaker).model(), now as int),
        s.dedup_cache_size == dedup.seen().dom().len(),
{
    let open = !breaker.can_execute_at(now);
    PipelineStats { dlq_size: dlq.len(), circuit_breaker_open: open, dedup_cache_size: dedup.len() }
}

/// `pipeline_stats_at` at the current time by the wall clock.
pub fn pipeline_stats<R>(dlq: &DeadLetterQueue<R>, breaker: &mut CircuitBreaker, dedup: &Deduplicator) -> (s: PipelineStats)
    ensures
        s.dlq_size == dlq.entries().len(),
        s.dedup_cache_size == dedup.seen().dom().len(),
        exists|now: int|
            s.circuit_breaker_open == !allows(old(breaker).model(), now) && final(breaker).model() == after_check(
                old(breaker).model(),
                now,
            ),
{
    pipeline_stats_at(dlq, breaker, dedup, now_millis())
}

} // verus!
