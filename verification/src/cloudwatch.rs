//! Batching of EMF-formatted records into CloudWatch Logs `PutLogEvents`
//! requests.
//!
//! Each formatted entry is split into lines; every non-empty line becomes one
//! log event. Events are collected into a batch until the next one would break
//! a `PutLogEvents` limit, at which point the batch is handed to the
//! submission channel. A full channel drops the batch (and reports it); a
//! closed channel shuts the batcher down.

use std::sync::Arc;
use tokio::sync::{mpsc, oneshot};
use vstd::prelude::*;
use vstd::utf8::*;
use crate::text::{chars_of, string_from_chars};
use crate::timesource::{std_duration_since, std_system_now, system_time_duration_since};
use std::time::Duration;
use crate::reporters::{duration_secs, duration_subsec_nanos};

verus! {

/// Maximum payload size for a single `PutLogEvents` request (1 MB).
pub const MAX_BATCH_BYTES: usize = 1_048_576;

/// Maximum size of a single log event message (1 MB).
pub const MAX_EVENT_BYTES: usize = 1_048_576;

/// Overhead per log event (timestamp and framing), in bytes.
pub const EVENT_OVERHEAD_BYTES: usize = 26;

/// Maximum number of log events per `PutLogEvents` request.
pub const MAX_BATCH_EVENTS: usize = 10_000;

/// Configuration of a CloudWatch Logs stream.
#[derive(Debug, Clone)]
pub struct CwLogsStreamConfig {
    /// Capacity of the channel between the collecting thread and the
    /// submission task; positive. Default: 5.
    pub channel_capacity: usize,
    /// Whether to create the log group and stream when they do not exist.
    /// Default: true.
    pub auto_create: bool,
}

impl Default for CwLogsStreamConfig {
    fn default() -> (r: Self)
        ensures
            r.channel_capacity == 5,
            r.auto_create,
    {
        CwLogsStreamConfig { channel_capacity: 5, auto_create: true }
    }
}

/// Events reported to a [`CwLogsStreamObserver`].
#[derive(Debug)]
#[non_exhaustive]
pub enum CwLogsStreamEvent {
    /// A batch was dropped because the submission channel was full.
    #[non_exhaustive]
    BatchDropped {
        /// Number of events in the dropped batch.
        event_count: usize,
    },
    /// A `PutLogEvents` submission failed.
    SubmissionFailed,
    /// An entry was dropped because the stream is shut down.
    #[non_exhaustive]
    EntryDroppedAfterShutdown,
    /// The formatter produced bytes that are not valid UTF-8.
    #[non_exhaustive]
    InvalidUtf8,
    /// A single event exceeded the per-event size limit and was dropped.
    #[non_exhaustive]
    EventOversized,
}

/// Observer of [`CwLogsStreamEvent`]s; implement it to collect internal metrics.
pub trait CwLogsStreamObserver: Send + Sync + 'static {
    /// Called when an event occurs.
    fn observe(&self, event: &CwLogsStreamEvent);
}

/// The default observer, which ignores every event.
#[derive(Debug, Default)]
pub struct NoOpObserver;

impl CwLogsStreamObserver for NoOpObserver {
    fn observe(&self, event: &CwLogsStreamEvent) {
    }
}

/// One log event: a message line and its timestamp, in milliseconds since
/// the Unix epoch.
#[derive(Debug, Clone)]
pub struct LogEvent {
    /// The message: one line of formatted output.
    pub message: String,
    /// Milliseconds since the Unix epoch.
    pub timestamp: i64,
}

impl View for LogEvent {
    type V = (Seq<char>, i64);

    open spec fn view(&self) -> (Seq<char>, i64) {
        (self.message@, self.timestamp)
    }
}

/// A command for the submission task.
pub enum WorkerCommand {
    /// Submit these events in one `PutLogEvents` request.
    PutLogEvents(Vec<LogEvent>),
    /// Drain the channel, then answer on this sender.
    Shutdown(oneshot::Sender<()>),
}

#[verifier::external_type_specification]
#[verifier::external_body]
#[verifier::reject_recursive_types(T)]
pub struct ExMpscSender<T>(mpsc::Sender<T>);

#[verifier::external_type_specification]
#[verifier::external_body]
#[verifier::reject_recursive_types(T)]
pub struct ExOneshotSender<T>(oneshot::Sender<T>);

/// How an attempt to hand a batch to the submission channel ended.
#[derive(Debug, Clone, Copy, PartialEq, Eq, Structural)]
pub enum SendOutcome {
    /// The channel took the batch.
    Sent,
    /// The channel was full; the batch was dropped.
    Full,
    /// The receiving side is gone; the batch was dropped.
    Closed,
}

/// Hands `batch` to the submission channel as one `PutLogEvents` command.
///
/// Wraps `tokio::sync::mpsc::Sender::try_send`, telling its error variants
/// apart. The contract claims that the batch handed over is `batch`, as it
/// stands: the second result is its view. Which outcome comes back depends
/// on the channel's free capacity and on whether its receiver still exists,
/// neither of which is modelled; nothing is stated of it.
#[verifier::external_body]
fn try_send_batch(tx: &mpsc::Sender<WorkerCommand>, batch: Vec<LogEvent>) -> (r: (
    SendOutcome,
    Ghost<Seq<EventView>>,
))
    ensures
        r.1@ == batch@.map_values(|e: LogEvent| e@),
{
    let handed = Ghost(batch@.map_values(|e: LogEvent| e@));
    let outcome = match tx.try_send(WorkerCommand::PutLogEvents(batch)) {
        Ok(()) => SendOutcome::Sent,
        Err(mpsc::error::TrySendError::Full(_)) => SendOutcome::Full,
        Err(mpsc::error::TrySendError::Closed(_)) => SendOutcome::Closed,
    };
    (outcome, handed)
}

/// Reports `event` to `observer`.
///
/// Calls the observer's `observe`, an implementation that users of the
/// library supply and that is not verified. The contract claims that the
/// event handed to it is `event`: the result is its value.
#[verifier::external_body]
fn notify_observer(observer: &Arc<Box<dyn CwLogsStreamObserver>>, event: &CwLogsStreamEvent) -> (r:
    Ghost<CwLogsStreamEvent>)
    ensures
        r@ == *event,
{
    observer.observe(event);
    Ghost(*event)
}

/// Wraps `String::from_utf8`: `Some` exactly when the bytes are valid UTF-8,
/// holding the characters they encode.
#[verifier::external_body]
fn string_from_utf8(bytes: Vec<u8>) -> (r: Option<String>)
    ensures
        r is Some <==> valid_utf8(bytes@),
        r matches Some(s) ==> s@ == decode_utf8(bytes@),
{
    String::from_utf8(bytes).ok()
}

/// Wraps `std::time::UNIX_EPOCH`.
#[verifier::external_body]
fn unix_epoch() -> std::time::SystemTime {
    std::time::UNIX_EPOCH
}

/// Whole milliseconds of a duration, as `Duration::as_millis` gives them:
/// its seconds times a thousand, plus the whole milliseconds of its
/// sub-second part.
pub open spec fn duration_millis(d: Duration) -> u128 {
    (duration_secs(d) * 1000 + duration_subsec_nanos(d) / 1_000_000) as u128
}

/// Wraps `Duration::as_millis`.
#[verifier::external_body]
fn duration_as_millis(d: Duration) -> (r: u128)
    ensures
        r == duration_millis(d),
{
    d.as_millis()
}

/// Whether `t` is a value that reading the system clock
/// (`std::time::SystemTime::now`) returned.
pub closed spec fn is_clock_reading(t: std::time::SystemTime) -> bool {
    call_ensures(std_system_now, (), t)
}

/// Whether `e` is the value that `std::time::UNIX_EPOCH` gives.
pub closed spec fn is_unix_epoch(e: std::time::SystemTime) -> bool {
    call_ensures(unix_epoch, (), e)
}

/// Whole milliseconds from `earlier` to `t`, truncated to `i64`; zero when
/// `earlier` is later than `t`.
pub open spec fn millis_between(t: std::time::SystemTime, earlier: std::time::SystemTime) -> i64 {
    match std_duration_since(t, earlier) {
        Ok(d) => duration_millis(d) as i64,
        Err(_) => 0,
    }
}

/// Milliseconds since the Unix epoch as the system clock reads now,
/// truncated to `i64`; zero when the clock is set before the epoch. Which
/// reading the clock gives is not stated.
fn unix_millis_now() -> (r: i64)
    ensures
        exists|now: std::time::SystemTime, epoch: std::time::SystemTime|
            r == millis_between(now, epoch),
        exists|now: std::time::SystemTime, epoch: std::time::SystemTime|
            is_clock_reading(now) && is_unix_epoch(epoch) && r == millis_between(now, epoch),
{
    let now = std_system_now();
    let epoch = unix_epoch();
    let millis: u128 = match system_time_duration_since(now, epoch) {
        Ok(d) => duration_as_millis(d),
        Err(_) => 0,
    };
    let r = millis as i64;
    assert(r == millis_between(now, epoch));
    r
}

// ---------------------------------------------------------------------------
// Lines of a formatted entry
// ---------------------------------------------------------------------------

/// A line without its line terminator's carriage return, if it has one.
pub open spec fn strip_cr(line: Seq<char>) -> Seq<char> {
    if line.len() > 0 && line.last() == '\r' {
        line.drop_last()
    } else {
        line
    }
}

/// Reading `s` from the start: the lines ended by a `'\n'` so far, and the
/// characters after the last `'\n'`.
pub open spec fn lines_scan(s: Seq<char>) -> (Seq<Seq<char>>, Seq<char>)
    decreases s.len(),
{
    if s.len() == 0 {
        (Seq::empty(), Seq::empty())
    } else {
        let prev = lines_scan(s.drop_last());
        if s.last() == '\n' {
            (prev.0.push(strip_cr(prev.1)), Seq::empty())
        } else {
            (prev.0, prev.1.push(s.last()))
        }
    }
}

/// The lines of `s` as `str::lines` yields them: split at `"\n"` or
/// `"\r\n"`, terminators dropped, and a final line ending optional.
pub open spec fn lines_of(s: Seq<char>) -> Seq<Seq<char>> {
    let scan = lines_scan(s);
    if scan.1.len() == 0 {
        scan.0
    } else {
        scan.0.push(scan.1)
    }
}

/// A final line ending is optional: ending a non-empty last line with
/// `"\n"` (when it does not end with `'\r'`) or with `"\r\n"` yields the
/// same lines as leaving it unterminated.
pub proof fn lemma_final_line_ending_is_optional(s: Seq<char>)
    requires
        s.len() > 0,
        s.last() != '\n',
    ensures
        s.last() != '\r' ==> lines_of(s.push('\n')) == lines_of(s),
        lines_of(s.push('\r').push('\n')) == lines_of(s),
{
    lemma_lines_scan_rest_nonempty(s);
    assert(s.push('\n').drop_last() =~= s);
    assert(s.push('\r').drop_last() =~= s);
    assert(s.push('\r').push('\n').drop_last() =~= s.push('\r'));
    let scan = lines_scan(s);
    assert(lines_scan(s.push('\r')).1 =~= scan.1.push('\r'));
    assert(strip_cr(scan.1.push('\r')) =~= scan.1);
    if s.last() != '\r' {
        assert(strip_cr(scan.1) =~= scan.1);
    }
}

proof fn lemma_lines_scan_rest_nonempty(s: Seq<char>)
    requires
        s.len() > 0,
        s.last() != '\n',
    ensures
        lines_scan(s).1.len() > 0,
        lines_scan(s).1.last() == s.last(),
{
}

/// The lines of `s`, as `str::lines` yields them.
pub fn split_lines(s: &str) -> (r: Vec<String>)
    ensures
        r@.map_values(|l: String| l@) == lines_of(s@),
{
    let chars = chars_of(s);
    let mut done: Vec<String> = Vec::new();
    let mut cur: Vec<char> = Vec::new();
    let mut i: usize = 0;
    while i < chars.len()
        invariant
            i <= chars.len(),
            chars@ == s@,
            done@.map_values(|l: String| l@) == lines_scan(s@.take(i as int)).0,
            cur@ == lines_scan(s@.take(i as int)).1,
        decreases chars.len() - i,
    {
        let c = chars[i];
        proof {
            assert(s@.take(i + 1).drop_last() =~= s@.take(i as int));
            assert(s@.take(i + 1).last() == c);
        }
        if c == '\n' {
            if cur.len() > 0 && cur[cur.len() - 1] == '\r' {
                cur.pop();
            }
            let line = string_from_chars(&cur);
            done.push(line);
            cur = Vec::new();
            proof {
                assert(done@.map_values(|l: String| l@) =~= lines_scan(s@.take(i + 1)).0);
                assert(cur@ =~= lines_scan(s@.take(i + 1)).1);
            }
        } else {
            cur.push(c);
            proof {
                assert(done@.map_values(|l: String| l@) =~= lines_scan(s@.take(i + 1)).0);
            }
        }
        i = i + 1;
    }
    proof {
        assert(s@.take(chars.len() as int) =~= s@);
    }
    if cur.len() > 0 {
        let line = string_from_chars(&cur);
        done.push(line);
        proof {
            assert(done@.map_values(|l: String| l@) =~= lines_of(s@));
        }
    }
    done
}

// ---------------------------------------------------------------------------
// The batching model
// ---------------------------------------------------------------------------

/// A log event as the model sees it: message characters and timestamp.
pub type EventView = (Seq<char>, i64);

/// What a batcher holds and has done, as mathematical values.
pub struct BatchModel {
    /// The events of the batch being filled, in arrival order.
    pub batch: Seq<EventView>,
    /// Whether the submission channel is still in use.
    pub open: bool,
    /// Every batch taken out for submission, in order, whatever its fate.
    pub taken: Seq<Seq<EventView>>,
    /// Every event reported to the observer, in order.
    pub observed: Seq<CwLogsStreamEvent>,
}

/// Bytes that one event adds to a request: its message and the overhead.
pub open spec fn event_size(e: EventView) -> int {
    encode_utf8(e.0).len() + EVENT_OVERHEAD_BYTES
}

/// Payload size of a batch, in bytes.
pub open spec fn payload_size(b: Seq<EventView>) -> int
    decreases b.len(),
{
    if b.len() == 0 {
        0
    } else {
        payload_size(b.drop_last()) + event_size(b.last())
    }
}

/// Whether adding an event of `event_bytes` message bytes to `b` would break
/// a request limit.
pub open spec fn exceeds_limits(b: Seq<EventView>, event_bytes: int) -> bool {
    b.len() >= MAX_BATCH_EVENTS || payload_size(b) + event_bytes + EVENT_OVERHEAD_BYTES
        > MAX_BATCH_BYTES
}

/// Whether a line is kept as an event: it is not empty and its encoding fits
/// the per-event limit.
pub open spec fn keeps_line(line: Seq<char>) -> bool {
    line.len() > 0 && encode_utf8(line).len() <= MAX_EVENT_BYTES
}

/// The effect of handing the batch to the channel with the given outcome.
/// A batcher that is shut down hands nothing over.
pub open spec fn enqueue_model(m: BatchModel, o: SendOutcome) -> BatchModel {
    if !m.open {
        m
    } else {
        BatchModel {
            batch: Seq::empty(),
            open: o != SendOutcome::Closed,
            taken: m.taken.push(m.batch),
            observed: if o == SendOutcome::Full {
                m.observed.push(CwLogsStreamEvent::BatchDropped { event_count: m.batch.len() as usize })
            } else {
                m.observed
            },
        }
    }
}

/// The effect of closing: a non-empty batch is handed over with outcome
/// `o`, and the channel is no longer used.
pub open spec fn close_model(m: BatchModel, o: SendOutcome) -> BatchModel {
    let m1 = if m.batch.len() > 0 {
        enqueue_model(m, o)
    } else {
        m
    };
    BatchModel { open: false, ..m1 }
}

/// The effect of one line of formatted output, stamped `now`; `o` is the
/// outcome of the hand-over that the line may cause.
pub open spec fn line_model(m: BatchModel, line: Seq<char>, now: i64, o: SendOutcome) -> BatchModel {
    if line.len() == 0 {
        m
    } else if encode_utf8(line).len() > MAX_EVENT_BYTES {
        BatchModel { observed: m.observed.push(CwLogsStreamEvent::EventOversized), ..m }
    } else {
        let m1 = if m.batch.len() > 0 && exceeds_limits(m.batch, encode_utf8(line).len() as int) {
            enqueue_model(m, o)
        } else {
            m
        };
        BatchModel { batch: m1.batch.push((line, now)), ..m1 }
    }
}

/// The effect of a sequence of lines, each with the outcome of the hand-over
/// it may cause.
pub open spec fn lines_model(
    m: BatchModel,
    lines: Seq<Seq<char>>,
    now: i64,
    outs: Seq<SendOutcome>,
) -> BatchModel
    decreases lines.len(),
{
    if lines.len() == 0 {
        m
    } else {
        line_model(
            lines_model(m, lines.drop_last(), now, outs.drop_last()),
            lines.last(),
            now,
            outs.last(),
        )
    }
}

/// The events that a sequence of lines contributes, in order.
pub open spec fn accepted_events(lines: Seq<Seq<char>>, now: i64) -> Seq<EventView>
    decreases lines.len(),
{
    if lines.len() == 0 {
        Seq::empty()
    } else if keeps_line(lines.last()) {
        accepted_events(lines.drop_last(), now).push((lines.last(), now))
    } else {
        accepted_events(lines.drop_last(), now)
    }
}

/// Whether a batch may be handed to `PutLogEvents`: it holds between one and
/// `MAX_BATCH_EVENTS` events, and its payload fits `MAX_BATCH_BYTES` unless
/// it is a single event.
pub open spec fn within_limits(b: Seq<EventView>) -> bool {
    &&& 1 <= b.len() <= MAX_BATCH_EVENTS
    &&& (b.len() == 1 || payload_size(b) <= MAX_BATCH_BYTES)
}

/// Whether every event of `b` came from a kept line.
pub open spec fn events_kept(b: Seq<EventView>) -> bool {
    forall|i: int| 0 <= i < b.len() ==> #[trigger] keeps_line(b[i].0)
}

/// The invariant of the model: events are kept lines, the batch being filled
/// is within the limits or empty while the channel is in use, and every batch
/// taken out is within the limits.
pub open spec fn model_ok(m: BatchModel) -> bool {
    &&& events_kept(m.batch)
    &&& m.open ==> (m.batch.len() == 0 || within_limits(m.batch))
    &&& forall|i: int| 0 <= i < m.taken.len() ==> #[trigger] within_limits(m.taken[i])
}

proof fn lemma_payload_push(b: Seq<EventView>, e: EventView)
    ensures
        payload_size(b.push(e)) == payload_size(b) + event_size(e),
{
    assert(b.push(e).drop_last() =~= b);
}

proof fn lemma_flatten_push(t: Seq<Seq<EventView>>, b: Seq<EventView>)
    ensures
        t.push(b).flatten_alt() == t.flatten_alt() + b,
{
    assert(t.push(b).drop_last() =~= t);
}

proof fn lemma_line_keeps_events(m: BatchModel, line: Seq<char>, now: i64, o: SendOutcome)
    ensures
        ({
            let r = line_model(m, line, now, o);
            r.taken.flatten_alt() + r.batch == m.taken.flatten_alt() + m.batch + (if keeps_line(
                line,
            ) {
                seq![(line, now)]
            } else {
                Seq::empty()
            })
        }),
{
    let r = line_model(m, line, now, o);
    if keeps_line(line) {
        let m1 = if m.batch.len() > 0 && exceeds_limits(m.batch, encode_utf8(line).len() as int) {
            enqueue_model(m, o)
        } else {
            m
        };
        assert(m1.taken.flatten_alt() + m1.batch == m.taken.flatten_alt() + m.batch) by {
            if m1 != m && m.open {
                lemma_flatten_push(m.taken, m.batch);
                assert(m.taken.flatten_alt() + m.batch + Seq::<EventView>::empty() =~= m.taken.flatten_alt() + m.batch);
            }
        }
        assert(r.taken.flatten_alt() + r.batch =~= m1.taken.flatten_alt() + m1.batch + seq![(line, now)]);
    } else {
        assert(r.taken.flatten_alt() + r.batch =~= m.taken.flatten_alt() + m.batch + Seq::<EventView>::empty());
    }
}

/// No accepted event is lost or reordered: whatever the channel does, the
/// batches taken out followed by the batch being filled are what they were
/// before, followed by the events of the kept lines, in order.
pub proof fn lemma_no_event_lost(
    m: BatchModel,
    lines: Seq<Seq<char>>,
    now: i64,
    outs: Seq<SendOutcome>,
)
    requires
        outs.len() == lines.len(),
    ensures
        ({
            let r = lines_model(m, lines, now, outs);
            r.taken.flatten_alt() + r.batch == m.taken.flatten_alt() + m.batch + accepted_events(
                lines,
                now,
            )
        }),
    decreases lines.len(),
{
    if lines.len() > 0 {
        let prev = lines_model(m, lines.drop_last(), now, outs.drop_last());
        lemma_no_event_lost(m, lines.drop_last(), now, outs.drop_last());
        lemma_line_keeps_events(prev, lines.last(), now, outs.last());
        let base = m.taken.flatten_alt() + m.batch;
        if keeps_line(lines.last()) {
            assert(base + accepted_events(lines.drop_last(), now) + seq![(lines.last(), now)]
                =~= base + accepted_events(lines, now));
        } else {
            assert(base + accepted_events(lines.drop_last(), now) + Seq::<EventView>::empty()
                =~= base + accepted_events(lines, now));
        }
    } else {
        assert(m.taken.flatten_alt() + m.batch + accepted_events(lines, now) =~= m.taken.flatten_alt()
            + m.batch);
    }
}

proof fn lemma_line_model_ok(m: BatchModel, line: Seq<char>, now: i64, o: SendOutcome)
    requires
        model_ok(m),
    ensures
        model_ok(line_model(m, line, now, o)),
{
    let r = line_model(m, line, now, o);
    if keeps_line(line) {
        let n = encode_utf8(line).len() as int;
        let m1 = if m.batch.len() > 0 && exceeds_limits(m.batch, n) {
            enqueue_model(m, o)
        } else {
            m
        };
        assert(model_ok(m1)) by {
            if m.batch.len() > 0 && exceeds_limits(m.batch, n) && m.open {
                assert forall|i: int| 0 <= i < m1.taken.len() implies #[trigger] within_limits(
                    m1.taken[i],
                ) by {
                    if i < m.taken.len() {
                        assert(m1.taken[i] == m.taken[i]);
                    }
                }
                assert(events_kept(m1.batch));
            }
        }
        lemma_payload_push(m1.batch, (line, now));
        assert(r.batch == m1.batch.push((line, now)));
        assert(events_kept(r.batch)) by {
            assert forall|i: int| 0 <= i < r.batch.len() implies #[trigger] keeps_line(r.batch[i].0) by {
                if i < m1.batch.len() {
                    assert(r.batch[i] == m1.batch[i]);
                }
            }
        }
        if r.open && m1.batch.len() == 0 {
            assert(payload_size(m1.batch) == 0);
        }
    }
}

/// Every batch handed to the channel respects the `PutLogEvents` limits, and
/// so does the batch being filled while the channel is in use: the model's
/// invariant holds after any sequence of lines, whatever the channel does.
pub proof fn lemma_batches_within_limits(
    m: BatchModel,
    lines: Seq<Seq<char>>,
    now: i64,
    outs: Seq<SendOutcome>,
)
    requires
        model_ok(m),
        outs.len() == lines.len(),
    ensures
        model_ok(lines_model(m, lines, now, outs)),
    decreases lines.len(),
{
    if lines.len() > 0 {
        lemma_batches_within_limits(m, lines.drop_last(), now, outs.drop_last());
        lemma_line_model_ok(
            lines_model(m, lines.drop_last(), now, outs.drop_last()),
            lines.last(),
            now,
            outs.last(),
        );
    }
}

/// Total line weight: each line's length plus one for its terminator.
pub open spec fn lines_weight(ls: Seq<Seq<char>>) -> int
    decreases ls.len(),
{
    if ls.len() == 0 {
        0
    } else {
        lines_weight(ls.drop_last()) + ls.last().len() + 1
    }
}

proof fn lemma_lines_scan_weight(s: Seq<char>)
    ensures
        lines_weight(lines_scan(s).0) + lines_scan(s).1.len() <= s.len(),
    decreases s.len(),
{
    if s.len() > 0 {
        lemma_lines_scan_weight(s.drop_last());
        let prev = lines_scan(s.drop_last());
        if s.last() == '\n' {
            assert(prev.0.push(strip_cr(prev.1)).drop_last() =~= prev.0);
        }
    }
}

proof fn lemma_lines_weight(s: Seq<char>)
    ensures
        lines_weight(lines_of(s)) <= s.len() + 1,
{
    lemma_lines_scan_weight(s);
    let scan = lines_scan(s);
    if scan.1.len() > 0 {
        assert(scan.0.push(scan.1).drop_last() =~= scan.0);
    }
}

proof fn lemma_encode_len(s: Seq<char>)
    ensures
        s.len() <= encode_utf8(s).len() <= 4 * s.len(),
    decreases s.len(),
{
    if s.len() > 0 {
        lemma_encode_len(s.drop_first());
    }
}

proof fn lemma_decode_len(b: Seq<u8>)
    requires
        valid_utf8(b),
    ensures
        decode_utf8(b).len() <= b.len(),
{
    decode_utf8_encode_utf8(b);
    lemma_encode_len(decode_utf8(b));
}

proof fn lemma_weight_take(ls: Seq<Seq<char>>, i: int)
    requires
        0 <= i < ls.len(),
    ensures
        lines_weight(ls.take(i + 1)) == lines_weight(ls.take(i)) + ls[i].len() + 1,
        lines_weight(ls.take(i + 1)) <= lines_weight(ls),
    decreases ls.len(),
{
    assert(ls.take(i + 1).drop_last() =~= ls.take(i));
    if i + 1 < ls.len() {
        lemma_weight_take(ls.drop_last(), i);
        assert(ls.drop_last().take(i + 1) =~= ls.take(i + 1));
    } else {
        assert(ls.take(i + 1) =~= ls);
    }
}

proof fn lemma_open_payload_bound(m: BatchModel)
    requires
        model_ok(m),
        m.open,
    ensures
        payload_size(m.batch) <= MAX_EVENT_BYTES + EVENT_OVERHEAD_BYTES,
{
    if m.batch.len() == 1 {
        assert(m.batch.drop_last() =~= Seq::<EventView>::empty());
        assert(payload_size(Seq::<EventView>::empty()) == 0);
        assert(m.batch.last() == m.batch[0]);
        assert(keeps_line(m.batch[0].0));
    } else if m.batch.len() == 0 {
        assert(payload_size(m.batch) == 0);
    }
}

/// Collects log events into batches and hands each batch to the submission
/// channel when the next event would break a `PutLogEvents` limit.
pub struct LogBatcher {
    batch: Vec<LogEvent>,
    batch_bytes: usize,
    tx: Option<mpsc::Sender<WorkerCommand>>,
    observer: Arc<Box<dyn CwLogsStreamObserver>>,
    taken: Ghost<Seq<Seq<EventView>>>,
    observed: Ghost<Seq<CwLogsStreamEvent>>,
}

impl View for LogBatcher {
    type V = BatchModel;

    closed spec fn view(&self) -> BatchModel {
        BatchModel {
            batch: self.batch@.map_values(|e: LogEvent| e@),
            open: self.tx is Some,
            taken: self.taken@,
            observed: self.observed@,
        }
    }
}

impl LogBatcher {
    /// The batcher's invariant: its model is sound and the byte count is the
    /// payload size of the batch.
    pub closed spec fn wf(&self) -> bool {
        &&& model_ok(self@)
        &&& self.batch_bytes == payload_size(self@.batch)
    }

    /// A batcher that submits through `tx` and reports to `observer`.
    pub fn new(tx: mpsc::Sender<WorkerCommand>, observer: Arc<Box<dyn CwLogsStreamObserver>>) -> (r: Self)
        ensures
            r.wf(),
            r@ == (BatchModel {
                batch: Seq::empty(),
                open: true,
                taken: Seq::empty(),
                observed: Seq::empty(),
            }),
    {
        let r = LogBatcher {
            batch: Vec::new(),
            batch_bytes: 0,
            tx: Some(tx),
            observer,
            taken: Ghost(Seq::empty()),
            observed: Ghost(Seq::empty()),
        };
        proof {
            assert(r@.batch =~= Seq::<EventView>::empty());
        }
        r
    }

    /// Whether the submission channel has been found closed.
    pub fn is_shut_down(&self) -> (r: bool)
        ensures
            r == !self@.open,
    {
        self.tx.is_none()
    }

    /// Number of events in the batch being filled.
    pub fn batch_len(&self) -> (r: usize)
        ensures
            r == self@.batch.len(),
    {
        self.batch.len()
    }

    /// Payload size of the batch being filled, in bytes.
    pub fn batch_bytes(&self) -> (r: usize)
        requires
            self.wf(),
        ensures
            r == payload_size(self@.batch),
    {
        self.batch_bytes
    }

    /// Reports an event to the observer.
    fn report(&mut self, event: CwLogsStreamEvent)
        requires
            old(self).wf(),
        ensures
            final(self).wf(),
            final(self)@ == (BatchModel { observed: old(self)@.observed.push(event), ..old(self)@ }),
    {
        let reported = notify_observer(&self.observer, &event);
        self.observed = Ghost(self.observed@.push(reported@));
    }

    /// Whether adding an event of `event_bytes` message bytes would break a
    /// request limit.
    fn batch_would_exceed_limits(&self, event_bytes: usize) -> (r: bool)
        requires
            self.wf(),
            self.batch_bytes + event_bytes + EVENT_OVERHEAD_BYTES <= usize::MAX,
        ensures
            r == exceeds_limits(self@.batch, event_bytes as int),
    {
        self.batch.len() >= MAX_BATCH_EVENTS || self.batch_bytes + event_bytes
            + EVENT_OVERHEAD_BYTES > MAX_BATCH_BYTES
    }

    /// Hands the batch to the channel; returns how that ended. A batcher
    /// that is shut down keeps its batch.
    fn enqueue_batch(&mut self) -> (o: SendOutcome)
        requires
            old(self).wf(),
            old(self)@.batch.len() > 0,
        ensures
            final(self).wf(),
            final(self)@ == enqueue_model(old(self)@, o),
    {
        if self.tx.is_none() {
            return SendOutcome::Sent;
        }
        let ghost before = self@;
        let mut batch: Vec<LogEvent> = Vec::new();
        std::mem::swap(&mut batch, &mut self.batch);
        let count = batch.len();
        self.batch_bytes = 0;
        let o = match &self.tx {
            Some(tx) => {
                let (o, handed) = try_send_batch(tx, batch);
                self.taken = Ghost(self.taken@.push(handed@));
                o
            },
            None => SendOutcome::Sent,
        };
        proof {
            assert(self@.batch =~= Seq::<EventView>::empty());
            assert forall|i: int| 0 <= i < self@.taken.len() implies #[trigger] within_limits(
                self@.taken[i],
            ) by {
                if i < before.taken.len() {
                    assert(self@.taken[i] == before.taken[i]);
                }
            }
        }
        match o {
            SendOutcome::Sent => {},
            SendOutcome::Full => {
                self.report(CwLogsStreamEvent::BatchDropped { event_count: count });
            },
            SendOutcome::Closed => {
                self.tx = None;
            },
        }
        proof {
            assert(self@ == enqueue_model(before, o));
        }
        o
    }

    /// Adds one line of output, stamped `now`: an empty line is skipped, an
    /// oversized one is reported and skipped, and any other becomes an event,
    /// after the batch is handed over if the event would not fit in it.
    fn push_line(&mut self, line: String, now: i64) -> (o: SendOutcome)
        requires
            old(self).wf(),
            old(self).batch_bytes + 4 * line@.len() + EVENT_OVERHEAD_BYTES <= usize::MAX,
        ensures
            final(self).wf(),
            final(self)@ == line_model(old(self)@, line@, now, o),
            final(self).batch_bytes <= old(self).batch_bytes + 4 * line@.len()
                + EVENT_OVERHEAD_BYTES,
    {
        proof {
            lemma_encode_len(line@);
        }
        let event_bytes = line.as_str().len();
        assert(event_bytes == encode_utf8(line@).len());
        if event_bytes == 0 {
            return SendOutcome::Sent;
        }
        if event_bytes > MAX_EVENT_BYTES {
            self.report(CwLogsStreamEvent::EventOversized);
            return SendOutcome::Sent;
        }
        let ghost start = self@;
        let mut o = SendOutcome::Sent;
        if self.batch.len() > 0 && self.batch_would_exceed_limits(event_bytes) {
            o = self.enqueue_batch();
        }
        let ghost mid = self@;
        proof {
            assert(mid == (if start.batch.len() > 0 && exceeds_limits(start.batch, event_bytes as int) {
                enqueue_model(start, o)
            } else {
                start
            }));
            lemma_line_model_ok(start, line@, now, o);
            lemma_payload_push(mid.batch, (line@, now));
        }
        let ghost line_view = line@;
        self.batch_bytes = self.batch_bytes + event_bytes + EVENT_OVERHEAD_BYTES;
        self.batch.push(LogEvent { message: line, timestamp: now });
        proof {
            assert(self@.batch =~= mid.batch.push((line_view, now)));
            assert(self@ == line_model(start, line_view, now, o));
        }
        o
    }

    /// Adds the formatted output of one entry, stamped `now`.
    ///
    /// A shut-down batcher reports `EntryDroppedAfterShutdown` and changes
    /// nothing else; output that is not UTF-8 is reported as `InvalidUtf8`
    /// and dropped. Otherwise each line of the output goes through
    /// [`line_model`] in order, each hand-over ending as the channel decides.
    pub fn push_formatted(&mut self, formatted: Vec<u8>, now: i64)
        requires
            old(self).wf(),
            MAX_EVENT_BYTES + EVENT_OVERHEAD_BYTES + 26 * (formatted@.len() + 1) <= usize::MAX,
        ensures
            final(self).wf(),
            !old(self)@.open ==> final(self)@ == (BatchModel {
                observed: old(self)@.observed.push(CwLogsStreamEvent::EntryDroppedAfterShutdown),
                ..old(self)@
            }),
            old(self)@.open && !valid_utf8(formatted@) ==> final(self)@ == (BatchModel {
                observed: old(self)@.observed.push(CwLogsStreamEvent::InvalidUtf8),
                ..old(self)@
            }),
            old(self)@.open && valid_utf8(formatted@) ==> exists|outs: Seq<SendOutcome>|
                outs.len() == lines_of(decode_utf8(formatted@)).len() && final(self)@
                    == lines_model(old(self)@, lines_of(decode_utf8(formatted@)), now, outs),
    {
        if self.tx.is_none() {
            self.report(CwLogsStreamEvent::EntryDroppedAfterShutdown);
            return;
        }
        let ghost bytes = formatted@;
        let output = match string_from_utf8(formatted) {
            Some(s) => s,
            None => {
                self.report(CwLogsStreamEvent::InvalidUtf8);
                return;
            },
        };
        let lines = split_lines(output.as_str());
        let ghost ls = lines_of(output@);
        let ghost start = self@;
        let ghost b0 = self.batch_bytes as int;
        proof {
            lemma_open_payload_bound(start);
            lemma_lines_weight(output@);
            lemma_decode_len(bytes);
            assert(ls.take(0) =~= Seq::<Seq<char>>::empty());
        }
        let ghost mut outs: Seq<SendOutcome> = Seq::empty();
        let mut i: usize = 0;
        while i < lines.len()
            invariant
                i <= lines.len(),
                lines@.map_values(|l: String| l@) == ls,
                self.wf(),
                outs.len() == i,
                self@ == lines_model(start, ls.take(i as int), now, outs),
                self.batch_bytes <= b0 + 26 * lines_weight(ls.take(i as int)),
                b0 <= MAX_EVENT_BYTES + EVENT_OVERHEAD_BYTES,
                lines_weight(ls) <= bytes.len() + 1,
                MAX_EVENT_BYTES + EVENT_OVERHEAD_BYTES + 26 * (bytes.len() + 1) <= usize::MAX,
            decreases lines.len() - i,
        {
            let line = lines[i].clone();
            proof {
                lemma_weight_take(ls, i as int);
                assert(line@ == ls[i as int]);
            }
            let ghost prev_outs = outs;
            let o = self.push_line(line, now);
            proof {
                outs = outs.push(o);
                assert(ls.take(i + 1).drop_last() =~= ls.take(i as int));
                assert(outs.drop_last() =~= prev_outs);
                assert(ls.take(i + 1).last() == ls[i as int]);
            }
            i = i + 1;
        }
        proof {
            assert(ls.take(lines.len() as int) =~= ls);
        }
    }

    /// Adds the formatted output of one entry, stamped with the current
    /// time: [`Self::push_formatted`] with the clock's reading, whatever it is.
    pub fn next_formatted(&mut self, formatted: Vec<u8>)
        requires
            old(self).wf(),
            MAX_EVENT_BYTES + EVENT_OVERHEAD_BYTES + 26 * (formatted@.len() + 1) <= usize::MAX,
        ensures
            final(self).wf(),
            !old(self)@.open ==> final(self)@ == (BatchModel {
                observed: old(self)@.observed.push(CwLogsStreamEvent::EntryDroppedAfterShutdown),
                ..old(self)@
            }),
            old(self)@.open && !valid_utf8(formatted@) ==> final(self)@ == (BatchModel {
                observed: old(self)@.observed.push(CwLogsStreamEvent::InvalidUtf8),
                ..old(self)@
            }),
            old(self)@.open && valid_utf8(formatted@) ==> exists|now: i64, outs: Seq<SendOutcome>|
                outs.len() == lines_of(decode_utf8(formatted@)).len() && final(self)@
                    == lines_model(old(self)@, lines_of(decode_utf8(formatted@)), now, outs),
            old(self)@.open && valid_utf8(formatted@) ==> exists|
                clock: std::time::SystemTime,
                epoch: std::time::SystemTime,
                outs: Seq<SendOutcome>,
            |
                is_clock_reading(clock) && is_unix_epoch(epoch) && outs.len() == lines_of(decode_utf8(formatted@)).len() && final(self)@
                    == lines_model(
                    old(self)@,
                    lines_of(decode_utf8(formatted@)),
                    millis_between(clock, epoch),
                    outs,
                ),
    {
        let now = unix_millis_now();
        self.push_formatted(formatted, now);
    }

    /// Hands a non-empty batch to the channel.
    pub fn flush(&mut self)
        requires
            old(self).wf(),
        ensures
            final(self).wf(),
            old(self)@.batch.len() == 0 ==> final(self)@ == old(self)@,
            old(self)@.batch.len() > 0 ==> exists|o: SendOutcome|
                final(self)@ == enqueue_model(old(self)@, o),
    {
        if self.batch.len() > 0 {
            let o = self.enqueue_batch();
        }
    }

    /// Hands a non-empty batch to the channel, then stops using the channel,
    /// as dropping the stream does.
    pub fn close(&mut self)
        requires
            old(self).wf(),
        ensures
            final(self).wf(),
            exists|o: SendOutcome| final(self)@ == close_model(old(self)@, o),
    {
        let ghost start = self@;
        let mut o = SendOutcome::Sent;
        if self.batch.len() > 0 {
            o = self.enqueue_batch();
        }
        let ghost mid = self@;
        self.tx = None;
        proof {
            assert(self@.batch == mid.batch);
            assert(self@ == close_model(start, o));
        }
    }
}

/// A batcher's model satisfies the model's invariant.
pub proof fn lemma_batcher_model_ok(b: &LogBatcher)
    requires
        b.wf(),
    ensures
        model_ok(b@),
{
}

} // verus!
