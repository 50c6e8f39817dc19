//! The decisions of the line forwarder's sending loop.
//!
//! Lines read from standard input are queued. The sending loop takes them
//! from the queue, classifies them and gathers them into batches, which it
//! sends once they are large or old enough. While the sink cannot be
//! reached, the queued lines are counted as skipped until the next attempt
//! to reconnect. The loop itself waits on the queue and talks to the sink;
//! what it does next is decided here, from what happened last.

use crate::batch::{spec_batch_step, Batch, BatchStep, Log, SkippedLogs};
use crate::classify::{spec_classify, LogClassifier};
use crate::level::LogLevel;
use vstd::prelude::*;

verus! {

/// A line waiting in the queue, with its approximate size.
pub struct QueuedLog {
    pub log: Log,
    pub approx_bytes: usize,
}

/// What the sending loop learnt since its last step.
pub enum SendEvent {
    /// A line came from the queue.
    Received(QueuedLog),
    /// The wait for a line ran out.
    TimedOut,
    /// The queue was closed: no line will come any more.
    Closed,
    /// The lines handed out by the last step were sent.
    Sent,
}

/// What the sending loop does next.
pub enum SendAction {
    /// Report the skipped lines, if there are any, then wait for a line for
    /// as long as it takes.
    ReportAndWait,
    /// Wait for a line at most this many nanoseconds.
    WaitFor(u128),
    /// Send these lines as one message.
    Send(Vec<Log>),
    /// Send these lines, if there are any, then report the skipped lines;
    /// the session is over.
    Finish(Option<Vec<Log>>),
}

/// A `SendAction` with its lines taken as a sequence.
pub enum SendActionView {
    ReportAndWait,
    WaitFor(u128),
    Send(Seq<Log>),
    Finish(Option<Seq<Log>>),
}

impl View for SendAction {
    type V = SendActionView;

    open spec fn view(&self) -> SendActionView {
        match self {
            SendAction::ReportAndWait => SendActionView::ReportAndWait,
            SendAction::WaitFor(w) => SendActionView::WaitFor(*w),
            SendAction::Send(logs) => SendActionView::Send(logs@),
            SendAction::Finish(None) => SendActionView::Finish(None),
            SendAction::Finish(Some(logs)) => SendActionView::Finish(Some(logs@)),
        }
    }
}

/// What a sending session holds: the lines of the current batch, oldest
/// first, their approximate size, when the batch was started, and the size
/// and age at which a batch is sent.
pub struct SendState {
    pub logs: Seq<Log>,
    pub bytes: usize,
    pub started_ns: u128,
    pub max_batch_bytes: usize,
    pub max_batch_age_ns: u128,
}

/// The time from `started_ns` to `now_ns`, or nothing where the clock
/// reads earlier.
pub open spec fn elapsed_since(started_ns: u128, now_ns: u128) -> u128 {
    if now_ns >= started_ns {
        (now_ns - started_ns) as u128
    } else {
        0
    }
}

/// `log` with the level that `rules` give its text.
pub open spec fn classified(log: Log, rules: Seq<(LogLevel, Seq<char>)>) -> Log {
    Log { level: spec_classify(rules, log.content@), ..log }
}

/// The state with its batch taken out.
pub open spec fn emptied(s: SendState) -> SendState {
    SendState { logs: Seq::empty(), bytes: 0, ..s }
}

/// The decision at `now_ns` about the current batch: with no line, report
/// the skipped lines and wait; else send the batch once it is large or old
/// enough, and wait for the rest of its time otherwise.
pub open spec fn spec_decide(s: SendState, now_ns: u128) -> (SendState, SendActionView) {
    if s.logs.len() == 0 {
        (s, SendActionView::ReportAndWait)
    } else {
        match spec_batch_step(
            s.bytes,
            elapsed_since(s.started_ns, now_ns),
            s.max_batch_bytes,
            s.max_batch_age_ns,
        ) {
            BatchStep::Flush => (emptied(s), SendActionView::Send(s.logs)),
            BatchStep::WaitNanos(w) => (s, SendActionView::WaitFor(w)),
        }
    }
}

/// A line classified by `rules` joins the batch; the first line of a batch
/// starts its clock at `now_ns`.
pub open spec fn spec_add_line(s: SendState, q: QueuedLog, now_ns: u128, rules: Seq<(LogLevel, Seq<char>)>) -> SendState {
    let log = classified(q.log, rules);
    if s.logs.len() == 0 {
        SendState { logs: seq![log], bytes: q.approx_bytes, started_ns: now_ns, ..s }
    } else {
        SendState { logs: s.logs.push(log), bytes: (s.bytes + q.approx_bytes) as usize, ..s }
    }
}

/// One step of the sending loop on `event` at `now_ns`, classifying lines
/// with `rules`.
pub open spec fn spec_send_step(
    s: SendState,
    event: SendEvent,
    now_ns: u128,
    rules: Seq<(LogLevel, Seq<char>)>,
) -> (SendState, SendActionView) {
    match event {
        SendEvent::Received(q) => spec_decide(spec_add_line(s, q, now_ns, rules), now_ns),
        SendEvent::TimedOut => if s.logs.len() == 0 {
            (s, SendActionView::ReportAndWait)
        } else {
            (emptied(s), SendActionView::Send(s.logs))
        },
        SendEvent::Closed => (
            emptied(s),
            SendActionView::Finish(
                if s.logs.len() == 0 {
                    None
                } else {
                    Some(s.logs)
                },
            ),
        ),
        SendEvent::Sent => spec_decide(s, now_ns),
    }
}

/// The lines that `event` brings, classified by `rules`.
pub open spec fn received_lines(event: SendEvent, rules: Seq<(LogLevel, Seq<char>)>) -> Seq<Log> {
    match event {
        SendEvent::Received(q) => seq![classified(q.log, rules)],
        _ => Seq::empty(),
    }
}

/// The lines that `action` sends.
pub open spec fn sent_lines(action: SendActionView) -> Seq<Log> {
    match action {
        SendActionView::Send(logs) => logs,
        SendActionView::Finish(Some(logs)) => logs,
        _ => Seq::empty(),
    }
}

/// No line is lost, duplicated or reordered: what a step sends, followed by
/// the batch it keeps, is the batch it had followed by the line it received.
/// When the queue closes, nothing is kept.
pub proof fn lemma_send_keeps_lines(
    s: SendState,
    event: SendEvent,
    now_ns: u128,
    rules: Seq<(LogLevel, Seq<char>)>,
)
    ensures
        ({
            let (s2, action) = spec_send_step(s, event, now_ns, rules);
            &&& sent_lines(action) + s2.logs == s.logs + received_lines(event, rules)
            &&& event is Closed ==> s2.logs.len() == 0 && action is Finish
            &&& s2.max_batch_bytes == s.max_batch_bytes
            &&& s2.max_batch_age_ns == s.max_batch_age_ns
        }),
{
    let (s2, action) = spec_send_step(s, event, now_ns, rules);
    match event {
        SendEvent::Received(q) => {
            let s1 = spec_add_line(s, q, now_ns, rules);
            assert(s1.logs =~= s.logs + received_lines(event, rules));
            assert(sent_lines(action) + s2.logs =~= s1.logs);
        },
        _ => {
            assert(sent_lines(action) + s2.logs =~= s.logs + received_lines(event, rules));
        },
    }
}

/// No batch is held back once it is large or old enough: after a step the
/// batch is empty, or it is below both limits and the loop waits exactly
/// until it reaches its age.
pub proof fn lemma_send_never_holds_full_batch(
    s: SendState,
    event: SendEvent,
    now_ns: u128,
    rules: Seq<(LogLevel, Seq<char>)>,
)
    ensures
        ({
            let (s2, action) = spec_send_step(s, event, now_ns, rules);
            s2.logs.len() > 0 ==> {
                &&& s2.bytes < s2.max_batch_bytes
                &&& elapsed_since(s2.started_ns, now_ns) < s2.max_batch_age_ns
                &&& action matches SendActionView::WaitFor(w) && elapsed_since(
                    s2.started_ns,
                    now_ns,
                ) + w == s2.max_batch_age_ns
            }
        }),
{
}

/// A line that joins the batch adds its approximate size to the batch's
/// (a first line starts the count), and the batch keeps its lines in order
/// with the new one last. Once the count reaches `max_batch_bytes`, the
/// step sends the whole batch; while the loop waits instead, the batch
/// holds that count.
pub proof fn lemma_send_counts_bytes(
    s: SendState,
    q: QueuedLog,
    now_ns: u128,
    rules: Seq<(LogLevel, Seq<char>)>,
)
    requires
        s.logs.len() > 0 ==> s.bytes + q.approx_bytes <= usize::MAX,
    ensures
        ({
            let (s2, action) = spec_send_step(s, SendEvent::Received(q), now_ns, rules);
            let total = if s.logs.len() == 0 {
                q.approx_bytes as int
            } else {
                s.bytes + q.approx_bytes
            };
            let batch = s.logs.push(classified(q.log, rules));
            &&& total >= s.max_batch_bytes ==> action == SendActionView::Send(batch)
                && s2.logs.len() == 0 && s2.bytes == 0
            &&& action is Send || action is WaitFor
            &&& action matches SendActionView::Send(sent) ==> sent == batch
            &&& action is WaitFor ==> s2.logs == batch && s2.bytes == total
        }),
{
    if s.logs.len() == 0 {
        assert(seq![classified(q.log, rules)] =~= s.logs.push(classified(q.log, rules)));
    }
}

/// A sending session over one connection.
pub struct SendSession {
    batch: Batch,
    started_ns: u128,
}

impl View for SendSession {
    type V = SendState;

    closed spec fn view(&self) -> SendState {
        SendState {
            logs: self.batch.logs(),
            bytes: self.batch.bytes(),
            started_ns: self.started_ns,
            max_batch_bytes: self.batch.max_batch_bytes(),
            max_batch_age_ns: self.batch.max_batch_age_ns(),
        }
    }
}

impl SendSession {
    /// A session with no batch, which sends a batch at `max_batch_bytes`
    /// approximate bytes or at `max_batch_age_ns` nanoseconds of age. Its
    /// loop begins as after any sent batch: it reports the skipped lines and
    /// waits for a line (`SendAction::ReportAndWait`).
    pub fn new(max_batch_bytes: usize, max_batch_age_ns: u128) -> (session: Self)
        ensures
            session@.logs == Seq::<Log>::empty(),
            session@.bytes == 0,
            session@.max_batch_bytes == max_batch_bytes,
            session@.max_batch_age_ns == max_batch_age_ns,
    {
        SendSession { batch: Batch::new(max_batch_bytes, max_batch_age_ns), started_ns: 0 }
    }

    /// The decision about the current batch at `now_ns`.
    fn decide(&mut self, now_ns: u128) -> (action: SendAction)
        ensures
            (final(self)@, action@) == spec_decide(old(self)@, now_ns),
    {
        if self.batch.is_empty() {
            return SendAction::ReportAndWait;
        }
        let elapsed = if now_ns >= self.started_ns {
            now_ns - self.started_ns
        } else {
            0
        };
        match self.batch.next_step(elapsed) {
            BatchStep::Flush => {
                let logs = self.batch.take();
                assert(self@ == emptied(old(self)@));
                SendAction::Send(logs)
            },
            BatchStep::WaitNanos(w) => SendAction::WaitFor(w),
        }
    }

    /// The next action after `event`, which happened at `now_ns`; lines
    /// that arrive are classified with `classifier`.
    pub fn step(&mut self, event: SendEvent, now_ns: u128, classifier: &LogClassifier) -> (action:
        SendAction)
        requires
            old(self)@.logs.len() > 0 ==> (event matches SendEvent::Received(q) ==> old(self)@.bytes
                + q.approx_bytes <= usize::MAX),
        ensures
            (final(self)@, action@) == spec_send_step(old(self)@, event, now_ns, classifier@),
    {
        match event {
            SendEvent::Received(queued) => {
                let ghost q = queued;
                let QueuedLog { mut log, approx_bytes } = queued;
                log.level = classifier.classify(log.content.as_str());
                assert(log == classified(q.log, classifier@));
                if self.batch.is_empty() {
                    self.started_ns = now_ns;
                    self.batch.start(log, approx_bytes);
                } else {
                    self.batch.push(log, approx_bytes);
                }
                assert(self@ == spec_add_line(old(self)@, q, now_ns, classifier@));
                self.decide(now_ns)
            },
            SendEvent::TimedOut => {
                if self.batch.is_empty() {
                    SendAction::ReportAndWait
                } else {
                    let logs = self.batch.take();
                    assert(self@ == emptied(old(self)@));
                    SendAction::Send(logs)
                }
            },
            SendEvent::Closed => {
                let rest = self.batch.finish();
                assert(self@ == emptied(old(self)@));
                SendAction::Finish(rest)
            },
            SendEvent::Sent => self.decide(now_ns),
        }
    }
}

/// What happened while the sender waited to reconnect.
pub enum RetryEvent {
    /// A line came from the queue; it cannot be sent and is skipped.
    Received,
    /// The wait ran out.
    TimedOut,
    /// The queue was closed.
    Closed,
}

/// What the sender does while it waits to reconnect.
#[derive(Clone, Copy, PartialEq, Eq, Structural, Debug)]
pub enum RetryAction {
    /// Try to connect again.
    Reconnect,
    /// Wait for a queued line at most this many nanoseconds.
    WaitFor(u128),
    /// Stop: the queue is closed.
    Stop,
}

/// The wait before the next attempt to connect, which is due at
/// `retry_at_ns`.
pub struct RetryWait {
    pub retry_at_ns: u128,
}

impl RetryWait {
    /// A wait of `delay_ns` from `now_ns`.
    pub fn new(now_ns: u128, delay_ns: u128) -> (wait: Self)
        requires
            now_ns + delay_ns <= u128::MAX,
        ensures
            wait.retry_at_ns == now_ns + delay_ns,
    {
        RetryWait { retry_at_ns: now_ns + delay_ns }
    }

    /// At `now_ns`: reconnect once the attempt is due, else wait for the
    /// rest of the delay.
    pub fn next(&self, now_ns: u128) -> (action: RetryAction)
        ensures
            now_ns >= self.retry_at_ns ==> action == RetryAction::Reconnect,
            now_ns < self.retry_at_ns ==> action == RetryAction::WaitFor(
                (self.retry_at_ns - now_ns) as u128,
            ),
    {
        if now_ns >= self.retry_at_ns {
            RetryAction::Reconnect
        } else {
            RetryAction::WaitFor(self.retry_at_ns - now_ns)
        }
    }

    /// After `event`: a line that came is counted in `skipped` and the wait
    /// goes on (`None`); when the wait ran out the sender reconnects, and
    /// when the queue closed it stops.
    pub fn on_event(&self, event: RetryEvent, skipped: &mut SkippedLogs) -> (action: Option<
        RetryAction,
    >)
        ensures
            event is Received ==> action is None && final(skipped).count() == old(
                skipped,
            ).count().wrapping_add(1),
            event is TimedOut ==> action == Some(RetryAction::Reconnect) && final(skipped).count()
                == old(skipped).count(),
            event is Closed ==> action == Some(RetryAction::Stop) && final(skipped).count() == old(
                skipped,
            ).count(),
    {
        match event {
            RetryEvent::Received => {
                skipped.add(1);
                None
            },
            RetryEvent::TimedOut => Some(RetryAction::Reconnect),
            RetryEvent::Closed => Some(RetryAction::Stop),
        }
    }
}

/// What ended a stage of the sending thread, which connects to the sink,
/// runs a session over the connection, and waits before connecting again.
#[derive(Clone, Copy, PartialEq, Eq, Structural, Debug)]
pub enum ConnectionEvent {
    /// Connecting to the sink failed.
    ConnectFailed,
    /// A session ended: `true` where the queue closed and everything was
    /// sent, `false` where sending failed.
    SessionEnded(bool),
    /// The wait before reconnecting ended: `true` where it ran out, `false`
    /// where the queue closed.
    RetryWaitEnded(bool),
}

/// What the sending thread does next. It begins with `Connect`.
#[derive(Clone, Copy, PartialEq, Eq, Structural, Debug)]
pub enum ConnectionAction {
    /// Connect to the sink and, once connected, run a session.
    Connect,
    /// Drop the connection, if any, and wait before reconnecting, counting
    /// the lines that come meanwhile as skipped.
    WaitToRetry,
    /// Finish the stream to the sink and stop.
    FinishAndStop,
    /// Stop.
    Stop,
}

/// The sending thread's next stage after `event`: a failed connection or
/// session leads to a wait, after which it connects again unless the queue
/// closed; a session that sent everything finishes the stream and ends the
/// thread.
pub fn connection_step(event: ConnectionEvent) -> (action: ConnectionAction)
    ensures
        action == match event {
            ConnectionEvent::ConnectFailed => ConnectionAction::WaitToRetry,
            ConnectionEvent::SessionEnded(true) => ConnectionAction::FinishAndStop,
            ConnectionEvent::SessionEnded(false) => ConnectionAction::WaitToRetry,
            ConnectionEvent::RetryWaitEnded(true) => ConnectionAction::Connect,
            ConnectionEvent::RetryWaitEnded(false) => ConnectionAction::Stop,
        },
{
    match event {
        ConnectionEvent::ConnectFailed => ConnectionAction::WaitToRetry,
        ConnectionEvent::SessionEnded(all_sent) => if all_sent {
            ConnectionAction::FinishAndStop
        } else {
            ConnectionAction::WaitToRetry
        },
        ConnectionEvent::RetryWaitEnded(reconnect) => if reconnect {
            ConnectionAction::Connect
        } else {
            ConnectionAction::Stop
        },
    }
}

} // verus!
