//! Batching of classified log lines before they are sent: a batch is sent
//! once its approximate size reaches a limit or once it has waited long
//! enough.

use crate::level::LogLevel;
use vstd::prelude::*;
use vstd::utf8::encode_utf8;

verus! {

broadcast use vstd::layout::layout_of_primitives;

/// One log line as sent to the sink.
pub struct Log {
    /// When the line was read, in the sender's clock.
    pub occurrence: u64,
    pub level: LogLevel,
    pub content: String,
}

/// The approximate memory cost of a queued line with `content_len` bytes of
/// text: the text, the timestamp, the level and a fixed overhead.
pub open spec fn spec_approx_log_size(content_len: nat) -> nat {
    content_len + 8 + vstd::layout::size_of::<LogLevel>() + 16
}

/// The approximate memory cost of a queued line with the text `content`.
pub fn approx_log_size(content: &str) -> (size: usize)
    requires
        spec_approx_log_size(encode_utf8(content@).len()) <= usize::MAX,
    ensures
        size == spec_approx_log_size(encode_utf8(content@).len()),
{
    content.len() + core::mem::size_of::<u64>() + core::mem::size_of::<LogLevel>() + 16
}

/// What the sender does next with a non-empty batch.
#[derive(Clone, Copy, PartialEq, Eq, Structural, Debug)]
pub enum BatchStep {
    /// Send the batch now.
    Flush,
    /// Wait up to this many nanoseconds for another line.
    WaitNanos(u128),
}

/// The next step for a batch of `bytes` approximate bytes that has waited
/// `elapsed_ns`: send it once it is large or old enough, else wait for the
/// rest of its time.
pub open spec fn spec_batch_step(bytes: usize, elapsed_ns: u128, max_bytes: usize, max_age_ns: u128) -> BatchStep {
    if bytes >= max_bytes || elapsed_ns >= max_age_ns {
        BatchStep::Flush
    } else {
        BatchStep::WaitNanos((max_age_ns - elapsed_ns) as u128)
    }
}

/// Lines waiting to be sent together.
pub struct Batch {
    logs: Vec<Log>,
    bytes: usize,
    max_batch_bytes: usize,
    max_batch_age_ns: u128,
}

impl Batch {
    /// The waiting lines, oldest first.
    pub closed spec fn logs(&self) -> Seq<Log> {
        self.logs@
    }

    /// The approximate size of the waiting lines.
    pub closed spec fn bytes(&self) -> usize {
        self.bytes
    }

    /// The size at which a batch is sent.
    pub closed spec fn max_batch_bytes(&self) -> usize {
        self.max_batch_bytes
    }

    /// The age, in nanoseconds, at which a batch is sent.
    pub closed spec fn max_batch_age_ns(&self) -> u128 {
        self.max_batch_age_ns
    }

    /// An empty batch that is sent at `max_batch_bytes` approximate bytes
    /// or at `max_batch_age_ns` nanoseconds of age.
    pub fn new(max_batch_bytes: usize, max_batch_age_ns: u128) -> (b: Self)
        ensures
            b.logs() == Seq::<Log>::empty(),
            b.bytes() == 0,
            b.max_batch_bytes() == max_batch_bytes,
            b.max_batch_age_ns() == max_batch_age_ns,
    {
        Batch { logs: Vec::new(), bytes: 0, max_batch_bytes, max_batch_age_ns }
    }

    /// Whether no line is waiting.
    pub fn is_empty(&self) -> (empty: bool)
        ensures
            empty == (self.logs().len() == 0),
    {
        self.logs.len() == 0
    }

    /// Starts a batch with its first line, of `approx_bytes` bytes.
    pub fn start(&mut self, log: Log, approx_bytes: usize)
        requires
            old(self).logs().len() == 0,
        ensures
            final(self).logs() == seq![log],
            final(self).bytes() == approx_bytes,
            final(self).max_batch_bytes() == old(self).max_batch_bytes(),
            final(self).max_batch_age_ns() == old(self).max_batch_age_ns(),
    {
        self.logs.push(log);
        self.bytes = approx_bytes;
    }

    /// Adds a line of `approx_bytes` bytes to the batch.
    pub fn push(&mut self, log: Log, approx_bytes: usize)
        requires
            old(self).bytes() + approx_bytes <= usize::MAX,
        ensures
            final(self).logs() == old(self).logs().push(log),
            final(self).bytes() == old(self).bytes() + approx_bytes,
            final(self).max_batch_bytes() == old(self).max_batch_bytes(),
            final(self).max_batch_age_ns() == old(self).max_batch_age_ns(),
    {
        self.logs.push(log);
        self.bytes = self.bytes + approx_bytes;
    }

    /// What to do with the batch after it has waited `elapsed_ns`.
    pub fn next_step(&self, elapsed_ns: u128) -> (step: BatchStep)
        ensures
            step == spec_batch_step(
                self.bytes(),
                elapsed_ns,
                self.max_batch_bytes(),
                self.max_batch_age_ns(),
            ),
    {
        if self.bytes >= self.max_batch_bytes || elapsed_ns >= self.max_batch_age_ns {
            BatchStep::Flush
        } else {
            BatchStep::WaitNanos(self.max_batch_age_ns - elapsed_ns)
        }
    }

    /// Takes the waiting lines, oldest first, leaving the batch empty.
    pub fn take(&mut self) -> (logs: Vec<Log>)
        ensures
            logs@ == old(self).logs(),
            final(self).logs() == Seq::<Log>::empty(),
            final(self).bytes() == 0,
            final(self).max_batch_bytes() == old(self).max_batch_bytes(),
            final(self).max_batch_age_ns() == old(self).max_batch_age_ns(),
    {
        let mut logs = Vec::new();
        std::mem::swap(&mut logs, &mut self.logs);
        self.bytes = 0;
        logs
    }

    /// The lines left when the queue closes: `None` where the batch is
    /// empty, else all of them.
    pub fn finish(&mut self) -> (rest: Option<Vec<Log>>)
        ensures
            match rest {
                Some(logs) => old(self).logs().len() > 0 && logs@ == old(self).logs(),
                None => old(self).logs().len() == 0,
            },
            final(self).logs() == Seq::<Log>::empty(),
            final(self).bytes() == 0,
            final(self).max_batch_bytes() == old(self).max_batch_bytes(),
            final(self).max_batch_age_ns() == old(self).max_batch_age_ns(),
    {
        if self.logs.len() == 0 {
            self.bytes = 0;
            None
        } else {
            Some(self.take())
        }
    }
}

/// A batch is sent once it reaches its size or its age; until then the
/// sender waits exactly the rest of its time.
pub proof fn lemma_batch_step(bytes: usize, elapsed_ns: u128, max_bytes: usize, max_age_ns: u128)
    ensures
        bytes >= max_bytes ==> spec_batch_step(bytes, elapsed_ns, max_bytes, max_age_ns)
            == BatchStep::Flush,
        elapsed_ns >= max_age_ns ==> spec_batch_step(bytes, elapsed_ns, max_bytes, max_age_ns)
            == BatchStep::Flush,
        spec_batch_step(bytes, elapsed_ns, max_bytes, max_age_ns) matches BatchStep::WaitNanos(w)
            ==> w > 0 && elapsed_ns + w == max_age_ns && bytes < max_bytes,
{
}

/// The count of lines skipped while the sink could not take them.
pub struct SkippedLogs {
    count: usize,
}

impl SkippedLogs {
    /// The number of lines skipped and not yet reported.
    pub closed spec fn count(&self) -> usize {
        self.count
    }

    /// No skipped lines.
    pub fn new() -> (s: Self)
        ensures
            s.count() == 0,
    {
        SkippedLogs { count: 0 }
    }

    /// Counts `n` more skipped lines; the count wraps around as an atomic
    /// counter does.
    pub fn add(&mut self, n: usize)
        ensures
            final(self).count() == old(self).count().wrapping_add(n),
    {
        self.count = self.count.wrapping_add(n);
    }

    /// Takes the count for a report: `None` where nothing was skipped, else
    /// the count, which is reset.
    pub fn take_for_report(&mut self) -> (taken: Option<usize>)
        ensures
            old(self).count() == 0 ==> taken is None,
            old(self).count() != 0 ==> taken == Some(old(self).count()),
            final(self).count() == 0,
    {
        let n = self.count;
        self.count = 0;
        if n == 0 {
            None
        } else {
            Some(n)
        }
    }
}

} // verus!
