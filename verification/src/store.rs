//! The buffer between a log collector and the connection to the sink.
//!
//! Records are encoded as they are stored, into a write buffer. A reader
//! drains a read buffer; when it is empty the two buffers trade places. The
//! bytes held by both together are bounded by a budget: a record that would
//! exceed it is dropped and counted, and the count is reported to the sink in
//! a record of its own the next time the buffers trade places.

use crate::clock::now_realtime_usec;
use crate::codec::{lemma_encode_len, serialize_log, serialized_log_len, spec_encode_log, spec_serialized_log_len};
use crate::text::{decimal, push_decimal};
use vstd::prelude::*;
use vstd::utf8::*;

verus! {

/// The producer of the records that report dropped records.
pub open spec fn dropped_log_producer() -> Seq<u8> {
    encode_utf8("trap-daemon"@)
}

/// The text of the record that reports `dropped` dropped records under a
/// budget of `max` bytes.
pub open spec fn dropped_report_text(dropped: u64, max: usize) -> Seq<char> {
    "dropped "@ + decimal(dropped as nat) + " log records because pending buffer exceeded "@
        + decimal(max as nat) + " bytes"@
}

/// The record, stamped `now`, that reports `dropped` dropped records.
pub open spec fn dropped_report(now: u64, dropped: u64, max: usize) -> Seq<u8> {
    spec_encode_log(now, dropped_log_producer(), encode_utf8(dropped_report_text(dropped, max)))
}

/// What a `LogStore` holds: the bytes of the read and write buffers, the
/// number of records dropped since the last report, and the budget.
pub struct StoreState {
    pub read: Seq<u8>,
    pub write: Seq<u8>,
    pub dropped: u64,
    pub max_pending_bytes: usize,
}

impl StoreState {
    /// The bytes waiting to be read, in the order in which they will be read.
    pub open spec fn pending(self) -> Seq<u8> {
        self.read + self.write
    }

    /// Whether a reader has anything to do: bytes to read or drops to report.
    pub open spec fn has_pending(self) -> bool {
        self.pending().len() > 0 || self.dropped > 0
    }

    /// Whether `len` more bytes fit in the budget.
    pub open spec fn fits(self, len: nat) -> bool {
        self.pending().len() + len <= self.max_pending_bytes
    }
}

/// Storing a record: it is appended when it fits in the budget, else it is
/// counted as dropped. The flag tells which.
pub open spec fn spec_store(s: StoreState, timestamp: u64, producer: Seq<u8>, message: Seq<u8>) -> (
    StoreState,
    bool,
) {
    if s.fits(spec_serialized_log_len(producer, message)) {
        (StoreState { write: s.write + spec_encode_log(timestamp, producer, message), ..s }, true)
    } else {
        (StoreState { dropped: s.dropped.wrapping_add(1), ..s }, false)
    }
}

/// Emptying the read buffer once its bytes have been handed on.
pub open spec fn spec_finish_read(s: StoreState) -> StoreState {
    StoreState { read: Seq::empty(), ..s }
}

/// Appending the report of dropped records, stamped `now`, to the write
/// buffer. It is appended when it fits in the budget, or when nothing else is
/// waiting; else the count is kept for a later report.
pub open spec fn spec_report_drops(s: StoreState, now: u64) -> StoreState {
    if s.dropped == 0 {
        s
    } else {
        let report = dropped_report(now, s.dropped, s.max_pending_bytes);
        if s.fits(report.len()) || s.pending().len() == 0 {
            StoreState { write: s.write + report, dropped: 0, ..s }
        } else {
            s
        }
    }
}

/// Reporting drops, then handing the write buffer over to the (empty) read
/// buffer.
pub open spec fn spec_rotate(s: StoreState, now: u64) -> StoreState {
    let r = spec_report_drops(s, now);
    StoreState { read: r.read + r.write, write: Seq::empty(), ..r }
}

/// Reading everything: the read buffer, then, after a rotation at `now`, what
/// the write buffer held. Gives the new state and the bytes read.
pub open spec fn spec_read_into(s: StoreState, now: u64) -> (StoreState, Seq<u8>) {
    let s1 = spec_finish_read(s);
    let s2 = spec_rotate(s1, now);
    (spec_finish_read(s2), s.read + s2.read)
}

/// A stored record keeps the buffered bytes within the budget; a record that
/// does not fit changes no buffered byte and is counted as dropped.
pub proof fn lemma_store_budget(s: StoreState, timestamp: u64, producer: Seq<u8>, message: Seq<u8>)
    ensures
        ({
            let (s2, stored) = spec_store(s, timestamp, producer, message);
            &&& stored ==> s2.pending() == s.pending() + spec_encode_log(timestamp, producer, message)
            &&& stored ==> s2.pending().len() <= s.max_pending_bytes
            &&& stored ==> s2.dropped == s.dropped
            &&& !stored ==> s2.pending() == s.pending()
            &&& !stored ==> s2.dropped == s.dropped.wrapping_add(1)
            &&& s2.max_pending_bytes == s.max_pending_bytes
        }),
{
    lemma_encode_len(timestamp, producer, message);
}

/// Reading gives back every buffered byte, in order, followed by the drop
/// report when one is due, and leaves both buffers empty. A drop count is
/// either reported and reset, or kept whole; with nothing else buffered it is
/// always reported.
pub proof fn lemma_read_gives_back_pending(s: StoreState, now: u64)
    ensures
        ({
            let (s2, out) = spec_read_into(s, now);
            let report = dropped_report(now, s.dropped, s.max_pending_bytes);
            &&& s2.pending().len() == 0
            &&& s2.max_pending_bytes == s.max_pending_bytes
            &&& s.dropped == 0 ==> out == s.pending() && s2.dropped == 0
            &&& s.dropped != 0 ==> (out == s.pending() + report && s2.dropped == 0) || (out
                == s.pending() && s2.dropped == s.dropped)
            &&& s.dropped != 0 && s.pending().len() == 0 ==> out == report && s2.dropped == 0
            &&& !s2.has_pending() <== s2.dropped == 0
        }),
{
}

/// A drop report that fits in the budget beside the buffered bytes is not
/// held back: a read gives the buffered bytes followed by the report,
/// stamped with the time of the read, the drop count starts again from
/// zero, and nothing is left pending.
pub proof fn lemma_report_when_it_fits(s: StoreState, now: u64)
    requires
        s.dropped != 0,
        s.pending().len() + dropped_report(now, s.dropped, s.max_pending_bytes).len()
            <= s.max_pending_bytes,
    ensures
        ({
            let (s2, out) = spec_read_into(s, now);
            &&& out == s.pending() + dropped_report(now, s.dropped, s.max_pending_bytes)
            &&& s2.dropped == 0
            &&& !s2.has_pending()
        }),
{
    let (s2, out) = spec_read_into(s, now);
    let report = dropped_report(now, s.dropped, s.max_pending_bytes);
    assert(out =~= s.pending() + report);
    assert(s2.pending() =~= Seq::<u8>::empty());
}

/// A stored record is read back after everything that was buffered before
/// it; only a drop report may follow it, and with no drops to report
/// nothing does.
pub proof fn lemma_store_then_read(
    s: StoreState,
    timestamp: u64,
    producer: Seq<u8>,
    message: Seq<u8>,
    now: u64,
)
    requires
        spec_store(s, timestamp, producer, message).1,
    ensures
        ({
            let out = spec_read_into(spec_store(s, timestamp, producer, message).0, now).1;
            let expected = s.pending() + spec_encode_log(timestamp, producer, message);
            &&& out.len() >= expected.len()
            &&& out.subrange(0, expected.len() as int) == expected
            &&& s.dropped == 0 ==> out == expected
        }),
{
    let s2 = spec_store(s, timestamp, producer, message).0;
    lemma_store_budget(s, timestamp, producer, message);
    lemma_read_gives_back_pending(s2, now);
    let out = spec_read_into(s2, now).1;
    let expected = s.pending() + spec_encode_log(timestamp, producer, message);
    assert(out.subrange(0, expected.len() as int) =~= expected);
}

/// Storing `records` (timestamp, producer, message) one after another,
/// from the first: the state after the last, and whether every one was
/// stored.
pub open spec fn spec_store_all(s: StoreState, records: Seq<(u64, Seq<u8>, Seq<u8>)>) -> (
    StoreState,
    bool,
)
    decreases records.len(),
{
    if records.len() == 0 {
        (s, true)
    } else {
        let (s1, all) = spec_store_all(s, records.drop_last());
        let r = records.last();
        let (s2, stored) = spec_store(s1, r.0, r.1, r.2);
        (s2, all && stored)
    }
}

/// The encodings of `records`, one after another.
pub open spec fn encode_all(records: Seq<(u64, Seq<u8>, Seq<u8>)>) -> Seq<u8>
    decreases records.len(),
{
    if records.len() == 0 {
        Seq::empty()
    } else {
        let r = records.last();
        encode_all(records.drop_last()) + spec_encode_log(r.0, r.1, r.2)
    }
}

/// The sum of the encoded lengths of `records`.
pub open spec fn serialized_len_all(records: Seq<(u64, Seq<u8>, Seq<u8>)>) -> nat
    decreases records.len(),
{
    if records.len() == 0 {
        0
    } else {
        let r = records.last();
        serialized_len_all(records.drop_last()) + spec_serialized_log_len(r.1, r.2)
    }
}

/// Records that are all stored are appended, in order, behind what was
/// buffered, and change neither the drop count nor the budget.
proof fn lemma_store_all(s: StoreState, records: Seq<(u64, Seq<u8>, Seq<u8>)>)
    requires
        spec_store_all(s, records).1,
    ensures
        spec_store_all(s, records).0.pending() == s.pending() + encode_all(records),
        spec_store_all(s, records).0.dropped == s.dropped,
        spec_store_all(s, records).0.max_pending_bytes == s.max_pending_bytes,
        encode_all(records).len() == serialized_len_all(records),
    decreases records.len(),
{
    if records.len() > 0 {
        let p = records.drop_last();
        let r = records.last();
        lemma_store_all(s, p);
        let s1 = spec_store_all(s, p).0;
        lemma_store_budget(s1, r.0, r.1, r.2);
        lemma_encode_len(r.0, r.1, r.2);
        assert(s.pending() + encode_all(p) + spec_encode_log(r.0, r.1, r.2) =~= s.pending() + (
        encode_all(p) + spec_encode_log(r.0, r.1, r.2)));
    }
}

/// After any number of records were all stored, a read gives back what was
/// buffered before them followed by their encodings in the order they were
/// stored, `serialized_len_all` bytes of them; only a drop report may follow.
/// With no drops to report the read gives exactly that, leaves nothing
/// pending, and a further read gives nothing.
pub proof fn lemma_stores_then_read(
    s: StoreState,
    records: Seq<(u64, Seq<u8>, Seq<u8>)>,
    now: u64,
    later: u64,
)
    requires
        spec_store_all(s, records).1,
    ensures
        ({
            let s2 = spec_store_all(s, records).0;
            let (s3, out) = spec_read_into(s2, now);
            let expected = s.pending() + encode_all(records);
            &&& encode_all(records).len() == serialized_len_all(records)
            &&& out.len() >= expected.len()
            &&& out.subrange(0, expected.len() as int) == expected
            &&& s.dropped == 0 ==> {
                &&& out == expected
                &&& !s3.has_pending()
                &&& spec_read_into(s3, later).1 == Seq::<u8>::empty()
            }
        }),
{
    lemma_store_all(s, records);
    let s2 = spec_store_all(s, records).0;
    lemma_read_gives_back_pending(s2, now);
    let (s3, out) = spec_read_into(s2, now);
    lemma_read_gives_back_pending(s3, later);
    let expected = s.pending() + encode_all(records);
    assert(out.subrange(0, expected.len() as int) =~= expected);
    if s.dropped == 0 {
        assert(s3.pending() =~= Seq::<u8>::empty());
    }
}

/// A bounded buffer of encoded records.
pub struct LogStore {
    write_store: Vec<u8>,
    read_store: Vec<u8>,
    max_pending_bytes: usize,
    dropped_records: u64,
}

impl View for LogStore {
    type V = StoreState;

    closed spec fn view(&self) -> StoreState {
        StoreState {
            read: self.read_store@,
            write: self.write_store@,
            dropped: self.dropped_records,
            max_pending_bytes: self.max_pending_bytes,
        }
    }
}

/// The bytes `"trap-daemon"`, the producer of drop reports.
fn dropped_log_producer_bytes() -> (b: &'static [u8])
    ensures
        b@ == dropped_log_producer(),
{
    "trap-daemon".as_bytes()
}

/// The text of the report of `dropped` dropped records.
fn dropped_report_message(dropped: u64, max: usize) -> (s: String)
    ensures
        s@ == dropped_report_text(dropped, max),
{
    let mut s = "dropped ".to_owned();
    push_decimal(&mut s, dropped);
    s.append(" log records because pending buffer exceeded ");
    push_decimal(&mut s, max as u64);
    s.append(" bytes");
    s
}

/// Whether `len` more bytes fit next to `pending` bytes under the budget
/// `max`.
fn fits(pending: usize, max: usize, len: usize) -> (ok: bool)
    ensures
        ok == (pending + len <= max),
{
    if len > max {
        return false;
    }
    match pending.checked_add(len) {
        None => false,
        Some(next) => next <= max,
    }
}

impl LogStore {
    /// The buffered bytes can be counted in a `usize`.
    #[verifier::type_invariant]
    closed spec fn countable(self) -> bool {
        self.read_store@.len() + self.write_store@.len() <= usize::MAX
    }

    /// The number of buffered bytes.
    fn pending_bytes(&self) -> (n: usize)
        ensures
            n == self@.pending().len(),
    {
        proof {
            use_type_invariant(self);
        }
        self.read_store.len() + self.write_store.len()
    }

    /// Appends the record for `timestamp`, `producer` and `message` to the
    /// write buffer, where the budget was found to allow it.
    fn append_record(&mut self, timestamp: u64, producer: &[u8], message: &[u8])
        requires
            old(self)@.pending().len() + spec_serialized_log_len(producer@, message@)
                <= usize::MAX,
        ensures
            final(self)@ == (StoreState {
                write: old(self)@.write + spec_encode_log(timestamp, producer@, message@),
                ..old(self)@
            }),
    {
        let mut buffer = Vec::new();
        std::mem::swap(&mut buffer, &mut self.write_store);
        serialize_log(&mut buffer, timestamp, producer, message);
        self.write_store = buffer;
    }

    /// An empty store with a budget of `max_pending_bytes` bytes.
    pub fn new(max_pending_bytes: usize) -> (store: Self)
        ensures
            store@ == (StoreState {
                read: Seq::empty(),
                write: Seq::empty(),
                dropped: 0,
                max_pending_bytes,
            }),
    {
        LogStore {
            write_store: Vec::with_capacity(8 * 8192),
            read_store: Vec::with_capacity(8 * 8192),
            max_pending_bytes,
            dropped_records: 0,
        }
    }

    /// Stores the record for `timestamp`, `producer` and `message`. Returns
    /// `false`, and counts the record as dropped, when it does not fit in
    /// the budget.
    pub fn store(&mut self, timestamp: u64, producer: &[u8], message: &[u8]) -> (stored: bool)
        ensures
            (final(self)@, stored) == spec_store(old(self)@, timestamp, producer@, message@),
    {
        let len = serialized_log_len(producer, message);
        if !fits(self.pending_bytes(), self.max_pending_bytes, len) {
            self.dropped_records = self.dropped_records.wrapping_add(1);
            return false;
        }
        self.append_record(timestamp, producer, message);
        true
    }

    /// Whether there are bytes to read or drops to report.
    pub fn has_pending(&self) -> (pending: bool)
        ensures
            pending == self@.has_pending(),
    {
        self.pending_bytes() > 0 || self.dropped_records > 0
    }

    /// The bytes of the read buffer, to be handed on before `finish_read`.
    pub fn read_buffer(&self) -> (bytes: &[u8])
        ensures
            bytes@ == self@.read,
    {
        self.read_store.as_slice()
    }

    /// Empties the read buffer after its bytes were handed on, and gives
    /// their count back to the budget.
    pub fn finish_read(&mut self) -> (released: usize)
        ensures
            final(self)@ == spec_finish_read(old(self)@),
            released == old(self)@.read.len(),
    {
        proof {
            use_type_invariant(&*self);
        }
        let mut buffer = Vec::new();
        std::mem::swap(&mut buffer, &mut self.read_store);
        let len = buffer.len();
        buffer.clear();
        self.read_store = buffer;
        len
    }

    /// Appends the report of dropped records, stamped `now`, when there are
    /// drops to report and it can be reserved: within the budget, or beyond
    /// it when nothing else is buffered.
    fn append_dropped_report_at(&mut self, now: u64)
        ensures
            final(self)@ == spec_report_drops(old(self)@, now),
    {
        let dropped = self.dropped_records;
        if dropped == 0 {
            return;
        }
        let message = dropped_report_message(dropped, self.max_pending_bytes);
        let message_bytes = message.as_str().as_bytes();
        let producer = dropped_log_producer_bytes();
        let len = serialized_log_len(producer, message_bytes);
        let pending = self.pending_bytes();
        if !(fits(pending, self.max_pending_bytes, len) || pending == 0) {
            return;
        }
        self.dropped_records = 0;
        self.append_record(now, producer, message_bytes);
    }

    /// Reports drops with the time `now`, then hands the write buffer over to
    /// the read buffer, which must be empty.
    pub fn rotate_at(&mut self, now: u64)
        requires
            old(self)@.read.len() == 0,
        ensures
            final(self)@ == spec_rotate(old(self)@, now),
    {
        self.append_dropped_report_at(now);
        if self.write_store.len() == 0 {
            assert(self@.read + self@.write =~= Seq::<u8>::empty());
            return;
        }
        std::mem::swap(&mut self.write_store, &mut self.read_store);
        assert(self@.write =~= Seq::<u8>::empty());
        assert(self@.read =~= spec_report_drops(old(self)@, now).read + spec_report_drops(
            old(self)@,
            now,
        ).write);
    }

    /// Reports drops with the current time, then hands the write buffer over
    /// to the read buffer, which must be empty.
    pub fn rotate(&mut self)
        requires
            old(self)@.read.len() == 0,
        ensures
            exists|now: u64| final(self)@ == spec_rotate(old(self)@, now),
    {
        let now = now_realtime_usec();
        self.rotate_at(now);
    }

    /// Appends everything there is to read to `dst`, reporting drops with
    /// the time `now`, and returns the number of bytes appended.
    pub fn read_into_at(&mut self, dst: &mut Vec<u8>, now: u64) -> (written: usize)
        ensures
            final(self)@ == spec_read_into(old(self)@, now).0,
            final(dst)@ == old(dst)@ + spec_read_into(old(self)@, now).1,
            written == spec_read_into(old(self)@, now).1.len(),
    {
        dst.extend_from_slice(self.read_buffer());
        let first = self.finish_read();
        self.rotate_at(now);
        dst.extend_from_slice(self.read_buffer());
        let second = self.finish_read();
        // Both counts now stand in `dst`, whose length is a `usize`.
        let total_len = dst.len();
        assert(first + second <= total_len);
        first + second
    }

    /// Appends everything there is to read to `dst`, reporting drops with
    /// the current time, and returns the number of bytes appended.
    pub fn read_into(&mut self, dst: &mut Vec<u8>) -> (written: usize)
        ensures
            exists|now: u64|
                {
                    &&& final(self)@ == spec_read_into(old(self)@, now).0
                    &&& final(dst)@ == old(dst)@ + spec_read_into(old(self)@, now).1
                    &&& written == spec_read_into(old(self)@, now).1.len()
                },
    {
        let now = now_realtime_usec();
        self.read_into_at(dst, now)
    }
}

} // verus!
