//! Planning the database writes for a batch of received records: the
//! distinct senders and producers to register, and for each record the
//! timestamp and the sender and producer it refers to.

use rustc_hash::{FxBuildHasher, FxHashMap};
use vstd::prelude::*;

verus! {

#[verifier::external_type_specification]
#[verifier::external_body]
pub struct ExFxBuildHasher(FxBuildHasher);

/// An index from texts to their positions in a list.
pub type TextIndex = FxHashMap<String, usize>;

/// What an index from texts to list positions holds.
pub uninterp spec fn fx_index_entries(m: TextIndex) -> Map<Seq<char>, usize>;

/// `FxHashMap::default`: an index that holds nothing.
#[verifier::external_body]
fn fx_index_new() -> (m: TextIndex)
    ensures
        forall|k: Seq<char>| !#[trigger] fx_index_entries(m).contains_key(k),
{
    FxHashMap::default()
}

/// `HashMap::get` on the index: the position stored under the text of
/// `key`, where there is one.
#[verifier::external_body]
fn fx_index_get(m: &TextIndex, key: &str) -> (pos: Option<usize>)
    ensures
        pos == (if fx_index_entries(*m).contains_key(key@) {
            Some(fx_index_entries(*m)[key@])
        } else {
            None
        }),
{
    m.get(key).copied()
}

/// `HashMap::insert` on the index: stores `pos` under the text of `key`,
/// in place of what was stored under it.
#[verifier::external_body]
fn fx_index_insert(m: &mut TextIndex, key: String, pos: usize)
    ensures
        fx_index_entries(*final(m)) == fx_index_entries(*old(m)).insert(key@, pos),
{
    m.insert(key, pos);
}

/// A received record, as the sink stores it.
pub struct StoredLog {
    pub timestamp_utc_usec: u64,
    /// The address of the connection the record came from, as text.
    pub sender: String,
    pub producer: String,
    pub message: String,
}

/// The database row of one record: its timestamp as an SQLite integer and
/// the positions of its sender and producer in the plan's lists.
#[derive(Clone, Copy, PartialEq, Eq, Structural, Debug)]
pub struct PlannedMessage {
    pub timestamp_utc_usec: i64,
    pub sender: usize,
    pub producer: usize,
}

/// The writes for a batch: senders and producers in order of first
/// appearance, each once, and one row for each record, in record order.
pub struct InsertPlan {
    pub senders: Vec<String>,
    pub producers: Vec<String>,
    pub messages: Vec<PlannedMessage>,
}

/// Most records written in one transaction.
pub const LOG_BATCH_MAX_RECORDS: usize = 256;

/// Capacity of the queue between the connections and the database writer.
pub const LOG_CHANNEL_CAPACITY: usize = 8192;

/// Why a batch cannot be written.
#[derive(Clone, Copy, PartialEq, Eq, Structural, Debug)]
pub enum InsertPlanError {
    /// The record at `index` has a timestamp beyond `i64::MAX`, which an
    /// SQLite integer cannot hold.
    TimestampOutOfRange { index: usize },
}

impl InsertPlanError {
    /// The message that describes the error.
    pub fn message(&self) -> (text: String)
        ensures
            text@ == "timestamp_utc_usec does not fit into SQLite INTEGER"@,
    {
        "timestamp_utc_usec does not fit into SQLite INTEGER".to_owned()
    }
}

/// The texts of `v`.
pub open spec fn texts(v: Seq<String>) -> Seq<Seq<char>> {
    v.map_values(|s: String| s@)
}

/// The distinct elements of `s` in order of first appearance.
pub open spec fn first_seen(s: Seq<Seq<char>>) -> Seq<Seq<char>>
    decreases s.len(),
{
    if s.len() == 0 {
        Seq::empty()
    } else {
        let d = first_seen(s.drop_last());
        if d.contains(s.last()) {
            d
        } else {
            d.push(s.last())
        }
    }
}

/// The list of distinct elements holds each element of `s` once, and
/// nothing else.
pub proof fn lemma_first_seen(s: Seq<Seq<char>>)
    ensures
        first_seen(s).no_duplicates(),
        forall|x: Seq<char>| #[trigger] first_seen(s).contains(x) <==> s.contains(x),
    decreases s.len(),
{
    if s.len() > 0 {
        let p = s.drop_last();
        lemma_first_seen(p);
        let d = first_seen(p);
        assert(s =~= p.push(s.last()));
        let f = first_seen(s);
        let y = s.last();
        assert forall|x: Seq<char>| #[trigger] f.contains(x) <==> s.contains(x) by {
            if s.contains(x) {
                let k = choose|k: int| 0 <= k < s.len() && s[k] == x;
                if k < s.len() - 1 {
                    assert(p[k] == x);
                    assert(p.contains(x));
                    assert(d.contains(x));
                    let t = choose|t: int| 0 <= t < d.len() && d[t] == x;
                    if !d.contains(y) {
                        assert(f[t] == x);
                    }
                } else {
                    assert(x == y);
                    if !d.contains(y) {
                        assert(f[d.len() as int] == x);
                    }
                }
            }
            if f.contains(x) {
                let t = choose|t: int| 0 <= t < f.len() && f[t] == x;
                if t < d.len() {
                    assert(d[t] == x);
                    assert(d.contains(x));
                    assert(p.contains(x));
                    let k = choose|k: int| 0 <= k < p.len() && p[k] == x;
                    assert(s[k] == x);
                } else {
                    assert(x == y);
                    assert(s[s.len() - 1] == x);
                }
            }
        }
    }
}

/// The senders of `logs`, in record order.
pub open spec fn senders_of(logs: Seq<StoredLog>) -> Seq<Seq<char>> {
    logs.map_values(|l: StoredLog| l.sender@)
}

/// The producers of `logs`, in record order.
pub open spec fn producers_of(logs: Seq<StoredLog>) -> Seq<Seq<char>> {
    logs.map_values(|l: StoredLog| l.producer@)
}

/// Whether `m` is the row of `log` under the lists `senders` and
/// `producers`.
pub open spec fn planned_row(
    m: PlannedMessage,
    log: StoredLog,
    senders: Seq<String>,
    producers: Seq<String>,
) -> bool {
    &&& m.timestamp_utc_usec as int == log.timestamp_utc_usec as int
    &&& m.sender < senders.len()
    &&& senders[m.sender as int]@ == log.sender@
    &&& m.producer < producers.len()
    &&& producers[m.producer as int]@ == log.producer@
}

/// Whether `plan` is the plan for `logs`.
pub open spec fn plans(plan: InsertPlan, logs: Seq<StoredLog>) -> bool {
    &&& texts(plan.senders@) == first_seen(senders_of(logs))
    &&& texts(plan.producers@) == first_seen(producers_of(logs))
    &&& plan.messages@.len() == logs.len()
    &&& forall|i: int|
        0 <= i < logs.len() ==> planned_row(
            #[trigger] plan.messages@[i],
            logs[i],
            plan.senders@,
            plan.producers@,
        )
}

/// Whether `m` indexes `list`: it holds every text of the list, under its
/// position there, and nothing else.
pub open spec fn indexes(m: Map<Seq<char>, usize>, list: Seq<String>) -> bool {
    &&& forall|k: Seq<char>| #[trigger]
        m.contains_key(k) ==> m[k] < list.len() && list[m[k] as int]@ == k
    &&& forall|j: int| 0 <= j < list.len() ==> #[trigger] m.contains_key(list[j]@)
}

/// Registers `s` in `list`, and in its index, where it is new, and gives
/// its position.
fn intern(
    list: &mut Vec<String>,
    index: &mut TextIndex,
    s: &String,
    ghost_seen: Ghost<Seq<Seq<char>>>,
) -> (pos: usize)
    requires
        texts(old(list)@) == first_seen(ghost_seen@),
        indexes(fx_index_entries(*old(index)), old(list)@),
    ensures
        texts(final(list)@) == first_seen(ghost_seen@.push(s@)),
        indexes(fx_index_entries(*final(index)), final(list)@),
        pos < final(list)@.len(),
        final(list)@[pos as int]@ == s@,
        final(list)@.len() >= old(list)@.len(),
        forall|j: int| 0 <= j < old(list)@.len() ==> final(list)@[j] == old(list)@[j],
{
    let ghost seen = ghost_seen@;
    assert(seen.push(s@).drop_last() =~= seen);
    match fx_index_get(index, s.as_str()) {
        Some(k) => {
            assert(texts(list@)[k as int] == s@);
            k
        },
        None => {
            assert(!texts(list@).contains(s@)) by {
                if texts(list@).contains(s@) {
                    let j = choose|j: int| 0 <= j < texts(list@).len() && texts(list@)[j] == s@;
                    assert(fx_index_entries(*index).contains_key(list@[j]@));
                }
            }
            let ghost before = list@;
            let k = list.len();
            list.push(s.clone());
            fx_index_insert(index, s.clone(), k);
            assert(texts(list@) =~= texts(before).push(s@));
            k
        },
    }
}

/// Plans the writes for `logs`; refused at the first record whose
/// timestamp does not fit in an SQLite integer.
pub fn plan_inserts(logs: &[StoredLog]) -> (res: Result<InsertPlan, InsertPlanError>)
    ensures
        match res {
            Ok(plan) => plans(plan, logs@) && forall|i: int|
                0 <= i < logs@.len() ==> #[trigger] logs@[i].timestamp_utc_usec <= i64::MAX,
            Err(InsertPlanError::TimestampOutOfRange { index }) => {
                &&& index < logs@.len()
                &&& logs@[index as int].timestamp_utc_usec > i64::MAX
                &&& forall|j: int| 0 <= j < index ==> #[trigger] logs@[j].timestamp_utc_usec <= i64::MAX
            },
        },
{
    let mut senders: Vec<String> = Vec::new();
    let mut producers: Vec<String> = Vec::new();
    let mut sender_index = fx_index_new();
    let mut producer_index = fx_index_new();
    let mut messages: Vec<PlannedMessage> = Vec::new();
    let ghost all = logs@;
    let mut i: usize = 0;
    while i < logs.len()
        invariant
            all == logs@,
            i <= all.len(),
            texts(senders@) == first_seen(senders_of(all.take(i as int))),
            texts(producers@) == first_seen(producers_of(all.take(i as int))),
            indexes(fx_index_entries(sender_index), senders@),
            indexes(fx_index_entries(producer_index), producers@),
            messages@.len() == i,
            forall|j: int| 0 <= j < i ==> #[trigger] all[j].timestamp_utc_usec <= i64::MAX,
            forall|j: int|
                0 <= j < i ==> planned_row(#[trigger] messages@[j], all[j], senders@, producers@),
        decreases all.len() - i,
    {
        let log = &logs[i];
        if log.timestamp_utc_usec > 9223372036854775807u64 {
            return Err(InsertPlanError::TimestampOutOfRange { index: i });
        }
        assert(senders_of(all.take(i + 1)) =~= senders_of(all.take(i as int)).push(log.sender@));
        assert(producers_of(all.take(i + 1)) =~= producers_of(all.take(i as int)).push(
            log.producer@,
        ));
        let sender = intern(
            &mut senders,
            &mut sender_index,
            &log.sender,
            Ghost(senders_of(all.take(i as int))),
        );
        let producer = intern(
            &mut producers,
            &mut producer_index,
            &log.producer,
            Ghost(producers_of(all.take(i as int))),
        );
        messages.push(
            PlannedMessage {
                timestamp_utc_usec: log.timestamp_utc_usec as i64,
                sender,
                producer,
            },
        );
        proof {
            assert forall|j: int| 0 <= j < i + 1 implies planned_row(
                #[trigger] messages@[j],
                all[j],
                senders@,
                producers@,
            ) by {
                if j == i {
                    assert(messages@[j] == PlannedMessage {
                        timestamp_utc_usec: log.timestamp_utc_usec as i64,
                        sender,
                        producer,
                    });
                }
            }
        }
        i = i + 1;
    }
    assert(all.take(all.len() as int) =~= all);
    Ok(InsertPlan { senders, producers, messages })
}

} // verus!
