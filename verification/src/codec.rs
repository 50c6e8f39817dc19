//! The binary record format that carries one log entry from a producer to
//! the sink:
//!
//! ```text
//! timestamp: u64 little endian (8 bytes)
//! producer length: u8 (1 byte)
//! producer bytes
//! message length: u16 little endian (2 bytes)
//! message bytes
//! ```
//!
//! A producer longer than `MAX_PRODUCER_SIZE` bytes and a message longer than
//! `MAX_MESSAGE_SIZE` bytes are cut to that size before they are written.

use vstd::prelude::*;
use vstd::utf8::*;

verus! {

/// Longest producer name a record can carry, in bytes.
pub const MAX_PRODUCER_SIZE: usize = 255;

/// Longest message a record can carry, in bytes.
pub const MAX_MESSAGE_SIZE: usize = 65535;

/// Fixed part of a record: timestamp, producer length and message length.
pub const LOG_HEADER_SIZE: usize = 11;

/// `s` cut to at most `max` elements.
pub open spec fn truncated(s: Seq<u8>, max: nat) -> Seq<u8> {
    if s.len() <= max {
        s
    } else {
        s.take(max as int)
    }
}

/// The little-endian encoding of `x`.
pub open spec fn u64_le_bytes(x: u64) -> Seq<u8> {
    seq![
        (x & 0xff) as u8,
        ((x >> 8) & 0xff) as u8,
        ((x >> 16) & 0xff) as u8,
        ((x >> 24) & 0xff) as u8,
        ((x >> 32) & 0xff) as u8,
        ((x >> 40) & 0xff) as u8,
        ((x >> 48) & 0xff) as u8,
        ((x >> 56) & 0xff) as u8,
    ]
}

/// The value of eight bytes read in little-endian order.
pub open spec fn u64_from_le(b0: u8, b1: u8, b2: u8, b3: u8, b4: u8, b5: u8, b6: u8, b7: u8) -> u64 {
    (b0 as u64) | ((b1 as u64) << 8) | ((b2 as u64) << 16) | ((b3 as u64) << 24) | ((b4 as u64)
        << 32) | ((b5 as u64) << 40) | ((b6 as u64) << 48) | ((b7 as u64) << 56)
}

/// The value of the first eight bytes of `b`, read in little-endian order.
pub open spec fn u64_from_le_bytes(b: Seq<u8>) -> u64 {
    u64_from_le(b[0], b[1], b[2], b[3], b[4], b[5], b[6], b[7])
}

/// The little-endian encoding of `x`.
pub open spec fn u16_le_bytes(x: u16) -> Seq<u8> {
    seq![(x & 0xff) as u8, (x >> 8) as u8]
}

/// The value of two bytes read in little-endian order.
pub open spec fn u16_from_le(b0: u8, b1: u8) -> u16 {
    (b0 as u16) | ((b1 as u16) << 8)
}

/// The number of bytes of the record that carries `producer` and `message`.
pub open spec fn spec_serialized_log_len(producer: Seq<u8>, message: Seq<u8>) -> nat {
    LOG_HEADER_SIZE as nat + truncated(producer, MAX_PRODUCER_SIZE as nat).len() + truncated(
        message,
        MAX_MESSAGE_SIZE as nat,
    ).len()
}

/// The record that carries `timestamp`, `producer` and `message`.
pub open spec fn spec_encode_log(timestamp: u64, producer: Seq<u8>, message: Seq<u8>) -> Seq<u8> {
    let p = truncated(producer, MAX_PRODUCER_SIZE as nat);
    let m = truncated(message, MAX_MESSAGE_SIZE as nat);
    u64_le_bytes(timestamp) + seq![p.len() as u8] + p + u16_le_bytes(m.len() as u16) + m
}

/// Returns how many bytes the record for `producer` and `message` takes.
pub fn serialized_log_len(producer: &[u8], message: &[u8]) -> (len: usize)
    ensures
        len == spec_serialized_log_len(producer@, message@),
{
    let p = if producer.len() < MAX_PRODUCER_SIZE { producer.len() } else { MAX_PRODUCER_SIZE };
    let m = if message.len() < MAX_MESSAGE_SIZE { message.len() } else { MAX_MESSAGE_SIZE };
    LOG_HEADER_SIZE + p + m
}


proof fn lemma_u64_le_roundtrip(x: u64)
    by (bit_vector)
    ensures
        u64_from_le(
            (x & 0xff) as u8,
            ((x >> 8) & 0xff) as u8,
            ((x >> 16) & 0xff) as u8,
            ((x >> 24) & 0xff) as u8,
            ((x >> 32) & 0xff) as u8,
            ((x >> 40) & 0xff) as u8,
            ((x >> 48) & 0xff) as u8,
            ((x >> 56) & 0xff) as u8,
        ) == x,
{
}

proof fn lemma_u16_le_roundtrip(x: u16)
    by (bit_vector)
    ensures
        u16_from_le((x & 0xff) as u8, (x >> 8) as u8) == x,
{
}

proof fn lemma_u64_le_canonical(b0: u8, b1: u8, b2: u8, b3: u8, b4: u8, b5: u8, b6: u8, b7: u8)
    by (bit_vector)
    ensures
        (u64_from_le(b0, b1, b2, b3, b4, b5, b6, b7) & 0xff) as u8 == b0,
        ((u64_from_le(b0, b1, b2, b3, b4, b5, b6, b7) >> 8) & 0xff) as u8 == b1,
        ((u64_from_le(b0, b1, b2, b3, b4, b5, b6, b7) >> 16) & 0xff) as u8 == b2,
        ((u64_from_le(b0, b1, b2, b3, b4, b5, b6, b7) >> 24) & 0xff) as u8 == b3,
        ((u64_from_le(b0, b1, b2, b3, b4, b5, b6, b7) >> 32) & 0xff) as u8 == b4,
        ((u64_from_le(b0, b1, b2, b3, b4, b5, b6, b7) >> 40) & 0xff) as u8 == b5,
        ((u64_from_le(b0, b1, b2, b3, b4, b5, b6, b7) >> 48) & 0xff) as u8 == b6,
        ((u64_from_le(b0, b1, b2, b3, b4, b5, b6, b7) >> 56) & 0xff) as u8 == b7,
{
}

proof fn lemma_u16_le_canonical(b0: u8, b1: u8)
    by (bit_vector)
    ensures
        (u16_from_le(b0, b1) & 0xff) as u8 == b0,
        (u16_from_le(b0, b1) >> 8) as u8 == b1,
{
}

/// Appends the little-endian encoding of `x` to `dst`.
fn push_u64_le(dst: &mut Vec<u8>, x: u64)
    ensures
        final(dst)@ == old(dst)@ + u64_le_bytes(x),
{
    dst.push((x & 0xff) as u8);
    dst.push(((x >> 8) & 0xff) as u8);
    dst.push(((x >> 16) & 0xff) as u8);
    dst.push(((x >> 24) & 0xff) as u8);
    dst.push(((x >> 32) & 0xff) as u8);
    dst.push(((x >> 40) & 0xff) as u8);
    dst.push(((x >> 48) & 0xff) as u8);
    dst.push(((x >> 56) & 0xff) as u8);
}

/// Appends the first `n` bytes of `src` to `dst`.
fn push_prefix(dst: &mut Vec<u8>, src: &[u8], n: usize)
    requires
        n <= src@.len(),
    ensures
        final(dst)@ == old(dst)@ + src@.take(n as int),
{
    let mut i: usize = 0;
    while i < n
        invariant
            i <= n,
            n <= src@.len(),
            dst@ == old(dst)@ + src@.take(i as int),
        decreases n - i,
    {
        dst.push(src[i]);
        i = i + 1;
    }
}

/// Appends the record for `timestamp`, `producer` and `message` to `dst` and
/// returns how many bytes it appended.
///
/// A producer longer than `MAX_PRODUCER_SIZE` bytes and a message longer than
/// `MAX_MESSAGE_SIZE` bytes are cut to that size.
pub fn serialize_log(dst: &mut Vec<u8>, timestamp: u64, producer: &[u8], message: &[u8]) -> (written: usize)
    ensures
        final(dst)@ == old(dst)@ + spec_encode_log(timestamp, producer@, message@),
        written == spec_serialized_log_len(producer@, message@),
        written == spec_encode_log(timestamp, producer@, message@).len(),
{
    let producer_len: usize = if producer.len() < MAX_PRODUCER_SIZE {
        producer.len()
    } else {
        MAX_PRODUCER_SIZE
    };
    let message_len: usize = if message.len() < MAX_MESSAGE_SIZE {
        message.len()
    } else {
        MAX_MESSAGE_SIZE
    };
    let ghost p = truncated(producer@, MAX_PRODUCER_SIZE as nat);
    let ghost m = truncated(message@, MAX_MESSAGE_SIZE as nat);

    push_u64_le(dst, timestamp);
    dst.push(producer_len as u8);
    push_prefix(dst, producer, producer_len);
    let ml: u16 = message_len as u16;
    dst.push((ml & 0xff) as u8);
    dst.push((ml >> 8) as u8);
    push_prefix(dst, message, message_len);
    LOG_HEADER_SIZE + producer_len + message_len
}


/// What `String::from_utf8_lossy` makes of `bytes`: the text they encode,
/// with each invalid sequence replaced by U+FFFD.
pub uninterp spec fn utf8_lossy(bytes: Seq<u8>) -> Seq<char>;

/// Decodes `bytes` as UTF-8 with `String::from_utf8_lossy`. The contract
/// names the result and states what its documentation promises: valid
/// UTF-8 comes back unchanged.
#[verifier::external_body]
fn string_from_utf8_lossy(bytes: &[u8]) -> (text: String)
    ensures
        text@ == utf8_lossy(bytes@),
        valid_utf8(bytes@) ==> text@ == decode_utf8(bytes@),
{
    String::from_utf8_lossy(bytes).into_owned()
}

/// One decoded record.
pub struct OwnedLog {
    pub timestamp: u64,
    pub producer: String,
    pub message: String,
}

/// Why a record could not be decoded.
#[derive(PartialEq, Eq, Debug, Clone, Copy)]
pub enum LogDecodeError {
    /// The input ends inside the record; `needed` bytes are the least that
    /// the record is known to take.
    UnexpectedEof { needed: usize },
}

/// The record at the start of `b`: its timestamp, producer bytes, message
/// bytes and length; or, where `b` ends inside it, the least length that
/// the record is known to take from what `b` holds.
pub open spec fn spec_frame(b: Seq<u8>) -> Result<(u64, Seq<u8>, Seq<u8>, nat), nat> {
    if b.len() < 9 {
        Err(9)
    } else {
        let p = b[8] as int;
        if b.len() < 11 + p {
            Err((11 + p) as nat)
        } else {
            let m = u16_from_le(b[9 + p], b[10 + p]) as int;
            if b.len() < 11 + p + m {
                Err((11 + p + m) as nat)
            } else {
                Ok(
                    (
                        u64_from_le_bytes(b),
                        b.subrange(9, 9 + p),
                        b.subrange(11 + p, 11 + p + m),
                        (11 + p + m) as nat,
                    ),
                )
            }
        }
    }
}

/// Decodes the record at the start of `src` and returns it with the number
/// of bytes it took. Producer and message are decoded as UTF-8, invalid
/// sequences replaced by U+FFFD.
pub fn deserialize_log(src: &[u8]) -> (res: Result<(OwnedLog, usize), LogDecodeError>)
    ensures
        match spec_frame(src@) {
            Ok((t, p, m, n)) => res matches Ok((log, k)) && {
                &&& log.timestamp == t
                &&& log.producer@ == utf8_lossy(p)
                &&& log.message@ == utf8_lossy(m)
                &&& valid_utf8(p) ==> log.producer@ == decode_utf8(p)
                &&& valid_utf8(m) ==> log.message@ == decode_utf8(m)
                &&& k == n
            },
            Err(needed) => res == Err::<(OwnedLog, usize), _>(
                LogDecodeError::UnexpectedEof { needed: needed as usize },
            ),
        },
{
    if src.len() < 9 {
        return Err(LogDecodeError::UnexpectedEof { needed: 9 });
    }
    let timestamp: u64 = (src[0] as u64) | ((src[1] as u64) << 8) | ((src[2] as u64) << 16) | ((
    src[3] as u64) << 24) | ((src[4] as u64) << 32) | ((src[5] as u64) << 40) | ((src[6] as u64)
        << 48) | ((src[7] as u64) << 56);
    let producer_len = src[8] as usize;
    if src.len() < 11 + producer_len {
        return Err(LogDecodeError::UnexpectedEof { needed: 11 + producer_len });
    }
    let message_len = ((src[9 + producer_len] as u16) | ((src[10 + producer_len] as u16) << 8)) as usize;
    let end = 11 + producer_len + message_len;
    if src.len() < end {
        return Err(LogDecodeError::UnexpectedEof { needed: end });
    }
    let producer = string_from_utf8_lossy(&src[9..9 + producer_len]);
    let message = string_from_utf8_lossy(&src[11 + producer_len..end]);
    Ok((OwnedLog { timestamp, producer, message }, end))
}

/// A record takes `spec_serialized_log_len` bytes.
pub proof fn lemma_encode_len(timestamp: u64, producer: Seq<u8>, message: Seq<u8>)
    ensures
        spec_encode_log(timestamp, producer, message).len() == spec_serialized_log_len(
            producer,
            message,
        ),
{
}

/// A record decodes to what was encoded: the timestamp, and producer and
/// message cut to their size limits, whatever bytes follow it.
pub proof fn lemma_decode_encoded(timestamp: u64, producer: Seq<u8>, message: Seq<u8>, rest: Seq<u8>)
    ensures
        spec_frame(spec_encode_log(timestamp, producer, message) + rest) == Ok::<_, nat>(
            (
                timestamp,
                truncated(producer, MAX_PRODUCER_SIZE as nat),
                truncated(message, MAX_MESSAGE_SIZE as nat),
                spec_serialized_log_len(producer, message),
            ),
        ),
{
    let p = truncated(producer, MAX_PRODUCER_SIZE as nat);
    let m = truncated(message, MAX_MESSAGE_SIZE as nat);
    let e = spec_encode_log(timestamp, producer, message);
    let b = e + rest;
    let pl = p.len() as u8;
    let ml = m.len() as u16;
    lemma_u64_le_roundtrip(timestamp);
    lemma_u16_le_roundtrip(ml);
    let pi = p.len() as int;
    let mi = m.len() as int;
    assert(b.subrange(9, 9 + pi) =~= p);
    assert(b.subrange(11 + pi, 11 + pi + mi) =~= m);
}

/// Text that fits in a record comes back unchanged: the producer and
/// message of a record made from the UTF-8 encodings of `producer` and
/// `message` decode to those texts, which `deserialize_log` then returns.
pub proof fn lemma_text_roundtrip(timestamp: u64, producer: Seq<char>, message: Seq<char>, rest: Seq<u8>)
    requires
        encode_utf8(producer).len() <= MAX_PRODUCER_SIZE,
        encode_utf8(message).len() <= MAX_MESSAGE_SIZE,
    ensures
        ({
            let b = spec_encode_log(timestamp, encode_utf8(producer), encode_utf8(message)) + rest;
            &&& spec_frame(b) is Ok
            &&& spec_frame(b)->Ok_0.0 == timestamp
            &&& valid_utf8(spec_frame(b)->Ok_0.1)
            &&& decode_utf8(spec_frame(b)->Ok_0.1) == producer
            &&& valid_utf8(spec_frame(b)->Ok_0.2)
            &&& decode_utf8(spec_frame(b)->Ok_0.2) == message
        }),
{
    lemma_decode_encoded(timestamp, encode_utf8(producer), encode_utf8(message), rest);
    encode_utf8_valid_utf8(producer);
    encode_utf8_valid_utf8(message);
    encode_utf8_decode_utf8(producer);
    encode_utf8_decode_utf8(message);
}

/// A decoded record is exactly the encoding of what it decodes to: the
/// format has one encoding for each record.
pub proof fn lemma_encode_decoded(b: Seq<u8>)
    requires
        spec_frame(b) is Ok,
    ensures
        ({
            let (t, p, m, n) = spec_frame(b)->Ok_0;
            &&& p.len() <= MAX_PRODUCER_SIZE
            &&& m.len() <= MAX_MESSAGE_SIZE
            &&& b.take(n as int) == spec_encode_log(t, p, m)
        }),
{
    lemma_u64_le_canonical(b[0], b[1], b[2], b[3], b[4], b[5], b[6], b[7]);
    let pl = b[8] as int;
    lemma_u16_le_canonical(b[9 + pl], b[10 + pl]);
}

/// An incomplete input is always shorter than the length it is reported to
/// need, and no record needs more than the largest record's length; a
/// complete record stays the same record whatever bytes are appended.
pub proof fn lemma_frame_progress(b: Seq<u8>, rest: Seq<u8>)
    ensures
        spec_frame(b) matches Err(needed) ==> b.len() < needed <= LOG_HEADER_SIZE + MAX_PRODUCER_SIZE
            + MAX_MESSAGE_SIZE,
        spec_frame(b) is Ok ==> spec_frame(b + rest) == spec_frame(b),
{
    if b.len() >= 9 {
        let p = b[8] as int;
        if b.len() >= 11 + p {
            if spec_frame(b) is Ok {
                let m = u16_from_le(b[9 + p], b[10 + p]) as int;
                assert((b + rest).subrange(9, 9 + p) =~= b.subrange(9, 9 + p));
                assert((b + rest).subrange(11 + p, 11 + p + m) =~= b.subrange(11 + p, 11 + p + m));
                assert(u64_from_le_bytes(b + rest) == u64_from_le_bytes(b));
            }
        }
    }
}

/// Every proper prefix of a record is reported as incomplete.
pub proof fn lemma_prefix_incomplete(timestamp: u64, producer: Seq<u8>, message: Seq<u8>, k: int)
    requires
        0 <= k < spec_serialized_log_len(producer, message),
    ensures
        spec_frame(spec_encode_log(timestamp, producer, message).take(k)) is Err,
{
    lemma_decode_encoded(timestamp, producer, message, Seq::empty());
}

} // verus!
