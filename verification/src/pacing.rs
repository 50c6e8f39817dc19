//! The sending policy of the journal forwarder: its options, how long it
//! pauses between sends, and how its reconnection delay grows.

use vstd::prelude::*;

verus! {

/// Least time between two sends, in milliseconds, unless configured.
pub const DEFAULT_SEND_INTERVAL_MS: u64 = 500;

/// Budget of buffered bytes, unless configured.
pub const DEFAULT_MAX_PENDING_BYTES: usize = 64 * 1024 * 1024;

/// First delay before reconnecting, in nanoseconds.
pub const RECONNECT_INITIAL_DELAY_NS: u128 = 250_000_000;

/// Longest delay before reconnecting, in nanoseconds.
pub const RECONNECT_MAX_DELAY_NS: u128 = 30_000_000_000;

/// The longest `std::time::Duration`, in nanoseconds: `u64::MAX` seconds
/// and 999 999 999 nanoseconds.
pub const DURATION_MAX_NS: u128 = 18_446_744_073_709_551_615_999_999_999;

/// Compression level of the stream to the sink.
pub const ZSTD_LEVEL: i32 = 2;

/// Why the forwarder's options were refused.
#[derive(Clone, Copy, PartialEq, Eq, Structural, Debug)]
pub enum OptionsError {
    ZeroSendInterval,
    ZeroMaxPendingBytes,
}

impl OptionsError {
    /// The message that describes the error.
    pub fn message(&self) -> (text: String)
        ensures
            text@ == (match *self {
                OptionsError::ZeroSendInterval => "--send-interval-ms must be greater than zero"@,
                OptionsError::ZeroMaxPendingBytes => "--max-pending-bytes must be greater than zero"@,
            }),
    {
        match self {
            OptionsError::ZeroSendInterval => "--send-interval-ms must be greater than zero".to_owned(),
            OptionsError::ZeroMaxPendingBytes => "--max-pending-bytes must be greater than zero".to_owned(),
        }
    }
}

/// Accepts a positive send interval and a positive budget, checked in that
/// order.
pub fn validate_options(send_interval_ms: u64, max_pending_bytes: usize) -> (res: Result<(), OptionsError>)
    ensures
        res == (if send_interval_ms == 0 {
            Err(OptionsError::ZeroSendInterval)
        } else if max_pending_bytes == 0 {
            Err(OptionsError::ZeroMaxPendingBytes)
        } else {
            Ok(())
        }),
{
    if send_interval_ms == 0 {
        return Err(OptionsError::ZeroSendInterval);
    }
    if max_pending_bytes == 0 {
        return Err(OptionsError::ZeroMaxPendingBytes);
    }
    Ok(())
}

/// How long to pause before the next send, `elapsed_ns` after the last one
/// with an interval of `interval_ns`: the rest of the interval, or nothing.
pub fn send_pause(elapsed_ns: u128, interval_ns: u128) -> (pause: u128)
    ensures
        elapsed_ns < interval_ns ==> pause == interval_ns - elapsed_ns,
        elapsed_ns >= interval_ns ==> pause == 0,
{
    if elapsed_ns < interval_ns {
        interval_ns - elapsed_ns
    } else {
        0
    }
}

/// The reconnection delay after one of `delay_ns`: doubled, up to
/// `RECONNECT_MAX_DELAY_NS`.
pub open spec fn spec_next_reconnect_delay(delay_ns: u128) -> u128 {
    if 2 * delay_ns <= RECONNECT_MAX_DELAY_NS {
        (2 * delay_ns) as u128
    } else {
        RECONNECT_MAX_DELAY_NS
    }
}

/// The reconnection delay after one of `delay_ns`: doubled, up to
/// `RECONNECT_MAX_DELAY_NS`. The doubled delay must still be a `Duration`,
/// whose multiplication panics beyond the longest one.
pub fn next_reconnect_delay(delay_ns: u128) -> (next: u128)
    requires
        2 * delay_ns <= DURATION_MAX_NS,
    ensures
        next == spec_next_reconnect_delay(delay_ns),
{
    let doubled = delay_ns * 2;
    if doubled <= RECONNECT_MAX_DELAY_NS {
        doubled
    } else {
        RECONNECT_MAX_DELAY_NS
    }
}

/// Reconnection delays never exceed the maximum; from a delay within the
/// maximum they never shrink, and double until they reach it.
pub proof fn lemma_reconnect_delay(delay_ns: u128)
    ensures
        spec_next_reconnect_delay(delay_ns) <= RECONNECT_MAX_DELAY_NS,
        delay_ns <= RECONNECT_MAX_DELAY_NS ==> spec_next_reconnect_delay(delay_ns) >= delay_ns,
        delay_ns > 0 && spec_next_reconnect_delay(delay_ns) < RECONNECT_MAX_DELAY_NS
            ==> spec_next_reconnect_delay(delay_ns) == 2 * delay_ns,
{
}

} // verus!
