//! The wake-up protocol between log collectors and the sending loop.
//!
//! One thread waits; any thread may wake it. They share one state byte:
//! `EMPTY` (nothing happened), `PARKED` (the waiter sleeps or is about to)
//! and `NOTIFIED` (a wake-up is pending). The waiter repeatedly reads the
//! state and acts on it; a waker sets `NOTIFIED` and unparks the waiter if
//! it found it parked.

use vstd::prelude::*;

verus! {

/// Nothing happened since the waiter last woke.
pub const EMPTY: u8 = 0;

/// The waiter sleeps, or is about to.
pub const PARKED: u8 = 1;

/// A wake-up is pending.
pub const NOTIFIED: u8 = 2;

/// What the waiter does on reading the state.
#[derive(Clone, Copy, PartialEq, Eq, Structural, Debug)]
pub enum WaitAction {
    /// Swap `NOTIFIED` for `EMPTY`; on success the wait is over.
    Consume,
    /// Swap `EMPTY` for `PARKED`, whatever the outcome.
    Announce,
    /// Sleep until unparked.
    Park,
}

/// What the waiter does on reading the state when its wait is bounded.
#[derive(Clone, Copy, PartialEq, Eq, Structural, Debug)]
pub enum TimedWaitAction {
    /// Swap `NOTIFIED` for `EMPTY`; on success the wait is over, woken.
    Consume,
    /// Swap `EMPTY` for `PARKED`, whatever the outcome.
    Announce,
    /// Swap `PARKED` for `EMPTY`; on success the wait is over, timed out.
    GiveUp,
    /// Sleep until unparked, or for at most this many nanoseconds.
    ParkFor(u128),
}

/// The waiter's action on reading `state`.
pub open spec fn spec_wait_action(state: u8) -> WaitAction {
    if state == NOTIFIED {
        WaitAction::Consume
    } else if state == EMPTY {
        WaitAction::Announce
    } else {
        WaitAction::Park
    }
}

/// The waiter's action on reading `state`, `elapsed_ns` into a wait bounded
/// by `timeout_ns`.
pub open spec fn spec_timed_wait_action(state: u8, elapsed_ns: u128, timeout_ns: u128) -> TimedWaitAction {
    if state == NOTIFIED {
        TimedWaitAction::Consume
    } else if state == EMPTY {
        TimedWaitAction::Announce
    } else if elapsed_ns >= timeout_ns {
        TimedWaitAction::GiveUp
    } else {
        TimedWaitAction::ParkFor((timeout_ns - elapsed_ns) as u128)
    }
}

/// The waiter's action on reading `state`, one of the three states.
pub fn wait_action(state: u8) -> (action: WaitAction)
    requires
        state <= NOTIFIED,
    ensures
        action == spec_wait_action(state),
{
    if state == NOTIFIED {
        WaitAction::Consume
    } else if state == EMPTY {
        WaitAction::Announce
    } else {
        WaitAction::Park
    }
}

/// The waiter's action on reading `state`, one of the three states,
/// `elapsed_ns` into a wait bounded by `timeout_ns`.
pub fn timed_wait_action(state: u8, elapsed_ns: u128, timeout_ns: u128) -> (action: TimedWaitAction)
    requires
        state <= NOTIFIED,
    ensures
        action == spec_timed_wait_action(state, elapsed_ns, timeout_ns),
{
    if state == NOTIFIED {
        TimedWaitAction::Consume
    } else if state == EMPTY {
        TimedWaitAction::Announce
    } else if elapsed_ns >= timeout_ns {
        TimedWaitAction::GiveUp
    } else {
        TimedWaitAction::ParkFor(timeout_ns - elapsed_ns)
    }
}

/// Whether a waker that replaced `previous` by `NOTIFIED` must unpark the
/// waiter.
pub fn wake_must_unpark(previous: u8) -> (unpark: bool)
    ensures
        unpark == (previous == PARKED),
{
    previous == PARKED
}

/// A compare-and-swap of `expected` for `new` on `state`: the new state and
/// whether it succeeded.
pub open spec fn cas(state: u8, expected: u8, new: u8) -> (u8, bool) {
    if state == expected {
        (new, true)
    } else {
        (state, false)
    }
}

/// One step of the waiter from `state`, with no other thread acting between
/// its read and its swap: the new state and whether the wait is over.
pub open spec fn waiter_step(state: u8) -> (u8, bool) {
    match spec_wait_action(state) {
        WaitAction::Consume => cas(state, NOTIFIED, EMPTY),
        WaitAction::Announce => (cas(state, EMPTY, PARKED).0, false),
        WaitAction::Park => (state, false),
    }
}

/// A wake-up from `state`: the new state and whether the waiter is unparked.
pub open spec fn wake(state: u8) -> (u8, bool) {
    (NOTIFIED, state == PARKED)
}

/// The protocol's guarantees: a wake always leaves a pending wake-up and
/// unparks exactly a parked waiter; a waiter's wait ends only by consuming a
/// pending wake-up; and after a wake the waiter's next step ends its wait.
pub proof fn lemma_wake_protocol(state: u8)
    requires
        state <= NOTIFIED,
    ensures
        wake(state).0 == NOTIFIED,
        wake(state).1 <==> state == PARKED,
        waiter_step(state).1 ==> state == NOTIFIED && waiter_step(state).0 == EMPTY,
        waiter_step(wake(state).0) == (EMPTY, true),
        state == EMPTY ==> waiter_step(state) == (PARKED, false),
        state == PARKED ==> waiter_step(state) == (PARKED, false),
{
}

/// Where the waiter is in its loop: about to read the state, about to act
/// on the state it read, asleep in `park`, or done waiting.
pub enum WaiterPc {
    Reading,
    Acting(u8),
    Sleeping,
    Done,
}

/// The waiter, a waker and what they share: the state byte, whether an
/// unpark is pending for the waiter (the token that `park` consumes), and
/// where the waiter is.
pub struct WakeSystem {
    pub state: u8,
    pub token: bool,
    pub pc: WaiterPc,
}

/// The waiter's next move. Acting on what it read, it swaps as
/// `spec_wait_action` says, against the state as it is now, which a waker
/// may have changed since. `park` returns at once where an unpark is
/// pending, consuming it; else the waiter sleeps until one comes.
pub open spec fn waiter_move(sys: WakeSystem) -> WakeSystem {
    match sys.pc {
        WaiterPc::Reading => WakeSystem { pc: WaiterPc::Acting(sys.state), ..sys },
        WaiterPc::Acting(seen) => match spec_wait_action(seen) {
            WaitAction::Consume => {
                let (state, done) = cas(sys.state, NOTIFIED, EMPTY);
                WakeSystem {
                    state,
                    pc: if done {
                        WaiterPc::Done
                    } else {
                        WaiterPc::Reading
                    },
                    ..sys
                }
            },
            WaitAction::Announce => WakeSystem {
                state: cas(sys.state, EMPTY, PARKED).0,
                pc: WaiterPc::Reading,
                ..sys
            },
            WaitAction::Park => if sys.token {
                WakeSystem { token: false, pc: WaiterPc::Reading, ..sys }
            } else {
                WakeSystem { pc: WaiterPc::Sleeping, ..sys }
            },
        },
        WaiterPc::Sleeping => if sys.token {
            WakeSystem { token: false, pc: WaiterPc::Reading, ..sys }
        } else {
            sys
        },
        WaiterPc::Done => sys,
    }
}

/// `park` returning with no unpark, as it may.
pub open spec fn spurious_return(sys: WakeSystem) -> WakeSystem {
    if sys.pc is Sleeping {
        WakeSystem { pc: WaiterPc::Reading, ..sys }
    } else {
        sys
    }
}

/// A waker's move: it swaps in `NOTIFIED` and unparks the waiter where it
/// found it parked.
pub open spec fn waker_move(sys: WakeSystem) -> WakeSystem {
    WakeSystem { state: wake(sys.state).0, token: sys.token || wake(sys.state).1, ..sys }
}

/// `n` moves of the waiter alone.
pub open spec fn waiter_moves(sys: WakeSystem, n: nat) -> WakeSystem
    decreases n,
{
    if n == 0 {
        sys
    } else {
        waiter_moves(waiter_move(sys), (n - 1) as nat)
    }
}

/// What holds in every state the waiter and the wakers can reach: the
/// state byte is one of the three states, and a waiter that sleeps, or is
/// about to park, with no unpark pending left the state `PARKED`, so that
/// the next wake unparks it. What the waiter read is one of the states too.
pub open spec fn wake_inv(sys: WakeSystem) -> bool {
    &&& sys.state <= NOTIFIED
    &&& sys.pc matches WaiterPc::Acting(seen) ==> seen <= NOTIFIED
    &&& (sys.pc is Sleeping || sys.pc == WaiterPc::Acting(PARKED)) && !sys.token ==> sys.state
        == PARKED
}

/// The protocol loses no wake-up, whatever the interleaving. The invariant
/// holds from the start and across every move of the waiter, of a waker and
/// of `park`; a waiter never sleeps through a wake; the wait ends only by
/// consuming a pending wake-up; after a wake, the waiter's next three moves
/// end its wait; and a timed waiter gives up only where no wake-up is
/// pending.
pub proof fn lemma_no_lost_wakeup(sys: WakeSystem, token: bool)
    ensures
        wake_inv(WakeSystem { state: EMPTY, token, pc: WaiterPc::Reading }),
        wake_inv(sys) ==> wake_inv(waiter_move(sys)),
        wake_inv(sys) ==> wake_inv(waker_move(sys)),
        wake_inv(sys) ==> wake_inv(spurious_return(sys)),
        wake_inv(sys) && sys.pc is Sleeping ==> waker_move(sys).token,
        waiter_move(sys).pc is Done && !(sys.pc is Done) ==> sys.state == NOTIFIED
            && waiter_move(sys).state == EMPTY,
        wake_inv(sys) ==> waiter_moves(waker_move(sys), 3).pc is Done,
        cas(sys.state, PARKED, EMPTY).1 ==> sys.state == PARKED,
{
    let w = waker_move(sys);
    let w1 = waiter_move(w);
    let w2 = waiter_move(w1);
    let w3 = waiter_move(w2);
    assert(waiter_moves(w, 3) == waiter_moves(w1, 2));
    assert(waiter_moves(w1, 2) == waiter_moves(w2, 1));
    assert(waiter_moves(w2, 1) == waiter_moves(w3, 0));
    if wake_inv(sys) {
        assert(w.state == NOTIFIED);
        match sys.pc {
            WaiterPc::Acting(seen) => {
                if seen == PARKED {
                    assert(w.token);
                }
            },
            _ => {},
        }
    }
}

} // verus!
