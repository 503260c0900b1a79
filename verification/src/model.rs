//! The read transaction as a mathematical state machine.
//!
//! A transaction is a phase and the bits sampled so far. Each phase has one
//! pending action for the host; `next` says where an event leads. Everything
//! here is specification: the executable machine in `protocol` is proved to
//! follow it step for step.
use vstd::prelude::*;
use crate::reading::{decoded, Reading, SensorError};

verus! {

/// How long the host holds the line low to wake the sensor, in milliseconds.
pub const RESET_LOW_MS: u32 = 20;

/// How long the host holds the line high after the reset pulse, in microseconds.
pub const RELEASE_US: u32 = 40;

/// Length of each of the sensor's two acknowledgment pulses, in microseconds.
pub const ACK_US: u32 = 80;

/// Delay between a bit's rising edge and the moment it is sampled, in microseconds.
pub const SAMPLE_US: u32 = 30;

/// How long the host waits for the sensor to pull the line low, in milliseconds.
pub const TIMEOUT_MS: u64 = 1000;

/// A received byte with this value is taken as a timeout and ends the read.
pub const TIMEOUT_MARK: u8 = 253;

/// Number of bits in a frame.
pub const FRAME_BITS: u8 = 40;

/// One line operation that the transaction asks its host to perform.
#[derive(Debug, Clone, Copy, PartialEq, Eq)]
pub enum Action {
    /// Switch the line's output driver on.
    EnableOutput,
    /// Drive the line low.
    DriveLow,
    /// Drive the line high.
    DriveHigh,
    /// Switch the line's input buffer on, to sense what the sensor drives.
    EnableInput,
    /// Take the instant from which `ReadClock` measures.
    StartClock,
    /// Busy-wait this many milliseconds.
    DelayMillis(u32),
    /// Busy-wait this many microseconds.
    DelayMicros(u32),
    /// Read the line's level and report it as `Event::Level`.
    Sample,
    /// Report the milliseconds since `StartClock` as `Event::Elapsed`.
    ReadClock,
    /// The transaction is over, with this outcome. Nothing more to do.
    Finish(Result<Reading, SensorError>),
}

/// What the host reports after it has performed the pending action.
#[derive(Debug, Clone, Copy, PartialEq, Eq, Structural)]
pub enum Event {
    /// The action was carried out and has nothing to report.
    Done,
    /// The line's level: `true` is high.
    Level(bool),
    /// Milliseconds since the clock was started.
    Elapsed(u64),
}

/// Where a transaction stands. Each phase waits for one action's event.
#[derive(Debug, Clone, Copy, PartialEq, Eq)]
pub enum Phase {
    /// Handshake: about to switch the output driver on.
    EnableOutput,
    /// Handshake: about to pull the line low.
    DriveLow,
    /// Handshake: holding the reset pulse.
    HoldLow,
    /// Handshake: about to release the line high.
    Release,
    /// Handshake: holding the line high.
    HoldRelease,
    /// Handshake: about to switch to sensing.
    EnableInput,
    /// Handshake: about to start the timeout clock.
    StartClock,
    /// Polling for the sensor to pull the line low.
    AwaitLow,
    /// The line was still high: about to compare the clock with the timeout.
    CheckClock,
    /// The line fell: waiting out the sensor's low acknowledgment pulse.
    AckWait,
    /// About to check that the low acknowledgment pulse has ended.
    AckCheck,
    /// Waiting out the sensor's high acknowledgment pulse.
    AckSettle,
    /// Polling for the end of the low period that starts each bit.
    BitStart,
    /// Waiting for the sampling point of the current bit.
    BitWait,
    /// About to sample the current bit.
    BitSample,
    /// Polling for the end of the current bit's high pulse.
    BitEnd,
    /// Over, with this outcome.
    Finished(Result<Reading, SensorError>),
}

/// The state of a read transaction: its phase and the bits sampled so far,
/// in the order they arrived.
pub struct Transaction {
    pub phase: Phase,
    pub bits: Seq<bool>,
}

/// A fresh transaction: nothing done, nothing received.
pub open spec fn initial() -> Transaction {
    Transaction { phase: Phase::EnableOutput, bits: Seq::empty() }
}

/// The action that a phase waits for.
pub open spec fn pending(phase: Phase) -> Action {
    match phase {
        Phase::EnableOutput => Action::EnableOutput,
        Phase::DriveLow => Action::DriveLow,
        Phase::HoldLow => Action::DelayMillis(RESET_LOW_MS),
        Phase::Release => Action::DriveHigh,
        Phase::HoldRelease => Action::DelayMicros(RELEASE_US),
        Phase::EnableInput => Action::EnableInput,
        Phase::StartClock => Action::StartClock,
        Phase::AwaitLow => Action::Sample,
        Phase::CheckClock => Action::ReadClock,
        Phase::AckWait => Action::DelayMicros(ACK_US),
        Phase::AckCheck => Action::Sample,
        Phase::AckSettle => Action::DelayMicros(ACK_US),
        Phase::BitStart => Action::Sample,
        Phase::BitWait => Action::DelayMicros(SAMPLE_US),
        Phase::BitSample => Action::Sample,
        Phase::BitEnd => Action::Sample,
        Phase::Finished(outcome) => Action::Finish(outcome),
    }
}

/// Whether an event is the report that an action calls for.
pub open spec fn answers(action: Action, event: Event) -> bool {
    match action {
        Action::Sample => event is Level,
        Action::ReadClock => event is Elapsed,
        Action::Finish(_) => false,
        _ => event is Done,
    }
}

/// The number that a string of bits spells, most significant bit first.
pub open spec fn byte_value(bits: Seq<bool>) -> nat
    decreases bits.len(),
{
    if bits.len() == 0 {
        0
    } else {
        2 * byte_value(bits.drop_last()) + if bits.last() {
            1nat
        } else {
            0nat
        }
    }
}

/// The power of two that bounds what `n` bits can spell, for `n` up to eight.
pub open spec fn limit(n: nat) -> nat
    recommends
        n <= 8,
{
    if n == 0 {
        1
    } else if n == 1 {
        2
    } else if n == 2 {
        4
    } else if n == 3 {
        8
    } else if n == 4 {
        16
    } else if n == 5 {
        32
    } else if n == 6 {
        64
    } else if n == 7 {
        128
    } else {
        256
    }
}

/// A string of at most `n` bits, `n` up to eight, spells a number below `2^n`.
pub proof fn lemma_byte_value_below(bits: Seq<bool>, n: nat)
    requires
        bits.len() <= n <= 8,
    ensures
        byte_value(bits) < limit(n),
    decreases bits.len(),
{
    if bits.len() > 0 {
        lemma_byte_value_below(bits.drop_last(), (n - 1) as nat);
    }
}

/// The `k`-th group of eight bits.
pub open spec fn octet(bits: Seq<bool>, k: int) -> Seq<bool>
    recommends
        0 <= k,
        8 * k + 8 <= bits.len(),
{
    bits.subrange(8 * k, 8 * k + 8)
}

/// The five bytes that forty bits spell, each byte most significant bit first.
pub open spec fn frame_of(bits: Seq<bool>) -> Seq<u8>
    recommends
        bits.len() == 40,
{
    Seq::new(5, |k: int| byte_value(octet(bits, k)) as u8)
}

/// The phase that follows a bit's end, given all bits sampled up to and
/// including that bit.
///
/// In the middle of a byte the next bit starts. A completed byte equal to
/// the timeout mark ends the read with `Timeout`. The fifth completed byte
/// ends it with what the frame decodes to.
pub open spec fn after_bit(bits: Seq<bool>) -> Phase {
    if bits.len() % 8 != 0 || bits.len() == 0 {
        Phase::BitStart
    } else if byte_value(octet(bits, bits.len() / 8 - 1)) == TIMEOUT_MARK {
        Phase::Finished(Err(SensorError::Timeout))
    } else if bits.len() >= 40 {
        Phase::Finished(decoded(frame_of(bits)))
    } else {
        Phase::BitStart
    }
}

/// The transaction after the host has reported `event`.
///
/// An event that does not answer the pending action changes nothing.
pub open spec fn next(t: Transaction, event: Event) -> Transaction {
    match (t.phase, event) {
        (Phase::EnableOutput, Event::Done) => Transaction { phase: Phase::DriveLow, ..t },
        (Phase::DriveLow, Event::Done) => Transaction { phase: Phase::HoldLow, ..t },
        (Phase::HoldLow, Event::Done) => Transaction { phase: Phase::Release, ..t },
        (Phase::Release, Event::Done) => Transaction { phase: Phase::HoldRelease, ..t },
        (Phase::HoldRelease, Event::Done) => Transaction { phase: Phase::EnableInput, ..t },
        (Phase::EnableInput, Event::Done) => Transaction { phase: Phase::StartClock, ..t },
        (Phase::StartClock, Event::Done) => Transaction { phase: Phase::AwaitLow, ..t },
        (Phase::AwaitLow, Event::Level(high)) => if high {
            Transaction { phase: Phase::CheckClock, ..t }
        } else {
            Transaction { phase: Phase::AckWait, ..t }
        },
        (Phase::CheckClock, Event::Elapsed(ms)) => if ms > TIMEOUT_MS {
            Transaction { phase: Phase::Finished(Err(SensorError::Timeout)), ..t }
        } else {
            Transaction { phase: Phase::AwaitLow, ..t }
        },
        (Phase::AckWait, Event::Done) => Transaction { phase: Phase::AckCheck, ..t },
        (Phase::AckCheck, Event::Level(high)) => if high {
            Transaction { phase: Phase::AckSettle, ..t }
        } else {
            Transaction { phase: Phase::Finished(Err(SensorError::Timeout)), ..t }
        },
        (Phase::AckSettle, Event::Done) => Transaction { phase: Phase::BitStart, ..t },
        (Phase::BitStart, Event::Level(high)) => if high {
            Transaction { phase: Phase::BitWait, ..t }
        } else {
            t
        },
        (Phase::BitWait, Event::Done) => Transaction { phase: Phase::BitSample, ..t },
        (Phase::BitSample, Event::Level(high)) => Transaction {
            phase: Phase::BitEnd,
            bits: t.bits.push(high),
        },
        (Phase::BitEnd, Event::Level(high)) => if high {
            t
        } else {
            Transaction { phase: after_bit(t.bits), ..t }
        },
        _ => t,
    }
}

/// Whether a transaction is one that a read can reach.
///
/// Bits exist only once the bit phases have begun, never more than forty;
/// a bit is being received only while the frame is incomplete, and ends
/// only after it was sampled.
pub open spec fn reachable(t: Transaction) -> bool {
    match t.phase {
        Phase::BitStart | Phase::BitWait | Phase::BitSample => t.bits.len() < 40,
        Phase::BitEnd => 1 <= t.bits.len() <= 40,
        Phase::Finished(_) => t.bits.len() <= 40,
        _ => t.bits.len() == 0,
    }
}

/// The transaction after the host has reported each of `events` in turn.
pub open spec fn run(t: Transaction, events: Seq<Event>) -> Transaction
    decreases events.len(),
{
    if events.len() == 0 {
        t
    } else {
        next(run(t, events.drop_last()), events.last())
    }
}

} // verus!
