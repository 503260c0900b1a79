//! The executable read transaction.
//!
//! `DHT11` never touches a pin or a clock. It names the next line operation;
//! the host performs it and reports the outcome with `read`. Received bits
//! are packed into bytes as they arrive, and the packed bytes are proved to
//! spell the same frame as the model's bit string.
use vstd::prelude::*;
use crate::model::{
    after_bit, byte_value, frame_of, initial, lemma_byte_value_below, next, octet, pending,
    reachable, Action, Event, Phase, Transaction, ACK_US, FRAME_BITS, RELEASE_US, RESET_LOW_MS,
    SAMPLE_US, TIMEOUT_MARK, TIMEOUT_MS,
};
use crate::reading::{decode, SensorError};

verus! {

/// One read of the sensor, from wake-up to reading or error.
///
/// The host asks `action` what to do, does it, and hands the outcome to
/// `read`, until the action is `Action::Finish`.
pub struct DHT11 {
    phase: Phase,
    /// Completed bytes, in order of arrival. Bytes not yet received are zero.
    frame: [u8; 5],
    /// The bits of the byte in progress, most significant first.
    partial: u8,
    /// Number of bits sampled.
    count: u8,
    bits: Ghost<Seq<bool>>,
}

impl View for DHT11 {
    type V = Transaction;

    closed spec fn view(&self) -> Transaction {
        Transaction { phase: self.phase, bits: self.bits@ }
    }
}

impl DHT11 {
    /// The packed bytes spell what the sampled bits spell.
    #[verifier::type_invariant]
    spec fn packed(&self) -> bool {
        &&& self.count == self.bits@.len()
        &&& self.count <= 40
        &&& reachable(self@)
        &&& forall|k: int|
            0 <= k < self.count / 8 ==> self.frame[k] == #[trigger] byte_value(
                octet(self.bits@, k),
            )
        &&& self.partial == byte_value(
            self.bits@.subrange(8 * (self.count / 8), self.count as int),
        )
    }

    /// Begins a read: nothing done, nothing received.
    pub fn new() -> (dht: Self)
        ensures
            dht@ == initial(),
            reachable(dht@),
    {
        let bits: Ghost<Seq<bool>> = Ghost(Seq::empty());
        assert(bits@.subrange(0, 0) =~= Seq::<bool>::empty());
        DHT11 { phase: Phase::EnableOutput, frame: [0u8; 5], partial: 0, count: 0, bits }
    }

    /// The operation that the host is to perform now.
    pub fn action(&self) -> (action: Action)
        ensures
            action == pending(self@.phase),
    {
        match self.phase {
            Phase::EnableOutput => Action::EnableOutput,
            Phase::DriveLow => Action::DriveLow,
            Phase::HoldLow => Action::DelayMillis(RESET_LOW_MS),
            Phase::Release => Action::DriveHigh,
            Phase::HoldRelease => Action::DelayMicros(RELEASE_US),
            Phase::EnableInput => Action::EnableInput,
            Phase::StartClock => Action::StartClock,
            Phase::AwaitLow => Action::Sample,
            Phase::CheckClock => Action::ReadClock,
            Phase::AckWait => Action::DelayMicros(ACK_US),
            Phase::AckCheck => Action::Sample,
            Phase::AckSettle => Action::DelayMicros(ACK_US),
            Phase::BitStart => Action::Sample,
            Phase::BitWait => Action::DelayMicros(SAMPLE_US),
            Phase::BitSample => Action::Sample,
            Phase::BitEnd => Action::Sample,
            Phase::Finished(outcome) => Action::Finish(outcome),
        }
    }

    /// Continues the read with what the host reports for the pending action,
    /// and returns the operation to perform next.
    ///
    /// The transaction moves as `next` says. An event that does not answer
    /// the pending action is ignored: the same action comes back.
    pub fn read(&mut self, event: Event) -> (action: Action)
        ensures
            final(self)@ == next(old(self)@, event),
            action == pending(final(self)@.phase),
            reachable(final(self)@),
    {
        proof {
            use_type_invariant(&*self);
        }
        match (self.phase, event) {
            (Phase::EnableOutput, Event::Done) => {
                self.phase = Phase::DriveLow;
            },
            (Phase::DriveLow, Event::Done) => {
                self.phase = Phase::HoldLow;
            },
            (Phase::HoldLow, Event::Done) => {
                self.phase = Phase::Release;
            },
            (Phase::Release, Event::Done) => {
                self.phase = Phase::HoldRelease;
            },
            (Phase::HoldRelease, Event::Done) => {
                self.phase = Phase::EnableInput;
            },
            (Phase::EnableInput, Event::Done) => {
                self.phase = Phase::StartClock;
            },
            (Phase::StartClock, Event::Done) => {
                self.phase = Phase::AwaitLow;
            },
            (Phase::AwaitLow, Event::Level(high)) => {
                self.phase = if high {
                    Phase::CheckClock
                } else {
                    Phase::AckWait
                };
            },
            (Phase::CheckClock, Event::Elapsed(ms)) => {
                self.phase = if ms > TIMEOUT_MS {
                    Phase::Finished(Err(SensorError::Timeout))
                } else {
                    Phase::AwaitLow
                };
            },
            (Phase::AckWait, Event::Done) => {
                self.phase = Phase::AckCheck;
            },
            (Phase::AckCheck, Event::Level(high)) => {
                self.phase = if high {
                    Phase::AckSettle
                } else {
                    Phase::Finished(Err(SensorError::Timeout))
                };
            },
            (Phase::AckSettle, Event::Done) => {
                self.phase = Phase::BitStart;
            },
            (Phase::BitStart, Event::Level(high)) => {
                if high {
                    self.phase = Phase::BitWait;
                }
            },
            (Phase::BitWait, Event::Done) => {
                self.phase = Phase::BitSample;
            },
            (Phase::BitSample, Event::Level(high)) => {
                self.take_bit(high);
            },
            (Phase::BitEnd, Event::Level(high)) => {
                if !high {
                    self.phase = self.bit_ended();
                }
            },
            _ => {},
        }
        proof {
            use_type_invariant(&*self);
        }
        self.action()
    }

    /// Appends a sampled bit to the byte in progress, and stores the byte
    /// once it has eight bits.
    fn take_bit(&mut self, high: bool)
        requires
            old(self)@.phase == Phase::BitSample,
        ensures
            final(self)@ == (Transaction { phase: Phase::BitEnd, bits: old(self)@.bits.push(high) }),
    {
        proof {
            use_type_invariant(&*self);
        }
        let ghost old_bits = self.bits@;
        let ghost new_bits = old_bits.push(high);
        let index: usize = (self.count / 8) as usize;
        let ghost start = 8 * (self.count / 8) as int;
        let ghost old_partial = old_bits.subrange(start, self.count as int);
        let ghost new_partial = new_bits.subrange(start, self.count as int + 1);
        proof {
            assert(new_partial =~= old_partial.push(high));
            assert(new_partial.drop_last() =~= old_partial);
            lemma_byte_value_below(old_partial, 7);
            lemma_byte_value_below(new_partial, 8);
            assert forall|k: int| 0 <= k < self.count / 8 implies octet(new_bits, k) == octet(
                old_bits,
                k,
            ) by {
                assert(octet(new_bits, k) =~= octet(old_bits, k));
            }
        }
        let bit: u8 = if high {
            1
        } else {
            0
        };
        let value: u8 = self.partial * 2 + bit;
        let count: u8 = self.count + 1;
        let mut frame = self.frame;
        let mut partial = value;
        if count % 8 == 0 {
            frame[index] = value;
            partial = 0;
            proof {
                assert(octet(new_bits, index as int) =~= new_partial);
                assert(new_bits.subrange(8 * (count / 8) as int, count as int) =~= Seq::<
                    bool,
                >::empty());
            }
        }
        *self = DHT11 { phase: Phase::BitEnd, frame, partial, count, bits: Ghost(new_bits) };
    }

    /// Decides what follows the end of a bit.
    fn bit_ended(&self) -> (phase: Phase)
        requires
            self@.phase == Phase::BitEnd,
        ensures
            phase == after_bit(self@.bits),
            reachable(Transaction { phase, bits: self@.bits }),
    {
        proof {
            use_type_invariant(self);
        }
        if self.count % 8 != 0 {
            return Phase::BitStart;
        }
        let last: usize = (self.count / 8 - 1) as usize;
        assert(self.frame[last as int] == byte_value(octet(self.bits@, last as int)));
        if self.frame[last] == TIMEOUT_MARK {
            Phase::Finished(Err(SensorError::Timeout))
        } else if self.count >= FRAME_BITS {
            proof {
                assert forall|k: int| 0 <= k < 5 implies self.frame@[k] == frame_of(
                    self.bits@,
                )[k] by {
                    assert(self.frame[k] == byte_value(octet(self.bits@, k)));
                }
                assert(self.frame@ =~= frame_of(self.bits@));
            }
            Phase::Finished(decode(&self.frame))
        } else {
            Phase::BitStart
        }
    }
}

} // verus!
