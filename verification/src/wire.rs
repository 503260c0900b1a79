//! What the sensor puts on the line, and what a read makes of it.
//!
//! The sensor sends each bit as a low period followed by a high pulse; the
//! pulse is short for a zero and long for a one. A host that polls the line
//! sees some number of low samples, the rising edge, the level at the
//! sampling point, some number of high samples and the falling edge. The
//! theorems here say that the read recovers the bits whatever those numbers
//! are, and ends with what the frame decodes to.
use vstd::prelude::*;
use crate::laws::{
    handshake, lemma_handshake, lemma_run_concat, lemma_run_one, lemma_still_waiting, polls_high,
};
use crate::model::{
    after_bit, byte_value, frame_of, initial, next, octet, run, Event, Phase, Transaction,
    TIMEOUT_MARK, TIMEOUT_MS,
};
use crate::reading::{decoded, SensorError};

verus! {

/// One bit as a polling host sees it.
pub struct Pulse {
    /// Samples that find the line still low before the pulse rises.
    pub lows: nat,
    /// The level at the sampling point: the bit.
    pub bit: bool,
    /// Samples that find the line still high before the pulse falls.
    pub highs: nat,
}

/// `n` samples of the same level.
pub open spec fn samples(n: nat, high: bool) -> Seq<Event> {
    Seq::new(n, |i: int| Event::Level(high))
}

/// The reports of a host during one pulse.
pub open spec fn pulse_events(p: Pulse) -> Seq<Event> {
    samples(p.lows, false) + seq![Event::Level(true), Event::Done, Event::Level(p.bit)] + samples(
        p.highs,
        true,
    ) + seq![Event::Level(false)]
}

/// The reports of a host during a train of pulses.
pub open spec fn train_events(train: Seq<Pulse>) -> Seq<Event>
    decreases train.len(),
{
    if train.len() == 0 {
        Seq::empty()
    } else {
        train_events(train.drop_last()) + pulse_events(train.last())
    }
}

/// The bits that a train of pulses carries.
pub open spec fn train_bits(train: Seq<Pulse>) -> Seq<bool> {
    Seq::new(train.len(), |i: int| train[i].bit)
}

/// Whether none of the completed bytes among `bits` is the timeout mark.
pub open spec fn no_mark(bits: Seq<bool>) -> bool {
    forall|k: int| 0 <= k < bits.len() / 8 ==> #[trigger] byte_value(octet(bits, k)) != TIMEOUT_MARK
}

/// Polling while the level is the one being waited out changes nothing.
pub proof fn lemma_waiting(t: Transaction, n: nat)
    ensures
        t.phase == Phase::BitStart ==> run(t, samples(n, false)) == t,
        t.phase == Phase::BitEnd ==> run(t, samples(n, true)) == t,
    decreases n,
{
    if n > 0 {
        lemma_waiting(t, (n - 1) as nat);
        assert(samples(n, false).drop_last() =~= samples((n - 1) as nat, false));
        assert(samples(n, true).drop_last() =~= samples((n - 1) as nat, true));
    }
}

/// The rising edge, the sampling delay and the sample take a transaction
/// from the start of a bit to its end, with the sampled bit appended.
pub proof fn lemma_sampling(t: Transaction, bit: bool)
    requires
        t.phase == Phase::BitStart,
    ensures
        run(t, seq![Event::Level(true), Event::Done, Event::Level(bit)]) == (Transaction {
            phase: Phase::BitEnd,
            bits: t.bits.push(bit),
        }),
{
    let sampling = seq![Event::Level(true), Event::Done, Event::Level(bit)];
    let two = seq![Event::Level(true), Event::Done];
    let one = seq![Event::Level(true)];
    assert(sampling.drop_last() =~= two);
    assert(two.drop_last() =~= one);
    lemma_run_one(t, Event::Level(true));
    let t1 = run(t, one);
    assert(t1 == Transaction { phase: Phase::BitWait, ..t });
    let t2 = run(t, two);
    assert(t2 == next(t1, Event::Done));
    assert(t2 == Transaction { phase: Phase::BitSample, ..t });
    assert(run(t, sampling) == next(t2, Event::Level(bit)));
}

/// One pulse adds its bit, however long its low period and its high pulse
/// were polled, and the transaction goes where that bit's end leads.
pub proof fn lemma_pulse(t: Transaction, p: Pulse)
    requires
        t.phase == Phase::BitStart,
    ensures
        run(t, pulse_events(p)) == (Transaction {
            phase: after_bit(t.bits.push(p.bit)),
            bits: t.bits.push(p.bit),
        }),
{
    let lows = samples(p.lows, false);
    let sampling = seq![Event::Level(true), Event::Done, Event::Level(p.bit)];
    let highs = samples(p.highs, true);
    let fall = seq![Event::Level(false)];
    let ended = Transaction { phase: Phase::BitEnd, bits: t.bits.push(p.bit) };
    assert(run(t, lows + sampling) == ended) by {
        lemma_waiting(t, p.lows);
        lemma_run_concat(t, lows, sampling);
        lemma_sampling(t, p.bit);
    }
    assert(run(t, lows + sampling + highs) == ended) by {
        lemma_run_concat(t, lows + sampling, highs);
        lemma_waiting(ended, p.highs);
    }
    assert(run(t, lows + sampling + highs + fall) == next(ended, Event::Level(false))) by {
        lemma_run_concat(t, lows + sampling + highs, fall);
        lemma_run_one(ended, Event::Level(false));
    }
}

/// A train of pulses, read from the start of the first bit, leaves exactly
/// its bits in the transaction. As long as no completed byte is the timeout
/// mark, the read goes on until the fortieth bit and then ends with what
/// the frame decodes to.
pub proof fn lemma_train(t: Transaction, train: Seq<Pulse>)
    requires
        t.phase == Phase::BitStart,
        t.bits.len() == 0,
        train.len() <= 40,
        no_mark(train_bits(train)),
    ensures
        run(t, train_events(train)) == (Transaction {
            phase: if train.len() == 40 {
                Phase::Finished(decoded(frame_of(train_bits(train))))
            } else {
                Phase::BitStart
            },
            bits: train_bits(train),
        }),
    decreases train.len(),
{
    let bits = train_bits(train);
    if train.len() == 0 {
        assert(bits =~= t.bits);
    } else {
        let head = train.drop_last();
        let last = train.last();
        let head_bits = train_bits(head);
        assert(head_bits.push(last.bit) =~= bits);
        assert(no_mark(head_bits)) by {
            assert forall|k: int| 0 <= k < head_bits.len() / 8 implies #[trigger] byte_value(
                octet(head_bits, k),
            ) != TIMEOUT_MARK by {
                assert(octet(head_bits, k) =~= octet(bits, k));
            }
        }
        lemma_train(t, head);
        let before = run(t, train_events(head));
        lemma_run_concat(t, train_events(head), pulse_events(last));
        lemma_pulse(before, last);
        if bits.len() % 8 == 0 {
            let k = bits.len() / 8 - 1;
            assert(byte_value(octet(bits, k)) != TIMEOUT_MARK);
        }
    }
}

/// A byte that is the timeout mark ends the read with `Timeout`, as soon as
/// its last bit has ended, whatever the bits before it were.
pub proof fn lemma_mark_times_out(t: Transaction, train: Seq<Pulse>)
    requires
        t.phase == Phase::BitStart,
        t.bits.len() == 0,
        0 < train.len() <= 40,
        train.len() % 8 == 0,
        no_mark(train_bits(train.drop_last())),
        byte_value(octet(train_bits(train), train.len() / 8 - 1)) == TIMEOUT_MARK,
    ensures
        run(t, train_events(train)) == (Transaction {
            phase: Phase::Finished(Err(SensorError::Timeout)),
            bits: train_bits(train),
        }),
{
    let head = train.drop_last();
    let last = train.last();
    assert(train_bits(head).push(last.bit) =~= train_bits(train));
    lemma_train(t, head);
    lemma_run_concat(t, train_events(head), pulse_events(last));
    lemma_pulse(run(t, train_events(head)), last);
}

/// The weight of the bit at position `j` of a byte, position 0 being the
/// most significant.
pub open spec fn weight(j: int) -> int
    recommends
        0 <= j < 8,
{
    if j == 0 {
        128
    } else if j == 1 {
        64
    } else if j == 2 {
        32
    } else if j == 3 {
        16
    } else if j == 4 {
        8
    } else if j == 5 {
        4
    } else if j == 6 {
        2
    } else {
        1
    }
}

/// The bit at position `j` of a byte, position 0 being the most significant.
pub open spec fn bit_of(byte: u8, j: int) -> bool
    recommends
        0 <= j < 8,
{
    (byte as int / weight(j)) % 2 == 1
}

/// The eight bits of a byte in the order the sensor sends them.
pub open spec fn byte_bits(byte: u8) -> Seq<bool> {
    Seq::new(8, |j: int| bit_of(byte, j))
}

/// The forty bits of a frame in the order the sensor sends them: byte by
/// byte, each byte most significant bit first.
pub open spec fn bits_of(frame: Seq<u8>) -> Seq<bool>
    recommends
        frame.len() == 5,
{
    Seq::new(40, |i: int| bit_of(frame[i / 8], i % 8))
}

/// The first `n` bits of a byte spell the byte shifted right by `8 - n`.
proof fn lemma_leading_bits(byte: u8, n: int)
    requires
        0 <= n <= 8,
    ensures
        byte_value(byte_bits(byte).subrange(0, n)) == if n == 0 {
            0
        } else {
            byte as int / weight(n - 1)
        },
    decreases n,
{
    let lead = byte_bits(byte).subrange(0, n);
    if n > 0 {
        lemma_leading_bits(byte, n - 1);
        assert(lead.drop_last() =~= byte_bits(byte).subrange(0, n - 1));
        assert(lead.last() == bit_of(byte, n - 1));
    }
}

/// Eight bits sent for a byte spell that byte.
pub proof fn lemma_byte_round_trip(byte: u8)
    ensures
        byte_value(byte_bits(byte)) == byte,
{
    lemma_leading_bits(byte, 8);
    assert(byte_bits(byte).subrange(0, 8) =~= byte_bits(byte));
}

/// The forty bits sent for a frame spell that frame.
pub proof fn lemma_frame_round_trip(frame: Seq<u8>)
    requires
        frame.len() == 5,
    ensures
        frame_of(bits_of(frame)) == frame,
        forall|k: int| 0 <= k < 5 ==> #[trigger] byte_value(octet(bits_of(frame), k)) == frame[k],
{
    assert forall|k: int| 0 <= k < 5 implies #[trigger] byte_value(octet(bits_of(frame), k))
        == frame[k] by {
        assert(octet(bits_of(frame), k) =~= byte_bits(frame[k]));
        lemma_byte_round_trip(frame[k]);
    }
    assert(frame_of(bits_of(frame)) =~= frame);
}

/// A frame none of whose bytes is the timeout mark, sent bit by bit, is
/// read as what it decodes to: its reading if the checksum holds, and
/// `ChecksumMismatch` if not.
pub proof fn lemma_frame_received(t: Transaction, train: Seq<Pulse>, frame: Seq<u8>)
    requires
        t.phase == Phase::BitStart,
        t.bits.len() == 0,
        frame.len() == 5,
        train_bits(train) == bits_of(frame),
        forall|k: int| 0 <= k < 5 ==> frame[k] != TIMEOUT_MARK,
    ensures
        run(t, train_events(train)).phase == Phase::Finished(decoded(frame)),
{
    lemma_frame_round_trip(frame);
    assert(train.len() == 40);
    lemma_train(t, train);
}

/// What a host reports while the sensor acknowledges: the line has fallen,
/// the wait is over, the line is high again, the second wait is over.
pub open spec fn acknowledgment() -> Seq<Event> {
    seq![Event::Level(false), Event::Done, Event::Level(true), Event::Done]
}

/// The acknowledgment takes a polling transaction to the start of the first bit.
pub proof fn lemma_acknowledgment(t: Transaction)
    requires
        t.phase == Phase::AwaitLow,
    ensures
        run(t, acknowledgment()) == (Transaction { phase: Phase::BitStart, ..t }),
{
    let four = acknowledgment();
    let three = seq![Event::Level(false), Event::Done, Event::Level(true)];
    let two = seq![Event::Level(false), Event::Done];
    let one = seq![Event::Level(false)];
    assert(four.drop_last() =~= three);
    assert(three.drop_last() =~= two);
    assert(two.drop_last() =~= one);
    lemma_run_one(t, Event::Level(false));
    assert(run(t, one) == Transaction { phase: Phase::AckWait, ..t });
    assert(run(t, two) == Transaction { phase: Phase::AckCheck, ..t });
    assert(run(t, three) == Transaction { phase: Phase::AckSettle, ..t });
}

/// A whole read, from a fresh transaction: the handshake, any number of
/// polls within the timeout while the line is still high, the sensor's
/// acknowledgment and a frame without the timeout mark. The read ends with
/// what the frame decodes to.
pub proof fn lemma_read_decodes(clock: Seq<u64>, train: Seq<Pulse>, frame: Seq<u8>)
    requires
        forall|i: int| 0 <= i < clock.len() ==> clock[i] <= TIMEOUT_MS,
        frame.len() == 5,
        train_bits(train) == bits_of(frame),
        forall|k: int| 0 <= k < 5 ==> frame[k] != TIMEOUT_MARK,
    ensures
        run(
            initial(),
            handshake() + polls_high(clock) + acknowledgment() + train_events(train),
        ).phase == Phase::Finished(decoded(frame)),
{
    let woken = run(initial(), handshake());
    lemma_handshake();
    lemma_run_concat(initial(), handshake(), polls_high(clock));
    lemma_still_waiting(woken, clock);
    lemma_run_concat(initial(), handshake() + polls_high(clock), acknowledgment());
    lemma_acknowledgment(woken);
    let started = Transaction { phase: Phase::BitStart, ..woken };
    lemma_run_concat(
        initial(),
        handshake() + polls_high(clock) + acknowledgment(),
        train_events(train),
    );
    lemma_frame_received(started, train, frame);
}

} // verus!
