//! What holds of every read, proved over the model.
//!
//! The executable `DHT11` follows `next` step for step, so each statement
//! here about `run` is a statement about any sequence of `read` calls.
use vstd::prelude::*;
use crate::model::{
    answers, initial, next, pending, reachable, run, Event, Phase, Transaction, TIMEOUT_MS,
};
use crate::reading::SensorError;

verus! {

/// Running two event sequences one after the other is running their concatenation.
pub proof fn lemma_run_concat(t: Transaction, first: Seq<Event>, second: Seq<Event>)
    ensures
        run(t, first + second) == run(run(t, first), second),
    decreases second.len(),
{
    if second.len() == 0 {
        assert(first + second =~= first);
    } else {
        lemma_run_concat(t, first, second.drop_last());
        assert((first + second).drop_last() =~= first + second.drop_last());
        assert((first + second).last() == second.last());
    }
}

/// Running a single event is one step.
pub proof fn lemma_run_one(t: Transaction, event: Event)
    ensures
        run(t, seq![event]) == next(t, event),
{
    assert(seq![event].drop_last() =~= Seq::<Event>::empty());
    assert(run(t, seq![event].drop_last()) == t);
}

/// A step from a reachable transaction leads to a reachable transaction.
pub proof fn lemma_next_reachable(t: Transaction, event: Event)
    requires
        reachable(t),
    ensures
        reachable(next(t, event)),
{
}

/// Every transaction that a read passes through is reachable.
pub proof fn lemma_run_reachable(events: Seq<Event>)
    ensures
        reachable(run(initial(), events)),
    decreases events.len(),
{
    if events.len() > 0 {
        lemma_run_reachable(events.drop_last());
        lemma_next_reachable(run(initial(), events.drop_last()), events.last());
    }
}

/// A finished transaction stays as it is, whatever the host reports.
pub proof fn lemma_finished_is_final(t: Transaction, events: Seq<Event>)
    requires
        t.phase is Finished,
    ensures
        run(t, events) == t,
    decreases events.len(),
{
    if events.len() > 0 {
        lemma_finished_is_final(t, events.drop_last());
    }
}

/// An event that does not answer the pending action changes nothing.
pub proof fn lemma_unasked_event_ignored(t: Transaction, event: Event)
    requires
        !answers(pending(t.phase), event),
    ensures
        next(t, event) == t,
{
}

/// No step ends a read with `PinError`: that error is the host's to report.
pub proof fn lemma_no_pin_error(t: Transaction, event: Event)
    requires
        !(t.phase is Finished),
    ensures
        next(t, event).phase != Phase::Finished(Err(SensorError::PinError)),
{
}

/// The seven reports that carry a fresh transaction through the handshake.
pub open spec fn handshake() -> Seq<Event> {
    Seq::new(7, |i: int| Event::Done)
}

/// After the handshake the transaction polls for the sensor's answer.
pub proof fn lemma_handshake()
    ensures
        run(initial(), handshake()).phase == Phase::AwaitLow,
        run(initial(), handshake()).bits == initial().bits,
{
    let h = handshake();
    let h6 = h.drop_last();
    let h5 = h6.drop_last();
    let h4 = h5.drop_last();
    let h3 = h4.drop_last();
    let h2 = h3.drop_last();
    let h1 = h2.drop_last();
    let h0 = h1.drop_last();
    assert(h0.len() == 0);
    assert(run(initial(), h0) == initial());
    assert(run(initial(), h1).phase == Phase::DriveLow);
    assert(run(initial(), h2).phase == Phase::HoldLow);
    assert(run(initial(), h3).phase == Phase::Release);
    assert(run(initial(), h4).phase == Phase::HoldRelease);
    assert(run(initial(), h5).phase == Phase::EnableInput);
    assert(run(initial(), h6).phase == Phase::StartClock);
}

/// What a host reports while the line stays high: for each clock reading in
/// turn, that the line is high, then that reading.
pub open spec fn polls_high(clock: Seq<u64>) -> Seq<Event>
    decreases clock.len(),
{
    if clock.len() == 0 {
        Seq::empty()
    } else {
        polls_high(clock.drop_last()) + seq![Event::Level(true), Event::Elapsed(clock.last())]
    }
}

/// While the line stays high and the clock has not passed the timeout, the
/// transaction keeps polling.
pub proof fn lemma_still_waiting(t: Transaction, clock: Seq<u64>)
    requires
        t.phase == Phase::AwaitLow,
        forall|i: int| 0 <= i < clock.len() ==> clock[i] <= TIMEOUT_MS,
    ensures
        run(t, polls_high(clock)) == t,
    decreases clock.len(),
{
    if clock.len() > 0 {
        let before = clock.drop_last();
        lemma_still_waiting(t, before);
        lemma_poll(t, polls_high(before), clock.last());
    }
}

/// One more poll of a high line, from a transaction that was polling.
proof fn lemma_poll(t: Transaction, earlier: Seq<Event>, ms: u64)
    requires
        run(t, earlier).phase == Phase::AwaitLow,
    ensures
        run(t, earlier + seq![Event::Level(true), Event::Elapsed(ms)]) == (Transaction {
            phase: if ms > TIMEOUT_MS {
                Phase::Finished(Err(SensorError::Timeout))
            } else {
                Phase::AwaitLow
            },
            ..run(t, earlier)
        }),
{
    let pair = seq![Event::Level(true), Event::Elapsed(ms)];
    lemma_run_concat(t, earlier, pair);
    let s = run(t, earlier);
    assert(pair.drop_last() =~= seq![Event::Level(true)]);
    lemma_run_one(s, Event::Level(true));
}

/// If the line never falls, the read ends with `Timeout` at the first clock
/// reading above the timeout, and no later report changes that.
pub proof fn lemma_timeout(t: Transaction, clock: Seq<u64>)
    requires
        t.phase == Phase::AwaitLow,
        exists|i: int| 0 <= i < clock.len() && clock[i] > TIMEOUT_MS,
    ensures
        run(t, polls_high(clock)) == (Transaction {
            phase: Phase::Finished(Err(SensorError::Timeout)),
            ..t
        }),
    decreases clock.len(),
{
    let before = clock.drop_last();
    let pair = seq![Event::Level(true), Event::Elapsed(clock.last())];
    let timed_out = Transaction { phase: Phase::Finished(Err(SensorError::Timeout)), ..t };
    if exists|i: int| 0 <= i < before.len() && before[i] > TIMEOUT_MS {
        lemma_timeout(t, before);
        lemma_run_concat(t, polls_high(before), pair);
        lemma_finished_is_final(timed_out, pair);
    } else {
        let i = choose|i: int| 0 <= i < clock.len() && clock[i] > TIMEOUT_MS;
        assert(i == clock.len() - 1) by {
            if i < clock.len() - 1 {
                assert(before[i] > TIMEOUT_MS);
            }
        }
        lemma_still_waiting(t, before);
        lemma_poll(t, polls_high(before), clock.last());
    }
}

/// From a fresh transaction: the handshake, then a line that never falls,
/// ends in `Timeout` once the clock has passed the timeout.
pub proof fn lemma_read_times_out(clock: Seq<u64>)
    requires
        exists|i: int| 0 <= i < clock.len() && clock[i] > TIMEOUT_MS,
    ensures
        run(initial(), handshake() + polls_high(clock)).phase == Phase::Finished(
            Err(SensorError::Timeout),
        ),
{
    lemma_handshake();
    lemma_run_concat(initial(), handshake(), polls_high(clock));
    lemma_timeout(run(initial(), handshake()), clock);
}

} // verus!
