use dht11::{Action, Event, Reading, SensorError, DHT11};

/// Reports `Done` until the transaction first asks for a sample.
fn through_handshake(dht: &mut DHT11) {
    for _ in 0..7 {
        dht.read(Event::Done);
    }
    assert_eq!(dht.action(), Action::Sample);
}

/// Plays the sensor's acknowledgment: the line falls, then is high again
/// 80 microseconds later.
fn acknowledge(dht: &mut DHT11) {
    assert_eq!(dht.read(Event::Level(false)), Action::DelayMicros(80));
    assert_eq!(dht.read(Event::Done), Action::Sample);
    assert_eq!(dht.read(Event::Level(true)), Action::DelayMicros(80));
    assert_eq!(dht.read(Event::Done), Action::Sample);
}

/// Plays one bit: `lows` polls of the start marker, the rising edge, the
/// sampling delay, the sample, `highs` polls of the pulse, the falling edge.
fn send_bit(dht: &mut DHT11, bit: bool, lows: usize, highs: usize) -> Action {
    for _ in 0..lows {
        assert_eq!(dht.read(Event::Level(false)), Action::Sample);
    }
    assert_eq!(dht.read(Event::Level(true)), Action::DelayMicros(30));
    assert_eq!(dht.read(Event::Done), Action::Sample);
    assert_eq!(dht.read(Event::Level(bit)), Action::Sample);
    for _ in 0..highs {
        assert_eq!(dht.read(Event::Level(true)), Action::Sample);
    }
    dht.read(Event::Level(false))
}

/// Plays a byte, most significant bit first, and returns the action after its last bit.
fn send_byte(dht: &mut DHT11, byte: u8) -> Action {
    let mut action = Action::Sample;
    for i in 0..8 {
        assert_eq!(action, Action::Sample);
        let bit = byte & (0x80 >> i) != 0;
        action = send_bit(dht, bit, 2, if bit { 3 } else { 0 });
    }
    action
}

/// Plays a whole read in which the sensor sends `frame`.
fn read_frame(frame: [u8; 5]) -> Action {
    let mut dht = DHT11::new();
    through_handshake(&mut dht);
    acknowledge(&mut dht);
    let mut action = Action::Sample;
    for byte in frame {
        assert_eq!(action, Action::Sample);
        action = send_byte(&mut dht, byte);
    }
    action
}

#[test]
fn new_transaction_starts_with_output_enable() {
    let dht = DHT11::new();
    assert_eq!(dht.action(), Action::EnableOutput);
}

#[test]
fn handshake_sequence() {
    let mut dht = DHT11::new();
    assert_eq!(dht.action(), Action::EnableOutput);
    assert_eq!(dht.read(Event::Done), Action::DriveLow);
    assert_eq!(dht.read(Event::Done), Action::DelayMillis(20));
    assert_eq!(dht.read(Event::Done), Action::DriveHigh);
    assert_eq!(dht.read(Event::Done), Action::DelayMicros(40));
    assert_eq!(dht.read(Event::Done), Action::EnableInput);
    assert_eq!(dht.read(Event::Done), Action::StartClock);
    assert_eq!(dht.read(Event::Done), Action::Sample);
}

#[test]
fn action_repeats_what_read_returned() {
    let mut dht = DHT11::new();
    for _ in 0..12 {
        let returned = dht.read(Event::Done);
        assert_eq!(dht.action(), returned);
    }
}

#[test]
fn line_never_falls_times_out() {
    let mut dht = DHT11::new();
    through_handshake(&mut dht);
    for ms in [0u64, 1, 500, 999, 1000] {
        assert_eq!(dht.read(Event::Level(true)), Action::ReadClock);
        assert_eq!(dht.read(Event::Elapsed(ms)), Action::Sample);
    }
    assert_eq!(dht.read(Event::Level(true)), Action::ReadClock);
    assert_eq!(dht.read(Event::Elapsed(1001)), Action::Finish(Err(SensorError::Timeout)));
}

#[test]
fn timeout_threshold_is_exclusive() {
    let mut at_limit = DHT11::new();
    through_handshake(&mut at_limit);
    at_limit.read(Event::Level(true));
    assert_eq!(at_limit.read(Event::Elapsed(1000)), Action::Sample);

    let mut past_limit = DHT11::new();
    through_handshake(&mut past_limit);
    past_limit.read(Event::Level(true));
    assert_eq!(past_limit.read(Event::Elapsed(1001)), Action::Finish(Err(SensorError::Timeout)));

    let mut far_past = DHT11::new();
    through_handshake(&mut far_past);
    far_past.read(Event::Level(true));
    assert_eq!(far_past.read(Event::Elapsed(u64::MAX)), Action::Finish(Err(SensorError::Timeout)));
}

#[test]
fn clock_is_not_read_once_the_line_is_low() {
    let mut dht = DHT11::new();
    through_handshake(&mut dht);
    assert_eq!(dht.read(Event::Level(false)), Action::DelayMicros(80));
}

#[test]
fn acknowledgment_stuck_low_times_out() {
    let mut dht = DHT11::new();
    through_handshake(&mut dht);
    assert_eq!(dht.read(Event::Level(false)), Action::DelayMicros(80));
    assert_eq!(dht.read(Event::Done), Action::Sample);
    assert_eq!(dht.read(Event::Level(false)), Action::Finish(Err(SensorError::Timeout)));
}

#[test]
fn acknowledgment_leads_to_first_bit() {
    let mut dht = DHT11::new();
    through_handshake(&mut dht);
    acknowledge(&mut dht);
    assert_eq!(dht.action(), Action::Sample);
    assert_eq!(dht.read(Event::Level(false)), Action::Sample);
    assert_eq!(dht.read(Event::Level(true)), Action::DelayMicros(30));
}

#[test]
fn read_positive_temperature() {
    let action = read_frame([0x32, 0x00, 0x19, 0x00, 0x4B]);
    assert_eq!(action, Action::Finish(Ok(Reading { humidity: 50, temperature: 25 })));
}

#[test]
fn read_negative_temperature() {
    let action = read_frame([0x32, 0x00, 0x99, 0x00, 0xCB]);
    assert_eq!(action, Action::Finish(Ok(Reading { humidity: 50, temperature: -25 })));
}

#[test]
fn read_checksum_mismatch() {
    let action = read_frame([0x32, 0x00, 0x19, 0x00, 0x00]);
    assert_eq!(action, Action::Finish(Err(SensorError::ChecksumMismatch)));
}

#[test]
fn bits_are_most_significant_first() {
    // Only the very first bit of the frame and of the checksum is high.
    let action = read_frame([0x80, 0x00, 0x00, 0x00, 0x80]);
    assert_eq!(action, Action::Finish(Ok(Reading { humidity: 128, temperature: 0 })));
    // Only the very last bit of each of those bytes is high.
    let action = read_frame([0x01, 0x00, 0x00, 0x00, 0x01]);
    assert_eq!(action, Action::Finish(Ok(Reading { humidity: 1, temperature: 0 })));
}

#[test]
fn read_all_ones_but_not_the_mark() {
    let action = read_frame([0xFF, 0xFF, 0xFF, 0xFF, 0xFC]);
    assert_eq!(action, Action::Finish(Ok(Reading { humidity: 255, temperature: -127 })));
}

#[test]
fn timeout_mark_in_first_byte_ends_the_read() {
    let mut dht = DHT11::new();
    through_handshake(&mut dht);
    acknowledge(&mut dht);
    assert_eq!(send_byte(&mut dht, 253), Action::Finish(Err(SensorError::Timeout)));
}

#[test]
fn timeout_mark_in_checksum_byte_ends_the_read() {
    // The frame is valid: 1 + 0 + 0 + 252 = 253. The mark wins all the same.
    let mut dht = DHT11::new();
    through_handshake(&mut dht);
    acknowledge(&mut dht);
    assert_eq!(send_byte(&mut dht, 1), Action::Sample);
    assert_eq!(send_byte(&mut dht, 0), Action::Sample);
    assert_eq!(send_byte(&mut dht, 0), Action::Sample);
    assert_eq!(send_byte(&mut dht, 252), Action::Sample);
    assert_eq!(send_byte(&mut dht, 253), Action::Finish(Err(SensorError::Timeout)));
}

#[test]
fn neighbours_of_the_mark_pass() {
    let action = read_frame([252, 0, 0, 0, 252]);
    assert_eq!(action, Action::Finish(Ok(Reading { humidity: 252, temperature: 0 })));
    let action = read_frame([254, 0, 0, 0, 254]);
    assert_eq!(action, Action::Finish(Ok(Reading { humidity: 254, temperature: 0 })));
}

#[test]
fn pulse_lengths_do_not_change_the_bits() {
    let mut dht = DHT11::new();
    through_handshake(&mut dht);
    acknowledge(&mut dht);
    let frame = [0x32u8, 0x00, 0x19, 0x00, 0x4B];
    let mut action = Action::Sample;
    let mut n = 0usize;
    for byte in frame {
        for i in 0..8 {
            assert_eq!(action, Action::Sample);
            let bit = byte & (0x80 >> i) != 0;
            action = send_bit(&mut dht, bit, n % 5, n % 7);
            n += 1;
        }
    }
    assert_eq!(action, Action::Finish(Ok(Reading { humidity: 50, temperature: 25 })));
}

#[test]
fn unasked_events_are_ignored() {
    let mut dht = DHT11::new();
    assert_eq!(dht.read(Event::Level(true)), Action::EnableOutput);
    assert_eq!(dht.read(Event::Level(false)), Action::EnableOutput);
    assert_eq!(dht.read(Event::Elapsed(5000)), Action::EnableOutput);
    through_handshake(&mut dht);
    assert_eq!(dht.read(Event::Done), Action::Sample);
    assert_eq!(dht.read(Event::Elapsed(5000)), Action::Sample);
    assert_eq!(dht.read(Event::Level(true)), Action::ReadClock);
    assert_eq!(dht.read(Event::Done), Action::ReadClock);
    assert_eq!(dht.read(Event::Level(false)), Action::ReadClock);
    assert_eq!(dht.read(Event::Elapsed(3)), Action::Sample);
}

#[test]
fn finished_transaction_stays_finished() {
    let mut dht = DHT11::new();
    through_handshake(&mut dht);
    dht.read(Event::Level(true));
    let done = dht.read(Event::Elapsed(2000));
    assert_eq!(done, Action::Finish(Err(SensorError::Timeout)));
    assert_eq!(dht.read(Event::Done), done);
    assert_eq!(dht.read(Event::Level(false)), done);
    assert_eq!(dht.read(Event::Level(true)), done);
    assert_eq!(dht.read(Event::Elapsed(0)), done);
    assert_eq!(dht.action(), done);
}

#[test]
fn late_falling_line_is_accepted_before_the_clock_is_read() {
    let mut dht = DHT11::new();
    through_handshake(&mut dht);
    for _ in 0..100 {
        assert_eq!(dht.read(Event::Level(true)), Action::ReadClock);
        assert_eq!(dht.read(Event::Elapsed(1000)), Action::Sample);
    }
    acknowledge(&mut dht);
    let mut action = Action::Sample;
    for byte in [0x32u8, 0x00, 0x19, 0x00, 0x4B] {
        assert_eq!(action, Action::Sample);
        action = send_byte(&mut dht, byte);
    }
    assert_eq!(action, Action::Finish(Ok(Reading { humidity: 50, temperature: 25 })));
}

#[test]
fn frame_ends_exactly_after_forty_bits() {
    let mut dht = DHT11::new();
    through_handshake(&mut dht);
    acknowledge(&mut dht);
    let mut sent = 0;
    let mut action = Action::Sample;
    while action == Action::Sample {
        action = send_bit(&mut dht, false, 1, 0);
        sent += 1;
        assert!(sent <= 40);
    }
    assert_eq!(sent, 40);
    assert_eq!(action, Action::Finish(Ok(Reading { humidity: 0, temperature: 0 })));
}
