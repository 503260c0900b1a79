//! The sensor's payload: five bytes on the wire, one `Reading` for the caller.
//!
//! A frame is `[humidity, humidity fraction, temperature, temperature
//! fraction, checksum]`. The checksum is the sum of the first four bytes
//! modulo 256. The temperature byte is sign/magnitude: bit 7 is the sign,
//! bits 0 to 6 the magnitude.
use vstd::prelude::*;

verus! {

/// Why a read transaction did not produce a `Reading`.
#[derive(Debug, Clone, Copy, PartialEq, Eq, Structural)]
pub enum SensorError {
    /// The checksum byte disagrees with the sum of the payload bytes.
    ChecksumMismatch,
    /// The line did not change level in time, or a byte read as the timeout marker.
    Timeout,
    /// The line could not be driven or sensed. The protocol itself never reports this.
    PinError,
}

/// One measurement: relative humidity in percent and temperature in degrees Celsius.
#[derive(Debug, Clone, Copy, PartialEq, Eq, Structural)]
pub struct Reading {
    pub humidity: u8,
    pub temperature: i8,
}

/// Whether bit 7 of the temperature byte is set: the temperature is negative.
pub open spec fn sign_of(byte: u8) -> bool {
    byte >= 0x80
}

/// The low seven bits of the temperature byte.
pub open spec fn magnitude_of(byte: u8) -> u8 {
    if byte >= 0x80 {
        (byte - 0x80) as u8
    } else {
        byte
    }
}

/// The temperature that a sign/magnitude byte stands for, in `-127..=127`.
pub open spec fn temperature_of(byte: u8) -> int {
    if sign_of(byte) {
        -(magnitude_of(byte) as int)
    } else {
        magnitude_of(byte) as int
    }
}

/// The checksum that a frame's four payload bytes call for.
pub open spec fn checksum_of(frame: Seq<u8>) -> int
    recommends
        frame.len() == 5,
{
    (frame[0] + frame[1] + frame[2] + frame[3]) % 256
}

/// Whether the frame's last byte is the checksum of its payload.
pub open spec fn checksum_holds(frame: Seq<u8>) -> bool
    recommends
        frame.len() == 5,
{
    frame[4] == checksum_of(frame)
}

/// The reading that a frame carries. Both fraction bytes are left out.
pub open spec fn reading_of(frame: Seq<u8>) -> Reading
    recommends
        frame.len() == 5,
{
    Reading { humidity: frame[0], temperature: temperature_of(frame[2]) as i8 }
}

/// What a received frame decodes to: its reading if the checksum holds.
pub open spec fn decoded(frame: Seq<u8>) -> Result<Reading, SensorError>
    recommends
        frame.len() == 5,
{
    if checksum_holds(frame) {
        Ok(reading_of(frame))
    } else {
        Err(SensorError::ChecksumMismatch)
    }
}

/// Splits a sign/magnitude byte into its sign bit and its magnitude.
pub fn convert_signed(signed: u8) -> (r: (bool, u8))
    ensures
        r.0 == sign_of(signed),
        r.1 == magnitude_of(signed),
        r.1 <= 127,
{
    let sign = signed & 0x80 != 0;
    let magnitude = signed & 0x7F;
    assert((signed & 0x80 != 0) == (signed >= 0x80)) by (bit_vector);
    assert(signed & 0x7F == if signed >= 0x80 { (signed - 0x80) as u8 } else { signed })
        by (bit_vector);
    (sign, magnitude)
}

/// Computes the checksum of a frame's payload: the wrapping sum of its first four bytes.
pub fn checksum(frame: &[u8; 5]) -> (sum: u8)
    ensures
        sum == checksum_of(frame@),
{
    frame[0].wrapping_add(frame[1]).wrapping_add(frame[2]).wrapping_add(frame[3])
}

/// Turns a frame whose checksum has been validated into a reading.
///
/// Humidity is the first byte. Temperature is the third byte, decoded from
/// sign/magnitude. The fraction bytes do not enter the result.
pub fn interpret(frame: &[u8; 5]) -> (reading: Reading)
    ensures
        reading == reading_of(frame@),
        reading.humidity == frame[0],
        reading.temperature == temperature_of(frame[2]),
{
    let (negative, magnitude) = convert_signed(frame[2]);
    let magnitude: i8 = magnitude as i8;
    let temperature: i8 = if negative {
        -magnitude
    } else {
        magnitude
    };
    Reading { humidity: frame[0], temperature }
}

/// Validates a received frame and interprets it.
///
/// Succeeds exactly when the last byte is the checksum of the first four;
/// any other frame is a `ChecksumMismatch`.
pub fn decode(frame: &[u8; 5]) -> (result: Result<Reading, SensorError>)
    ensures
        result == decoded(frame@),
        checksum_holds(frame@) ==> result == Ok::<Reading, SensorError>(
            (Reading { humidity: frame[0], temperature: temperature_of(frame[2]) as i8 }),
        ),
        !checksum_holds(frame@) ==> result == Err::<Reading, SensorError>(
            SensorError::ChecksumMismatch,
        ),
{
    if frame[4] == checksum(frame) {
        Ok(interpret(frame))
    } else {
        Err(SensorError::ChecksumMismatch)
    }
}

} // verus!
