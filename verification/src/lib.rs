//! Driver core for the DHT11 single-wire temperature and humidity sensor.
//!
//! The sensor speaks over one bidirectional line with microsecond timing.
//! This crate holds the protocol itself and never touches hardware: the
//! [`DHT11`] transaction tells its host which line operation to perform next,
//! and the host reports back what it observed.
//!
//! - [`reading`]: the payload arithmetic (checksum, sign/magnitude temperature).
//! - [`model`]: the read transaction as a mathematical state machine.
//! - [`protocol`]: the executable transaction, proved to follow the model.
//! - [`laws`]: what holds of every read: timeout, finality, reachability.
//! - [`wire`]: what the sensor sends, and the proof that a read recovers it.
pub mod laws;
pub mod model;
pub mod protocol;
pub mod reading;
pub mod wire;

pub use model::{Action, Event, Phase};
pub use protocol::DHT11;
pub use reading::{convert_signed, Reading, SensorError};
