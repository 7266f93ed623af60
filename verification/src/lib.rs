//! Verified core of a Feetech (STS/SMS) serial-bus servo SDK.
//!
//! - `protocol`: framing of instruction packets and checking of status packets.
//! - `frame_laws`: properties of the packet format (balance, round trip,
//!   rejection of corrupted packets).
//! - `error`: the library's error type and its view.
//! - `driver`: bus operations as the exact packets they send, the decoding of
//!   their replies, and the retry policy of middle-position calibration.
//! - `mock`: the servo table of a simulated bus.

pub mod driver;
pub mod error;
pub mod frame_laws;
pub mod mock;
pub mod protocol;
