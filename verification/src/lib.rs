//! Encoder for the WSPR (Weak Signal Propagation Reporter) digital radio
//! protocol: a station identification message (callsign, Maidenhead grid
//! locator, transmit power) becomes the fixed sequence of 162 four-level
//! channel symbols that drives a 4-FSK modulator.

pub mod convcode;
pub mod interleave;
pub mod wspr;

pub use convcode::convolve;
pub use interleave::interleave;
pub use wspr::ErrorCode;
pub use wspr::SourceFrame;
pub use wspr::WSPRMessage;
