//! Protocol core of a Wi-Fi provisioning daemon that is driven over a GATT
//! interface: a time-boxed authorization guard, the connection and scan
//! state machines it gates, the offset-addressed partial reads and writes
//! that every multi-byte characteristic uses, and the codec that turns the
//! scan tool's text into an array of JSON records.
//!
//! Nothing here performs I/O. Where an operation needs the network control
//! channel or a notification transport, it is split in two: the first half
//! decides what has to be asked of the outside, the second half takes the
//! answer and moves the state.

pub mod error;
pub mod chunked;
pub mod text;

pub mod notify;
pub mod authorize;
pub mod connect;
pub mod scan;
