//! Verified SCPI protocol layer for the SPD3303X family of bench power
//! supplies: command encoding, response decoding, per-channel capability
//! rules, status-word decoding, and the ordering of multi-step operation
//! sequences. Transport I/O is left to the caller; every function here is
//! a pure computation over plain values.

pub mod decode;
pub mod encode;
pub mod error;
pub mod fixed;
pub mod guard;
pub mod session;
pub mod status;
pub mod text;
pub mod types;
