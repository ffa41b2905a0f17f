//! The failure kinds of the protocol layer. Every operation either
//! succeeds or returns exactly one of these; nothing here panics and
//! nothing is retried.

use vstd::prelude::*;

verus! {

/// What a rejected operation would have needed of the addressed
/// channel. The two rejections are distinct: one is the general
/// programmable-channel rule, the other is that CH3's output state is
/// simply not observable.
#[derive(Debug, Clone, Copy, PartialEq, Eq, Structural)]
pub enum Capability {
    /// A programmable channel (CH1 or CH2): setpoints, measurement by
    /// channel, timers, waveform display.
    Programmable,
    /// Observable output state: CH3 exposes no output-state telemetry,
    /// neither in the status word nor by query; only on/off control.
    OutputStateTelemetry,
}

/// A failure of one protocol operation.
#[derive(Debug, Clone, PartialEq, Eq)]
pub enum Error {
    /// The external transport reported an I/O failure; the text is the
    /// transport's own description, surfaced unchanged.
    TransportFailure(String),
    /// A query produced zero meaningful bytes after trimming padding.
    EmptyResponse,
    /// A response was present but not parseable in the expected shape;
    /// carries the offending text.
    DecodeFailure(String),
    /// The addressed channel does not support the requested operation;
    /// carries which capability it lacks.
    CapabilityViolation(Capability),
    /// A slot or timer-group index was outside 1..=5.
    RangeViolation,
    /// An integer was received for an enumeration that has no such value.
    UnknownEnumValue,
}

impl Error {
    /// A short human-readable description of the failure.
    pub fn message(&self) -> (r: &'static str)
        ensures
            r@.len() > 0,
    {
        let r = match self {
            Error::TransportFailure(_) => "transport failure",
            Error::EmptyResponse => "empty response from device",
            Error::DecodeFailure(_) => "response could not be decoded",
            Error::CapabilityViolation(Capability::Programmable) => "channel does not support this operation",
            Error::CapabilityViolation(Capability::OutputStateTelemetry) => "channel exposes no output-state telemetry; only on/off control is available",
            Error::RangeViolation => "index must be 1..=5",
            Error::UnknownEnumValue => "unknown enumeration value",
        };
        proof {
            reveal_strlit("transport failure");
            reveal_strlit("empty response from device");
            reveal_strlit("response could not be decoded");
            reveal_strlit("channel does not support this operation");
            reveal_strlit(
                "channel exposes no output-state telemetry; only on/off control is available",
            );
            reveal_strlit("index must be 1..=5");
            reveal_strlit("unknown enumeration value");
        }
        r
    }
}

} // verus!
