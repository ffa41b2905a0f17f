//! The enumerations of the protocol: channels, on/off switches, track
//! modes and regulation modes, together with their canonical wire tokens.

use vstd::prelude::*;

verus! {

/// One of the three output channels. CH1 and CH2 are fully programmable;
/// CH3 is a fixed-output channel that only supports output on/off control.
#[derive(Debug, Clone, Copy, PartialEq, Eq, Structural)]
pub enum Channel {
    Ch1,
    Ch2,
    Ch3,
}

/// The canonical three-character SCPI token of a channel.
pub open spec fn channel_token(c: Channel) -> Seq<char> {
    match c {
        Channel::Ch1 => "CH1"@,
        Channel::Ch2 => "CH2"@,
        Channel::Ch3 => "CH3"@,
    }
}

/// Whether a channel accepts programmable-only commands (setpoints,
/// measurement by channel, timers, waveform display).
pub open spec fn is_programmable(c: Channel) -> bool {
    c == Channel::Ch1 || c == Channel::Ch2
}

impl Channel {
    /// The canonical SCPI token (`CH1`, `CH2` or `CH3`).
    pub fn as_scpi(self) -> (r: &'static str)
        ensures
            r@ == channel_token(self),
    {
        match self {
            Channel::Ch1 => "CH1",
            Channel::Ch2 => "CH2",
            Channel::Ch3 => "CH3",
        }
    }

    /// Human-readable label of the channel; identical to the SCPI token.
    pub fn label(self) -> (r: &'static str)
        ensures
            r@ == channel_token(self),
    {
        self.as_scpi()
    }
}

/// On/off state of a channel output.
#[derive(Debug, Clone, Copy, PartialEq, Eq, Structural)]
pub enum OutputState {
    On,
    Off,
}

/// The uppercase wire token of an on/off state.
pub open spec fn on_off_token(on: bool) -> Seq<char> {
    if on {
        "ON"@
    } else {
        "OFF"@
    }
}

impl OutputState {
    /// The wire token (`ON` or `OFF`).
    pub fn as_str(self) -> (r: &'static str)
        ensures
            r@ == on_off_token(self == OutputState::On),
    {
        match self {
            OutputState::On => "ON",
            OutputState::Off => "OFF",
        }
    }
}

/// Relationship between the CH1 and CH2 outputs.
#[derive(Debug, Clone, Copy, PartialEq, Eq, Structural)]
pub enum TrackMode {
    Independent,
    Series,
    Parallel,
}

/// The integer used to request a track mode in the `OUTP:TRACK` command.
pub open spec fn track_mode_value(m: TrackMode) -> int {
    match m {
        TrackMode::Independent => 0,
        TrackMode::Series => 1,
        TrackMode::Parallel => 2,
    }
}

/// The track mode requested by an integer, if the integer is a valid
/// write encoding.
pub open spec fn track_mode_of_value(v: int) -> Option<TrackMode> {
    if v == 0 {
        Some(TrackMode::Independent)
    } else if v == 1 {
        Some(TrackMode::Series)
    } else if v == 2 {
        Some(TrackMode::Parallel)
    } else {
        None
    }
}

impl TrackMode {
    /// The write encoding of the mode: 0, 1 or 2.
    pub fn as_value(self) -> (r: u8)
        ensures
            r == track_mode_value(self),
    {
        match self {
            TrackMode::Independent => 0,
            TrackMode::Series => 1,
            TrackMode::Parallel => 2,
        }
    }

    /// Decodes a write-encoding integer; any value other than 0, 1 or 2
    /// fails with [`Error::UnknownEnumValue`](crate::error::Error).
    pub fn from_value(value: u8) -> (r: Result<TrackMode, crate::error::Error>)
        ensures
            match r {
                Ok(m) => track_mode_of_value(value as int) == Some(m),
                Err(e) => track_mode_of_value(value as int) is None
                    && e == crate::error::Error::UnknownEnumValue,
            },
    {
        match value {
            0 => Ok(TrackMode::Independent),
            1 => Ok(TrackMode::Series),
            2 => Ok(TrackMode::Parallel),
            _ => Err(crate::error::Error::UnknownEnumValue),
        }
    }
}

/// Round trip of the track-mode write encoding: every mode decodes back
/// from its own encoding.
pub proof fn lemma_track_mode_round_trip(m: TrackMode)
    ensures
        track_mode_of_value(track_mode_value(m)) == Some(m),
{
}

/// On/off state of a channel timer.
#[derive(Debug, Clone, Copy, PartialEq, Eq, Structural)]
pub enum TimerState {
    On,
    Off,
}

impl TimerState {
    /// The wire token (`ON` or `OFF`).
    pub fn as_str(self) -> (r: &'static str)
        ensures
            r@ == on_off_token(self == TimerState::On),
    {
        match self {
            TimerState::On => "ON",
            TimerState::Off => "OFF",
        }
    }
}

/// On/off state of the DHCP client of the instrument.
#[derive(Debug, Clone, Copy, PartialEq, Eq, Structural)]
pub enum DhcpState {
    On,
    Off,
}

impl DhcpState {
    /// The wire token (`ON` or `OFF`).
    pub fn as_str(self) -> (r: &'static str)
        ensures
            r@ == on_off_token(self == DhcpState::On),
    {
        match self {
            DhcpState::On => "ON",
            DhcpState::Off => "OFF",
        }
    }
}

/// Regulation mode of a programmable channel, read from the status word.
#[derive(Debug, Clone, Copy, PartialEq, Eq, Structural)]
pub enum RegulationMode {
    ConstantVoltage,
    ConstantCurrent,
}

} // verus!
