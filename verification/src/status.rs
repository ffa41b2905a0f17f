//! The status-word decoder: one packed 32-bit telemetry word, read with
//! `SYST:STAT?`, decoded into a structured snapshot. Decoding is total:
//! every 32-bit word yields a snapshot, and an unmapped track-mode bit
//! pattern degrades to "unknown" (`None`) rather than an error.

use vstd::prelude::*;
use crate::types::{RegulationMode, TrackMode};

verus! {

/// Whether bit `i` of `word` is set (bit 0 is the least significant).
pub open spec fn bit_set(word: u32, i: u32) -> bool {
    word & (1u32 << i) != 0
}

/// The two track-mode bits of the status word (bits 2 and 3).
pub open spec fn track_bits(word: u32) -> u32 {
    (word >> 2) & 0b11
}

/// The track mode encoded by a 2-bit status pattern: `01` Independent,
/// `11` Series, `10` Parallel; `00` is unknown.
pub open spec fn track_mode_of_bits(bits: u32) -> Option<TrackMode> {
    if bits == 0b01 {
        Some(TrackMode::Independent)
    } else if bits == 0b11 {
        Some(TrackMode::Series)
    } else if bits == 0b10 {
        Some(TrackMode::Parallel)
    } else {
        None
    }
}

/// The regulation mode encoded by one status bit: clear means constant
/// voltage, set means constant current.
pub open spec fn regulation_of_bit(set: bool) -> RegulationMode {
    if set {
        RegulationMode::ConstantCurrent
    } else {
        RegulationMode::ConstantVoltage
    }
}

/// Immutable snapshot of the instrument state carried by one status word.
#[derive(Debug, Clone)]
pub struct SystemStatus {
    /// Raw status word as returned by `SYST:STAT?` (after hex decoding).
    pub raw: u32,
    /// Regulation mode of CH1 (bit 0).
    pub ch1_regulation_mode: RegulationMode,
    /// Regulation mode of CH2 (bit 1).
    pub ch2_regulation_mode: RegulationMode,
    /// Track mode from bits 2..=3, `None` when the pattern is unmapped.
    pub track_mode: Option<TrackMode>,
    /// Whether the CH1 output is on (bit 4).
    pub ch1_output_on: bool,
    /// Whether the CH2 output is on (bit 5).
    pub ch2_output_on: bool,
    /// Whether timer 1 is running (bit 6).
    pub timer1_on: bool,
    /// Whether timer 2 is running (bit 7).
    pub timer2_on: bool,
    /// Whether the CH1 waveform display is on (bit 8).
    pub ch1_waveform_display: bool,
    /// Whether the CH2 waveform display is on (bit 9).
    pub ch2_waveform_display: bool,
    /// Whether the instrument reports parallel mode (bit 10).
    pub parallel_mode: bool,
}

/// What a well-decoded snapshot says of its own raw word: every field is
/// exactly the bit (or bit pair) of `raw` that the wire protocol assigns
/// to it.
pub open spec fn decodes(s: SystemStatus) -> bool {
    &&& s.ch1_regulation_mode == regulation_of_bit(bit_set(s.raw, 0))
    &&& s.ch2_regulation_mode == regulation_of_bit(bit_set(s.raw, 1))
    &&& s.track_mode == track_mode_of_bits(track_bits(s.raw))
    &&& s.ch1_output_on == bit_set(s.raw, 4)
    &&& s.ch2_output_on == bit_set(s.raw, 5)
    &&& s.timer1_on == bit_set(s.raw, 6)
    &&& s.timer2_on == bit_set(s.raw, 7)
    &&& s.ch1_waveform_display == bit_set(s.raw, 8)
    &&& s.ch2_waveform_display == bit_set(s.raw, 9)
    &&& s.parallel_mode == bit_set(s.raw, 10)
}

impl SystemStatus {
    /// Decodes a raw status word. Total: never fails, for any 32-bit word.
    pub fn from_word(word: u32) -> (s: SystemStatus)
        ensures
            s.raw == word,
            decodes(s),
    {
        let ch1_regulation_mode = if word & (1u32 << 0) == 0 {
            RegulationMode::ConstantVoltage
        } else {
            RegulationMode::ConstantCurrent
        };
        let ch2_regulation_mode = if word & (1u32 << 1) == 0 {
            RegulationMode::ConstantVoltage
        } else {
            RegulationMode::ConstantCurrent
        };
        let track_bits_val = (word >> 2) & 0b11;
        let track_mode = if track_bits_val == 0b01 {
            Some(TrackMode::Independent)
        } else if track_bits_val == 0b11 {
            Some(TrackMode::Series)
        } else if track_bits_val == 0b10 {
            Some(TrackMode::Parallel)
        } else {
            None
        };
        SystemStatus {
            raw: word,
            ch1_regulation_mode,
            ch2_regulation_mode,
            track_mode,
            ch1_output_on: word & (1u32 << 4) != 0,
            ch2_output_on: word & (1u32 << 5) != 0,
            timer1_on: word & (1u32 << 6) != 0,
            timer2_on: word & (1u32 << 7) != 0,
            ch1_waveform_display: word & (1u32 << 8) != 0,
            ch2_waveform_display: word & (1u32 << 9) != 0,
            parallel_mode: word & (1u32 << 10) != 0,
        }
    }
}

/// Round trip of the single-bit flags: setting bit `i` of the word makes
/// the corresponding decoded flag true, and clearing it makes the flag
/// false, for every word. Stated over the bit positions the protocol
/// assigns (0, 1, 4..=10).
pub proof fn lemma_status_bits_invertible(word: u32, i: u32)
    requires
        i < 32,
    ensures
        bit_set(word | (1u32 << i), i),
        !bit_set(word & !(1u32 << i), i),
{
    assert((word | (1u32 << i)) & (1u32 << i) != 0) by (bit_vector)
        requires
            i < 32,
    ;
    assert((word & !(1u32 << i)) & (1u32 << i) == 0) by (bit_vector);
}

/// The track-mode patterns, spelled out: `0b01` decodes to Independent,
/// `0b11` to Series, `0b10` to Parallel, and `0b00` to unknown.
pub proof fn lemma_track_mode_patterns()
    ensures
        track_mode_of_bits(0b01) == Some(TrackMode::Independent),
        track_mode_of_bits(0b11) == Some(TrackMode::Series),
        track_mode_of_bits(0b10) == Some(TrackMode::Parallel),
        track_mode_of_bits(0b00) is None,
{
}

} // verus!
