use spd3303x_control::status::SystemStatus;
use spd3303x_control::types::{RegulationMode, TrackMode};

#[test]
fn decoder_is_total_over_words() {
    // Decoding never fails, whatever the 32-bit word holds.
    for word in [0u32, 1, 0x7FF, 0xFFFF_FFFF, 0xDEAD_BEEF] {
        let st = SystemStatus::from_word(word);
        assert_eq!(st.raw, word);
    }
}

#[test]
fn single_bits_round_trip() {
    // Setting a flag bit makes the decoded flag true; clearing it makes
    // the flag false, independent of the other bits.
    let base = 0xFFFF_FFFFu32;
    assert!(SystemStatus::from_word(1 << 4).ch1_output_on);
    assert!(!SystemStatus::from_word(base & !(1 << 4)).ch1_output_on);
    assert!(SystemStatus::from_word(1 << 5).ch2_output_on);
    assert!(!SystemStatus::from_word(base & !(1 << 5)).ch2_output_on);
    assert!(SystemStatus::from_word(1 << 6).timer1_on);
    assert!(!SystemStatus::from_word(base & !(1 << 6)).timer1_on);
    assert!(SystemStatus::from_word(1 << 7).timer2_on);
    assert!(!SystemStatus::from_word(base & !(1 << 7)).timer2_on);
    assert!(SystemStatus::from_word(1 << 8).ch1_waveform_display);
    assert!(!SystemStatus::from_word(base & !(1 << 8)).ch1_waveform_display);
    assert!(SystemStatus::from_word(1 << 9).ch2_waveform_display);
    assert!(!SystemStatus::from_word(base & !(1 << 9)).ch2_waveform_display);
    assert!(SystemStatus::from_word(1 << 10).parallel_mode);
    assert!(!SystemStatus::from_word(base & !(1 << 10)).parallel_mode);
}

#[test]
fn regulation_bits() {
    let st = SystemStatus::from_word(0);
    assert!(matches!(st.ch1_regulation_mode, RegulationMode::ConstantVoltage));
    assert!(matches!(st.ch2_regulation_mode, RegulationMode::ConstantVoltage));
    let st = SystemStatus::from_word(0b11);
    assert!(matches!(st.ch1_regulation_mode, RegulationMode::ConstantCurrent));
    assert!(matches!(st.ch2_regulation_mode, RegulationMode::ConstantCurrent));
    let st = SystemStatus::from_word(0b10);
    assert!(matches!(st.ch1_regulation_mode, RegulationMode::ConstantVoltage));
    assert!(matches!(st.ch2_regulation_mode, RegulationMode::ConstantCurrent));
}

#[test]
fn track_mode_bit_patterns() {
    // 01 -> Independent, 11 -> Series, 10 -> Parallel, 00 -> unknown.
    assert_eq!(
        SystemStatus::from_word(0b01 << 2).track_mode,
        Some(TrackMode::Independent)
    );
    assert_eq!(SystemStatus::from_word(0b11 << 2).track_mode, Some(TrackMode::Series));
    assert_eq!(
        SystemStatus::from_word(0b10 << 2).track_mode,
        Some(TrackMode::Parallel)
    );
    // The all-clear pattern is advisory telemetry, not an error.
    assert_eq!(SystemStatus::from_word(0).track_mode, None);
    assert_eq!(SystemStatus::from_word(0xFFFF_FFF3).track_mode, None);
}
