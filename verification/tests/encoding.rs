use spd3303x_control::encode::{
    idn_cmd, measure_current_cmd, measure_power_cmd, measure_voltage_cmd, query_current_cmd,
    query_dhcp_cmd, query_gateway_cmd, query_ip_cmd, query_mask_cmd, query_selected_cmd,
    query_track_cmd, query_voltage_cmd, recall_cmd, save_cmd, select_channel_cmd, set_current_cmd,
    set_dhcp_cmd, set_gateway_cmd, set_ip_cmd, set_mask_cmd, set_output_cmd, set_track_cmd,
    set_voltage_cmd, set_wave_display_cmd, system_error_cmd, system_status_cmd,
    system_version_cmd, timer_query_cmd, timer_set_cmd, timer_state_cmd,
};
use spd3303x_control::error::{Capability, Error};
use spd3303x_control::fixed::Fixed6;
use spd3303x_control::guard::{ensure_group, ensure_slot, guard_programmable};
use spd3303x_control::types::{Channel, DhcpState, OutputState, TimerState, TrackMode};

#[test]
fn channel_tokens() {
    assert_eq!(Channel::Ch1.as_scpi(), "CH1");
    assert_eq!(Channel::Ch2.as_scpi(), "CH2");
    assert_eq!(Channel::Ch3.as_scpi(), "CH3");
    assert_eq!(Channel::Ch1.label(), "CH1");
}

#[test]
fn on_off_tokens() {
    assert_eq!(OutputState::On.as_str(), "ON");
    assert_eq!(OutputState::Off.as_str(), "OFF");
    assert_eq!(TimerState::On.as_str(), "ON");
    assert_eq!(TimerState::Off.as_str(), "OFF");
    assert_eq!(DhcpState::On.as_str(), "ON");
    assert_eq!(DhcpState::Off.as_str(), "OFF");
}

#[test]
fn voltage_token_is_six_decimals() {
    // Encoding 3.3 V must produce the exact token 3.300000.
    let cmd = set_voltage_cmd(Channel::Ch1, Fixed6::from_micros(3_300_000)).unwrap();
    assert_eq!(cmd, "CH1:VOLT 3.300000\n");
}

#[test]
fn setpoint_commands() {
    let cmd = set_current_cmd(Channel::Ch2, Fixed6::from_micros(1_500_000)).unwrap();
    assert_eq!(cmd, "CH2:CURR 1.500000\n");
    let cmd = set_voltage_cmd(Channel::Ch2, Fixed6::from_micros(0)).unwrap();
    assert_eq!(cmd, "CH2:VOLT 0.000000\n");
    let cmd = set_voltage_cmd(Channel::Ch1, Fixed6::from_micros(32_000_000)).unwrap();
    assert_eq!(cmd, "CH1:VOLT 32.000000\n");
    let cmd = set_voltage_cmd(Channel::Ch1, Fixed6::from_micros(-250_000)).unwrap();
    assert_eq!(cmd, "CH1:VOLT -0.250000\n");
}

#[test]
fn setpoint_queries() {
    assert_eq!(query_voltage_cmd(Channel::Ch1).unwrap(), "CH1:VOLT?\n");
    assert_eq!(query_current_cmd(Channel::Ch2).unwrap(), "CH2:CURR?\n");
}

#[test]
fn simple_queries() {
    assert_eq!(idn_cmd(), "*IDN?\n");
    assert_eq!(query_selected_cmd(), "INST?\n");
    assert_eq!(query_track_cmd(), "OUTP:TRACK?\n");
    assert_eq!(system_error_cmd(), "SYST:ERR?\n");
    assert_eq!(system_version_cmd(), "SYST:VERS?\n");
    assert_eq!(system_status_cmd(), "SYST:STAT?\n");
    assert_eq!(query_ip_cmd(), "IPaddr?\n");
    assert_eq!(query_mask_cmd(), "MASKaddr?\n");
    assert_eq!(query_gateway_cmd(), "GATEaddr?\n");
    assert_eq!(query_dhcp_cmd(), "DHCP?\n");
}

#[test]
fn select_and_output_commands() {
    assert_eq!(select_channel_cmd(Channel::Ch2), "INST CH2\n");
    assert_eq!(set_output_cmd(Channel::Ch1, OutputState::On), "OUTPut CH1,ON\n");
    // CH3 supports on/off control even though it is not programmable.
    assert_eq!(set_output_cmd(Channel::Ch3, OutputState::Off), "OUTPut CH3,OFF\n");
}

#[test]
fn track_mode_commands() {
    assert_eq!(set_track_cmd(TrackMode::Independent), "OUTP:TRACK 0\n");
    assert_eq!(set_track_cmd(TrackMode::Series), "OUTP:TRACK 1\n");
    assert_eq!(set_track_cmd(TrackMode::Parallel), "OUTP:TRACK 2\n");
}

#[test]
fn wave_display_command() {
    let cmd = set_wave_display_cmd(Channel::Ch1, OutputState::On).unwrap();
    assert_eq!(cmd, "OUTP:WAVE CH1,ON\n");
}

#[test]
fn measurement_commands_with_channel() {
    assert_eq!(measure_voltage_cmd(Some(Channel::Ch1)).unwrap(), "MEAS:VOLT? CH1\n");
    assert_eq!(measure_current_cmd(Some(Channel::Ch2)).unwrap(), "MEAS:CURR? CH2\n");
    assert_eq!(measure_power_cmd(Some(Channel::Ch1)).unwrap(), "MEAS:POWEr? CH1\n");
}

#[test]
fn measurement_commands_aggregate() {
    // No channel: the suffix is omitted entirely.
    assert_eq!(measure_voltage_cmd(None).unwrap(), "MEAS:VOLT?\n");
    assert_eq!(measure_current_cmd(None).unwrap(), "MEAS:CURR?\n");
    assert_eq!(measure_power_cmd(None).unwrap(), "MEAS:POWEr?\n");
}

#[test]
fn timer_commands() {
    let cmd = timer_set_cmd(
        Channel::Ch1,
        2,
        Fixed6::from_micros(5_000_000),
        Fixed6::from_micros(1_000_000),
        Fixed6::from_micros(2_500_000),
    )
    .unwrap();
    assert_eq!(cmd, "TIMER:SET CH1,2,5.000000,1.000000,2.500000\n");
    assert_eq!(timer_query_cmd(Channel::Ch2, 5).unwrap(), "TIMER:SET? CH2,5\n");
    assert_eq!(timer_state_cmd(Channel::Ch1, TimerState::Off).unwrap(), "TIMER CH1,OFF\n");
}

#[test]
fn network_commands() {
    assert_eq!(set_ip_cmd("192.168.0.10"), "IPaddr 192.168.0.10\n");
    assert_eq!(set_mask_cmd("255.255.255.0"), "MASKaddr 255.255.255.0\n");
    assert_eq!(set_gateway_cmd("192.168.0.1"), "GATEaddr 192.168.0.1\n");
    assert_eq!(set_dhcp_cmd(DhcpState::On), "DHCP ON\n");
    assert_eq!(set_dhcp_cmd(DhcpState::Off), "DHCP OFF\n");
}

#[test]
fn save_recall_commands() {
    assert_eq!(save_cmd(1).unwrap(), "*SAV 1\n");
    assert_eq!(save_cmd(5).unwrap(), "*SAV 5\n");
    assert_eq!(recall_cmd(3).unwrap(), "*RCL 3\n");
}

#[test]
fn slot_and_group_range() {
    // 1..=5 accepted; 0 and 6 rejected with a range violation.
    assert!(ensure_slot(1).is_ok());
    assert!(ensure_slot(5).is_ok());
    assert_eq!(ensure_slot(0), Err(Error::RangeViolation));
    assert_eq!(ensure_slot(6), Err(Error::RangeViolation));
    assert!(ensure_group(1).is_ok());
    assert!(ensure_group(5).is_ok());
    assert_eq!(ensure_group(0), Err(Error::RangeViolation));
    assert_eq!(ensure_group(6), Err(Error::RangeViolation));
    assert_eq!(save_cmd(0), Err(Error::RangeViolation));
    assert_eq!(save_cmd(6), Err(Error::RangeViolation));
    assert_eq!(recall_cmd(0), Err(Error::RangeViolation));
}

#[test]
fn ch3_capability_rules() {
    // Every programmable-only operation is rejected for CH3.
    assert_eq!(guard_programmable(Channel::Ch3), Err(Error::CapabilityViolation(Capability::Programmable)));
    assert!(guard_programmable(Channel::Ch1).is_ok());
    assert!(guard_programmable(Channel::Ch2).is_ok());
    let z = Fixed6::from_micros(0);
    assert_eq!(set_voltage_cmd(Channel::Ch3, z), Err(Error::CapabilityViolation(Capability::Programmable)));
    assert_eq!(query_voltage_cmd(Channel::Ch3), Err(Error::CapabilityViolation(Capability::Programmable)));
    assert_eq!(set_current_cmd(Channel::Ch3, z), Err(Error::CapabilityViolation(Capability::Programmable)));
    assert_eq!(query_current_cmd(Channel::Ch3), Err(Error::CapabilityViolation(Capability::Programmable)));
    assert_eq!(timer_set_cmd(Channel::Ch3, 1, z, z, z), Err(Error::CapabilityViolation(Capability::Programmable)));
    assert_eq!(timer_query_cmd(Channel::Ch3, 1), Err(Error::CapabilityViolation(Capability::Programmable)));
    assert_eq!(
        timer_state_cmd(Channel::Ch3, TimerState::Off),
        Err(Error::CapabilityViolation(Capability::Programmable))
    );
    assert_eq!(
        set_wave_display_cmd(Channel::Ch3, OutputState::Off),
        Err(Error::CapabilityViolation(Capability::Programmable))
    );
    assert_eq!(
        measure_voltage_cmd(Some(Channel::Ch3)),
        Err(Error::CapabilityViolation(Capability::Programmable))
    );
    // The channel guard is checked before the group range.
    assert_eq!(timer_set_cmd(Channel::Ch3, 0, z, z, z), Err(Error::CapabilityViolation(Capability::Programmable)));
    // For a programmable channel an out-of-range group is the failure.
    assert_eq!(timer_set_cmd(Channel::Ch1, 0, z, z, z), Err(Error::RangeViolation));
    assert_eq!(timer_set_cmd(Channel::Ch1, 6, z, z, z), Err(Error::RangeViolation));
}

#[test]
fn track_mode_write_encoding_round_trip() {
    for m in [TrackMode::Independent, TrackMode::Series, TrackMode::Parallel] {
        assert_eq!(TrackMode::from_value(m.as_value()).unwrap(), m);
    }
    assert_eq!(TrackMode::Independent.as_value(), 0);
    assert_eq!(TrackMode::Series.as_value(), 1);
    assert_eq!(TrackMode::Parallel.as_value(), 2);
    assert_eq!(TrackMode::from_value(3), Err(Error::UnknownEnumValue));
    assert_eq!(TrackMode::from_value(255), Err(Error::UnknownEnumValue));
}

#[test]
fn error_messages_are_nonempty() {
    let errs = [
        Error::TransportFailure(String::from("io")),
        Error::EmptyResponse,
        Error::DecodeFailure(String::from("x")),
        Error::CapabilityViolation(Capability::OutputStateTelemetry),
        Error::CapabilityViolation(Capability::Programmable),
        Error::RangeViolation,
        Error::UnknownEnumValue,
    ];
    for e in errs {
        assert!(!e.message().is_empty());
    }
}
