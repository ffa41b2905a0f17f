use spd3303x_control::error::{Capability, Error};
use spd3303x_control::fixed::Fixed6;
use spd3303x_control::session::{
    channel_status_commands, network_config_commands, output_state_from_status,
    parse_channel_status, parse_network_config, query_output_cmd, soft_reset_commands,
};
use spd3303x_control::status::SystemStatus;
use spd3303x_control::types::Channel;

#[test]
fn soft_reset_command_order() {
    // Outputs off for CH1, CH2, CH3; track mode Independent; timers off;
    // waveform display off; then setpoints zeroed, voltage before
    // current, CH1 before CH2 — in exactly this order.
    let cmds = soft_reset_commands();
    let expected = vec![
        "OUTPut CH1,OFF\n",
        "OUTPut CH2,OFF\n",
        "OUTPut CH3,OFF\n",
        "OUTP:TRACK 0\n",
        "TIMER CH1,OFF\n",
        "TIMER CH2,OFF\n",
        "OUTP:WAVE CH1,OFF\n",
        "OUTP:WAVE CH2,OFF\n",
        "CH1:VOLT 0.000000\n",
        "CH1:CURR 0.000000\n",
        "CH2:VOLT 0.000000\n",
        "CH2:CURR 0.000000\n",
    ];
    assert_eq!(cmds, expected);
}

#[test]
fn channel_status_query_order() {
    let cmds = channel_status_commands(Channel::Ch1).unwrap();
    let expected = vec![
        "CH1:VOLT?\n",
        "CH1:CURR?\n",
        "MEAS:VOLT? CH1\n",
        "MEAS:CURR? CH1\n",
        "MEAS:POWEr? CH1\n",
    ];
    assert_eq!(cmds, expected);
    assert_eq!(
        channel_status_commands(Channel::Ch3),
        Err(Error::CapabilityViolation(Capability::Programmable))
    );
}

#[test]
fn channel_status_assembly() {
    let cs = parse_channel_status("5.000000", "1.000000", "4.998000", "0.250000", "1.249500")
        .unwrap();
    assert_eq!(cs.set_voltage_v, Fixed6::from_micros(5_000_000));
    assert_eq!(cs.set_current_a, Fixed6::from_micros(1_000_000));
    assert_eq!(cs.measured_voltage_v, Fixed6::from_micros(4_998_000));
    assert_eq!(cs.measured_current_a, Fixed6::from_micros(250_000));
    assert_eq!(cs.measured_power_w, Fixed6::from_micros(1_249_500));
    assert!(matches!(
        parse_channel_status("5.0", "x", "0", "0", "0"),
        Err(Error::DecodeFailure(_))
    ));
}

#[test]
fn network_read_order_and_assembly() {
    let cmds = network_config_commands();
    let expected = vec!["IPaddr?\n", "MASKaddr?\n", "GATEaddr?\n", "DHCP?\n"];
    assert_eq!(cmds, expected);
    let nc = parse_network_config(" 192.168.0.232 \r\n", "255.255.255.0", "192.168.0.1\n", "ON");
    assert_eq!(nc.ip, "192.168.0.232");
    assert_eq!(nc.mask, "255.255.255.0");
    assert_eq!(nc.gateway, "192.168.0.1");
    assert!(nc.dhcp);
    let nc = parse_network_config("10.0.0.2", "255.0.0.0", "10.0.0.1", "OFF");
    assert!(!nc.dhcp);
    let nc = parse_network_config("10.0.0.2", "255.0.0.0", "10.0.0.1", "1");
    assert!(nc.dhcp);
}

#[test]
fn output_state_query_dispatch() {
    // CH1 and CH2 are answered through the status word; CH3 has no
    // output-state telemetry at all.
    assert_eq!(query_output_cmd(Channel::Ch1).unwrap(), "SYST:STAT?\n");
    assert_eq!(query_output_cmd(Channel::Ch2).unwrap(), "SYST:STAT?\n");
    // The CH3 rejection names the missing output-state telemetry,
    // distinct from the programmable-channel guard.
    assert_eq!(
        query_output_cmd(Channel::Ch3),
        Err(Error::CapabilityViolation(Capability::OutputStateTelemetry))
    );
    assert_ne!(
        Error::CapabilityViolation(Capability::OutputStateTelemetry).message(),
        Error::CapabilityViolation(Capability::Programmable).message()
    );
    let st = SystemStatus::from_word(1 << 4);
    assert_eq!(output_state_from_status(Channel::Ch1, &st), Ok(true));
    assert_eq!(output_state_from_status(Channel::Ch2, &st), Ok(false));
    assert_eq!(
        output_state_from_status(Channel::Ch3, &st),
        Err(Error::CapabilityViolation(Capability::OutputStateTelemetry))
    );
    let st = SystemStatus::from_word(1 << 5);
    assert_eq!(output_state_from_status(Channel::Ch1, &st), Ok(false));
    assert_eq!(output_state_from_status(Channel::Ch2, &st), Ok(true));
}
