//! The sequencing layer: multi-step operations as explicit ordered
//! command lists with fail-fast semantics, and the decode/assembly steps
//! of composite reads. The caller drives the transport: it sends each
//! command in order, aborts at the first failure, and hands answers back
//! to the decode functions here.

use vstd::prelude::*;
use crate::decode::{lenient_on, parse_dhcp_response, trim_to_string};
use crate::encode::{
    measure_current_cmd, measure_current_cmd_chars, measure_power_cmd, measure_power_cmd_chars,
    measure_voltage_cmd, measure_voltage_cmd_chars, query_current_cmd, query_current_cmd_chars,
    query_dhcp_cmd, query_dhcp_cmd_chars, query_gateway_cmd, query_gateway_cmd_chars,
    query_ip_cmd, query_ip_cmd_chars, query_mask_cmd, query_mask_cmd_chars, query_voltage_cmd,
    query_voltage_cmd_chars, set_current_cmd, set_current_cmd_chars, set_output_cmd,
    set_output_cmd_chars, set_track_cmd, set_track_cmd_chars, set_voltage_cmd,
    set_voltage_cmd_chars, set_wave_display_cmd, set_wave_display_cmd_chars, system_status_cmd,
    system_status_cmd_chars, timer_state_cmd, timer_state_cmd_chars,
};
use crate::error::{Capability, Error};
use crate::fixed::{Fixed6, fixed6_of_chars, parse_fixed6};
use crate::guard::guard_programmable;
use crate::status::SystemStatus;
use crate::text::trimmed;
use crate::types::{Channel, DhcpState, is_programmable, OutputState, TimerState, TrackMode};
use vstd::pervasive::unreached;

verus! {

/// Composite read-only record of one programmable channel: setpoints
/// and measured values, in the five-query order they are read.
#[derive(Debug, Clone, Copy, PartialEq, Eq, Structural)]
pub struct ChannelStatus {
    /// Programmed voltage setpoint.
    pub set_voltage_v: Fixed6,
    /// Programmed current limit.
    pub set_current_a: Fixed6,
    /// Measured output voltage.
    pub measured_voltage_v: Fixed6,
    /// Measured output current.
    pub measured_current_a: Fixed6,
    /// Measured output power.
    pub measured_power_w: Fixed6,
}

/// Network settings of the instrument, as the device reports them: the
/// address texts are kept verbatim (trimmed), not parsed further.
#[derive(Debug, Clone, PartialEq, Eq)]
pub struct NetworkConfig {
    /// IP address text.
    pub ip: String,
    /// Subnet mask text.
    pub mask: String,
    /// Gateway text.
    pub gateway: String,
    /// Whether DHCP is enabled.
    pub dhcp: bool,
}

/// The ordered command lines of a soft reset: outputs off for CH1, CH2,
/// CH3; track mode to Independent; timers off for CH1, CH2; waveform
/// display off for CH1, CH2; then setpoints zeroed, voltage before
/// current, CH1 before CH2. Outputs are disabled first so that no
/// transient setting is delivered while the rest is reconfigured.
pub open spec fn soft_reset_cmd_chars() -> Seq<Seq<char>> {
    seq![
        set_output_cmd_chars(Channel::Ch1, false),
        set_output_cmd_chars(Channel::Ch2, false),
        set_output_cmd_chars(Channel::Ch3, false),
        set_track_cmd_chars(TrackMode::Independent),
        timer_state_cmd_chars(Channel::Ch1, false),
        timer_state_cmd_chars(Channel::Ch2, false),
        set_wave_display_cmd_chars(Channel::Ch1, false),
        set_wave_display_cmd_chars(Channel::Ch2, false),
        set_voltage_cmd_chars(Channel::Ch1, (Fixed6 { micros: 0 })),
        set_current_cmd_chars(Channel::Ch1, (Fixed6 { micros: 0 })),
        set_voltage_cmd_chars(Channel::Ch2, (Fixed6 { micros: 0 })),
        set_current_cmd_chars(Channel::Ch2, (Fixed6 { micros: 0 })),
    ]
}

/// Builds the soft-reset command sequence. The caller writes each line
/// in order and aborts at the first transport failure; no rollback is
/// attempted.
pub fn soft_reset_commands() -> (r: Vec<String>)
    ensures
        r@.len() == soft_reset_cmd_chars().len(),
        forall|i: int| 0 <= i < r@.len() ==> #[trigger] r@[i]@ == soft_reset_cmd_chars()[i],
{
    let zero = Fixed6::zero();
    let mut cmds: Vec<String> = Vec::new();
    cmds.push(set_output_cmd(Channel::Ch1, OutputState::Off));
    cmds.push(set_output_cmd(Channel::Ch2, OutputState::Off));
    cmds.push(set_output_cmd(Channel::Ch3, OutputState::Off));
    cmds.push(set_track_cmd(TrackMode::Independent));
    cmds.push(
        match timer_state_cmd(Channel::Ch1, TimerState::Off) {
            Ok(c) => c,
            Err(_) => unreached(),
        },
    );
    cmds.push(
        match timer_state_cmd(Channel::Ch2, TimerState::Off) {
            Ok(c) => c,
            Err(_) => unreached(),
        },
    );
    cmds.push(
        match set_wave_display_cmd(Channel::Ch1, OutputState::Off) {
            Ok(c) => c,
            Err(_) => unreached(),
        },
    );
    cmds.push(
        match set_wave_display_cmd(Channel::Ch2, OutputState::Off) {
            Ok(c) => c,
            Err(_) => unreached(),
        },
    );
    cmds.push(
        match set_voltage_cmd(Channel::Ch1, zero) {
            Ok(c) => c,
            Err(_) => unreached(),
        },
    );
    cmds.push(
        match set_current_cmd(Channel::Ch1, zero) {
            Ok(c) => c,
            Err(_) => unreached(),
        },
    );
    cmds.push(
        match set_voltage_cmd(Channel::Ch2, zero) {
            Ok(c) => c,
            Err(_) => unreached(),
        },
    );
    cmds.push(
        match set_current_cmd(Channel::Ch2, zero) {
            Ok(c) => c,
            Err(_) => unreached(),
        },
    );
    cmds
}

/// The five status queries of one programmable channel, in order: set
/// voltage, set current, measured voltage, measured current, measured
/// power.
pub open spec fn channel_status_cmd_chars(c: Channel) -> Seq<Seq<char>> {
    seq![
        query_voltage_cmd_chars(c),
        query_current_cmd_chars(c),
        measure_voltage_cmd_chars(Some(c)),
        measure_current_cmd_chars(Some(c)),
        measure_power_cmd_chars(Some(c)),
    ]
}

/// Builds the five query lines of a channel-status read; CH3 is
/// rejected before anything is built.
pub fn channel_status_commands(channel: Channel) -> (r: Result<Vec<String>, Error>)
    ensures
        match r {
            Ok(cmds) => is_programmable(channel) && cmds@.len() == 5 && (forall|i: int|
                0 <= i < 5 ==> #[trigger] cmds@[i]@ == channel_status_cmd_chars(channel)[i]),
            Err(e) => !is_programmable(channel) && e == Error::CapabilityViolation(
                Capability::Programmable,
            ),
        },
{
    if let Err(e) = guard_programmable(channel) {
        return Err(e);
    }
    let mut cmds: Vec<String> = Vec::new();
    cmds.push(
        match query_voltage_cmd(channel) {
            Ok(c) => c,
            Err(_) => unreached(),
        },
    );
    cmds.push(
        match query_current_cmd(channel) {
            Ok(c) => c,
            Err(_) => unreached(),
        },
    );
    cmds.push(
        match measure_voltage_cmd(Some(channel)) {
            Ok(c) => c,
            Err(_) => unreached(),
        },
    );
    cmds.push(
        match measure_current_cmd(Some(channel)) {
            Ok(c) => c,
            Err(_) => unreached(),
        },
    );
    cmds.push(
        match measure_power_cmd(Some(channel)) {
            Ok(c) => c,
            Err(_) => unreached(),
        },
    );
    Ok(cmds)
}

/// Decodes the five answers of a channel-status read, in query order;
/// the first undecodable answer's failure is the result, carrying that
/// answer's text.
pub fn parse_channel_status(
    set_v: &str,
    set_c: &str,
    meas_v: &str,
    meas_c: &str,
    meas_p: &str,
) -> (r: Result<ChannelStatus, Error>)
    ensures
        match r {
            Ok(cs) => {
                &&& fixed6_of_chars(trimmed(set_v@)) == Some(cs.set_voltage_v.micros as int)
                &&& fixed6_of_chars(trimmed(set_c@)) == Some(cs.set_current_a.micros as int)
                &&& fixed6_of_chars(trimmed(meas_v@)) == Some(cs.measured_voltage_v.micros as int)
                &&& fixed6_of_chars(trimmed(meas_c@)) == Some(cs.measured_current_a.micros as int)
                &&& fixed6_of_chars(trimmed(meas_p@)) == Some(cs.measured_power_w.micros as int)
            },
            Err(e) => {
                ||| (fixed6_of_chars(trimmed(set_v@)) is None && (e matches Error::DecodeFailure(
                    w,
                ) && w@ == set_v@))
                ||| (fixed6_of_chars(trimmed(set_v@)) is Some && fixed6_of_chars(trimmed(set_c@))
                    is None && (e matches Error::DecodeFailure(w) && w@ == set_c@))
                ||| (fixed6_of_chars(trimmed(set_v@)) is Some && fixed6_of_chars(trimmed(set_c@))
                    is Some && fixed6_of_chars(trimmed(meas_v@)) is None && (e matches
                Error::DecodeFailure(w) && w@ == meas_v@))
                ||| (fixed6_of_chars(trimmed(set_v@)) is Some && fixed6_of_chars(trimmed(set_c@))
                    is Some && fixed6_of_chars(trimmed(meas_v@)) is Some && fixed6_of_chars(
                    trimmed(meas_c@),
                ) is None && (e matches Error::DecodeFailure(w) && w@ == meas_c@))
                ||| (fixed6_of_chars(trimmed(set_v@)) is Some && fixed6_of_chars(trimmed(set_c@))
                    is Some && fixed6_of_chars(trimmed(meas_v@)) is Some && fixed6_of_chars(
                    trimmed(meas_c@),
                ) is Some && fixed6_of_chars(trimmed(meas_p@)) is None && (e matches
                Error::DecodeFailure(w) && w@ == meas_p@))
            },
        },
{
    let sv = match parse_fixed6(set_v) {
        Ok(v) => v,
        Err(e) => {
            return Err(e);
        },
    };
    let sc = match parse_fixed6(set_c) {
        Ok(v) => v,
        Err(e) => {
            return Err(e);
        },
    };
    let mv = match parse_fixed6(meas_v) {
        Ok(v) => v,
        Err(e) => {
            return Err(e);
        },
    };
    let mc = match parse_fixed6(meas_c) {
        Ok(v) => v,
        Err(e) => {
            return Err(e);
        },
    };
    let mp = match parse_fixed6(meas_p) {
        Ok(v) => v,
        Err(e) => {
            return Err(e);
        },
    };
    Ok(
        ChannelStatus {
            set_voltage_v: sv,
            set_current_a: sc,
            measured_voltage_v: mv,
            measured_current_a: mc,
            measured_power_w: mp,
        },
    )
}

/// The four queries of a network-configuration read, in order: IP,
/// mask, gateway, DHCP state.
pub open spec fn network_config_cmd_chars() -> Seq<Seq<char>> {
    seq![
        query_ip_cmd_chars(),
        query_mask_cmd_chars(),
        query_gateway_cmd_chars(),
        query_dhcp_cmd_chars(),
    ]
}

/// Builds the four query lines of a network-configuration read.
pub fn network_config_commands() -> (r: Vec<String>)
    ensures
        r@.len() == network_config_cmd_chars().len(),
        forall|i: int| 0 <= i < r@.len() ==> #[trigger] r@[i]@ == network_config_cmd_chars()[i],
{
    let mut cmds: Vec<String> = Vec::new();
    cmds.push(query_ip_cmd());
    cmds.push(query_mask_cmd());
    cmds.push(query_gateway_cmd());
    cmds.push(query_dhcp_cmd());
    cmds
}

/// Assembles a network snapshot from the four answers: address texts
/// are kept as the device sent them, trimmed; the DHCP flag is the
/// lenient boolean match (`ON` in any case, or the literal `1`).
pub fn parse_network_config(ip: &str, mask: &str, gateway: &str, dhcp: &str) -> (r: NetworkConfig)
    ensures
        r.ip@ == trimmed(ip@),
        r.mask@ == trimmed(mask@),
        r.gateway@ == trimmed(gateway@),
        r.dhcp == lenient_on(trimmed(dhcp@)),
{
    let dhcp_state = parse_dhcp_response(dhcp);
    NetworkConfig {
        ip: trim_to_string(ip),
        mask: trim_to_string(mask),
        gateway: trim_to_string(gateway),
        dhcp: match dhcp_state {
            DhcpState::On => true,
            DhcpState::Off => false,
        },
    }
}

/// The command an output-state query must send: CH1 and CH2 are read
/// through the status word (the dedicated query form is undocumented on
/// this instrument family); CH3 exposes no output-state telemetry at
/// all, so its rejection names that missing telemetry, distinct from
/// the general programmable-channel rule.
pub fn query_output_cmd(channel: Channel) -> (r: Result<String, Error>)
    ensures
        match r {
            Ok(cmd) => is_programmable(channel) && cmd@ == system_status_cmd_chars(),
            Err(e) => !is_programmable(channel) && e == Error::CapabilityViolation(
                Capability::OutputStateTelemetry,
            ),
        },
{
    match channel {
        Channel::Ch1 | Channel::Ch2 => Ok(system_status_cmd()),
        Channel::Ch3 => Err(Error::CapabilityViolation(Capability::OutputStateTelemetry)),
    }
}

/// Extracts a channel's output flag from a decoded status snapshot;
/// CH3's output state is not observable, and its rejection names that
/// missing telemetry.
pub fn output_state_from_status(channel: Channel, status: &SystemStatus) -> (r: Result<
    bool,
    Error,
>)
    ensures
        match r {
            Ok(on) => is_programmable(channel) && (channel == Channel::Ch1 ==> on
                == status.ch1_output_on) && (channel == Channel::Ch2 ==> on
                == status.ch2_output_on),
            Err(e) => !is_programmable(channel) && e == Error::CapabilityViolation(
                Capability::OutputStateTelemetry,
            ),
        },
{
    match channel {
        Channel::Ch1 => Ok(status.ch1_output_on),
        Channel::Ch2 => Ok(status.ch2_output_on),
        Channel::Ch3 => Err(Error::CapabilityViolation(Capability::OutputStateTelemetry)),
    }
}

/// Whether a line is one of the soft-reset output-off commands.
pub open spec fn is_output_off_cmd(s: Seq<char>) -> bool {
    s == set_output_cmd_chars(Channel::Ch1, false) || s == set_output_cmd_chars(
        Channel::Ch2,
        false,
    ) || s == set_output_cmd_chars(Channel::Ch3, false)
}

/// Whether a line is one of the soft-reset timer-off commands.
pub open spec fn is_timer_off_cmd(s: Seq<char>) -> bool {
    s == timer_state_cmd_chars(Channel::Ch1, false) || s == timer_state_cmd_chars(
        Channel::Ch2,
        false,
    )
}

/// Whether a line is one of the soft-reset waveform-display-off
/// commands.
pub open spec fn is_wave_off_cmd(s: Seq<char>) -> bool {
    s == set_wave_display_cmd_chars(Channel::Ch1, false) || s == set_wave_display_cmd_chars(
        Channel::Ch2,
        false,
    )
}

/// Whether a line is one of the soft-reset setpoint-zeroing commands.
pub open spec fn is_setpoint_zero_cmd(s: Seq<char>) -> bool {
    s == set_voltage_cmd_chars(Channel::Ch1, (Fixed6 { micros: 0 })) || s == set_current_cmd_chars(
        Channel::Ch1,
        (Fixed6 { micros: 0 }),
    ) || s == set_voltage_cmd_chars(Channel::Ch2, (Fixed6 { micros: 0 }))
        || s == set_current_cmd_chars(Channel::Ch2, (Fixed6 { micros: 0 }))
}

/// The lengths of the twelve soft-reset lines: length alone tells the
/// categories apart, except the waveform-display and setpoint lines,
/// which share a length and differ in their first character.
proof fn lemma_soft_reset_cmd_lens()
    ensures
        set_output_cmd_chars(Channel::Ch1, false).len() == 15,
        set_output_cmd_chars(Channel::Ch2, false).len() == 15,
        set_output_cmd_chars(Channel::Ch3, false).len() == 15,
        set_track_cmd_chars(TrackMode::Independent).len() == 13,
        timer_state_cmd_chars(Channel::Ch1, false).len() == 14,
        timer_state_cmd_chars(Channel::Ch2, false).len() == 14,
        set_wave_display_cmd_chars(Channel::Ch1, false).len() == 18,
        set_wave_display_cmd_chars(Channel::Ch2, false).len() == 18,
        set_voltage_cmd_chars(Channel::Ch1, (Fixed6 { micros: 0 })).len() == 18,
        set_current_cmd_chars(Channel::Ch1, (Fixed6 { micros: 0 })).len() == 18,
        set_voltage_cmd_chars(Channel::Ch2, (Fixed6 { micros: 0 })).len() == 18,
        set_current_cmd_chars(Channel::Ch2, (Fixed6 { micros: 0 })).len() == 18,
        crate::fixed::fixed6_chars(0).len() == 8,
{
    reveal_strlit("OUTPut ");
    reveal_strlit("OUTP:TRACK ");
    reveal_strlit("TIMER ");
    reveal_strlit("OUTP:WAVE ");
    reveal_strlit(":VOLT ");
    reveal_strlit(":CURR ");
    reveal_strlit("CH1");
    reveal_strlit("CH2");
    reveal_strlit("CH3");
    reveal_strlit("OFF");
    reveal_strlit(",");
    reveal_strlit("\n");
    reveal_strlit("0");
    reveal_strlit(".");
    assert(crate::text::dec_digits(0) == "0"@);
    assert(crate::text::dec_digits_pad(0, 0).len() == 0);
    assert(crate::text::dec_digits_pad(0, 1).len() == 1);
    assert(crate::text::dec_digits_pad(0, 2).len() == 2);
    assert(crate::text::dec_digits_pad(0, 3).len() == 3);
    assert(crate::text::dec_digits_pad(0, 4).len() == 4);
    assert(crate::text::dec_digits_pad(0, 5).len() == 5);
    assert(crate::text::dec_digits_pad(0, 6).len() == 6);
    assert(crate::fixed::fixed6_chars(0).len() == 8);
}

/// The four setpoint-zeroing lines are pairwise distinct: the channel
/// token or the `VOLT`/`CURR` mnemonic tells them apart.
proof fn lemma_setpoint_cmds_distinct()
    ensures
        set_voltage_cmd_chars(Channel::Ch1, (Fixed6 { micros: 0 })) != set_current_cmd_chars(
            Channel::Ch1,
            (Fixed6 { micros: 0 }),
        ),
        set_voltage_cmd_chars(Channel::Ch2, (Fixed6 { micros: 0 })) != set_current_cmd_chars(
            Channel::Ch2,
            (Fixed6 { micros: 0 }),
        ),
        set_voltage_cmd_chars(Channel::Ch1, (Fixed6 { micros: 0 })) != set_voltage_cmd_chars(
            Channel::Ch2,
            (Fixed6 { micros: 0 }),
        ),
        set_voltage_cmd_chars(Channel::Ch1, (Fixed6 { micros: 0 })) != set_current_cmd_chars(
            Channel::Ch2,
            (Fixed6 { micros: 0 }),
        ),
        set_current_cmd_chars(Channel::Ch1, (Fixed6 { micros: 0 })) != set_voltage_cmd_chars(
            Channel::Ch2,
            (Fixed6 { micros: 0 }),
        ),
        set_current_cmd_chars(Channel::Ch1, (Fixed6 { micros: 0 })) != set_current_cmd_chars(
            Channel::Ch2,
            (Fixed6 { micros: 0 }),
        ),
        forall|c1: Channel, c2: Channel|
            #![trigger set_wave_display_cmd_chars(c1, false), set_voltage_cmd_chars(c2, (Fixed6 { micros: 0 }))]
            set_wave_display_cmd_chars(c1, false) != set_voltage_cmd_chars(
                c2,
                (Fixed6 { micros: 0 }),
            ),
        forall|c1: Channel, c2: Channel|
            #![trigger set_wave_display_cmd_chars(c1, false), set_current_cmd_chars(c2, (Fixed6 { micros: 0 }))]
            set_wave_display_cmd_chars(c1, false) != set_current_cmd_chars(
                c2,
                (Fixed6 { micros: 0 }),
            ),
{
    reveal_strlit(":VOLT ");
    reveal_strlit(":CURR ");
    reveal_strlit("CH1");
    reveal_strlit("CH2");
    reveal_strlit("OUTP:WAVE ");
    let z = Fixed6 { micros: 0 };
    assert(set_wave_display_cmd_chars(Channel::Ch1, false)[0] == 'O');
    assert(set_wave_display_cmd_chars(Channel::Ch2, false)[0] == 'O');
    assert(set_voltage_cmd_chars(Channel::Ch1, z)[4] == 'V');
    assert(set_current_cmd_chars(Channel::Ch1, z)[4] == 'C');
    assert(set_voltage_cmd_chars(Channel::Ch2, z)[4] == 'V');
    assert(set_current_cmd_chars(Channel::Ch2, z)[4] == 'C');
    assert(set_voltage_cmd_chars(Channel::Ch1, z)[2] == '1');
    assert(set_voltage_cmd_chars(Channel::Ch2, z)[2] == '2');
    assert(set_current_cmd_chars(Channel::Ch1, z)[2] == '1');
    assert(set_current_cmd_chars(Channel::Ch2, z)[2] == '2');
    reveal_strlit("CH3");
    assert forall|c1: Channel, c2: Channel|
        #![trigger set_wave_display_cmd_chars(c1, false), set_voltage_cmd_chars(c2, z)]
        set_wave_display_cmd_chars(c1, false) != set_voltage_cmd_chars(c2, z) by {
        assert(set_wave_display_cmd_chars(c1, false)[0] == 'O');
        assert(set_voltage_cmd_chars(c2, z)[0] == 'C');
    }
    assert forall|c1: Channel, c2: Channel|
        #![trigger set_wave_display_cmd_chars(c1, false), set_current_cmd_chars(c2, z)]
        set_wave_display_cmd_chars(c1, false) != set_current_cmd_chars(c2, z) by {
        assert(set_wave_display_cmd_chars(c1, false)[0] == 'O');
        assert(set_current_cmd_chars(c2, z)[0] == 'C');
    }
}

/// Soft-reset ordering law: in the soft-reset sequence the output-off
/// lines fill exactly the positions before the track-mode line; the
/// track-mode line sits strictly before every timer-off line, every
/// timer-off line before every waveform-display-off line, and every
/// waveform-display-off line before every setpoint-zeroing line; and
/// within the setpoints, each channel's voltage zeroing strictly
/// precedes its current zeroing.
#[verifier::rlimit(60)]
pub proof fn lemma_soft_reset_order()
    ensures
        ({
            let cmds = soft_reset_cmd_chars();
            &&& forall|i: int|
                0 <= i < cmds.len() ==> (is_output_off_cmd(#[trigger] cmds[i]) <==> i < 3)
            &&& forall|i: int|
                0 <= i < cmds.len() ==> ((#[trigger] cmds[i]) == set_track_cmd_chars(
                    TrackMode::Independent,
                ) <==> i == 3)
            &&& forall|i: int|
                0 <= i < cmds.len() ==> (is_timer_off_cmd(#[trigger] cmds[i]) <==> (4 <= i < 6))
            &&& forall|i: int|
                0 <= i < cmds.len() ==> (is_wave_off_cmd(#[trigger] cmds[i]) <==> (6 <= i < 8))
            &&& forall|i: int|
                0 <= i < cmds.len() ==> (is_setpoint_zero_cmd(#[trigger] cmds[i]) <==> (8 <= i
                    < 12))
            &&& forall|i: int|
                0 <= i < cmds.len() ==> ((#[trigger] cmds[i]) == set_voltage_cmd_chars(
                    Channel::Ch1,
                    (Fixed6 { micros: 0 }),
                ) <==> i == 8)
            &&& forall|i: int|
                0 <= i < cmds.len() ==> ((#[trigger] cmds[i]) == set_current_cmd_chars(
                    Channel::Ch1,
                    (Fixed6 { micros: 0 }),
                ) <==> i == 9)
            &&& forall|i: int|
                0 <= i < cmds.len() ==> ((#[trigger] cmds[i]) == set_voltage_cmd_chars(
                    Channel::Ch2,
                    (Fixed6 { micros: 0 }),
                ) <==> i == 10)
            &&& forall|i: int|
                0 <= i < cmds.len() ==> ((#[trigger] cmds[i]) == set_current_cmd_chars(
                    Channel::Ch2,
                    (Fixed6 { micros: 0 }),
                ) <==> i == 11)
        }),
{
    lemma_soft_reset_cmd_lens();
    lemma_setpoint_cmds_distinct();
    let z = Fixed6 { micros: 0 };
    let cmds = soft_reset_cmd_chars();
    assert forall|i: int|
        0 <= i < cmds.len() implies ((#[trigger] cmds[i]) == set_voltage_cmd_chars(
        Channel::Ch1,
        z,
    ) <==> i == 8) by {
        if i < 6 {
            assert(cmds[i].len() != 18);
        }
    }
    assert forall|i: int|
        0 <= i < cmds.len() implies ((#[trigger] cmds[i]) == set_current_cmd_chars(
        Channel::Ch1,
        z,
    ) <==> i == 9) by {
        if i < 6 {
            assert(cmds[i].len() != 18);
        }
    }
    assert forall|i: int|
        0 <= i < cmds.len() implies ((#[trigger] cmds[i]) == set_voltage_cmd_chars(
        Channel::Ch2,
        z,
    ) <==> i == 10) by {
        if i < 6 {
            assert(cmds[i].len() != 18);
        }
    }
    assert forall|i: int|
        0 <= i < cmds.len() implies ((#[trigger] cmds[i]) == set_current_cmd_chars(
        Channel::Ch2,
        z,
    ) <==> i == 11) by {
        if i < 6 {
            assert(cmds[i].len() != 18);
        }
    }
}


} // verus!
