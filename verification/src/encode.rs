//! The command encoder: every operation becomes its exact ASCII command
//! line, newline terminated. Encoding itself cannot fail; capability and
//! range rules are checked first, so a failure here is always a guard
//! failure.

use vstd::prelude::*;
use crate::error::{Capability, Error};
use crate::fixed::{append_dec, append_fixed6, Fixed6, fixed6_chars};
use crate::guard::{ensure_group, ensure_slot, guard_programmable, index_in_range};
use crate::text::dec_digits;
use crate::types::{
    Channel, channel_token, DhcpState, is_programmable, on_off_token, OutputState, TimerState,
    TrackMode, track_mode_value,
};

verus! {

/// The identification query line.
pub open spec fn idn_cmd_chars() -> Seq<char> {
    "*IDN?\n"@
}

/// `*IDN?`.
pub fn idn_cmd() -> (r: String)
    ensures
        r@ == idn_cmd_chars(),
{
    "*IDN?\n".to_owned()
}

/// The save-state command line for a slot.
pub open spec fn save_cmd_chars(slot: int) -> Seq<char> {
    "*SAV "@ + dec_digits(slot) + "\n"@
}

/// `*SAV <slot>`, for a slot 1..=5; out of range is a
/// [`Error::RangeViolation`].
pub fn save_cmd(slot: u8) -> (r: Result<String, Error>)
    ensures
        match r {
            Ok(cmd) => index_in_range(slot as int) && cmd@ == save_cmd_chars(slot as int),
            Err(e) => !index_in_range(slot as int) && e == Error::RangeViolation,
        },
{
    if let Err(e) = ensure_slot(slot) {
        return Err(e);
    }
    let mut out = String::new();
    out.append("*SAV ");
    append_dec(&mut out, slot as u64);
    out.append("\n");
    proof {
        assert(Seq::<char>::empty() + "*SAV "@ + dec_digits(slot as int) + "\n"@ =~= save_cmd_chars(
            slot as int,
        ));
    }
    Ok(out)
}

/// The recall-state command line for a slot.
pub open spec fn recall_cmd_chars(slot: int) -> Seq<char> {
    "*RCL "@ + dec_digits(slot) + "\n"@
}

/// `*RCL <slot>`, for a slot 1..=5; out of range is a
/// [`Error::RangeViolation`].
pub fn recall_cmd(slot: u8) -> (r: Result<String, Error>)
    ensures
        match r {
            Ok(cmd) => index_in_range(slot as int) && cmd@ == recall_cmd_chars(slot as int),
            Err(e) => !index_in_range(slot as int) && e == Error::RangeViolation,
        },
{
    if let Err(e) = ensure_slot(slot) {
        return Err(e);
    }
    let mut out = String::new();
    out.append("*RCL ");
    append_dec(&mut out, slot as u64);
    out.append("\n");
    proof {
        assert(Seq::<char>::empty() + "*RCL "@ + dec_digits(slot as int) + "\n"@
            =~= recall_cmd_chars(slot as int));
    }
    Ok(out)
}

/// The channel-select command line.
pub open spec fn select_channel_cmd_chars(c: Channel) -> Seq<char> {
    "INST "@ + channel_token(c) + "\n"@
}

/// `INST <ch>`; every channel may be selected.
pub fn select_channel_cmd(channel: Channel) -> (r: String)
    ensures
        r@ == select_channel_cmd_chars(channel),
{
    let mut out = String::new();
    out.append("INST ");
    out.append(channel.as_scpi());
    out.append("\n");
    proof {
        assert(Seq::<char>::empty() + "INST "@ + channel_token(channel) + "\n"@
            =~= select_channel_cmd_chars(channel));
    }
    out
}

/// The selected-channel query line.
pub open spec fn query_selected_cmd_chars() -> Seq<char> {
    "INST?\n"@
}

/// `INST?`.
pub fn query_selected_cmd() -> (r: String)
    ensures
        r@ == query_selected_cmd_chars(),
{
    "INST?\n".to_owned()
}

/// The voltage-setpoint command line.
pub open spec fn set_voltage_cmd_chars(c: Channel, v: Fixed6) -> Seq<char> {
    channel_token(c) + ":VOLT "@ + fixed6_chars(v.micros as int) + "\n"@
}

/// `<ch>:VOLT <f>`, programmable channels only.
pub fn set_voltage_cmd(channel: Channel, volts: Fixed6) -> (r: Result<String, Error>)
    ensures
        match r {
            Ok(cmd) => is_programmable(channel) && cmd@ == set_voltage_cmd_chars(channel, volts),
            Err(e) => !is_programmable(channel) && e == Error::CapabilityViolation(Capability::Programmable),
        },
{
    if let Err(e) = guard_programmable(channel) {
        return Err(e);
    }
    let mut out = channel.as_scpi().to_owned();
    out.append(":VOLT ");
    append_fixed6(&mut out, volts);
    out.append("\n");
    proof {
        assert(channel_token(channel) + ":VOLT "@ + fixed6_chars(volts.micros as int) + "\n"@
            =~= set_voltage_cmd_chars(channel, volts));
    }
    Ok(out)
}

/// The voltage-setpoint query line.
pub open spec fn query_voltage_cmd_chars(c: Channel) -> Seq<char> {
    channel_token(c) + ":VOLT?\n"@
}

/// `<ch>:VOLT?`, programmable channels only.
pub fn query_voltage_cmd(channel: Channel) -> (r: Result<String, Error>)
    ensures
        match r {
            Ok(cmd) => is_programmable(channel) && cmd@ == query_voltage_cmd_chars(channel),
            Err(e) => !is_programmable(channel) && e == Error::CapabilityViolation(Capability::Programmable),
        },
{
    if let Err(e) = guard_programmable(channel) {
        return Err(e);
    }
    let mut out = channel.as_scpi().to_owned();
    out.append(":VOLT?\n");
    Ok(out)
}

/// The current-setpoint command line.
pub open spec fn set_current_cmd_chars(c: Channel, a: Fixed6) -> Seq<char> {
    channel_token(c) + ":CURR "@ + fixed6_chars(a.micros as int) + "\n"@
}

/// `<ch>:CURR <f>`, programmable channels only.
pub fn set_current_cmd(channel: Channel, amps: Fixed6) -> (r: Result<String, Error>)
    ensures
        match r {
            Ok(cmd) => is_programmable(channel) && cmd@ == set_current_cmd_chars(channel, amps),
            Err(e) => !is_programmable(channel) && e == Error::CapabilityViolation(Capability::Programmable),
        },
{
    if let Err(e) = guard_programmable(channel) {
        return Err(e);
    }
    let mut out = channel.as_scpi().to_owned();
    out.append(":CURR ");
    append_fixed6(&mut out, amps);
    out.append("\n");
    proof {
        assert(channel_token(channel) + ":CURR "@ + fixed6_chars(amps.micros as int) + "\n"@
            =~= set_current_cmd_chars(channel, amps));
    }
    Ok(out)
}

/// The current-setpoint query line.
pub open spec fn query_current_cmd_chars(c: Channel) -> Seq<char> {
    channel_token(c) + ":CURR?\n"@
}

/// `<ch>:CURR?`, programmable channels only.
pub fn query_current_cmd(channel: Channel) -> (r: Result<String, Error>)
    ensures
        match r {
            Ok(cmd) => is_programmable(channel) && cmd@ == query_current_cmd_chars(channel),
            Err(e) => !is_programmable(channel) && e == Error::CapabilityViolation(Capability::Programmable),
        },
{
    if let Err(e) = guard_programmable(channel) {
        return Err(e);
    }
    let mut out = channel.as_scpi().to_owned();
    out.append(":CURR?\n");
    Ok(out)
}

/// The output-switch command line.
pub open spec fn set_output_cmd_chars(c: Channel, on: bool) -> Seq<char> {
    "OUTPut "@ + channel_token(c) + ","@ + on_off_token(on) + "\n"@
}

/// `OUTPut <ch>,<ON|OFF>`; every channel, CH3 included, supports this.
pub fn set_output_cmd(channel: Channel, state: OutputState) -> (r: String)
    ensures
        r@ == set_output_cmd_chars(channel, state == OutputState::On),
{
    let mut out = String::new();
    out.append("OUTPut ");
    out.append(channel.as_scpi());
    out.append(",");
    out.append(state.as_str());
    out.append("\n");
    proof {
        assert(Seq::<char>::empty() + "OUTPut "@ + channel_token(channel) + ","@ + on_off_token(
            state == OutputState::On,
        ) + "\n"@ =~= set_output_cmd_chars(channel, state == OutputState::On));
    }
    out
}

/// The track-mode command line.
pub open spec fn set_track_cmd_chars(m: TrackMode) -> Seq<char> {
    "OUTP:TRACK "@ + dec_digits(track_mode_value(m)) + "\n"@
}

/// `OUTP:TRACK <0|1|2>`.
pub fn set_track_cmd(mode: TrackMode) -> (r: String)
    ensures
        r@ == set_track_cmd_chars(mode),
{
    let mut out = String::new();
    out.append("OUTP:TRACK ");
    append_dec(&mut out, mode.as_value() as u64);
    out.append("\n");
    proof {
        assert(Seq::<char>::empty() + "OUTP:TRACK "@ + dec_digits(track_mode_value(mode)) + "\n"@
            =~= set_track_cmd_chars(mode));
    }
    out
}

/// The track-mode query line.
pub open spec fn query_track_cmd_chars() -> Seq<char> {
    "OUTP:TRACK?\n"@
}

/// `OUTP:TRACK?`.
pub fn query_track_cmd() -> (r: String)
    ensures
        r@ == query_track_cmd_chars(),
{
    "OUTP:TRACK?\n".to_owned()
}

/// The waveform-display command line.
pub open spec fn set_wave_display_cmd_chars(c: Channel, on: bool) -> Seq<char> {
    "OUTP:WAVE "@ + channel_token(c) + ","@ + on_off_token(on) + "\n"@
}

/// `OUTP:WAVE <ch>,<ON|OFF>`, programmable channels only.
pub fn set_wave_display_cmd(channel: Channel, state: OutputState) -> (r: Result<String, Error>)
    ensures
        match r {
            Ok(cmd) => is_programmable(channel) && cmd@ == set_wave_display_cmd_chars(
                channel,
                state == OutputState::On,
            ),
            Err(e) => !is_programmable(channel) && e == Error::CapabilityViolation(Capability::Programmable),
        },
{
    if let Err(e) = guard_programmable(channel) {
        return Err(e);
    }
    let mut out = String::new();
    out.append("OUTP:WAVE ");
    out.append(channel.as_scpi());
    out.append(",");
    out.append(state.as_str());
    out.append("\n");
    proof {
        assert(Seq::<char>::empty() + "OUTP:WAVE "@ + channel_token(channel) + ","@ + on_off_token(
            state == OutputState::On,
        ) + "\n"@ =~= set_wave_display_cmd_chars(channel, state == OutputState::On));
    }
    Ok(out)
}

/// The optional channel suffix of a measurement query: a space and the
/// channel token, or nothing for the aggregate reading.
pub open spec fn measure_suffix(c: Option<Channel>) -> Seq<char> {
    match c {
        Some(ch) => " "@ + channel_token(ch),
        None => Seq::<char>::empty(),
    }
}

/// Appends the optional measurement suffix.
fn append_measure_suffix(out: &mut String, channel: Option<Channel>)
    ensures
        final(out)@ == old(out)@ + measure_suffix(channel),
{
    match channel {
        Some(ch) => {
            out.append(" ");
            out.append(ch.as_scpi());
            proof {
                assert(old(out)@ + " "@ + channel_token(ch) =~= old(out)@ + measure_suffix(
                    Some(ch),
                ));
            }
        },
        None => {
            proof {
                assert(old(out)@ + measure_suffix(None::<Channel>) =~= old(out)@);
            }
        },
    }
}

/// The measured-voltage query line.
pub open spec fn measure_voltage_cmd_chars(c: Option<Channel>) -> Seq<char> {
    "MEAS:VOLT?"@ + measure_suffix(c) + "\n"@
}

/// `MEAS:VOLT?[ <ch>]`; a named channel must be programmable, no
/// channel queries the aggregate reading.
pub fn measure_voltage_cmd(channel: Option<Channel>) -> (r: Result<String, Error>)
    ensures
        match r {
            Ok(cmd) => (channel matches Some(c) ==> is_programmable(c)) && cmd@
                == measure_voltage_cmd_chars(channel),
            Err(e) => (channel matches Some(c) && !is_programmable(c)) && e
                == Error::CapabilityViolation(Capability::Programmable),
        },
{
    if let Some(ch) = channel {
        if let Err(e) = guard_programmable(ch) {
            return Err(e);
        }
    }
    let mut out = String::new();
    out.append("MEAS:VOLT?");
    append_measure_suffix(&mut out, channel);
    out.append("\n");
    proof {
        assert(Seq::<char>::empty() + "MEAS:VOLT?"@ + measure_suffix(channel) + "\n"@
            =~= measure_voltage_cmd_chars(channel));
    }
    Ok(out)
}

/// The measured-current query line.
pub open spec fn measure_current_cmd_chars(c: Option<Channel>) -> Seq<char> {
    "MEAS:CURR?"@ + measure_suffix(c) + "\n"@
}

/// `MEAS:CURR?[ <ch>]`; a named channel must be programmable.
pub fn measure_current_cmd(channel: Option<Channel>) -> (r: Result<String, Error>)
    ensures
        match r {
            Ok(cmd) => (channel matches Some(c) ==> is_programmable(c)) && cmd@
                == measure_current_cmd_chars(channel),
            Err(e) => (channel matches Some(c) && !is_programmable(c)) && e
                == Error::CapabilityViolation(Capability::Programmable),
        },
{
    if let Some(ch) = channel {
        if let Err(e) = guard_programmable(ch) {
            return Err(e);
        }
    }
    let mut out = String::new();
    out.append("MEAS:CURR?");
    append_measure_suffix(&mut out, channel);
    out.append("\n");
    proof {
        assert(Seq::<char>::empty() + "MEAS:CURR?"@ + measure_suffix(channel) + "\n"@
            =~= measure_current_cmd_chars(channel));
    }
    Ok(out)
}

/// The measured-power query line, with the full `POWEr` mnemonic some
/// firmware revisions require.
pub open spec fn measure_power_cmd_chars(c: Option<Channel>) -> Seq<char> {
    "MEAS:POWEr?"@ + measure_suffix(c) + "\n"@
}

/// `MEAS:POWEr?[ <ch>]`; a named channel must be programmable.
pub fn measure_power_cmd(channel: Option<Channel>) -> (r: Result<String, Error>)
    ensures
        match r {
            Ok(cmd) => (channel matches Some(c) ==> is_programmable(c)) && cmd@
                == measure_power_cmd_chars(channel),
            Err(e) => (channel matches Some(c) && !is_programmable(c)) && e
                == Error::CapabilityViolation(Capability::Programmable),
        },
{
    if let Some(ch) = channel {
        if let Err(e) = guard_programmable(ch) {
            return Err(e);
        }
    }
    let mut out = String::new();
    out.append("MEAS:POWEr?");
    append_measure_suffix(&mut out, channel);
    out.append("\n");
    proof {
        assert(Seq::<char>::empty() + "MEAS:POWEr?"@ + measure_suffix(channel) + "\n"@
            =~= measure_power_cmd_chars(channel));
    }
    Ok(out)
}

/// The timer-programming command line.
pub open spec fn timer_set_cmd_chars(
    c: Channel,
    group: int,
    v: Fixed6,
    a: Fixed6,
    secs: Fixed6,
) -> Seq<char> {
    "TIMER:SET "@ + channel_token(c) + ","@ + dec_digits(group) + ","@ + fixed6_chars(
        v.micros as int,
    ) + ","@ + fixed6_chars(a.micros as int) + ","@ + fixed6_chars(secs.micros as int) + "\n"@
}

/// `TIMER:SET <ch>,<group>,<f>,<f>,<f>`: programmable channels only,
/// group 1..=5. The channel rule is checked first, as the rest of the
/// operation surface does.
pub fn timer_set_cmd(
    channel: Channel,
    group: u8,
    voltage: Fixed6,
    current: Fixed6,
    seconds: Fixed6,
) -> (r: Result<String, Error>)
    ensures
        match r {
            Ok(cmd) => is_programmable(channel) && index_in_range(group as int) && cmd@
                == timer_set_cmd_chars(channel, group as int, voltage, current, seconds),
            Err(e) => (!is_programmable(channel) && e == Error::CapabilityViolation(Capability::Programmable)) || (
            is_programmable(channel) && !index_in_range(group as int) && e
                == Error::RangeViolation),
        },
{
    if let Err(e) = guard_programmable(channel) {
        return Err(e);
    }
    if let Err(e) = ensure_group(group) {
        return Err(e);
    }
    let mut out = String::new();
    out.append("TIMER:SET ");
    out.append(channel.as_scpi());
    out.append(",");
    append_dec(&mut out, group as u64);
    out.append(",");
    append_fixed6(&mut out, voltage);
    out.append(",");
    append_fixed6(&mut out, current);
    out.append(",");
    append_fixed6(&mut out, seconds);
    out.append("\n");
    proof {
        assert(Seq::<char>::empty() + "TIMER:SET "@ + channel_token(channel) + ","@ + dec_digits(
            group as int,
        ) + ","@ + fixed6_chars(voltage.micros as int) + ","@ + fixed6_chars(current.micros as int)
            + ","@ + fixed6_chars(seconds.micros as int) + "\n"@ =~= timer_set_cmd_chars(
            channel,
            group as int,
            voltage,
            current,
            seconds,
        ));
    }
    Ok(out)
}

/// The timer query line.
pub open spec fn timer_query_cmd_chars(c: Channel, group: int) -> Seq<char> {
    "TIMER:SET? "@ + channel_token(c) + ","@ + dec_digits(group) + "\n"@
}

/// `TIMER:SET? <ch>,<group>`: programmable channels only, group 1..=5.
pub fn timer_query_cmd(channel: Channel, group: u8) -> (r: Result<String, Error>)
    ensures
        match r {
            Ok(cmd) => is_programmable(channel) && index_in_range(group as int) && cmd@
                == timer_query_cmd_chars(channel, group as int),
            Err(e) => (!is_programmable(channel) && e == Error::CapabilityViolation(Capability::Programmable)) || (
            is_programmable(channel) && !index_in_range(group as int) && e
                == Error::RangeViolation),
        },
{
    if let Err(e) = guard_programmable(channel) {
        return Err(e);
    }
    if let Err(e) = ensure_group(group) {
        return Err(e);
    }
    let mut out = String::new();
    out.append("TIMER:SET? ");
    out.append(channel.as_scpi());
    out.append(",");
    append_dec(&mut out, group as u64);
    out.append("\n");
    proof {
        assert(Seq::<char>::empty() + "TIMER:SET? "@ + channel_token(channel) + ","@ + dec_digits(
            group as int,
        ) + "\n"@ =~= timer_query_cmd_chars(channel, group as int));
    }
    Ok(out)
}

/// The timer-switch command line.
pub open spec fn timer_state_cmd_chars(c: Channel, on: bool) -> Seq<char> {
    "TIMER "@ + channel_token(c) + ","@ + on_off_token(on) + "\n"@
}

/// `TIMER <ch>,<ON|OFF>`, programmable channels only.
pub fn timer_state_cmd(channel: Channel, state: TimerState) -> (r: Result<String, Error>)
    ensures
        match r {
            Ok(cmd) => is_programmable(channel) && cmd@ == timer_state_cmd_chars(
                channel,
                state == TimerState::On,
            ),
            Err(e) => !is_programmable(channel) && e == Error::CapabilityViolation(Capability::Programmable),
        },
{
    if let Err(e) = guard_programmable(channel) {
        return Err(e);
    }
    let mut out = String::new();
    out.append("TIMER ");
    out.append(channel.as_scpi());
    out.append(",");
    out.append(state.as_str());
    out.append("\n");
    proof {
        assert(Seq::<char>::empty() + "TIMER "@ + channel_token(channel) + ","@ + on_off_token(
            state == TimerState::On,
        ) + "\n"@ =~= timer_state_cmd_chars(channel, state == TimerState::On));
    }
    Ok(out)
}

/// The last-error query line.
pub open spec fn system_error_cmd_chars() -> Seq<char> {
    "SYST:ERR?\n"@
}

/// `SYST:ERR?`.
pub fn system_error_cmd() -> (r: String)
    ensures
        r@ == system_error_cmd_chars(),
{
    "SYST:ERR?\n".to_owned()
}

/// The firmware-version query line.
pub open spec fn system_version_cmd_chars() -> Seq<char> {
    "SYST:VERS?\n"@
}

/// `SYST:VERS?`.
pub fn system_version_cmd() -> (r: String)
    ensures
        r@ == system_version_cmd_chars(),
{
    "SYST:VERS?\n".to_owned()
}

/// The status-word query line.
pub open spec fn system_status_cmd_chars() -> Seq<char> {
    "SYST:STAT?\n"@
}

/// `SYST:STAT?`.
pub fn system_status_cmd() -> (r: String)
    ensures
        r@ == system_status_cmd_chars(),
{
    "SYST:STAT?\n".to_owned()
}

/// The IP-address command line.
pub open spec fn set_ip_cmd_chars(ip: Seq<char>) -> Seq<char> {
    "IPaddr "@ + ip + "\n"@
}

/// `IPaddr <s>`; the address text is sent as given.
pub fn set_ip_cmd(ip: &str) -> (r: String)
    ensures
        r@ == set_ip_cmd_chars(ip@),
{
    let mut out = String::new();
    out.append("IPaddr ");
    out.append(ip);
    out.append("\n");
    proof {
        assert(Seq::<char>::empty() + "IPaddr "@ + ip@ + "\n"@ =~= set_ip_cmd_chars(ip@));
    }
    out
}

/// The subnet-mask command line.
pub open spec fn set_mask_cmd_chars(mask: Seq<char>) -> Seq<char> {
    "MASKaddr "@ + mask + "\n"@
}

/// `MASKaddr <s>`.
pub fn set_mask_cmd(mask: &str) -> (r: String)
    ensures
        r@ == set_mask_cmd_chars(mask@),
{
    let mut out = String::new();
    out.append("MASKaddr ");
    out.append(mask);
    out.append("\n");
    proof {
        assert(Seq::<char>::empty() + "MASKaddr "@ + mask@ + "\n"@ =~= set_mask_cmd_chars(mask@));
    }
    out
}

/// The gateway command line.
pub open spec fn set_gateway_cmd_chars(gw: Seq<char>) -> Seq<char> {
    "GATEaddr "@ + gw + "\n"@
}

/// `GATEaddr <s>`.
pub fn set_gateway_cmd(gateway: &str) -> (r: String)
    ensures
        r@ == set_gateway_cmd_chars(gateway@),
{
    let mut out = String::new();
    out.append("GATEaddr ");
    out.append(gateway);
    out.append("\n");
    proof {
        assert(Seq::<char>::empty() + "GATEaddr "@ + gateway@ + "\n"@ =~= set_gateway_cmd_chars(
            gateway@,
        ));
    }
    out
}

/// The IP-address query line.
pub open spec fn query_ip_cmd_chars() -> Seq<char> {
    "IPaddr?\n"@
}

/// `IPaddr?`.
pub fn query_ip_cmd() -> (r: String)
    ensures
        r@ == query_ip_cmd_chars(),
{
    "IPaddr?\n".to_owned()
}

/// The subnet-mask query line.
pub open spec fn query_mask_cmd_chars() -> Seq<char> {
    "MASKaddr?\n"@
}

/// `MASKaddr?`.
pub fn query_mask_cmd() -> (r: String)
    ensures
        r@ == query_mask_cmd_chars(),
{
    "MASKaddr?\n".to_owned()
}

/// The gateway query line.
pub open spec fn query_gateway_cmd_chars() -> Seq<char> {
    "GATEaddr?\n"@
}

/// `GATEaddr?`.
pub fn query_gateway_cmd() -> (r: String)
    ensures
        r@ == query_gateway_cmd_chars(),
{
    "GATEaddr?\n".to_owned()
}

/// The DHCP-switch command line.
pub open spec fn set_dhcp_cmd_chars(on: bool) -> Seq<char> {
    "DHCP "@ + on_off_token(on) + "\n"@
}

/// `DHCP <ON|OFF>`.
pub fn set_dhcp_cmd(state: DhcpState) -> (r: String)
    ensures
        r@ == set_dhcp_cmd_chars(state == DhcpState::On),
{
    let mut out = String::new();
    out.append("DHCP ");
    out.append(state.as_str());
    out.append("\n");
    proof {
        assert(Seq::<char>::empty() + "DHCP "@ + on_off_token(state == DhcpState::On) + "\n"@
            =~= set_dhcp_cmd_chars(state == DhcpState::On));
    }
    out
}

/// The DHCP query line.
pub open spec fn query_dhcp_cmd_chars() -> Seq<char> {
    "DHCP?\n"@
}

/// `DHCP?`.
pub fn query_dhcp_cmd() -> (r: String)
    ensures
        r@ == query_dhcp_cmd_chars(),
{
    "DHCP?\n".to_owned()
}

} // verus!
