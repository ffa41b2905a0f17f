use spd3303x_control::decode::{
    clean_response, parse_channel, parse_dhcp_response, parse_on_off, parse_status_response,
    parse_timer_response, parse_track_response,
};
use spd3303x_control::error::Error;
use spd3303x_control::fixed::{fixed6_to_string, parse_fixed6, Fixed6};
use spd3303x_control::types::{Channel, DhcpState, TrackMode};

#[test]
fn clean_response_trims_padding() {
    assert_eq!(clean_response(" 3.3\r\n").unwrap(), "3.3");
    assert_eq!(clean_response("\u{0}\u{0}ok\u{0}").unwrap(), "ok");
}

#[test]
fn empty_response_is_its_own_failure() {
    // Empty or whitespace-only responses fail with EmptyResponse,
    // distinct from DecodeFailure.
    assert_eq!(clean_response(""), Err(Error::EmptyResponse));
    assert_eq!(clean_response("   \t\r\n"), Err(Error::EmptyResponse));
    assert_eq!(clean_response("\u{0}\u{0}"), Err(Error::EmptyResponse));
    assert!(!matches!(clean_response(""), Err(Error::DecodeFailure(_))));
}

#[test]
fn numeric_parse_exact() {
    assert_eq!(parse_fixed6("3.300000").unwrap(), Fixed6::from_micros(3_300_000));
    assert_eq!(parse_fixed6(" 5.000000 ").unwrap(), Fixed6::from_micros(5_000_000));
    assert_eq!(parse_fixed6("0.000000").unwrap(), Fixed6::from_micros(0));
    assert_eq!(parse_fixed6("42").unwrap(), Fixed6::from_micros(42_000_000));
    assert_eq!(parse_fixed6("-1.5").unwrap(), Fixed6::from_micros(-1_500_000));
    assert_eq!(parse_fixed6("+2.25").unwrap(), Fixed6::from_micros(2_250_000));
    assert_eq!(parse_fixed6(".5").unwrap(), Fixed6::from_micros(500_000));
    assert_eq!(parse_fixed6("5.").unwrap(), Fixed6::from_micros(5_000_000));
}

#[test]
fn numeric_parse_failures() {
    assert!(matches!(parse_fixed6("abc"), Err(Error::DecodeFailure(_))));
    assert!(matches!(parse_fixed6("."), Err(Error::DecodeFailure(_))));
    assert!(matches!(parse_fixed6("-"), Err(Error::DecodeFailure(_))));
    assert!(matches!(parse_fixed6("1.2.3"), Err(Error::DecodeFailure(_))));
    assert!(matches!(parse_fixed6("1,5"), Err(Error::DecodeFailure(_))));
    // More than six fraction digits cannot be represented exactly.
    assert!(matches!(parse_fixed6("1.2345678"), Err(Error::DecodeFailure(_))));
    // Too large to hold as millionths in an i64.
    assert!(matches!(
        parse_fixed6("99999999999999999999"),
        Err(Error::DecodeFailure(_))
    ));
    // The failure carries the offending text.
    match parse_fixed6("bogus") {
        Err(Error::DecodeFailure(w)) => assert_eq!(w, "bogus"),
        other => panic!("unexpected result {:?}", other),
    }
}

#[test]
fn numeric_format_round_trip() {
    for micros in [0i64, 1, -1, 3_300_000, -42_125_000, 9_000_000_000_000] {
        let text = fixed6_to_string(Fixed6::from_micros(micros));
        assert_eq!(parse_fixed6(&text).unwrap(), Fixed6::from_micros(micros));
    }
    assert_eq!(fixed6_to_string(Fixed6::from_micros(-250_000)), "-0.250000");
    assert_eq!(fixed6_to_string(Fixed6::from_micros(10_000_001)), "10.000001");
}

#[test]
fn channel_parse_is_case_insensitive() {
    assert_eq!(parse_channel("CH1").unwrap(), Channel::Ch1);
    assert_eq!(parse_channel("ch2").unwrap(), Channel::Ch2);
    assert_eq!(parse_channel(" Ch3 \r\n").unwrap(), Channel::Ch3);
    assert!(matches!(parse_channel("CH4"), Err(Error::DecodeFailure(_))));
    assert!(matches!(parse_channel("CH"), Err(Error::DecodeFailure(_))));
    assert!(matches!(parse_channel(""), Err(Error::DecodeFailure(_))));
}

#[test]
fn lenient_boolean_parse() {
    // ON in any case and the literal 1 decode true.
    assert!(parse_on_off("ON"));
    assert!(parse_on_off("on"));
    assert!(parse_on_off("On"));
    assert!(parse_on_off("1"));
    assert!(parse_on_off(" ON \r\n"));
    // Everything else decodes false, the documented fallback.
    assert!(!parse_on_off("OFF"));
    assert!(!parse_on_off("0"));
    assert!(!parse_on_off(""));
    assert!(!parse_on_off("yes"));
}

#[test]
fn dhcp_parse_is_lenient_boolean() {
    assert_eq!(parse_dhcp_response("ON"), DhcpState::On);
    assert_eq!(parse_dhcp_response("on"), DhcpState::On);
    assert_eq!(parse_dhcp_response("1"), DhcpState::On);
    assert_eq!(parse_dhcp_response(" ON \r\n"), DhcpState::On);
    assert_eq!(parse_dhcp_response("OFF"), DhcpState::Off);
    assert_eq!(parse_dhcp_response("0"), DhcpState::Off);
    assert_eq!(parse_dhcp_response(""), DhcpState::Off);
    assert_eq!(parse_dhcp_response("DHCP:ON"), DhcpState::Off);
}

#[test]
fn track_response_parse() {
    assert_eq!(parse_track_response("0").unwrap(), TrackMode::Independent);
    assert_eq!(parse_track_response("1").unwrap(), TrackMode::Series);
    assert_eq!(parse_track_response(" 2 ").unwrap(), TrackMode::Parallel);
    // A numeric answer outside the encoding has no fallback.
    assert_eq!(parse_track_response("3"), Err(Error::UnknownEnumValue));
    assert_eq!(parse_track_response("7"), Err(Error::UnknownEnumValue));
    assert!(matches!(parse_track_response("x"), Err(Error::DecodeFailure(_))));
    assert!(matches!(parse_track_response("-1"), Err(Error::DecodeFailure(_))));
    assert!(matches!(parse_track_response("300"), Err(Error::DecodeFailure(_))));
}

#[test]
fn timer_response_parse() {
    // The caller-supplied group is attached to the parsed fields.
    let e = parse_timer_response(2, "5.000000,1.000000,2.000000").unwrap();
    assert_eq!(e.group, 2);
    assert_eq!(e.voltage_v, Fixed6::from_micros(5_000_000));
    assert_eq!(e.current_a, Fixed6::from_micros(1_000_000));
    assert_eq!(e.duration_s, Fixed6::from_micros(2_000_000));
}

#[test]
fn timer_response_failures() {
    // Two fields are not enough.
    assert!(matches!(
        parse_timer_response(1, "5.000000,1.000000"),
        Err(Error::DecodeFailure(_))
    ));
    assert!(matches!(parse_timer_response(1, "5.000000"), Err(Error::DecodeFailure(_))));
    assert!(matches!(
        parse_timer_response(1, "a,b,c"),
        Err(Error::DecodeFailure(_))
    ));
    // Fields past the third are ignored, as a split-based reader would.
    let e = parse_timer_response(4, "1,2,3,junk").unwrap();
    assert_eq!(e.group, 4);
    assert_eq!(e.duration_s, Fixed6::from_micros(3_000_000));
}

#[test]
fn status_response_parse() {
    let st = parse_status_response("0x1A").unwrap();
    assert_eq!(st.raw, 0x1A);
    let st = parse_status_response("1a").unwrap();
    assert_eq!(st.raw, 0x1A);
    let st = parse_status_response(" 0x0402 \r\n").unwrap();
    assert_eq!(st.raw, 0x0402);
    assert!(matches!(parse_status_response("zz"), Err(Error::DecodeFailure(_))));
    assert!(matches!(parse_status_response(""), Err(Error::DecodeFailure(_))));
    assert!(matches!(parse_status_response("0x"), Err(Error::DecodeFailure(_))));
    // Nine hex digits overflow 32 bits.
    assert!(matches!(
        parse_status_response("0x100000000"),
        Err(Error::DecodeFailure(_))
    ));
    // Leading zeros are fine.
    assert_eq!(parse_status_response("000000001a").unwrap().raw, 0x1A);
}
