//! The response decoder: a trimmed response string becomes a typed
//! value, or a failure that names the offending text. An empty (or
//! all-padding) response is always [`Error::EmptyResponse`], distinct
//! from a [`Error::DecodeFailure`].

use vstd::prelude::*;
use crate::error::Error;
use crate::fixed::{fixed6_of_chars, Fixed6, parse_fixed6_range};
use crate::status::{decodes, SystemStatus};
use crate::text::{
    all_digits, char_digit, digit_val, digits_val, first_at, is_digit, is_digit_char,
    lemma_digits_val_nonneg, lemma_digits_val_step, lemma_first_at_is_scan, trim_bounds, trimmed,
};
use crate::types::{Channel, DhcpState, TrackMode, track_mode_of_value, track_mode_value};

verus! {

/// Cleans a raw response: strips padding and rejects what is left when
/// it is empty, the failure every query path must report distinctly.
pub fn clean_response(s: &str) -> (r: Result<String, Error>)
    ensures
        match r {
            Ok(t) => t@ == trimmed(s@) && trimmed(s@).len() > 0,
            Err(e) => e == Error::EmptyResponse && trimmed(s@).len() == 0,
        },
{
    let bounds = trim_bounds(s);
    if bounds.1 > bounds.0 {
        let core = s.substring_char(bounds.0, bounds.1);
        Ok(core.to_owned())
    } else {
        Err(Error::EmptyResponse)
    }
}

/// The first position of `c` in the character range `from..to` of `s`,
/// or `to` when the range does not contain it.
pub fn find_char(s: &str, from: usize, to: usize, c: char) -> (r: usize)
    requires
        from <= to <= s@.len(),
    ensures
        from <= r <= to,
        first_at(s@.subrange(from as int, to as int), c) == r - from,
        r < to ==> s@[r as int] == c,
        forall|j: int| from <= j < r ==> s@[j] != c,
{
    let mut i = from;
    while i < to && s.get_char(i) != c
        invariant
            from <= i <= to <= s@.len(),
            forall|j: int| from <= j < i ==> s@[j] != c,
        decreases to - i,
    {
        i = i + 1;
    }
    proof {
        let sub = s@.subrange(from as int, to as int);
        assert forall|j: int| 0 <= j < i - from implies sub[j] != c by {
            assert(sub[j] == s@[from + j]);
        }
        if i < to {
            assert(sub[i - from] == s@[i as int]);
        }
        lemma_first_at_is_scan(sub, c, i - from);
    }
    i
}

/// The channel named by a token: `CH1`, `CH2` or `CH3`, in any case.
pub open spec fn channel_of_chars(t: Seq<char>) -> Option<Channel> {
    if t.len() == 3 && (t[0] == 'C' || t[0] == 'c') && (t[1] == 'H' || t[1] == 'h') {
        if t[2] == '1' {
            Some(Channel::Ch1)
        } else if t[2] == '2' {
            Some(Channel::Ch2)
        } else if t[2] == '3' {
            Some(Channel::Ch3)
        } else {
            None
        }
    } else {
        None
    }
}

/// Parses a channel token case-insensitively, after trimming padding;
/// anything else fails with a [`Error::DecodeFailure`] naming the input.
pub fn parse_channel(value: &str) -> (r: Result<Channel, Error>)
    ensures
        match r {
            Ok(c) => channel_of_chars(trimmed(value@)) == Some(c),
            Err(e) => channel_of_chars(trimmed(value@)) is None && (e
                matches Error::DecodeFailure(w) && w@ == value@),
        },
{
    let bounds = trim_bounds(value);
    let ghost t = trimmed(value@);
    if bounds.1 - bounds.0 == 3 {
        let c0 = value.get_char(bounds.0);
        let c1 = value.get_char(bounds.0 + 1);
        let c2 = value.get_char(bounds.0 + 2);
        proof {
            assert(t[0] == value@[bounds.0 as int]);
            assert(t[1] == value@[bounds.0 as int + 1]);
            assert(t[2] == value@[bounds.0 as int + 2]);
        }
        if (c0 == 'C' || c0 == 'c') && (c1 == 'H' || c1 == 'h') {
            if c2 == '1' {
                return Ok(Channel::Ch1);
            }
            if c2 == '2' {
                return Ok(Channel::Ch2);
            }
            if c2 == '3' {
                return Ok(Channel::Ch3);
            }
        }
    }
    Err(Error::DecodeFailure(value.to_owned()))
}

/// Whether a trimmed token is a lenient "true": `ON` in any case, or
/// the literal `1`. Everything else is the documented fallback, false.
pub open spec fn lenient_on(t: Seq<char>) -> bool {
    (t.len() == 2 && (t[0] == 'O' || t[0] == 'o') && (t[1] == 'N' || t[1] == 'n')) || (t.len() == 1
        && t[0] == '1')
}

/// Lenient boolean decode of an on/off answer: `ON` (any case) and `1`
/// mean true; everything else, the empty token included, means false.
pub fn parse_on_off(value: &str) -> (r: bool)
    ensures
        r == lenient_on(trimmed(value@)),
{
    let bounds = trim_bounds(value);
    let ghost t = trimmed(value@);
    let width = bounds.1 - bounds.0;
    if width == 2 {
        let c0 = value.get_char(bounds.0);
        let c1 = value.get_char(bounds.0 + 1);
        proof {
            assert(t[0] == value@[bounds.0 as int]);
            assert(t[1] == value@[bounds.0 as int + 1]);
        }
        (c0 == 'O' || c0 == 'o') && (c1 == 'N' || c1 == 'n')
    } else if width == 1 {
        let c0 = value.get_char(bounds.0);
        proof {
            assert(t[0] == value@[bounds.0 as int]);
        }
        c0 == '1'
    } else {
        false
    }
}

/// Decodes a DHCP-state answer with the lenient boolean match: `ON` in
/// any case or the literal `1` means enabled; everything else, after
/// trimming, means disabled.
pub fn parse_dhcp_response(value: &str) -> (r: DhcpState)
    ensures
        r == DhcpState::On <==> lenient_on(trimmed(value@)),
{
    if parse_on_off(value) {
        DhcpState::On
    } else {
        DhcpState::Off
    }
}

/// The value of a small decimal unsigned-integer token: an optional
/// `+`, then digits, worth at most 255.
pub open spec fn u8_of_chars(t: Seq<char>) -> Option<int> {
    let d = if t.len() >= 1 && t[0] == '+' {
        t.drop_first()
    } else {
        t
    };
    if d.len() >= 1 && all_digits(d) && digits_val(d) <= 255 {
        Some(digits_val(d))
    } else {
        None
    }
}

/// Parses the digits of the character range `from..to` of `s` as an
/// unsigned integer up to 255 (no sign handling).
fn parse_small_uint_range(s: &str, from: usize, to: usize) -> (r: Option<u8>)
    requires
        from <= to <= s@.len(),
    ensures
        ({
            let d = s@.subrange(from as int, to as int);
            match r {
                Some(v) => d.len() >= 1 && all_digits(d) && digits_val(d) == v as int,
                None => !(d.len() >= 1 && all_digits(d) && digits_val(d) <= 255),
            }
        }),
{
    let ghost d = s@.subrange(from as int, to as int);
    if from == to {
        return None;
    }
    let mut i = from;
    let mut acc: u32 = 0;
    let mut big = false;
    while i < to
        invariant
            from <= i <= to <= s@.len(),
            d == s@.subrange(from as int, to as int),
            forall|m: int| from <= m < i ==> is_digit(#[trigger] s@[m]),
            !big ==> acc as int == digits_val(s@.subrange(from as int, i as int)) && acc <= 255,
            big ==> digits_val(s@.subrange(from as int, i as int)) > 255,
        decreases to - i,
    {
        let c = s.get_char(i);
        if !is_digit_char(c) {
            proof {
                assert(d[i - from] == s@[i as int]);
                assert(!all_digits(d));
            }
            return None;
        }
        let dv = char_digit(c);
        proof {
            lemma_digits_val_step(d, i - from);
            assert(d.take(i - from) =~= s@.subrange(from as int, i as int));
            assert(d.take(i - from + 1) =~= s@.subrange(from as int, (i + 1) as int));
            assert(d[i - from] == s@[i as int]);
            if big {
                lemma_digits_val_nonneg(s@.subrange(from as int, i as int));
            }
        }
        if !big {
            let t32 = acc * 10 + (dv as u32);
            if t32 > 255 {
                big = true;
            } else {
                acc = t32;
            }
        }
        i = i + 1;
    }
    proof {
        assert(s@.subrange(from as int, i as int) =~= d);
    }
    if big {
        None
    } else {
        Some(acc as u8)
    }
}

/// Parses a track-mode query answer: a small decimal integer, decoded
/// through the write encoding. A non-numeric answer is a
/// [`Error::DecodeFailure`]; a numeric answer outside 0..=2 is
/// [`Error::UnknownEnumValue`].
pub fn parse_track_response(s: &str) -> (r: Result<TrackMode, Error>)
    ensures
        match r {
            Ok(m) => u8_of_chars(trimmed(s@)) == Some(track_mode_value(m)),
            Err(e) => match u8_of_chars(trimmed(s@)) {
                Some(v) => track_mode_of_value(v) is None && e == Error::UnknownEnumValue,
                None => e matches Error::DecodeFailure(w) && w@ == s@,
            },
        },
{
    let bounds = trim_bounds(s);
    let ghost t = trimmed(s@);
    let mut lo = bounds.0;
    if bounds.1 > bounds.0 {
        let c0 = s.get_char(bounds.0);
        if c0 == '+' {
            lo = bounds.0 + 1;
        }
    }
    proof {
        if lo > bounds.0 {
            assert(t.drop_first() =~= s@.subrange(lo as int, bounds.1 as int));
        } else {
            assert(t =~= s@.subrange(lo as int, bounds.1 as int));
        }
    }
    match parse_small_uint_range(s, lo, bounds.1) {
        Some(v) => TrackMode::from_value(v),
        None => Err(Error::DecodeFailure(s.to_owned())),
    }
}

/// Whether `c` is a hexadecimal digit, either case.
pub open spec fn is_hex_digit(c: char) -> bool {
    is_digit(c) || (97 <= c as int <= 102) || (65 <= c as int <= 70)
}

/// The value 0..=15 of a hexadecimal digit.
pub open spec fn hex_digit_val(c: char) -> int {
    if is_digit(c) {
        digit_val(c)
    } else if c as int >= 97 {
        c as int - 87
    } else {
        c as int - 55
    }
}

/// Whether every character of `s` is a hexadecimal digit.
pub open spec fn all_hex(s: Seq<char>) -> bool {
    forall|i: int| 0 <= i < s.len() ==> is_hex_digit(#[trigger] s[i])
}

/// The numeric value of a sequence of hexadecimal digits.
pub open spec fn hex_val(s: Seq<char>) -> int
    decreases s.len(),
{
    if s.len() == 0 {
        0
    } else {
        hex_val(s.drop_last()) * 16 + hex_digit_val(s.last())
    }
}

/// The value of a hexadecimal digit sequence is nonnegative.
proof fn lemma_hex_val_nonneg(s: Seq<char>)
    requires
        all_hex(s),
    ensures
        hex_val(s) >= 0,
    decreases s.len(),
{
    if s.len() > 0 {
        assert(all_hex(s.drop_last()));
        lemma_hex_val_nonneg(s.drop_last());
        assert(is_hex_digit(s.last()));
    }
}

/// A prefix of a hexadecimal digit sequence is worth no more than the
/// whole.
proof fn lemma_hex_val_prefix_le(s: Seq<char>, k: int)
    requires
        all_hex(s),
        0 <= k <= s.len(),
    ensures
        hex_val(s.take(k)) <= hex_val(s),
    decreases s.len(),
{
    if k < s.len() {
        assert(all_hex(s.drop_last()));
        assert(s.take(k) =~= s.drop_last().take(k));
        lemma_hex_val_prefix_le(s.drop_last(), k);
        lemma_hex_val_nonneg(s.drop_last());
        assert(is_hex_digit(s.last()));
        assert(hex_val(s.drop_last()) * 16 >= hex_val(s.drop_last()));
    } else {
        assert(s.take(k) =~= s);
    }
}

/// Unfolding step for hexadecimal scanning loops.
proof fn lemma_hex_val_step(s: Seq<char>, k: int)
    requires
        0 <= k < s.len(),
    ensures
        hex_val(s.take(k + 1)) == hex_val(s.take(k)) * 16 + hex_digit_val(s[k]),
{
    assert(s.take(k + 1).drop_last() =~= s.take(k));
    assert(s.take(k + 1).last() == s[k]);
}

/// The status word encoded by a response token: an optional `0x`
/// prefix, then hexadecimal digits whose value fits 32 bits.
pub open spec fn status_word_of_chars(t: Seq<char>) -> Option<int> {
    let d = if t.len() >= 2 && t[0] == '0' && t[1] == 'x' {
        t.skip(2)
    } else {
        t
    };
    if d.len() >= 1 && all_hex(d) && hex_val(d) <= 0xffff_ffff {
        Some(hex_val(d))
    } else {
        None
    }
}

/// Decides `is_hex_digit` and hands the digit value out.
fn hex_digit_of(c: char) -> (r: Option<u32>)
    ensures
        match r {
            Some(v) => is_hex_digit(c) && v as int == hex_digit_val(c) && v < 16,
            None => !is_hex_digit(c),
        },
{
    let v = c as u32;
    if 48 <= v && v <= 57 {
        Some(v - 48)
    } else if 97 <= v && v <= 102 {
        Some(v - 87)
    } else if 65 <= v && v <= 70 {
        Some(v - 55)
    } else {
        None
    }
}

/// Parses the character range `from..to` of `s` as a 32-bit
/// hexadecimal word (digits only, no prefix handling).
fn parse_hex_range(s: &str, from: usize, to: usize) -> (r: Option<u32>)
    requires
        from <= to <= s@.len(),
    ensures
        ({
            let d = s@.subrange(from as int, to as int);
            match r {
                Some(v) => d.len() >= 1 && all_hex(d) && hex_val(d) == v as int,
                None => !(d.len() >= 1 && all_hex(d) && hex_val(d) <= 0xffff_ffff),
            }
        }),
{
    let ghost d = s@.subrange(from as int, to as int);
    if from == to {
        return None;
    }
    let mut i = from;
    let mut acc: u64 = 0;
    while i < to
        invariant
            from <= i <= to <= s@.len(),
            d == s@.subrange(from as int, to as int),
            forall|m: int| from <= m < i ==> is_hex_digit(#[trigger] s@[m]),
            acc as int == hex_val(s@.subrange(from as int, i as int)),
            acc <= 0xffff_ffff,
        decreases to - i,
    {
        let c = s.get_char(i);
        let dv = match hex_digit_of(c) {
            Some(dv) => dv,
            None => {
                proof {
                    assert(d[i - from] == s@[i as int]);
                    assert(!all_hex(d));
                }
                return None;
            },
        };
        let tacc = acc * 16 + (dv as u64);
        proof {
            lemma_hex_val_step(d, i - from);
            assert(d.take(i - from) =~= s@.subrange(from as int, i as int));
            assert(d.take(i - from + 1) =~= s@.subrange(from as int, (i + 1) as int));
            assert(d[i - from] == s@[i as int]);
        }
        if tacc > 0xffff_ffff {
            proof {
                let p = d.take(i - from + 1);
                assert(all_hex(p));
                if all_hex(d) {
                    lemma_hex_val_prefix_le(d, i - from + 1);
                }
            }
            return None;
        }
        acc = tacc;
        i = i + 1;
    }
    proof {
        assert(s@.subrange(from as int, i as int) =~= d);
    }
    Some(acc as u32)
}

/// Parses a status-word answer: a hexadecimal token with an optional
/// `0x` prefix, decoded bit by bit into a snapshot. A malformed token
/// is a [`Error::DecodeFailure`].
pub fn parse_status_response(s: &str) -> (r: Result<SystemStatus, Error>)
    ensures
        match r {
            Ok(st) => status_word_of_chars(trimmed(s@)) == Some(st.raw as int) && decodes(st),
            Err(e) => status_word_of_chars(trimmed(s@)) is None && (e
                matches Error::DecodeFailure(w) && w@ == s@),
        },
{
    let bounds = trim_bounds(s);
    let ghost t = trimmed(s@);
    let mut lo = bounds.0;
    if bounds.1 - bounds.0 >= 2 {
        let c0 = s.get_char(bounds.0);
        let c1 = s.get_char(bounds.0 + 1);
        proof {
            assert(t[0] == s@[bounds.0 as int]);
            assert(t[1] == s@[bounds.0 as int + 1]);
        }
        if c0 == '0' && c1 == 'x' {
            lo = bounds.0 + 2;
        }
    }
    proof {
        if lo > bounds.0 {
            assert(t.skip(2) =~= s@.subrange(lo as int, bounds.1 as int));
        } else {
            assert(t =~= s@.subrange(lo as int, bounds.1 as int));
        }
    }
    match parse_hex_range(s, lo, bounds.1) {
        Some(word) => Ok(SystemStatus::from_word(word)),
        None => Err(Error::DecodeFailure(s.to_owned())),
    }
}

/// One programmed timer step of a programmable channel.
#[derive(Debug, Clone, Copy, PartialEq, Eq, Structural)]
pub struct TimerEntry {
    /// The group index 1..=5 the step was queried for (the wire
    /// response does not echo it).
    pub group: u8,
    /// Programmed voltage.
    pub voltage_v: Fixed6,
    /// Programmed current limit.
    pub current_a: Fixed6,
    /// Programmed duration in seconds.
    pub duration_s: Fixed6,
}

/// The three comma-separated numeric fields of a timer query answer,
/// in wire order: voltage, current, duration. Fields past the third
/// comma are ignored; fewer than three fields is a failure.
pub open spec fn timer_fields(t: Seq<char>) -> Option<(int, int, int)> {
    let c1 = first_at(t, ',');
    if c1 == t.len() {
        None
    } else {
        let rest = t.skip(c1 + 1);
        let c2 = first_at(rest, ',');
        if c2 == rest.len() {
            None
        } else {
            let rest2 = rest.skip(c2 + 1);
            let c3 = first_at(rest2, ',');
            match (
                fixed6_of_chars(t.take(c1)),
                fixed6_of_chars(rest.take(c2)),
                fixed6_of_chars(rest2.take(c3)),
            ) {
                (Some(v), Some(c), Some(dur)) => Some((v, c, dur)),
                _ => None,
            }
        }
    }
}

/// Parses a timer query answer and attaches the caller-supplied group
/// index. Fewer than three comma-separated fields, or a field that is
/// not a numeral, is a [`Error::DecodeFailure`] naming the input.
pub fn parse_timer_response(group: u8, resp: &str) -> (r: Result<TimerEntry, Error>)
    ensures
        match r {
            Ok(e) => timer_fields(trimmed(resp@)) == Some(
                (e.voltage_v.micros as int, e.current_a.micros as int, e.duration_s.micros as int),
            ) && e.group == group,
            Err(er) => timer_fields(trimmed(resp@)) is None && (er
                matches Error::DecodeFailure(w) && w@ == resp@),
        },
{
    let bounds = trim_bounds(resp);
    let lo = bounds.0;
    let hi = bounds.1;
    let ghost t = trimmed(resp@);
    let i1 = find_char(resp, lo, hi, ',');
    if i1 == hi {
        return Err(Error::DecodeFailure(resp.to_owned()));
    }
    let ghost rest = t.skip(i1 - lo + 1);
    proof {
        assert(rest =~= resp@.subrange(i1 as int + 1, hi as int));
    }
    let i2 = find_char(resp, i1 + 1, hi, ',');
    proof {
        assert(first_at(rest, ',') == i2 - (i1 + 1)) by {
            assert(resp@.subrange(i1 as int + 1, hi as int) == rest);
        }
    }
    if i2 == hi {
        return Err(Error::DecodeFailure(resp.to_owned()));
    }
    let ghost rest2 = rest.skip(i2 - i1);
    proof {
        assert(rest2 =~= resp@.subrange(i2 as int + 1, hi as int));
    }
    let i3 = find_char(resp, i2 + 1, hi, ',');
    proof {
        assert(first_at(rest2, ',') == i3 - (i2 + 1));
        assert(t.take(i1 - lo) =~= resp@.subrange(lo as int, i1 as int));
        assert(rest.take(i2 - (i1 + 1)) =~= resp@.subrange(i1 as int + 1, i2 as int));
        assert(rest2.take(i3 - (i2 + 1)) =~= resp@.subrange(i2 as int + 1, i3 as int));
    }
    let f1 = parse_fixed6_range(resp, lo, i1);
    let f2 = parse_fixed6_range(resp, i1 + 1, i2);
    let f3 = parse_fixed6_range(resp, i2 + 1, i3);
    match (f1, f2, f3) {
        (Some(v), Some(c), Some(dur)) => Ok(
            TimerEntry { group, voltage_v: v, current_a: c, duration_s: dur },
        ),
        _ => Err(Error::DecodeFailure(resp.to_owned())),
    }
}


/// `s` with leading and trailing padding removed, as a fresh string.
pub fn trim_to_string(s: &str) -> (r: String)
    ensures
        r@ == trimmed(s@),
{
    let bounds = trim_bounds(s);
    s.substring_char(bounds.0, bounds.1).to_owned()
}


} // verus!
