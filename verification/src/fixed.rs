//! Fixed-point numbers with six decimal places. Setpoints and readings
//! travel on the wire with exactly six digits after the decimal point,
//! so every quantity the protocol exchanges is an exact count of
//! millionths of a unit (microvolts, microamps, microseconds).
//!
//! The numeral grammar here is the wire format's own: an optional sign,
//! digits, an optional point, at most six fraction digits. Exponent
//! notation and non-finite forms are not part of the format and fail to
//! decode.

use vstd::prelude::*;
use crate::error::Error;
use crate::text::{
    all_digits, char_digit, dec_digits, dec_digits_pad, digit_char, digits_val, first_at,
    is_digit, is_digit_char, lemma_digits_val_nonneg, lemma_digits_val_prefix_le,
    lemma_dec_digits_pad_props, lemma_dec_digits_props, lemma_digits_val_step,
    lemma_first_at_is_scan, lemma_first_at_props, lemma_pow10_mono, lemma_pow10_pos,
    lemma_pow10_values, pow10, trim_bounds, trimmed,
};

verus! {

/// A quantity in millionths of a unit: the value `micros == 3_300_000`
/// is the wire token `3.300000`.
#[derive(Debug, Clone, Copy, PartialEq, Eq, Structural)]
pub struct Fixed6 {
    /// The value in millionths of a unit.
    pub micros: i64,
}

impl Fixed6 {
    /// The value of `micros` millionths.
    pub fn from_micros(micros: i64) -> (r: Fixed6)
        ensures
            r.micros == micros,
    {
        Fixed6 { micros }
    }

    /// Zero volts, amps or seconds.
    pub fn zero() -> (r: Fixed6)
        ensures
            r.micros == 0,
    {
        Fixed6 { micros: 0 }
    }
}

/// The wire text of a value in millionths: an optional minus sign, the
/// integer part without leading zeros, a point, and exactly six fraction
/// digits.
pub open spec fn fixed6_chars(micros: int) -> Seq<char> {
    let mag = if micros < 0 {
        -micros
    } else {
        micros
    };
    let sign: Seq<char> = if micros < 0 {
        "-"@
    } else {
        Seq::<char>::empty()
    };
    sign + dec_digits(mag / 1000000) + "."@ + dec_digits_pad(mag % 1000000, 6)
}

/// The one-character string of a decimal digit value.
fn digit_str(d: u64) -> (r: &'static str)
    requires
        d < 10,
    ensures
        r@ == digit_char(d as int),
{
    match d {
        0 => "0",
        1 => "1",
        2 => "2",
        3 => "3",
        4 => "4",
        5 => "5",
        6 => "6",
        7 => "7",
        8 => "8",
        _ => "9",
    }
}

/// Appends the decimal digits of `n`, most significant first.
pub fn append_dec(out: &mut String, n: u64)
    ensures
        final(out)@ == old(out)@ + dec_digits(n as int),
    decreases n,
{
    if n >= 10 {
        proof {
            assert(n / 10 < n) by (nonlinear_arith)
                requires
                    n >= 10,
            ;
        }
        append_dec(out, n / 10);
        out.append(digit_str(n % 10));
        proof {
            assert(old(out)@ + dec_digits((n / 10) as int) + digit_char((n % 10) as int) =~= old(
                out,
            )@ + dec_digits(n as int));
        }
    } else {
        out.append(digit_str(n));
    }
}

/// Appends the low `width` decimal digits of `n`, zero padded.
pub fn append_dec_pad(out: &mut String, n: u64, width: u64)
    ensures
        final(out)@ == old(out)@ + dec_digits_pad(n as int, width as nat),
    decreases width,
{
    if width > 0 {
        append_dec_pad(out, n / 10, width - 1);
        out.append(digit_str(n % 10));
        proof {
            assert(old(out)@ + dec_digits_pad((n / 10) as int, (width - 1) as nat) + digit_char(
                (n % 10) as int,
            ) =~= old(out)@ + dec_digits_pad(n as int, width as nat));
        }
    } else {
        proof {
            assert(old(out)@ + dec_digits_pad(n as int, 0) =~= old(out)@);
        }
    }
}

/// Appends the six-decimal wire text of `v`.
pub fn append_fixed6(out: &mut String, v: Fixed6)
    ensures
        final(out)@ == old(out)@ + fixed6_chars(v.micros as int),
{
    let mag: u64 = if v.micros < 0 {
        out.append("-");
        (-(v.micros as i128)) as u64
    } else {
        v.micros as u64
    };
    proof {
        assert(mag as int == if v.micros < 0 {
            -(v.micros as int)
        } else {
            v.micros as int
        });
    }
    append_dec(out, mag / 1000000);
    out.append(".");
    append_dec_pad(out, mag % 1000000, 6);
    proof {
        let sign: Seq<char> = if v.micros < 0 {
            "-"@
        } else {
            Seq::<char>::empty()
        };
        assert(old(out)@ + sign + dec_digits((mag / 1000000) as int) + "."@ + dec_digits_pad(
            (mag % 1000000) as int,
            6,
        ) =~= old(out)@ + fixed6_chars(v.micros as int));
    }
}

/// The value in millionths of an unsigned numeral: decimal digits with
/// an optional point, at least one digit in all, and at most six digits
/// after the point.
pub open spec fn unsigned_micros(s: Seq<char>) -> Option<int> {
    let d = first_at(s, '.');
    let ip = s.take(d);
    let fp = if d < s.len() {
        s.skip(d + 1)
    } else {
        Seq::<char>::empty()
    };
    if all_digits(ip) && all_digits(fp) && ip.len() + fp.len() >= 1 && fp.len() <= 6 {
        Some(digits_val(ip) * 1000000 + digits_val(fp) * pow10((6 - fp.len()) as nat))
    } else {
        None
    }
}

/// The signed value in millionths of a numeral with an optional leading
/// `+` or `-`.
pub open spec fn numeral_micros(s: Seq<char>) -> Option<int> {
    if s.len() >= 1 && (s[0] == '-' || s[0] == '+') {
        match unsigned_micros(s.drop_first()) {
            Some(v) => Some(
                if s[0] == '-' {
                    -v
                } else {
                    v
                },
            ),
            None => None,
        }
    } else {
        unsigned_micros(s)
    }
}

/// What a numeral decodes to: its value in millionths, when it is well
/// formed and that value is representable as an `i64`.
pub open spec fn fixed6_of_chars(s: Seq<char>) -> Option<int> {
    match numeral_micros(s) {
        Some(v) => if -(i64::MAX as int) <= v && v <= i64::MAX as int {
            Some(v)
        } else {
            None
        },
        None => None,
    }
}

/// The largest integer part that can still be scaled to millionths
/// within an `i64`.
pub const MAX_INT_PART: u64 = 9_223_372_036_854;

/// Relates a numeral to its unsigned remainder after the optional sign.
proof fn lemma_numeral_of_unsigned(t: Seq<char>, u: Seq<char>, neg: bool)
    requires
        (t.len() >= 1 && (t[0] == '-' || t[0] == '+')) ==> (u == t.drop_first() && neg == (t[0]
            == '-')),
        !(t.len() >= 1 && (t[0] == '-' || t[0] == '+')) ==> (u == t && !neg),
    ensures
        unsigned_micros(u) is None ==> fixed6_of_chars(t) is None,
        unsigned_micros(u) matches Some(v) ==> numeral_micros(t) == Some(
            if neg {
                -v
            } else {
                v
            },
        ),
{
}

/// Parses the character range `from..to` of `s` as a six-decimal
/// numeral; `None` when the range is not a well-formed numeral or its
/// value does not fit in an `i64` of millionths.
#[verifier::rlimit(60)]
pub fn parse_fixed6_range(s: &str, from: usize, to: usize) -> (r: Option<Fixed6>)
    requires
        from <= to <= s@.len(),
    ensures
        match r {
            Some(f) => fixed6_of_chars(s@.subrange(from as int, to as int)) == Some(
                f.micros as int,
            ),
            None => fixed6_of_chars(s@.subrange(from as int, to as int)) is None,
        },
{
    let ghost t = s@.subrange(from as int, to as int);
    let mut neg = false;
    let mut start = from;
    if from < to {
        let c0 = s.get_char(from);
        if c0 == '-' {
            neg = true;
            start = from + 1;
        } else if c0 == '+' {
            start = from + 1;
        }
    }
    let ghost u = s@.subrange(start as int, to as int);
    proof {
        if start > from {
            assert(t.drop_first() =~= u);
        } else {
            assert(t =~= u);
        }
        lemma_numeral_of_unsigned(t, u, neg);
        lemma_first_at_props(u, '.');
    }
    let ghost dstar = first_at(u, '.');

    // Integer part: scan digits, rejecting once the value can no longer
    // be scaled to millionths within an i64.
    let mut j = start;
    let mut acc: u64 = 0;
    while j < to && is_digit_char(s.get_char(j))
        invariant
            from <= start <= j <= to <= s@.len(),
            u == s@.subrange(start as int, to as int),
            t == s@.subrange(from as int, to as int),
            unsigned_micros(u) is None ==> fixed6_of_chars(t) is None,
            unsigned_micros(u) matches Some(v) ==> numeral_micros(t) == Some(
                if neg {
                    -v
                } else {
                    v
                },
            ),
            dstar == first_at(u, '.'),
            forall|m: int| start <= m < j ==> is_digit(#[trigger] s@[m]),
            acc as int == digits_val(s@.subrange(start as int, j as int)),
            acc <= MAX_INT_PART,
        decreases to - j,
    {
        let d = char_digit(s.get_char(j));
        let tacc = acc * 10 + d;
        proof {
            lemma_digits_val_step(u, j - start);
            assert(u.take(j - start) =~= s@.subrange(start as int, j as int));
            assert(u.take(j - start + 1) =~= s@.subrange(start as int, (j + 1) as int));
            assert(u[j - start] == s@[j as int]);
        }
        if tacc > MAX_INT_PART {
            proof {
                lemma_first_at_props(u, '.');
                let p = u.take(j - start + 1);
                assert(all_digits(p));
                // No dot among the scanned digits, so they prefix the
                // integer part.
                assert forall|m: int| 0 <= m < p.len() implies u[m] != '.' by {
                    assert(is_digit(u[m]));
                }
                assert(dstar >= j - start + 1);
                let ip = u.take(dstar);
                assert(p =~= ip.take(j - start + 1));
                if all_digits(ip) {
                    lemma_digits_val_prefix_le(ip, j - start + 1);
                    assert(digits_val(ip) >= tacc as int);
                    if unsigned_micros(u) is Some {
                        let fp = if dstar < u.len() {
                            u.skip(dstar + 1)
                        } else {
                            Seq::<char>::empty()
                        };
                        lemma_digits_val_nonneg(fp);
                        lemma_pow10_pos((6 - fp.len()) as nat);
                        assert(digits_val(fp) * pow10((6 - fp.len()) as nat) >= 0)
                            by (nonlinear_arith)
                            requires
                                digits_val(fp) >= 0,
                                pow10((6 - fp.len()) as nat) >= 1,
                        ;
                        assert(digits_val(ip) * 1000000 >= (MAX_INT_PART + 1) * 1000000)
                            by (nonlinear_arith)
                            requires
                                digits_val(ip) >= MAX_INT_PART + 1,
                        ;
                        assert(fixed6_of_chars(t) is None);
                    }
                }
            }
            return None;
        }
        acc = tacc;
        j = j + 1;
    }
    let int_len = j - start;

    // Fraction part, if a point follows.
    let mut flen: u64 = 0;
    let mut facc: u64 = 0;
    if j < to {
        let c = s.get_char(j);
        if c != '.' {
            proof {
                // A character that is neither digit nor point lands in
                // the integer part and spoils it.
                assert forall|m: int| 0 <= m < j - start + 1 implies u[m] != '.' by {
                    if m < j - start {
                        assert(is_digit(u[m]));
                        assert(u[m] == s@[start + m]);
                    } else {
                        assert(u[m] == s@[j as int]);
                    }
                }
                assert(dstar >= j - start + 1);
                let ip = u.take(dstar);
                assert(ip[j - start] == u[j - start]);
                assert(u[j - start] == s@[j as int]);
                assert(!is_digit(ip[j - start]));
                assert(!all_digits(ip));
                assert(unsigned_micros(u) is None);
            }
            return None;
        }
        proof {
            assert forall|m: int| 0 <= m < j - start implies u[m] != '.' by {
                assert(is_digit(u[m]));
                assert(u[m] == s@[start + m]);
            }
            assert(u[j - start] == s@[j as int]);
            lemma_first_at_is_scan(u, '.', j - start);
        }
        let fs = j + 1;
        let ghost fp = u.skip(dstar + 1);
        proof {
            assert(fp =~= s@.subrange(fs as int, to as int));
        }
        let mut k = fs;
        while k < to
            invariant
                from <= start < fs <= k <= to <= s@.len(),
                u == s@.subrange(start as int, to as int),
                t == s@.subrange(from as int, to as int),
                unsigned_micros(u) is None ==> fixed6_of_chars(t) is None,
                dstar == first_at(u, '.'),
                dstar == j - start,
                (j - start) < u.len(),
                fp == u.skip(dstar + 1),
                fp == s@.subrange(fs as int, to as int),
                forall|m: int| fs <= m < k ==> is_digit(#[trigger] s@[m]),
                flen == k - fs,
                flen <= 6,
                facc as int == digits_val(s@.subrange(fs as int, k as int)),
                (facc as int) < pow10(flen as nat),
            decreases to - k,
        {
            let c2 = s.get_char(k);
            if !is_digit_char(c2) {
                proof {
                    assert(fp[k - fs] == s@[k as int]);
                    assert(!all_digits(fp));
                    assert(unsigned_micros(u) is None);
                }
                return None;
            }
            if flen == 6 {
                proof {
                    assert(fp.len() > 6);
                    assert(unsigned_micros(u) is None);
                }
                return None;
            }
            proof {
                lemma_pow10_mono(flen as nat, 5);
                lemma_pow10_values();
                lemma_digits_val_step(fp, k - fs);
                assert(fp.take(k - fs) =~= s@.subrange(fs as int, k as int));
                assert(fp.take(k - fs + 1) =~= s@.subrange(fs as int, (k + 1) as int));
                assert(fp[k - fs] == s@[k as int]);
            }
            facc = facc * 10 + char_digit(c2);
            flen = flen + 1;
            k = k + 1;
        }
        proof {
            assert(fp.len() == flen);
            assert(all_digits(fp));
        }
    } else {
        proof {
            assert forall|m: int| 0 <= m < u.len() implies u[m] != '.' by {
                assert(is_digit(u[m]));
                assert(u[m] == s@[start + m]);
            }
            lemma_first_at_is_scan(u, '.', u.len() as int);
            assert(s@.subrange(start as int, j as int) =~= u);
        }
    }

    proof {
        // The scanned integer digits are exactly the integer part.
        let ip = u.take(dstar);
        assert(ip =~= s@.subrange(start as int, j as int));
        assert(all_digits(ip));
        assert(digits_val(ip) == acc as int);
        assert(ip.len() == int_len);
    }

    if int_len == 0 && flen == 0 {
        proof {
            let fp0 = if dstar < u.len() {
                u.skip(dstar + 1)
            } else {
                Seq::<char>::empty()
            };
            assert(fp0.len() == 0);
            assert(unsigned_micros(u) is None);
        }
        return None;
    }

    proof {
        lemma_pow10_values();
        lemma_pow10_mono(flen as nat, 6);
    }
    // Scale the fraction digits to millionths.
    let scaled: u64 = if flen == 0 {
        facc * 1_000_000
    } else if flen == 1 {
        facc * 100_000
    } else if flen == 2 {
        facc * 10_000
    } else if flen == 3 {
        facc * 1_000
    } else if flen == 4 {
        facc * 100
    } else if flen == 5 {
        facc * 10
    } else {
        facc
    };
    proof {
        lemma_pow10_values();
    }
    let mag = acc * 1_000_000 + scaled;
    proof {
        let fp0 = if dstar < u.len() {
            u.skip(dstar + 1)
        } else {
            Seq::<char>::empty()
        };
        assert(fp0.len() == flen);
        assert(digits_val(fp0) == facc as int);
        assert(scaled as int == digits_val(fp0) * pow10((6 - flen) as nat)) by {
            lemma_pow10_values();
            if flen == 0 {
                assert(scaled as int == facc as int * pow10(6));
            } else if flen == 1 {
                assert(scaled as int == facc as int * pow10(5));
            } else if flen == 2 {
                assert(scaled as int == facc as int * pow10(4));
            } else if flen == 3 {
                assert(scaled as int == facc as int * pow10(3));
            } else if flen == 4 {
                assert(scaled as int == facc as int * pow10(2));
            } else if flen == 5 {
                assert(scaled as int == facc as int * pow10(1));
            } else {
                assert(scaled as int == facc as int * pow10(0));
            }
        }
        assert(unsigned_micros(u) == Some(mag as int));
    }
    if mag > 9_223_372_036_854_775_807u64 {
        return None;
    }
    let m64 = mag as i64;
    let micros = if neg {
        -m64
    } else {
        m64
    };
    Some(Fixed6 { micros })
}

/// Parses a whole string, after trimming padding, as a six-decimal
/// numeral; the failure carries the untrimmed input.
pub fn parse_fixed6(s: &str) -> (r: Result<Fixed6, Error>)
    ensures
        match r {
            Ok(f) => fixed6_of_chars(trimmed(s@)) == Some(f.micros as int),
            Err(e) => fixed6_of_chars(trimmed(s@)) is None && (e matches Error::DecodeFailure(w)
                && w@ == s@),
        },
{
    let bounds = trim_bounds(s);
    match parse_fixed6_range(s, bounds.0, bounds.1) {
        Some(f) => Ok(f),
        None => Err(Error::DecodeFailure(s.to_owned())),
    }
}


/// Round trip of the wire text: the six-decimal encoding of every
/// representable value parses back to exactly that value. The one
/// magnitude whose negation does not fit an `i64` is left out.
pub proof fn lemma_fixed6_round_trip(micros: i64)
    requires
        micros > i64::MIN,
    ensures
        fixed6_of_chars(fixed6_chars(micros as int)) == Some(micros as int),
{
    reveal_strlit("-");
    reveal_strlit(".");
    let m = micros as int;
    let mag = if m < 0 {
        -m
    } else {
        m
    };
    let q = mag / 1000000;
    let r = mag % 1000000;
    lemma_dec_digits_props(q);
    lemma_dec_digits_pad_props(r, 6);
    lemma_pow10_values();
    let dd = dec_digits(q);
    let fp = dec_digits_pad(r, 6);
    let u = dd + "."@ + fp;
    let t = fixed6_chars(m);
    let dlen = dd.len() as int;
    assert forall|j: int| 0 <= j < dlen implies u[j] != '.' by {
        assert(u[j] == dd[j]);
        assert(is_digit(dd[j]));
    }
    assert(u[dlen] == '.');
    lemma_first_at_is_scan(u, '.', dlen);
    assert(u.take(dlen) =~= dd);
    assert(u.skip(dlen + 1) =~= fp);
    assert(digits_val(fp) == r % pow10(6));
    assert(r % 1000000 == r);
    assert(digits_val(fp) * pow10((6 - fp.len()) as nat) == r) by {
        assert(pow10(0) == 1);
    }
    assert(unsigned_micros(u) == Some(q * 1000000 + r));
    assert(q * 1000000 + r == mag);
    if m < 0 {
        assert(t =~= "-"@ + u);
        assert(t[0] == '-');
        assert(t.drop_first() =~= u);
        assert(numeral_micros(t) == Some(-mag));
    } else {
        assert(t =~= u);
        assert(t[0] == u[0]);
        assert(u[0] == dd[0]);
        assert(is_digit(t[0]));
        assert(t[0] != '-' && t[0] != '+');
        assert(numeral_micros(t) == Some(mag));
    }
}

/// The six-decimal wire text of `v` as a fresh string.
pub fn fixed6_to_string(v: Fixed6) -> (r: String)
    ensures
        r@ == fixed6_chars(v.micros as int),
{
    let mut out = String::new();
    append_fixed6(&mut out, v);
    proof {
        assert(Seq::<char>::empty() + fixed6_chars(v.micros as int) =~= fixed6_chars(
            v.micros as int,
        ));
    }
    out
}

} // verus!
