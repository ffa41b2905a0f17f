//! Character-level building blocks shared by the command encoder and the
//! response decoder: decimal digits, padding (whitespace and NUL) and
//! scanning, each with the lemmas that tie an index-by-index loop to the
//! recursive definition.

use vstd::prelude::*;
use vstd::arithmetic::div_mod::lemma_breakdown;

verus! {

/// Whether `c` is a decimal digit.
pub open spec fn is_digit(c: char) -> bool {
    48 <= c as int <= 57
}

/// The value 0..=9 of a decimal digit character.
pub open spec fn digit_val(c: char) -> int {
    c as int - 48
}

/// The one-character text of a decimal digit value 0..=9.
pub open spec fn digit_char(d: int) -> Seq<char> {
    if d == 0 {
        "0"@
    } else if d == 1 {
        "1"@
    } else if d == 2 {
        "2"@
    } else if d == 3 {
        "3"@
    } else if d == 4 {
        "4"@
    } else if d == 5 {
        "5"@
    } else if d == 6 {
        "6"@
    } else if d == 7 {
        "7"@
    } else if d == 8 {
        "8"@
    } else {
        "9"@
    }
}

/// The decimal text of a nonnegative integer, most significant digit
/// first, without leading zeros (a lone zero for 0).
pub open spec fn dec_digits(n: int) -> Seq<char>
    decreases n,
{
    if n < 10 {
        digit_char(n)
    } else {
        dec_digits(n / 10) + digit_char(n % 10)
    }
}

/// The low `width` decimal digits of `n`, zero padded, most significant
/// first.
pub open spec fn dec_digits_pad(n: int, width: nat) -> Seq<char>
    decreases width,
{
    if width == 0 {
        Seq::<char>::empty()
    } else {
        dec_digits_pad(n / 10, (width - 1) as nat) + digit_char(n % 10)
    }
}

/// Ten to the `n`.
pub open spec fn pow10(n: nat) -> int
    decreases n,
{
    if n == 0 {
        1
    } else {
        10 * pow10((n - 1) as nat)
    }
}

/// The first seven powers of ten, spelled out for use at call sites.
pub proof fn lemma_pow10_values()
    ensures
        pow10(0) == 1,
        pow10(1) == 10,
        pow10(2) == 100,
        pow10(3) == 1000,
        pow10(4) == 10000,
        pow10(5) == 100000,
        pow10(6) == 1000000,
{
    assert(pow10(0) == 1);
    assert(pow10(1) == 10);
    assert(pow10(2) == 100);
    assert(pow10(3) == 1000);
    assert(pow10(4) == 10000);
    assert(pow10(5) == 100000);
    assert(pow10(6) == 1000000);
}

/// Powers of ten are positive.
pub proof fn lemma_pow10_pos(n: nat)
    ensures
        pow10(n) >= 1,
    decreases n,
{
    if n > 0 {
        lemma_pow10_pos((n - 1) as nat);
    }
}

/// Powers of ten grow with the exponent.
pub proof fn lemma_pow10_mono(a: nat, b: nat)
    requires
        a <= b,
    ensures
        pow10(a) <= pow10(b),
    decreases b,
{
    if a < b {
        lemma_pow10_mono(a, (b - 1) as nat);
        lemma_pow10_pos((b - 1) as nat);
    }
}

/// Whether every character of `s` is a decimal digit.
pub open spec fn all_digits(s: Seq<char>) -> bool {
    forall|i: int| 0 <= i < s.len() ==> is_digit(#[trigger] s[i])
}

/// The numeric value of a sequence of decimal digits (0 for the empty
/// sequence).
pub open spec fn digits_val(s: Seq<char>) -> int
    decreases s.len(),
{
    if s.len() == 0 {
        0
    } else {
        digits_val(s.drop_last()) * 10 + digit_val(s.last())
    }
}

/// The value of a digit sequence is nonnegative.
pub proof fn lemma_digits_val_nonneg(s: Seq<char>)
    requires
        all_digits(s),
    ensures
        digits_val(s) >= 0,
    decreases s.len(),
{
    if s.len() > 0 {
        assert(all_digits(s.drop_last()));
        lemma_digits_val_nonneg(s.drop_last());
    }
}

/// A prefix of a digit sequence is worth no more than the whole.
pub proof fn lemma_digits_val_prefix_le(s: Seq<char>, k: int)
    requires
        all_digits(s),
        0 <= k <= s.len(),
    ensures
        digits_val(s.take(k)) <= digits_val(s),
    decreases s.len(),
{
    if k < s.len() {
        assert(all_digits(s.drop_last()));
        assert(s.take(k) =~= s.drop_last().take(k));
        lemma_digits_val_prefix_le(s.drop_last(), k);
        lemma_digits_val_nonneg(s.drop_last());
        assert(is_digit(s.last()));
        assert(digits_val(s.drop_last()) * 10 >= digits_val(s.drop_last()));
    } else {
        assert(s.take(k) =~= s);
    }
}

/// Unfolding step used by digit-scanning loops: extending a digit prefix
/// by one character multiplies its value by ten and adds the new digit.
pub proof fn lemma_digits_val_step(s: Seq<char>, k: int)
    requires
        0 <= k < s.len(),
    ensures
        digits_val(s.take(k + 1)) == digits_val(s.take(k)) * 10 + digit_val(s[k]),
{
    assert(s.take(k + 1).drop_last() =~= s.take(k));
    assert(s.take(k + 1).last() == s[k]);
}


/// Every digit text is one digit character carrying its own value.
pub proof fn lemma_digit_char_props(d: int)
    requires
        0 <= d <= 9,
    ensures
        digit_char(d).len() == 1,
        is_digit(digit_char(d)[0]),
        digit_val(digit_char(d)[0]) == d,
{
    reveal_strlit("0");
    reveal_strlit("1");
    reveal_strlit("2");
    reveal_strlit("3");
    reveal_strlit("4");
    reveal_strlit("5");
    reveal_strlit("6");
    reveal_strlit("7");
    reveal_strlit("8");
    reveal_strlit("9");
}

/// The decimal text of `n` is nonempty, digits only, and reads back as
/// `n`.
pub proof fn lemma_dec_digits_props(n: int)
    requires
        0 <= n,
    ensures
        dec_digits(n).len() >= 1,
        all_digits(dec_digits(n)),
        digits_val(dec_digits(n)) == n,
    decreases n,
{
    if n < 10 {
        lemma_digit_char_props(n);
        let s = dec_digits(n);
        assert(s.len() == 1);
        assert(s.drop_last() =~= Seq::<char>::empty());
        assert(digits_val(s.drop_last()) == 0);
        assert(s.last() == digit_char(n)[0]);
        assert(digits_val(s) == digits_val(s.drop_last()) * 10 + digit_val(s.last()));
        assert(digits_val(s) == n);
        assert forall|i: int| 0 <= i < s.len() implies is_digit(#[trigger] s[i]) by {
            assert(s[i] == digit_char(n)[0]);
        }
    } else {
        lemma_dec_digits_props(n / 10);
        lemma_digit_char_props(n % 10);
        let a = dec_digits(n / 10);
        let c = digit_char(n % 10);
        let s = dec_digits(n);
        assert(s =~= a + c);
        assert(s.drop_last() =~= a);
        assert(s.last() == c[0]);
        assert(digits_val(s) == digits_val(a) * 10 + digit_val(c[0]));
        assert(digits_val(a) == n / 10);
        assert(digit_val(c[0]) == n % 10);
        assert((n / 10) * 10 + n % 10 == n);
        assert(digits_val(s) == n);
        assert forall|i: int| 0 <= i < s.len() implies is_digit(#[trigger] s[i]) by {
            if i < a.len() {
                assert(s[i] == a[i]);
            } else {
                assert(s[i] == c[0]);
            }
        }
    }
}

/// The padded text of `n` is `width` digits reading back as `n` modulo
/// ten to the `width`.
pub proof fn lemma_dec_digits_pad_props(n: int, width: nat)
    requires
        0 <= n,
    ensures
        dec_digits_pad(n, width).len() == width,
        all_digits(dec_digits_pad(n, width)),
        digits_val(dec_digits_pad(n, width)) == n % pow10(width),
    decreases width,
{
    if width == 0 {
        assert(pow10(0) == 1);
    } else {
        lemma_dec_digits_pad_props(n / 10, (width - 1) as nat);
        lemma_digit_char_props(n % 10);
        lemma_pow10_pos((width - 1) as nat);
        let p = pow10((width - 1) as nat);
        lemma_breakdown(n, 10, p);
        assert(pow10(width) == 10 * p);
        let a = dec_digits_pad(n / 10, (width - 1) as nat);
        let c = digit_char(n % 10);
        let s = dec_digits_pad(n, width);
        assert(s =~= a + c);
        assert(s.drop_last() =~= a);
        assert(s.last() == c[0]);
        assert(digits_val(s) == digits_val(a) * 10 + digit_val(c[0]));
        assert(digits_val(s) == ((n / 10) % p) * 10 + n % 10);
        assert(n % (10 * p) == 10 * ((n / 10) % p) + n % 10);
        assert forall|i: int| 0 <= i < s.len() implies is_digit(#[trigger] s[i]) by {
            if i < a.len() {
                assert(s[i] == a[i]);
            } else {
                assert(s[i] == c[0]);
            }
        }
    }
}

/// Whether `c` is padding that the protocol strips from a response:
/// ASCII whitespace or the NUL bytes some transports pad reads with.
pub open spec fn is_padding(c: char) -> bool {
    c == ' ' || c == '\t' || c == '\r' || c == '\n' || c == '\u{0}'
}

/// `s` without leading padding.
pub open spec fn trim_front(s: Seq<char>) -> Seq<char>
    decreases s.len(),
{
    if s.len() > 0 && is_padding(s[0]) {
        trim_front(s.drop_first())
    } else {
        s
    }
}

/// `s` without trailing padding.
pub open spec fn trim_back(s: Seq<char>) -> Seq<char>
    decreases s.len(),
{
    if s.len() > 0 && is_padding(s.last()) {
        trim_back(s.drop_last())
    } else {
        s
    }
}

/// `s` without leading or trailing padding.
pub open spec fn trimmed(s: Seq<char>) -> Seq<char> {
    trim_back(trim_front(s))
}

/// A front scan that stops at the first non-padding character computes
/// `trim_front`.
pub proof fn lemma_trim_front_is_skip(s: Seq<char>, lo: int)
    requires
        0 <= lo <= s.len(),
        forall|j: int| 0 <= j < lo ==> is_padding(#[trigger] s[j]),
        lo == s.len() || !is_padding(s[lo]),
    ensures
        trim_front(s) =~= s.skip(lo),
    decreases lo,
{
    if lo > 0 {
        assert(is_padding(s[0]));
        lemma_trim_front_is_skip(s.drop_first(), lo - 1);
        assert(s.drop_first().skip(lo - 1) =~= s.skip(lo));
    } else {
        assert(s.skip(0) =~= s);
    }
}

/// A back scan that stops at the last non-padding character computes
/// `trim_back`.
pub proof fn lemma_trim_back_is_take(s: Seq<char>, hi: int)
    requires
        0 <= hi <= s.len(),
        forall|j: int| hi <= j < s.len() ==> is_padding(#[trigger] s[j]),
        hi == 0 || !is_padding(s[hi - 1]),
    ensures
        trim_back(s) =~= s.take(hi),
    decreases s.len(),
{
    if hi < s.len() {
        assert(is_padding(s.last()));
        lemma_trim_back_is_take(s.drop_last(), hi);
        assert(s.drop_last().take(hi) =~= s.take(hi));
    } else {
        assert(s.take(hi) =~= s);
    }
}

/// Decides `is_padding`.
pub fn is_padding_char(c: char) -> (r: bool)
    ensures
        r == is_padding(c),
{
    c == ' ' || c == '\t' || c == '\r' || c == '\n' || c == '\u{0}'
}

/// Decides `is_digit`.
pub fn is_digit_char(c: char) -> (r: bool)
    ensures
        r == is_digit(c),
{
    let v = c as u32;
    48 <= v && v <= 57
}

/// The value of a decimal digit character.
pub fn char_digit(c: char) -> (r: u64)
    requires
        is_digit(c),
    ensures
        r as int == digit_val(c),
{
    (c as u32 - 48) as u64
}

/// The bounds of `s` with leading and trailing padding removed:
/// `trimmed(s@)` is exactly the character range `r.0 .. r.1` of `s`.
pub fn trim_bounds(s: &str) -> (r: (usize, usize))
    ensures
        r.0 <= r.1 <= s@.len(),
        trimmed(s@) == s@.subrange(r.0 as int, r.1 as int),
{
    let n = s.unicode_len();
    let mut lo: usize = 0;
    while lo < n && is_padding_char(s.get_char(lo))
        invariant
            0 <= lo <= n,
            n == s@.len(),
            forall|j: int| 0 <= j < lo ==> is_padding(#[trigger] s@[j]),
        decreases n - lo,
    {
        lo = lo + 1;
    }
    let mut hi: usize = n;
    while lo < hi && is_padding_char(s.get_char(hi - 1))
        invariant
            0 <= lo <= hi <= n,
            n == s@.len(),
            forall|j: int| 0 <= j < lo ==> is_padding(#[trigger] s@[j]),
            lo == n || !is_padding(s@[lo as int]),
            forall|j: int| hi <= j < n ==> is_padding(#[trigger] s@[j]),
        decreases hi,
    {
        hi = hi - 1;
    }
    proof {
        lemma_trim_front_is_skip(s@, lo as int);
        let u = s@.skip(lo as int);
        assert forall|j: int| (hi - lo) <= j < u.len() implies is_padding(#[trigger] u[j]) by {
            assert(u[j] == s@[j + lo]);
        }
        if hi > lo {
            assert(u[hi - lo - 1] == s@[hi - 1]);
        }
        lemma_trim_back_is_take(u, hi - lo);
        assert(u.take(hi - lo) =~= s@.subrange(lo as int, hi as int));
    }
    (lo, hi)
}

/// The index of the first occurrence of `c` in `s`, or `s.len()` when
/// `s` does not contain `c`.
pub open spec fn first_at(s: Seq<char>, c: char) -> int
    decreases s.len(),
{
    if s.len() == 0 {
        0
    } else if s[0] == c {
        0
    } else {
        1 + first_at(s.drop_first(), c)
    }
}

/// What `first_at` finds: everything before the result differs from `c`,
/// and the result either indexes an occurrence of `c` or is the length.
pub proof fn lemma_first_at_props(s: Seq<char>, c: char)
    ensures
        0 <= first_at(s, c) <= s.len(),
        forall|j: int| 0 <= j < first_at(s, c) ==> s[j] != c,
        first_at(s, c) < s.len() ==> s[first_at(s, c)] == c,
    decreases s.len(),
{
    if s.len() > 0 && s[0] != c {
        lemma_first_at_props(s.drop_first(), c);
        assert forall|j: int| 0 <= j < first_at(s, c) implies s[j] != c by {
            if j > 0 {
                assert(s.drop_first()[j - 1] != c);
            }
        }
        if first_at(s, c) < s.len() {
            assert(s.drop_first()[first_at(s, c) - 1] == c);
        }
    }
}

/// A forward scan that stops at the first occurrence of `c` computes
/// `first_at`.
pub proof fn lemma_first_at_is_scan(s: Seq<char>, c: char, k: int)
    requires
        0 <= k <= s.len(),
        forall|j: int| 0 <= j < k ==> s[j] != c,
        k == s.len() || s[k] == c,
    ensures
        first_at(s, c) == k,
    decreases k,
{
    if k > 0 {
        lemma_first_at_is_scan(s.drop_first(), c, k - 1);
    }
}

} // verus!
