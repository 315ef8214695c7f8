//! Backup timestamps: the `DDDDD_HH_MM_SS` text that names backups, and the
//! fact that, for about 273 years after 1970, these texts sort in the same
//! order as the instants they name.

use vstd::prelude::*;
use crate::text::{decimal, digit_char, padded_decimal_text, push_char, text_lt, zero_pad};

verus! {

/// `10` to the power `w`.
pub open spec fn pow10(w: nat) -> nat
    decreases w,
{
    if w == 0 {
        1
    } else {
        10 * pow10((w - 1) as nat)
    }
}

/// The last `w` decimal digits of `n`, most significant first.
pub open spec fn fixed_digits(n: nat, w: nat) -> Seq<char>
    decreases w,
{
    if w == 0 {
        Seq::empty()
    } else {
        fixed_digits(n / 10, (w - 1) as nat).push(digit_char((n % 10) as int))
    }
}

/// The text `{days:05}_{h:02}_{m:02}_{s:02}` for `secs` seconds since the
/// Unix epoch, where `days = secs / 86400`, `h = (secs % 86400) / 3600`,
/// `m = (secs % 3600) / 60` and `s = secs % 60`.
pub open spec fn timestamp_text(secs: nat) -> Seq<char> {
    zero_pad(decimal(secs / 86400), 5) + (seq!['_'] + (zero_pad(decimal((secs % 86400) / 3600), 2)
        + (seq!['_'] + (zero_pad(decimal((secs % 3600) / 60), 2) + (seq!['_'] + zero_pad(
        decimal(secs % 60),
        2,
    ))))))
}

/// Formats `secs` seconds since the Unix epoch as a backup timestamp.
pub fn format_timestamp(secs: u64) -> (r: String)
    ensures
        r@ == timestamp_text(secs as nat),
{
    let days: u64 = secs / 86400;
    let h: u64 = (secs % 86400) / 3600;
    let m: u64 = (secs % 3600) / 60;
    let s: u64 = secs % 60;
    let mut r = padded_decimal_text(days as u128, 5);
    push_char(&mut r, '_');
    let hs = padded_decimal_text(h as u128, 2);
    r.append(hs.as_str());
    push_char(&mut r, '_');
    let ms = padded_decimal_text(m as u128, 2);
    r.append(ms.as_str());
    push_char(&mut r, '_');
    let ss = padded_decimal_text(s as u128, 2);
    r.append(ss.as_str());
    assert(r@ =~= timestamp_text(secs as nat));
    r
}

/// Seconds since the Unix epoch, now (`SystemTime::now` measured from
/// `UNIX_EPOCH`, zero for a clock set before 1970).  Nothing is promised of
/// the value: it is the machine's clock.
#[verifier::external_body]
fn unix_now_secs() -> u64 {
    match std::time::SystemTime::now().duration_since(std::time::UNIX_EPOCH) {
        Ok(d) => d.as_secs(),
        Err(_) => 0,
    }
}

/// The timestamp of the current moment, as used in backup names.
pub fn chrono_now() -> (r: String)
    ensures
        exists|secs: u64| r@ == timestamp_text(secs as nat),
{
    let secs: u64 = unix_now_secs();
    format_timestamp(secs)
}

proof fn lemma_fixed_digits_len(n: nat, w: nat)
    ensures
        fixed_digits(n, w).len() == w,
    decreases w,
{
    if w > 0 {
        lemma_fixed_digits_len(n / 10, (w - 1) as nat);
    }
}

proof fn lemma_fixed_digits_zero(w: nat)
    ensures
        fixed_digits(0, w) =~= Seq::new(w, |i: int| '0'),
    decreases w,
{
    if w > 0 {
        lemma_fixed_digits_zero((w - 1) as nat);
    }
}

/// Zero-padding the decimal digits of `n < 10^w` to `w` places gives its
/// last `w` digits.
proof fn lemma_padded_is_fixed(n: nat, w: nat)
    requires
        w >= 1,
        n < pow10(w),
    ensures
        zero_pad(decimal(n), w) == fixed_digits(n, w),
        decimal(n).len() <= w,
    decreases w,
{
    if n < 10 {
        lemma_fixed_digits_zero((w - 1) as nat);
        assert(n / 10 == 0);
        assert(zero_pad(decimal(n), w) =~= fixed_digits(n, w));
    } else {
        if w == 1 {
            assert(pow10(1) == 10) by {
                reveal_with_fuel(pow10, 2);
            }
        }
        assert(w >= 2);
        let w1 = (w - 1) as nat;
        assert(pow10(w) == 10 * pow10(w1));
        assert(n / 10 < pow10(w1));
        lemma_padded_is_fixed(n / 10, w1);
        let d = decimal(n / 10);
        assert(decimal(n) == d.push(digit_char((n % 10) as int)));
        if d.len() == w1 {
            assert(zero_pad(decimal(n), w) =~= fixed_digits(n, w));
        } else {
            assert(zero_pad(decimal(n), w) =~= zero_pad(d, w1).push(
                digit_char((n % 10) as int),
            ));
        }
    }
}

proof fn lemma_digit_char_value(d: int)
    requires
        0 <= d < 10,
    ensures
        digit_char(d) as int == 48 + d,
{
}

/// A shared prefix does not change how two texts compare.
pub(crate) proof fn lemma_text_lt_common_prefix(p: Seq<char>, x: Seq<char>, y: Seq<char>)
    ensures
        text_lt(p + x, p + y) == text_lt(x, y),
    decreases p.len(),
{
    if p.len() > 0 {
        lemma_text_lt_common_prefix(p.drop_first(), x, y);
        assert((p + x).drop_first() =~= p.drop_first() + x);
        assert((p + y).drop_first() =~= p.drop_first() + y);
        assert((p + x)[0] == p[0]);
        assert((p + y)[0] == p[0]);
    } else {
        assert(p + x =~= x);
        assert(p + y =~= y);
    }
}

/// Texts of one length keep their order whatever follows them.
proof fn lemma_text_lt_equal_length_prefix(a: Seq<char>, b: Seq<char>, x: Seq<char>, y: Seq<char>)
    requires
        a.len() == b.len(),
        text_lt(a, b),
    ensures
        text_lt(a + x, b + y),
    decreases a.len(),
{
    assert(a.len() > 0);
    assert((a + x)[0] == a[0]);
    assert((b + y)[0] == b[0]);
    if a[0] == b[0] {
        lemma_text_lt_equal_length_prefix(a.drop_first(), b.drop_first(), x, y);
        assert((a + x).drop_first() =~= a.drop_first() + x);
        assert((b + y).drop_first() =~= b.drop_first() + y);
    }
}

proof fn lemma_div_mod_order(x: nat, y: nat, b: nat)
    requires
        x < y,
        b > 0,
    ensures
        x / b < y / b || (x / b == y / b && x % b < y % b),
{
    vstd::arithmetic::div_mod::lemma_fundamental_div_mod(x as int, b as int);
    vstd::arithmetic::div_mod::lemma_fundamental_div_mod(y as int, b as int);
    let qx: nat = x / b;
    let qy: nat = y / b;
    if qx > qy {
        assert(b * qx >= b * (qy + 1)) by (nonlinear_arith)
            requires
                qx >= qy + 1,
                b > 0,
        ;
        assert(b * (qy + 1) == b * qy + b) by (nonlinear_arith);
    }
}

/// Larger numbers below `10^w` have larger last-`w`-digit texts.
proof fn lemma_fixed_digits_order(n1: nat, n2: nat, w: nat)
    requires
        n1 < n2,
        n2 < pow10(w),
    ensures
        text_lt(fixed_digits(n1, w), fixed_digits(n2, w)),
    decreases w,
{
    assert(w > 0);
    let w1 = (w - 1) as nat;
    assert(pow10(w) == 10 * pow10(w1));
    lemma_div_mod_order(n1, n2, 10);
    let d1 = digit_char((n1 % 10) as int);
    let d2 = digit_char((n2 % 10) as int);
    let p1 = fixed_digits(n1 / 10, w1);
    let p2 = fixed_digits(n2 / 10, w1);
    assert(fixed_digits(n1, w) =~= p1 + seq![d1]);
    assert(fixed_digits(n2, w) =~= p2 + seq![d2]);
    lemma_fixed_digits_len(n1 / 10, w1);
    lemma_fixed_digits_len(n2 / 10, w1);
    if n1 / 10 < n2 / 10 {
        lemma_fixed_digits_order(n1 / 10, n2 / 10, w1);
        lemma_text_lt_equal_length_prefix(p1, p2, seq![d1], seq![d2]);
    } else {
        lemma_digit_char_value((n1 % 10) as int);
        lemma_digit_char_value((n2 % 10) as int);
        lemma_text_lt_common_prefix(p1, seq![d1], seq![d2]);
        assert(seq![d1].drop_first() =~= Seq::<char>::empty());
    }
}

/// The fields of a timestamp, in the order in which they appear.
pub open spec fn timestamp_fields(secs: nat) -> (nat, nat, nat, nat) {
    (secs / 86400, (secs % 86400) / 3600, (secs % 3600) / 60, secs % 60)
}

proof fn lemma_timestamp_fixed(secs: nat)
    requires
        secs / 86400 < 100000,
    ensures
        timestamp_text(secs) == fixed_digits(secs / 86400, 5) + (seq!['_'] + (fixed_digits(
            (secs % 86400) / 3600,
            2,
        ) + (seq!['_'] + (fixed_digits((secs % 3600) / 60, 2) + (seq!['_'] + fixed_digits(
            secs % 60,
            2,
        )))))),
{
    reveal_with_fuel(pow10, 6);
    lemma_padded_is_fixed(secs / 86400, 5);
    lemma_padded_is_fixed((secs % 86400) / 3600, 2);
    lemma_padded_is_fixed((secs % 3600) / 60, 2);
    lemma_padded_is_fixed(secs % 60, 2);
}

/// Backup timestamps sort like the instants they name: for two instants
/// before day 100000 after the epoch (the year 2243), the earlier one has
/// the smaller text.
pub proof fn lemma_timestamp_order(s1: nat, s2: nat)
    requires
        s1 < s2,
        s2 / 86400 < 100000,
    ensures
        text_lt(timestamp_text(s1), timestamp_text(s2)),
{
    reveal_with_fuel(pow10, 6);
    lemma_timestamp_fixed(s1);
    lemma_timestamp_fixed(s2);
    let u = seq!['_'];
    lemma_div_mod_order(s1, s2, 86400);
    lemma_fixed_digits_len(s1 / 86400, 5);
    lemma_fixed_digits_len(s2 / 86400, 5);
    let rest1 = u + (fixed_digits((s1 % 86400) / 3600, 2) + (u + (fixed_digits((s1 % 3600) / 60, 2)
        + (u + fixed_digits(s1 % 60, 2)))));
    let rest2 = u + (fixed_digits((s2 % 86400) / 3600, 2) + (u + (fixed_digits((s2 % 3600) / 60, 2)
        + (u + fixed_digits(s2 % 60, 2)))));
    if s1 / 86400 < s2 / 86400 {
        lemma_fixed_digits_order(s1 / 86400, s2 / 86400, 5);
        lemma_text_lt_equal_length_prefix(
            fixed_digits(s1 / 86400, 5),
            fixed_digits(s2 / 86400, 5),
            rest1,
            rest2,
        );
    } else {
        let r1 = s1 % 86400;
        let r2 = s2 % 86400;
        lemma_text_lt_common_prefix(fixed_digits(s1 / 86400, 5), rest1, rest2);
        vstd::arithmetic::div_mod::lemma_mod_mod(s1 as int, 3600, 24);
        vstd::arithmetic::div_mod::lemma_mod_mod(s2 as int, 3600, 24);
        vstd::arithmetic::div_mod::lemma_mod_mod(s1 as int, 60, 60);
        vstd::arithmetic::div_mod::lemma_mod_mod(s2 as int, 60, 60);
        assert(s1 % 3600 == r1 % 3600);
        assert(s2 % 3600 == r2 % 3600);
        let h1 = r1 / 3600;
        let h2 = r2 / 3600;
        let tail1 = u + (fixed_digits((s1 % 3600) / 60, 2) + (u + fixed_digits(s1 % 60, 2)));
        let tail2 = u + (fixed_digits((s2 % 3600) / 60, 2) + (u + fixed_digits(s2 % 60, 2)));
        lemma_text_lt_common_prefix(u, fixed_digits(h1, 2) + tail1, fixed_digits(h2, 2) + tail2);
        lemma_div_mod_order(r1, r2, 3600);
        lemma_fixed_digits_len(h1, 2);
        lemma_fixed_digits_len(h2, 2);
        if h1 < h2 {
            lemma_fixed_digits_order(h1, h2, 2);
            lemma_text_lt_equal_length_prefix(
                fixed_digits(h1, 2),
                fixed_digits(h2, 2),
                tail1,
                tail2,
            );
        } else {
            let q1 = s1 % 3600;
            let q2 = s2 % 3600;
            lemma_text_lt_common_prefix(fixed_digits(h1, 2), tail1, tail2);
            let last1 = u + fixed_digits(s1 % 60, 2);
            let last2 = u + fixed_digits(s2 % 60, 2);
            lemma_text_lt_common_prefix(
                u,
                fixed_digits(q1 / 60, 2) + last1,
                fixed_digits(q2 / 60, 2) + last2,
            );
            lemma_div_mod_order(q1, q2, 60);
            lemma_fixed_digits_len(q1 / 60, 2);
            lemma_fixed_digits_len(q2 / 60, 2);
            assert(s1 % 60 == q1 % 60);
            assert(s2 % 60 == q2 % 60);
            if q1 / 60 < q2 / 60 {
                lemma_fixed_digits_order(q1 / 60, q2 / 60, 2);
                lemma_text_lt_equal_length_prefix(
                    fixed_digits(q1 / 60, 2),
                    fixed_digits(q2 / 60, 2),
                    last1,
                    last2,
                );
            } else {
                lemma_text_lt_common_prefix(fixed_digits(q1 / 60, 2), last1, last2);
                lemma_text_lt_common_prefix(u, fixed_digits(s1 % 60, 2), fixed_digits(s2 % 60, 2));
                lemma_fixed_digits_order(s1 % 60, s2 % 60, 2);
            }
        }
    }
}

/// Different seconds (before the year 2243) get different timestamps, so
/// two backups taken at different times never share a name.
pub proof fn lemma_timestamps_distinct(s1: nat, s2: nat)
    requires
        s1 != s2,
        s1 / 86400 < 100000,
        s2 / 86400 < 100000,
    ensures
        timestamp_text(s1) != timestamp_text(s2),
{
    if s1 < s2 {
        lemma_timestamp_order(s1, s2);
        crate::text::lemma_text_lt_irreflexive(timestamp_text(s1));
    } else {
        lemma_timestamp_order(s2, s1);
        crate::text::lemma_text_lt_irreflexive(timestamp_text(s2));
    }
}

} // verus!
