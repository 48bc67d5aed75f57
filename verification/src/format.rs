use vstd::prelude::*;
use crate::clock::{
    read_clock, elapsed_seconds, is_clock_reading, timestamp_in_range, whole_seconds_since, ClockReading,
    EARLIEST_TIMESTAMP, LATEST_TIMESTAMP,
};
use crate::text::{
    decimal, digit_char, digit_of, i64_to_decimal, lemma_decimal_has_no_commas,
    lemma_without_commas_append, lemma_without_commas_single, push_char, push_decimal, push_str,
    signed_decimal, without_commas,
};

verus! {

/// The three decimal digits of `k` (`k < 1000`), with leading zeros.
pub open spec fn three_digits(k: nat) -> Seq<char> {
    seq![digit_char((k / 100) % 10), digit_char((k / 10) % 10), digit_char(k % 10)]
}

/// The decimal representation of `n` with a comma between each group of
/// three digits, counted from the right.
pub open spec fn with_commas(n: nat) -> Seq<char>
    decreases n,
{
    if n < 1000 {
        decimal(n)
    } else {
        with_commas(n / 1000) + seq![','] + three_digits(n % 1000)
    }
}

/// How a count is shown: a minus sign for negative numbers, then the
/// magnitude with thousands separators.
pub open spec fn number_text(n: int) -> Seq<char> {
    if n < 0 {
        seq!['-'] + with_commas((-n) as nat)
    } else {
        with_commas(n as nat)
    }
}

proof fn lemma_decimal_split(q: nat, r: nat)
    requires
        q >= 1,
        r < 1000,
    ensures
        decimal(q * 1000 + r) == decimal(q) + three_digits(r),
{
    let m = q * 1000 + r;
    assert(m / 10 == q * 100 + r / 10 && m % 10 == r % 10) by (nonlinear_arith)
        requires m == q * 1000 + r, r < 1000;
    let m1 = q * 100 + r / 10;
    assert(m1 / 10 == q * 10 + r / 100 && m1 % 10 == (r / 10) % 10) by (nonlinear_arith)
        requires m1 == q * 100 + r / 10, r < 1000;
    let m2 = q * 10 + r / 100;
    assert(m2 / 10 == q && m2 % 10 == (r / 100) % 10) by (nonlinear_arith)
        requires m2 == q * 10 + r / 100, r < 1000;
    assert(decimal(m2) == decimal(q).push(digit_char((r / 100) % 10)));
    assert(decimal(m1) == decimal(m2).push(digit_char((r / 10) % 10)));
    assert(decimal(m) == decimal(m1).push(digit_char(r % 10)));
    assert(decimal(m) =~= decimal(q) + three_digits(r));
}

/// Taking the separators out of a number written with thousands separators
/// gives back its plain decimal representation.
pub proof fn lemma_with_commas_digits(n: nat)
    ensures
        without_commas(with_commas(n)) == decimal(n),
    decreases n,
{
    if n < 1000 {
        lemma_decimal_has_no_commas(n);
    } else {
        let q = n / 1000;
        let r = n % 1000;
        lemma_with_commas_digits(q);
        lemma_without_commas_append(with_commas(q) + seq![','], three_digits(r));
        lemma_without_commas_append(with_commas(q), seq![',']);
        lemma_without_commas_single(',');
        let t = three_digits(r);
        assert(without_commas(t) =~= t) by {
            lemma_without_commas_single(t[0]);
            lemma_without_commas_single(t[1]);
            lemma_without_commas_single(t[2]);
            lemma_without_commas_append(seq![t[0]], seq![t[1]]);
            assert(seq![t[0]] + seq![t[1]] =~= seq![t[0], t[1]]);
            lemma_without_commas_append(seq![t[0], t[1]], seq![t[2]]);
            assert(seq![t[0], t[1]] + seq![t[2]] =~= t);
        }
        assert(n == q * 1000 + r);
        lemma_decimal_split(q, r);
        assert(with_commas(n) == with_commas(q) + seq![','] + t);
        assert(without_commas(with_commas(n)) =~= decimal(q) + t);
    }
}

/// Thousands-separated numbers: the text of a negative number is a minus sign
/// followed by the text of its magnitude, and without its commas the text is
/// the plain decimal of the number.
pub proof fn lemma_number_text_digits(n: int)
    ensures
        without_commas(number_text(n)) == signed_decimal(n),
{
    if n < 0 {
        lemma_with_commas_digits((-n) as nat);
        lemma_without_commas_append(seq!['-'], with_commas((-n) as nat));
        lemma_without_commas_single('-');
    } else {
        lemma_with_commas_digits(n as nat);
    }
}

fn push_with_commas(out: &mut String, n: u64)
    ensures
        final(out)@ == old(out)@ + with_commas(n as nat),
    decreases n,
{
    if n < 1000 {
        push_decimal(out, n);
    } else {
        push_with_commas(out, n / 1000);
        push_char(out, ',');
        let r = n % 1000;
        push_char(out, digit_of((r / 100) % 10));
        push_char(out, digit_of((r / 10) % 10));
        push_char(out, digit_of(r % 10));
        assert(final(out)@ =~= old(out)@ + with_commas(n as nat));
    }
}

/// Formats a count with thousands separators, e.g. `1234567` as `1,234,567`
/// and `-1234` as `-1,234`.
pub fn format_number(n: i64) -> (r: String)
    ensures
        r@ == number_text(n as int),
{
    let mut out = String::new();
    if n < 0 {
        push_char(&mut out, '-');
        let m: u64 = if n == i64::MIN { 9223372036854775808u64 } else { (-n) as u64 };
        push_with_commas(&mut out, m);
    } else {
        push_with_commas(&mut out, n as u64);
    }
    assert(out@ =~= number_text(n as int));
    out
}

} // verus!

verus! {

/// How long a span of `secs` whole seconds is: seconds under a minute
/// (negative spans included), then minutes, hours, days, 30-day months and
/// 365-day years, each rounded down, e.g. `5y`.
pub open spec fn age_text(secs: int) -> Seq<char> {
    if secs < 60 {
        signed_decimal(secs) + "s"@
    } else if secs < 3600 {
        decimal((secs / 60) as nat) + "m"@
    } else if secs < 86400 {
        decimal((secs / 3600) as nat) + "h"@
    } else if secs < 2592000 {
        decimal((secs / 86400) as nat) + "d"@
    } else if secs < 31536000 {
        decimal((secs / 2592000) as nat) + "mo"@
    } else {
        decimal((secs / 31536000) as nat) + "y"@
    }
}

/// How long ago something happened, given the whole seconds elapsed since,
/// e.g. `5y ago`.
pub open spec fn time_ago_text(secs: int) -> Seq<char> {
    age_text(secs) + " ago"@
}

/// The length of a span of `secs` elapsed seconds, e.g. `90` as `1m`.
pub fn age_label(secs: i64) -> (r: String)
    ensures
        r@ == age_text(secs as int),
{
    let mut out = String::new();
    if secs < 60 {
        let s = i64_to_decimal(secs);
        push_str(&mut out, s.as_str());
        push_str(&mut out, "s");
    } else if secs < 3600 {
        push_decimal(&mut out, (secs / 60) as u64);
        push_str(&mut out, "m");
    } else if secs < 86400 {
        push_decimal(&mut out, (secs / 3600) as u64);
        push_str(&mut out, "h");
    } else if secs < 2592000 {
        push_decimal(&mut out, (secs / 86400) as u64);
        push_str(&mut out, "d");
    } else if secs < 31536000 {
        push_decimal(&mut out, (secs / 2592000) as u64);
        push_str(&mut out, "mo");
    } else {
        push_decimal(&mut out, (secs / 31536000) as u64);
        push_str(&mut out, "y");
    }
    assert(out@ =~= age_text(secs as int));
    out
}

/// The label for a span of `secs` elapsed seconds, e.g. `90` as `1m ago`.
pub fn time_ago_label(secs: i64) -> (r: String)
    ensures
        r@ == time_ago_text(secs as int),
{
    let mut out = age_label(secs);
    push_str(&mut out, " ago");
    out
}

/// What is shown for how long ago Unix time `created_utc` was, with the
/// clock reading `now`: `unknown` when chrono cannot represent that time,
/// else the time-ago label of the whole seconds elapsed.
pub open spec fn time_ago_at(created_utc: int, now: ClockReading) -> Seq<char> {
    if EARLIEST_TIMESTAMP <= created_utc <= LATEST_TIMESTAMP {
        time_ago_text(elapsed_seconds(now, created_utc))
    } else {
        "unknown"@
    }
}

/// What is shown for the age of something created at Unix time
/// `created_utc`, with the clock reading `now`: `unknown` when chrono cannot
/// represent that time, else the length of the span elapsed.
pub open spec fn age_at(created_utc: int, now: ClockReading) -> Seq<char> {
    if EARLIEST_TIMESTAMP <= created_utc <= LATEST_TIMESTAMP {
        age_text(elapsed_seconds(now, created_utc))
    } else {
        "unknown"@
    }
}

/// How long ago the Unix time `created_utc` was at the clock reading `now`,
/// e.g. `2h ago`, or `unknown`.
pub fn format_time_ago_at(created_utc: i64, now: &ClockReading) -> (r: String)
    requires
        is_clock_reading(*now),
    ensures
        r@ == time_ago_at(created_utc as int, *now),
{
    if !timestamp_in_range(created_utc) {
        return String::from_str("unknown");
    }
    time_ago_label(whole_seconds_since(now, created_utc))
}

/// How old something created at Unix time `created_utc` is at the clock
/// reading `now`, e.g. `5y`, or `unknown`.
pub fn format_age_at(created_utc: i64, now: &ClockReading) -> (r: String)
    requires
        is_clock_reading(*now),
    ensures
        r@ == age_at(created_utc as int, *now),
{
    if !timestamp_in_range(created_utc) {
        return String::from_str("unknown");
    }
    age_label(whole_seconds_since(now, created_utc))
}

/// How long ago the Unix time `created_utc` (whole seconds) was, measured
/// against the current UTC clock: `unknown` exactly when chrono cannot hold
/// that time (and then without the clock being read), else the label of the
/// whole seconds elapsed at a reading of the clock.
pub fn format_time_ago(created_utc: i64) -> (r: String)
    ensures
        r@ == "unknown"@ <==> !(EARLIEST_TIMESTAMP <= created_utc <= LATEST_TIMESTAMP),
        exists|now: ClockReading| is_clock_reading(now)
            && #[trigger] time_ago_at(created_utc as int, now) == r@,
{
    if !timestamp_in_range(created_utc) {
        let r = String::from_str("unknown");
        proof {
            let w = ClockReading { secs: 0, nanos: 0 };
            assert(is_clock_reading(w) && time_ago_at(created_utc as int, w) == r@);
        }
        return r;
    }
    let now = read_clock();
    proof { lemma_time_ago_known(created_utc as int, now); }
    format_time_ago_at(created_utc, &now)
}

/// How old something created at Unix time `created_utc` is, measured
/// against the current UTC clock (shown for account ages): `unknown` exactly
/// when chrono cannot hold that time (and then without the clock being read),
/// else the age of the whole seconds elapsed at a reading of the clock.
pub fn format_account_age(created_utc: i64) -> (r: String)
    ensures
        r@ == "unknown"@ <==> !(EARLIEST_TIMESTAMP <= created_utc <= LATEST_TIMESTAMP),
        exists|now: ClockReading| is_clock_reading(now)
            && #[trigger] age_at(created_utc as int, now) == r@,
{
    if !timestamp_in_range(created_utc) {
        let r = String::from_str("unknown");
        proof {
            let w = ClockReading { secs: 0, nanos: 0 };
            assert(is_clock_reading(w) && age_at(created_utc as int, w) == r@);
        }
        return r;
    }
    let now = read_clock();
    proof { lemma_age_known(created_utc as int, now); }
    format_age_at(created_utc, &now)
}

proof fn lemma_age_text_last(secs: int)
    ensures
        age_text(secs).len() > 0,
        age_text(secs).last() != 'n',
{
    reveal_strlit("s");
    reveal_strlit("m");
    reveal_strlit("h");
    reveal_strlit("d");
    reveal_strlit("mo");
    reveal_strlit("y");
    let a = age_text(secs);
    if secs < 60 {
        assert(a.last() == 's');
    } else if secs < 3600 {
        assert(a.last() == 'm');
    } else if secs < 86400 {
        assert(a.last() == 'h');
    } else if secs < 2592000 {
        assert(a.last() == 'd');
    } else if secs < 31536000 {
        assert(a.last() == 'o');
    } else {
        assert(a.last() == 'y');
    }
}

/// A time chrono can hold gets a real time-ago label at every clock reading,
/// never `unknown`: the label of the whole seconds elapsed at that reading.
pub proof fn lemma_time_ago_known(created_utc: int, now: ClockReading)
    requires
        EARLIEST_TIMESTAMP <= created_utc <= LATEST_TIMESTAMP,
    ensures
        time_ago_at(created_utc, now) == age_text(elapsed_seconds(now, created_utc)) + " ago"@,
        time_ago_at(created_utc, now) != "unknown"@,
{
    reveal_strlit("unknown");
    reveal_strlit(" ago");
    let t = time_ago_at(created_utc, now);
    assert(t.last() == 'o');
    assert("unknown"@.last() == 'n');
}

/// A time chrono can hold gets a real age at every clock reading, never
/// `unknown`: the length of the span elapsed at that reading.
pub proof fn lemma_age_known(created_utc: int, now: ClockReading)
    requires
        EARLIEST_TIMESTAMP <= created_utc <= LATEST_TIMESTAMP,
    ensures
        age_at(created_utc, now) == age_text(elapsed_seconds(now, created_utc)),
        age_at(created_utc, now) != "unknown"@,
{
    reveal_strlit("unknown");
    lemma_age_text_last(elapsed_seconds(now, created_utc));
    assert("unknown"@.last() == 'n');
}

} // verus!
