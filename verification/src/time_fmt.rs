//! UTC timestamps in ISO 8601 form (`YYYY-MM-DDTHH:MM:SSZ`), computed
//! from seconds since the Unix epoch with Howard Hinnant's
//! civil-from-days algorithm on the proleptic Gregorian calendar.

use vstd::prelude::*;
use crate::text::{chars_of, string_from_chars};

verus! {

/// The decimal digit character for `d` (0..=9).
pub open spec fn digit_char(d: int) -> char {
    (48 + d) as char
}

/// The decimal representation of `n`, without leading zeros.
pub open spec fn decimal(n: nat) -> Seq<char>
    decreases n,
{
    if n < 10 {
        seq![digit_char(n as int)]
    } else {
        decimal(n / 10).push(digit_char((n % 10) as int))
    }
}

/// `n` in decimal, left-padded with zeros to at least `width` digits.
pub open spec fn padded(n: nat, width: nat) -> Seq<char> {
    let d = decimal(n);
    if d.len() < width {
        Seq::new((width - d.len()) as nat, |_i: int| '0') + d
    } else {
        d
    }
}

/// The calendar date `(year, month, day)` that lies `days` days after
/// 1970-01-01 (Hinnant's civil-from-days).
pub open spec fn civil_from_days(days: nat) -> (nat, nat, nat) {
    let z = days + 719_468;
    let era = z / 146_097;
    let doe = z - era * 146_097;
    let yoe = (doe - doe / 1_460 + doe / 36_524 - doe / 146_096) / 365;
    let y = yoe + era * 400;
    let doy = doe - (365 * yoe + yoe / 4 - yoe / 100);
    let mp = (5 * doy + 2) / 153;
    let d = doy - (153 * mp + 2) / 5 + 1;
    let m = if mp < 10 {
        mp + 3
    } else {
        mp - 9
    };
    let year = if m <= 2 {
        y + 1
    } else {
        y
    };
    (year as nat, m as nat, d as nat)
}

/// The ISO 8601 UTC timestamp of `secs` seconds after the epoch.
pub open spec fn iso8601(secs: nat) -> Seq<char> {
    let days = secs / 86_400;
    let sod = secs % 86_400;
    let (year, month, day) = civil_from_days(days);
    padded(year, 4) + seq!['-'] + padded(month, 2) + seq!['-'] + padded(day, 2) + seq!['T']
        + padded(sod / 3_600, 2) + seq![':'] + padded((sod % 3_600) / 60, 2) + seq![':'] + padded(
        sod % 60,
        2,
    ) + seq!['Z']
}

pub(crate) fn digit(d: u64) -> (c: char)
    requires
        d < 10,
    ensures
        c == digit_char(d as int),
{
    let c = match d {
        0 => '0',
        1 => '1',
        2 => '2',
        3 => '3',
        4 => '4',
        5 => '5',
        6 => '6',
        7 => '7',
        8 => '8',
        _ => '9',
    };
    c
}

fn push_decimal(out: &mut Vec<char>, n: u64)
    ensures
        final(out)@ == old(out)@ + decimal(n as nat),
    decreases n,
{
    if n >= 10 {
        push_decimal(out, n / 10);
    }
    out.push(digit(n % 10));
    proof {
        if n < 10 {
            assert(old(out)@ + decimal(n as nat) =~= old(out)@.push(digit_char(n as int)));
        } else {
            assert(old(out)@ + decimal(n as nat) =~= (old(out)@ + decimal((n / 10) as nat)).push(
                digit_char((n % 10) as int),
            ));
        }
    }
}

fn decimal_len(n: u64) -> (r: usize)
    ensures
        r == decimal(n as nat).len(),
        r <= 20,
    decreases n,
{
    proof {
        lemma_decimal_len_bound(n as nat);
    }
    if n < 10 {
        1
    } else {
        decimal_len(n / 10) + 1
    }
}

/// Ten to the power `k`.
pub open spec fn pow10(k: nat) -> nat
    decreases k,
{
    if k == 0 {
        1
    } else {
        10 * pow10((k - 1) as nat)
    }
}

proof fn lemma_decimal_len_below(n: nat, k: nat)
    requires
        k >= 1,
        n < pow10(k),
    ensures
        decimal(n).len() <= k,
    decreases k,
{
    if n >= 10 {
        reveal_with_fuel(pow10, 2);
        assert(pow10(1) == 10);
        assert(k >= 2);
        let p = pow10((k - 1) as nat);
        assert(n / 10 < p) by (nonlinear_arith)
            requires
                n < 10 * p,
        ;
        lemma_decimal_len_below(n / 10, (k - 1) as nat);
    }
}

proof fn lemma_decimal_len_bound(n: nat)
    requires
        n <= u64::MAX,
    ensures
        decimal(n).len() <= 20,
{
    reveal_with_fuel(pow10, 21);
    assert(pow10(20) == 100_000_000_000_000_000_000);
    lemma_decimal_len_below(n, 20);
}

fn push_padded(out: &mut Vec<char>, n: u64, width: usize)
    requires
        width <= 4,
    ensures
        final(out)@ == old(out)@ + padded(n as nat, width as nat),
{
    let len = decimal_len(n);
    let ghost start = out@;
    if len < width {
        let mut k: usize = 0;
        while k < width - len
            invariant
                k <= width - len,
                len < width,
                out@ =~= start + Seq::new(k as nat, |_i: int| '0'),
            decreases width - len - k,
        {
            out.push('0');
            k = k + 1;
        }
    }
    push_decimal(out, n);
    proof {
        if len < width {
            assert(out@ =~= start + padded(n as nat, width as nat));
        } else {
            assert(out@ =~= start + padded(n as nat, width as nat));
        }
    }
}

/// The calendar date `days` days after 1970-01-01.
pub fn civil_date(days: u64) -> (r: (u64, u64, u64))
    requires
        days <= u64::MAX / 86_400,
    ensures
        (r.0 as nat, r.1 as nat, r.2 as nat) == civil_from_days(days as nat),
{
    let z = days + 719_468;
    let era = z / 146_097;
    let doe = z - era * 146_097;
    assert(doe < 146_097) by (nonlinear_arith)
        requires
            era == z / 146_097,
            doe == z - era * 146_097,
    ;
    assert(era <= z) by (nonlinear_arith)
        requires
            era == z / 146_097,
    ;
    let yoe = (doe - doe / 1_460 + doe / 36_524 - doe / 146_096) / 365;
    let y = yoe + era * 400;
    let doy = doe - (365 * yoe + yoe / 4 - yoe / 100);
    let mp = (5 * doy + 2) / 153;
    let d = doy - (153 * mp + 2) / 5 + 1;
    let month = if mp < 10 {
        mp + 3
    } else {
        mp - 9
    };
    let year = if month <= 2 {
        y + 1
    } else {
        y
    };
    (year, month, d)
}

/// Formats `secs` seconds after the epoch as `YYYY-MM-DDTHH:MM:SSZ`.
pub fn format_iso8601(secs: u64) -> (s: String)
    ensures
        s@ == iso8601(secs as nat),
{
    let days = secs / 86_400;
    let sod = secs % 86_400;
    let h = sod / 3_600;
    let m = (sod % 3_600) / 60;
    let sec = sod % 60;
    let (year, month, d) = civil_date(days);
    let mut out: Vec<char> = Vec::new();
    push_padded(&mut out, year, 4);
    out.push('-');
    push_padded(&mut out, month, 2);
    out.push('-');
    push_padded(&mut out, d, 2);
    out.push('T');
    push_padded(&mut out, h, 2);
    out.push(':');
    push_padded(&mut out, m, 2);
    out.push(':');
    push_padded(&mut out, sec, 2);
    out.push('Z');
    string_from_chars(&out)
}

} // verus!

verus! {

proof fn lemma_day_of_year_range(doe: u32)
    requires
        doe < 146_097,
    ensures
        ({
            let yoe = (doe - doe / 1_460 + doe / 36_524 - doe / 146_096) / 365;
            &&& yoe <= 399
            &&& 365 * yoe + yoe / 4 - yoe / 100 <= doe
            &&& doe - (365 * yoe + yoe / 4 - yoe / 100) <= 365
        }),
{
    assert(doe < 146_097 ==> ({
        let yoe = (doe - doe / 1_460 + doe / 36_524 - doe / 146_096) / 365;
        &&& yoe <= 399
        &&& 365 * yoe + yoe / 4 - yoe / 100 <= doe
        &&& doe - (365 * yoe + yoe / 4 - yoe / 100) <= 365
    })) by (bit_vector);
}

/// Law: every date the algorithm yields is a valid calendar date
/// shape — month in 1..=12, day in 1..=31.
pub proof fn lemma_civil_ranges(days: nat)
    requires
        days <= u64::MAX / 86_400,
    ensures
        1 <= civil_from_days(days).1 <= 12,
        1 <= civil_from_days(days).2 <= 31,
{
    let z = days + 719_468;
    let era = z / 146_097;
    let doe = z - era * 146_097;
    assert(0 <= doe < 146_097) by (nonlinear_arith)
        requires
            era == z / 146_097,
            doe == z - era * 146_097,
            z >= 0,
    ;
    let d32 = doe as u32;
    lemma_day_of_year_range(d32);
    let yoe = (doe - doe / 1_460 + doe / 36_524 - doe / 146_096) / 365;
    let doy = doe - (365 * yoe + yoe / 4 - yoe / 100);
    assert(0 <= doy <= 365);
    let mp = (5 * doy + 2) / 153;
    assert(0 <= mp <= 11);
    let d = doy - (153 * mp + 2) / 5 + 1;
    assert(1 <= d <= 31) by (nonlinear_arith)
        requires
            0 <= doy <= 365,
            mp == (5 * doy + 2) / 153,
            d == doy - (153 * mp + 2) / 5 + 1,
    ;
}

proof fn lemma_padded_len(n: nat, w: nat)
    requires
        1 <= w,
        n < pow10(w),
    ensures
        padded(n, w).len() == w,
{
    lemma_decimal_len_below(n, w);
}

/// Law: the timestamp of any instant up to the end of year 9999 has the
/// shape `YYYY-MM-DDTHH:MM:SSZ`: twenty characters with the separators
/// at positions 4, 7, 10, 13, 16 and 19.
pub proof fn lemma_iso8601_shape(secs: nat)
    requires
        secs <= u64::MAX,
        civil_from_days(secs / 86_400).0 <= 9999,
    ensures
        iso8601(secs).len() == 20,
        iso8601(secs)[4] == '-',
        iso8601(secs)[7] == '-',
        iso8601(secs)[10] == 'T',
        iso8601(secs)[13] == ':',
        iso8601(secs)[16] == ':',
        iso8601(secs)[19] == 'Z',
{
    let days = secs / 86_400;
    let sod = secs % 86_400;
    let (year, month, day) = civil_from_days(days);
    lemma_civil_ranges(days);
    reveal_with_fuel(pow10, 5);
    assert(pow10(4) == 10000);
    assert(pow10(2) == 100);
    lemma_padded_len(year, 4);
    lemma_padded_len(month, 2);
    lemma_padded_len(day, 2);
    lemma_padded_len(sod / 3_600, 2);
    lemma_padded_len((sod % 3_600) / 60, 2);
    lemma_padded_len(sod % 60, 2);
}

#[verifier::external_type_specification]
#[verifier::external_body]
pub struct ExSystemTime(std::time::SystemTime);

/// The current time of the system clock.
///
/// Wraps std's `SystemTime::now`; the value depends on the clock, so
/// nothing is stated about it.
#[verifier::external_body]
fn system_now() -> std::time::SystemTime {
    std::time::SystemTime::now()
}

/// How long after the Unix epoch `t` lies, or `None` when `t` lies
/// before it.
///
/// Wraps std's `SystemTime::duration_since` with `UNIX_EPOCH`, telling
/// its `Ok` from its `Err`. A `SystemTime` is opaque here, so nothing is
/// stated about which comes back.
#[verifier::external_body]
fn since_epoch(t: &std::time::SystemTime) -> Option<std::time::Duration> {
    t.duration_since(std::time::UNIX_EPOCH).ok()
}

/// The whole seconds of `d`.
///
/// Wraps std's `Duration::as_secs`. A `Duration` is opaque here, so
/// nothing is stated about the number.
#[verifier::external_body]
fn duration_secs(d: &std::time::Duration) -> u64 {
    d.as_secs()
}

/// The seconds a clock reading stands for: the reading itself, or the
/// epoch (0) for a clock that reads before the epoch.
pub open spec fn reading_secs(reading: Option<u64>) -> u64 {
    match reading {
        Some(secs) => secs,
        None => 0,
    }
}

/// Seconds since the epoch for a clock reading, a reading before the
/// epoch counting as the epoch itself.
pub fn secs_or_epoch(reading: Option<u64>) -> (secs: u64)
    ensures
        secs == reading_secs(reading),
{
    match reading {
        Some(s) => s,
        None => 0,
    }
}

/// Reads the system clock: seconds since the Unix epoch, or `None` when
/// the clock reads before the epoch.
fn clock_reading() -> Option<u64> {
    let now = system_now();
    match since_epoch(&now) {
        Some(d) => Some(duration_secs(&d)),
        None => None,
    }
}

/// The current UTC time as an ISO 8601 timestamp.
pub fn now_iso8601() -> (s: String)
    ensures
        exists|reading: Option<u64>| s@ == iso8601(reading_secs(reading) as nat),
{
    let reading = clock_reading();
    format_iso8601(secs_or_epoch(reading))
}

/// The automatic name of a library entry saved at `secs` seconds after
/// the epoch: `prefix`, `-`, and the last four digits of the time in
/// seconds, zero-padded.
pub open spec fn auto_name_spec(prefix: Seq<char>, secs: nat) -> Seq<char> {
    prefix + seq!['-'] + padded(secs % 10_000, 4)
}

/// The automatic name of a saved performance: `PERF-NNNN`.
pub open spec fn perf_name_spec(secs: nat) -> Seq<char> {
    auto_name_spec(seq!['P', 'E', 'R', 'F'], secs)
}

/// The automatic name `prefix-NNNN` for a save at `secs` seconds after
/// the epoch.
pub fn auto_name(prefix: &str, secs: u64) -> (s: String)
    ensures
        s@ == auto_name_spec(prefix@, secs as nat),
        s@.len() == prefix@.len() + 5,
{
    let mut out: Vec<char> = chars_of(prefix);
    out.push('-');
    let ghost start = out@;
    push_padded(&mut out, secs % 10_000, 4);
    proof {
        reveal_with_fuel(pow10, 5);
        lemma_padded_len((secs % 10_000) as nat, 4);
        assert(out@ =~= auto_name_spec(prefix@, secs as nat));
    }
    string_from_chars(&out)
}

/// The automatic name `prefix-NNNN` for an entry saved now.
pub fn new_auto_name(prefix: &str) -> (s: String)
    ensures
        exists|reading: Option<u64>| s@ == auto_name_spec(prefix@, reading_secs(reading) as nat),
{
    let reading = clock_reading();
    auto_name(prefix, secs_or_epoch(reading))
}

/// The automatic performance name for a save at `secs` seconds after
/// the epoch.
pub fn perf_name(secs: u64) -> (s: String)
    ensures
        s@ == perf_name_spec(secs as nat),
        s@.len() == 9,
{
    proof {
        reveal_strlit("PERF");
    }
    assert("PERF"@ =~= seq!['P', 'E', 'R', 'F']);
    auto_name("PERF", secs)
}

/// The automatic name for a performance saved now.
pub fn new_perf_name() -> (s: String)
    ensures
        exists|reading: Option<u64>| s@ == perf_name_spec(reading_secs(reading) as nat),
{
    let reading = clock_reading();
    perf_name(secs_or_epoch(reading))
}

} // verus!
