//! Wall-clock reads and the RFC-3339 timestamps stamped on grant rows.

use vstd::prelude::*;
use std::time::{Instant, SystemTime};

verus! {

#[verifier::external_type_specification]
#[verifier::external_body]
pub struct ExSystemTime(SystemTime);

/// `SystemTime` is `Copy`; its `clone` gives back the same instant.
pub assume_specification[ <SystemTime as Clone>::clone ](t: &SystemTime) -> (r: SystemTime)
    ensures
        r == *t,
;

/// The current wall-clock time (`SystemTime::now`). Nothing is promised
/// of the value: it depends on the machine's clock.
#[verifier::external_body]
pub fn system_now() -> SystemTime {
    SystemTime::now()
}

/// Time elapsed since the Unix epoch at `t`, in whole seconds
/// (`SystemTime::duration_since(UNIX_EPOCH)`); `None` when `t` is before
/// the epoch. Nothing is promised of the value: it depends on `t`, which
/// comes from the machine's clock.
#[verifier::external_body]
pub fn secs_since_epoch(t: &SystemTime) -> Option<u64> {
    t.duration_since(std::time::UNIX_EPOCH).ok().map(|d| d.as_secs())
}

/// The same in whole milliseconds (`Duration::as_millis`).
#[verifier::external_body]
pub fn millis_since_epoch(t: &SystemTime) -> Option<u128> {
    t.duration_since(std::time::UNIX_EPOCH).ok().map(|d| d.as_millis())
}

/// Whole seconds since the Unix epoch now, 0 when the clock reads
/// earlier than the epoch.
pub fn unix_now_secs() -> u64 {
    match secs_since_epoch(&system_now()) {
        Some(s) => s,
        None => 0,
    }
}

/// Whole milliseconds since the Unix epoch now, 0 when the clock reads
/// earlier than the epoch.
pub fn unix_now_millis() -> u128 {
    match millis_since_epoch(&system_now()) {
        Some(ms) => ms,
        None => 0,
    }
}

#[verifier::external_type_specification]
#[verifier::external_body]
pub struct ExInstant(Instant);

/// A reading of the monotonic clock (`Instant::now`). Nothing is promised
/// of the value.
#[verifier::external_body]
pub fn instant_now() -> Instant {
    Instant::now()
}

/// Whole milliseconds since `started` (`Instant::elapsed`, then
/// `Duration::as_millis`). Nothing is promised of the value: it is the
/// time that passed.
#[verifier::external_body]
pub fn elapsed_millis(started: &Instant) -> u128 {
    started.elapsed().as_millis()
}

/// Civil date `(year, month, day)` of the day `days` days after
/// 1970-01-01 (proleptic Gregorian calendar).
pub open spec fn civil_from_days(days: int) -> (int, int, int) {
    let z = days + 719468;
    let era = z / 146097;
    let doe = z - era * 146097;
    let yoe = (doe - doe / 1460 + doe / 36524 - doe / 146096) / 365;
    let y = yoe + era * 400;
    let doy = doe - (365 * yoe + yoe / 4 - yoe / 100);
    let mp = (5 * doy + 2) / 153;
    let d = doy - (153 * mp + 2) / 5 + 1;
    let m = if mp < 10 { mp + 3 } else { mp - 9 };
    (if m <= 2 { y + 1 } else { y }, m, d)
}

/// Day number (days after 1970-01-01) of the civil date `(y, m, d)`.
pub open spec fn days_from_civil(y: int, m: int, d: int) -> int {
    let yy = if m <= 2 { y - 1 } else { y };
    let era = yy / 400;
    let yoe = yy - era * 400;
    let mp = if m > 2 { m - 3 } else { m + 9 };
    let doy = (153 * mp + 2) / 5 + d - 1;
    let doe = yoe * 365 + yoe / 4 - yoe / 100 + doy;
    era * 146097 + doe - 719468
}

/// Convert "days since 1970-01-01" into `(year, month, day)`.
pub fn days_to_ymd(days: i64) -> (r: (i32, u32, u32))
    requires
        days <= i64::MAX - 719468,
    ensures
        r.0 == civil_from_days(days as int).0 as i32,
        r.1 == civil_from_days(days as int).1,
        r.2 == civil_from_days(days as int).2,
        1 <= r.1 <= 12,
        1 <= r.2 <= 31,
{
    let z: i64 = days + 719468;
    let era: i64 = if z >= 0 {
        z / 146097
    } else {
        let n: i64 = -z;
        let q: i64 = (n + 146096) / 146097;
        assert(z / 146097 == -q) by (nonlinear_arith)
            requires
                z < 0,
                n == -z,
                q == (n + 146096) / 146097,
        ;
        -q
    };
    assert(era == (z as int) / 146097);
    let doe: i64 = z - era * 146097;
    assert(0 <= doe < 146097);
    let yoe: i64 = (doe - doe / 1460 + doe / 36524 - doe / 146096) / 365;
    assert(0 <= yoe < 400) by (nonlinear_arith)
        requires
            0 <= doe < 146097,
            yoe == (doe - doe / 1460 + doe / 36524 - doe / 146096) / 365,
    ;
    let y: i64 = yoe + era * 400;
    let doy: i64 = doe - (365 * yoe + yoe / 4 - yoe / 100);
    assert(0 <= doy <= 365) by (nonlinear_arith)
        requires
            0 <= doe < 146097,
            0 <= yoe < 400,
            yoe == (doe - doe / 1460 + doe / 36524 - doe / 146096) / 365,
            doy == doe - (365 * yoe + yoe / 4 - yoe / 100),
    ;
    let mp: i64 = (5 * doy + 2) / 153;
    let d: i64 = doy - (153 * mp + 2) / 5 + 1;
    assert(0 <= mp <= 11 && 1 <= d <= 31) by (nonlinear_arith)
        requires
            0 <= doy <= 365,
            mp == (5 * doy + 2) / 153,
            d == doy - (153 * mp + 2) / 5 + 1,
    ;
    let m: i64 = if mp < 10 { mp + 3 } else { mp - 9 };
    let y: i64 = if m <= 2 { y + 1 } else { y };
    (y as i32, m as u32, d as u32)
}

/// Decimal digits of `n`, most significant first.
pub open spec fn dec_digits(n: nat) -> Seq<char>
    decreases n,
{
    if n < 10 {
        seq![digit_char(n)]
    } else {
        dec_digits(n / 10).push(digit_char(n % 10))
    }
}

pub open spec fn digit_char(n: nat) -> char {
    if n == 0 { '0' }
    else if n == 1 { '1' }
    else if n == 2 { '2' }
    else if n == 3 { '3' }
    else if n == 4 { '4' }
    else if n == 5 { '5' }
    else if n == 6 { '6' }
    else if n == 7 { '7' }
    else if n == 8 { '8' }
    else { '9' }
}

/// `w - s.len()` zeros (when positive) followed by `s`.
pub open spec fn zero_pad(s: Seq<char>, w: int) -> Seq<char> {
    if s.len() < w {
        Seq::new((w - s.len()) as nat, |_i: int| '0') + s
    } else {
        s
    }
}

/// `v` printed in decimal, zero-padded to width `w` with the sign counted
/// in the width (the `{:0w}` format).
pub open spec fn fmt_padded(v: int, w: int) -> Seq<char> {
    if v < 0 {
        seq!['-'] + zero_pad(dec_digits((-v) as nat), w - 1)
    } else {
        zero_pad(dec_digits(v as nat), w)
    }
}

/// `YYYY-MM-DDTHH:MM:SSZ` for `secs` seconds after the Unix epoch.
pub open spec fn rfc3339_spec(secs: u64) -> Seq<char> {
    let days = secs / 86400;
    let ymd = civil_from_days(days as int);
    let h = (secs % 86400) / 3600;
    let m = (secs % 3600) / 60;
    let s = secs % 60;
    fmt_padded((ymd.0 as i32) as int, 4) + "-"@ + fmt_padded(ymd.1, 2) + "-"@ + fmt_padded(ymd.2, 2)
        + "T"@ + fmt_padded(h as int, 2) + ":"@ + fmt_padded(m as int, 2) + ":"@ + fmt_padded(s as int, 2)
        + "Z"@
}

fn digit(n: u64) -> (c: char)
    requires
        n < 10,
    ensures
        c == digit_char(n as nat),
{
    if n == 0 { '0' }
    else if n == 1 { '1' }
    else if n == 2 { '2' }
    else if n == 3 { '3' }
    else if n == 4 { '4' }
    else if n == 5 { '5' }
    else if n == 6 { '6' }
    else if n == 7 { '7' }
    else if n == 8 { '8' }
    else { '9' }
}

pub(crate) fn push_digits(n: u64, out: &mut Vec<char>)
    ensures
        final(out)@ == old(out)@ + dec_digits(n as nat),
    decreases n,
{
    if n >= 10 {
        push_digits(n / 10, out);
    }
    out.push(digit(n % 10));
    assert(n < 10 ==> dec_digits(n as nat) == seq![digit_char(n as nat)]);
}

fn push_padded(v: i64, w: usize, out: &mut Vec<char>)
    requires
        v > i64::MIN,
        1 <= w <= 8,
    ensures
        final(out)@ == old(out)@ + fmt_padded(v as int, w as int),
{
    let mut digits: Vec<char> = Vec::new();
    let width: usize;
    let ghost start = out@;
    if v < 0 {
        out.push('-');
        push_digits((-v) as u64, &mut digits);
        width = w - 1;
    } else {
        push_digits(v as u64, &mut digits);
        width = w;
    }
    let ghost dv = digits@;
    let ghost mid = out@;
    let mut k: usize = digits.len();
    while k < width
        invariant
            digits.len() <= k,
            k <= width || k == digits.len(),
            out@ == mid + Seq::new((k - digits.len()) as nat, |_i: int| '0'),
        decreases width - k,
    {
        out.push('0');
        assert(Seq::new((k + 1 - digits.len()) as nat, |_i: int| '0') =~= Seq::new(
            (k - digits.len()) as nat,
            |_i: int| '0',
        ).push('0'));
        k += 1;
    }
    let ghost zeros = Seq::new((k - digits.len()) as nat, |_i: int| '0');
    assert(zero_pad(dv, width as int) =~= zeros + dv);
    let ghost before = out@;
    let mut j: usize = 0;
    while j < digits.len()
        invariant
            j <= digits.len(),
            dv == digits@,
            out@ == before + digits@.subrange(0, j as int),
        decreases digits.len() - j,
    {
        out.push(digits[j]);
        assert(digits@.subrange(0, j + 1) == digits@.subrange(0, j as int).push(digits@[j as int]));
        j += 1;
    }
    assert(digits@.subrange(0, digits.len() as int) == digits@);
    assert(out@ =~= mid + zero_pad(dv, width as int));
    assert(out@ =~= start + fmt_padded(v as int, w as int));
}

/// `YYYY-MM-DDTHH:MM:SSZ` for `secs` seconds after the Unix epoch.
pub fn format_rfc3339(secs: u64) -> (r: String)
    ensures
        r@ == rfc3339_spec(secs),
{
    let days = secs / 86400;
    let h = (secs % 86400) / 3600;
    let m = (secs % 3600) / 60;
    let s = secs % 60;
    let (y, mo, d) = days_to_ymd(days as i64);
    let mut out: Vec<char> = Vec::new();
    push_padded(y as i64, 4, &mut out);
    out.push('-');
    push_padded(mo as i64, 2, &mut out);
    out.push('-');
    push_padded(d as i64, 2, &mut out);
    out.push('T');
    push_padded(h as i64, 2, &mut out);
    out.push(':');
    push_padded(m as i64, 2, &mut out);
    out.push(':');
    push_padded(s as i64, 2, &mut out);
    out.push('Z');
    proof {
        reveal_strlit("-");
        reveal_strlit("T");
        reveal_strlit(":");
        reveal_strlit("Z");
    }
    assert(out@ =~= rfc3339_spec(secs));
    crate::text::string_of(&out)
}


/// `n` in decimal.
pub fn decimal_string(n: u64) -> (r: String)
    ensures
        r@ == dec_digits(n as nat),
{
    let mut v: Vec<char> = Vec::new();
    push_digits(n, &mut v);
    assert(v@ =~= dec_digits(n as nat));
    crate::text::string_of(&v)
}

} // verus!
