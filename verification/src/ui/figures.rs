//! Sizes, speeds, spans and times as text.

use vstd::prelude::*;
use vstd::string::*;

use crate::db::schema;
use crate::text;

verus! {

/// The whole number nearest to `num / den`, and of two equally near ones the even one.
pub open spec fn nearest(num: nat, den: nat) -> nat {
    let q = num / den;
    let r = num % den;
    if 2 * r < den || (2 * r == den && q % 2 == 0) {
        q
    } else {
        q + 1
    }
}

fn nearest_of(num: u128, den: u128) -> (r: u128)
    requires
        0 < den <= 0x1_0000_0000,
        num < 0x1_0000_0000_0000_0000_0000_0000,
    ensures
        r == nearest(num as nat, den as nat),
        r <= num / den + 1,
{
    let q: u128 = num / den;
    let rest: u128 = num % den;
    assert(q <= num) by (nonlinear_arith)
        requires
            q == num / den,
            den > 0,
    ;
    if 2 * rest < den || (2 * rest == den && q % 2 == 0) {
        q
    } else {
        q + 1
    }
}

/// The distance between neighbouring floating-point numbers of 53 bits around `n`, where that is
/// more than 1.
pub open spec fn spacing(n: nat) -> nat
    decreases n,
{
    if n < 0x20_0000_0000_0000 {
        1
    } else {
        2 * spacing(n / 2)
    }
}

/// The floating-point number of 53 bits that is nearest to `n`.
pub open spec fn rounded(n: nat) -> nat {
    nearest(n, spacing(n)) * spacing(n)
}

fn spacing_of(n: u64) -> (r: u64)
    ensures
        r == spacing(n as nat),
        1 <= r <= 4096,
{
    let mut rest: u64 = n;
    let mut step: u64 = 1;
    while rest >= 0x20_0000_0000_0000
        invariant
            spacing(n as nat) == step * spacing(rest as nat),
            1 <= step <= 4096,
            rest * step <= n,
        decreases rest,
    {
        assert(step * (2 * spacing((rest / 2) as nat)) == (2 * step) * spacing((rest / 2) as nat))
            by (nonlinear_arith);
        assert(step <= 2048) by (nonlinear_arith)
            requires
                rest * step <= n,
                rest >= 0x20_0000_0000_0000,
                n <= 0xffff_ffff_ffff_ffff,
        ;
        assert((rest / 2) * (2 * step) <= rest * step) by (nonlinear_arith)
            requires
                (rest / 2) * 2 <= rest,
                step > 0,
        ;
        rest = rest / 2;
        step = 2 * step;
    }
    assert(step * spacing(rest as nat) == step) by (nonlinear_arith)
        requires
            spacing(rest as nat) == 1,
    ;
    step
}

fn rounded_of(n: u64) -> (r: u128)
    ensures
        r == rounded(n as nat),
        r <= 0x1_0000_0000_0000_1000,
{
    let step: u64 = spacing_of(n);
    let q: u128 = nearest_of(n as u128, step as u128);
    assert(q * step <= 0x1_0000_0000_0000_1000) by (nonlinear_arith)
        requires
            q <= n as u128 / step as u128 + 1,
            1 <= step <= 4096,
            n <= 0xffff_ffff_ffff_ffff,
    ;
    q * step as u128
}

/// `amount` in units of `unit`, with one decimal, as floating-point numbers give it.
pub open spec fn in_units(amount: u64, unit: nat) -> Seq<char> {
    let tenths = nearest(10 * rounded(amount as nat), unit);
    text::decimal(tenths / 10) + "."@ + text::decimal(tenths % 10)
}

fn in_units_text(amount: u64, unit: u64) -> (r: String)
    requires
        1024 <= unit <= 0x4000_0000,
    ensures
        r@ == in_units(amount, unit as nat),
{
    let num: u128 = 10 * rounded_of(amount);
    let tenths: u128 = nearest_of(num, unit as u128);
    assert(tenths <= 0xffff_ffff_ffff_ffff) by (nonlinear_arith)
        requires
            tenths <= num / unit as u128 + 1,
            num <= 0xA_0000_0000_0000_A000,
            unit >= 1024,
    ;
    let shown: u64 = tenths as u64;
    let mut r = text::decimal_text(shown / 10);
    r.append(".");
    r.append(text::decimal_text(shown % 10).as_str());
    r
}

/// `bytes` as a size: a dash for none, else in the largest unit of which there is at least one.
pub open spec fn bytes_text(bytes: u64) -> Seq<char> {
    if bytes == 0 {
        "—"@
    } else if bytes >= 0x4000_0000 {
        in_units(bytes, 0x4000_0000) + " GB"@
    } else if bytes >= 0x10_0000 {
        in_units(bytes, 0x10_0000) + " MB"@
    } else if bytes >= 1024 {
        in_units(bytes, 1024) + " KB"@
    } else {
        text::decimal(bytes as nat) + " B"@
    }
}

/// `bytes` as a size.
pub fn format_bytes(bytes: u64) -> (r: String)
    ensures
        r@ == bytes_text(bytes),
{
    if bytes == 0 {
        return "—".to_owned();
    }
    let mut r: String;
    if bytes >= 0x4000_0000 {
        r = in_units_text(bytes, 0x4000_0000);
        r.append(" GB");
    } else if bytes >= 0x10_0000 {
        r = in_units_text(bytes, 0x10_0000);
        r.append(" MB");
    } else if bytes >= 1024 {
        r = in_units_text(bytes, 1024);
        r.append(" KB");
    } else {
        r = text::decimal_text(bytes);
        r.append(" B");
    }
    r
}

/// `bps` bytes per second as a speed, in the largest unit of which there is at least one.
pub open spec fn speed_text(bps: u64) -> Seq<char> {
    if bps >= 0x10_0000 {
        in_units(bps, 0x10_0000) + " MB/s"@
    } else if bps >= 1024 {
        in_units(bps, 1024) + " KB/s"@
    } else {
        text::decimal(bps as nat) + " B/s"@
    }
}

/// `bps` bytes per second as a speed.
pub fn format_speed(bps: u64) -> (r: String)
    ensures
        r@ == speed_text(bps),
{
    let mut r: String;
    if bps >= 0x10_0000 {
        r = in_units_text(bps, 0x10_0000);
        r.append(" MB/s");
    } else if bps >= 1024 {
        r = in_units_text(bps, 1024);
        r.append(" KB/s");
    } else {
        r = text::decimal_text(bps);
        r.append(" B/s");
    }
    r
}

/// A span of `secs` seconds: hours and minutes, minutes and seconds, or seconds.
pub open spec fn duration_text(secs: u64) -> Seq<char> {
    let s = secs as nat;
    if s >= 3600 {
        text::decimal(s / 3600) + "h "@ + text::decimal(s % 3600 / 60) + "m"@
    } else if s >= 60 {
        text::decimal(s / 60) + "m "@ + text::decimal(s % 60) + "s"@
    } else {
        text::decimal(s) + "s"@
    }
}

/// A span of `secs` seconds.
pub fn format_duration(secs: u64) -> (r: String)
    ensures
        r@ == duration_text(secs),
{
    if secs >= 3600 {
        let mut r = text::decimal_text(secs / 3600);
        r.append("h ");
        r.append(text::decimal_text(secs % 3600 / 60).as_str());
        r.append("m");
        r
    } else if secs >= 60 {
        let mut r = text::decimal_text(secs / 60);
        r.append("m ");
        r.append(text::decimal_text(secs % 60).as_str());
        r.append("s");
        r
    } else {
        let mut r = text::decimal_text(secs);
        r.append("s");
        r
    }
}

/// The time of day `HH:MM:SS`, in UTC, of a second counted from 1970.
pub open spec fn time_text(epoch_secs: int) -> Seq<char> {
    let of_day = epoch_secs % 86400;
    text::two_digits((of_day / 3600) as nat) + ":"@ + text::two_digits((of_day % 3600 / 60) as nat)
        + ":"@ + text::two_digits((of_day % 60) as nat)
}

fn second_of_day(epoch_secs: i64) -> (r: u64)
    ensures
        r == (epoch_secs as int) % 86400,
{
    if epoch_secs >= 0 {
        (epoch_secs % 86400) as u64
    } else {
        let before: u64 = ((-(epoch_secs as i128)) as u64) % 86400;
        if before == 0 {
            0
        } else {
            86400 - before
        }
    }
}

/// The time of day `HH:MM:SS`, in UTC, of a second counted from 1970.
pub fn fmt_epoch(epoch_secs: i64) -> (r: String)
    ensures
        r@ == time_text(epoch_secs as int),
{
    let of_day: u64 = second_of_day(epoch_secs);
    let mut r = text::two_digits_text(of_day / 3600);
    r.append(":");
    r.append(text::two_digits_text(of_day % 3600 / 60).as_str());
    r.append(":");
    r.append(text::two_digits_text(of_day % 60).as_str());
    r
}

/// The times from `start` to `end`, or to `now` where there is no end yet; a dash where there is no
/// start.
pub open spec fn range_text(start: Option<i64>, end: Option<i64>, now: i64) -> Seq<char> {
    match (start, end) {
        (Some(s), Some(e)) => time_text(s as int) + " - "@ + time_text(e as int),
        (Some(s), None) => time_text(s as int) + " - "@ + time_text(now as int),
        _ => "—"@,
    }
}

/// The times from `start` to `end`, or to the second `now` where there is no end yet.
pub fn format_epoch_range(start: Option<i64>, end: Option<i64>, now: i64) -> (r: String)
    ensures
        r@ == range_text(start, end, now),
{
    match start {
        Some(s) => {
            let until: i64 = match end {
                Some(e) => e,
                None => now,
            };
            let mut r = fmt_epoch(s);
            r.append(" - ");
            r.append(fmt_epoch(until).as_str());
            r
        },
        None => "—".to_owned(),
    }
}

/// The shown number is as near as a whole number can be.
pub proof fn law_nearest_is_near(num: nat, den: nat)
    requires
        den > 0,
    ensures
        2 * (nearest(num, den) * den) <= 2 * num + den,
        2 * num <= 2 * (nearest(num, den) * den) + den,
{
    let q = num / den;
    let r = num % den;
    vstd::arithmetic::div_mod::lemma_fundamental_div_mod(num as int, den as int);
    assert((q + 1) * den == q * den + den) by (nonlinear_arith);
    assert(q * den == den * q) by (nonlinear_arith);
}

/// Numbers below 2^53 are floating-point numbers themselves.
pub proof fn law_small_numbers_are_not_rounded(n: nat)
    requires
        n < 0x20_0000_0000_0000,
    ensures
        rounded(n) == n,
{
    assert(n % 1 == 0 && n / 1 == n);
    assert(nearest(n, 1) * 1 == n);
}

/// The time of day that a stored timestamp writes is the one that is shown for it.
pub proof fn law_stored_time_is_shown(d: schema::DateTime)
    requires
        0 <= d.hour < 24,
        0 <= d.min < 60,
        0 <= d.sec < 60,
    ensures
        time_text(d.epoch()) == text::two_digits(d.hour as nat) + ":"@ + text::two_digits(
            d.min as nat,
        ) + ":"@ + text::two_digits(d.sec as nat),
{
    lemma_time_of_day(d.days(), d.hour, d.min, d.sec);
}

proof fn lemma_time_of_day(days: int, hour: int, min: int, sec: int)
    requires
        0 <= hour < 24,
        0 <= min < 60,
        0 <= sec < 60,
    ensures
        ({
            let of_day = (days * 86400 + hour * 3600 + min * 60 + sec) % 86400;
            of_day / 3600 == hour && of_day % 3600 / 60 == min && of_day % 60 == sec
        }),
{
    let of_day = hour * 3600 + min * 60 + sec;
    assert((days * 86400 + of_day) % 86400 == of_day);
    assert(of_day / 3600 == hour);
    assert(of_day % 3600 == min * 60 + sec);
}

/// Of two equally near whole numbers the even one is shown.
pub proof fn law_halves_go_to_the_even_number(num: nat, den: nat)
    requires
        den > 0,
        2 * (num % den) == den,
    ensures
        nearest(num, den) % 2 == 0,
{
}

proof fn lemma_spacing(n: nat)
    ensures
        1 <= spacing(n),
        n < 0x20_0000_0000_0000 ==> spacing(n) == 1,
        n >= 0x20_0000_0000_0000 ==> spacing(n) * 0x10_0000_0000_0000 <= n,
        n < spacing(n) * 0x20_0000_0000_0000,
    decreases n,
{
    if n >= 0x20_0000_0000_0000 {
        lemma_spacing(n / 2);
    }
}

/// A size is rounded to 53 bits at most: the error is no more than one part in 2^53.
pub proof fn law_rounding_errors_are_small(n: nat)
    ensures
        (rounded(n) - n) * 0x20_0000_0000_0000 <= n,
        (n - rounded(n)) * 0x20_0000_0000_0000 <= n,
{
    lemma_spacing(n);
    law_nearest_is_near(n, spacing(n));
    if n < 0x20_0000_0000_0000 {
        law_small_numbers_are_not_rounded(n);
    }
}

/// Whether `s` writes `amount` in units of `unit`, with one decimal that is as near as one decimal
/// can be, followed by `suffix`.
pub open spec fn writes_units(s: Seq<char>, amount: nat, unit: nat, suffix: Seq<char>) -> bool {
    exists|whole: nat, tenth: nat|
        {
            &&& s == (#[trigger] text::decimal(whole)) + "."@ + (#[trigger] text::decimal(tenth))
                + suffix
            &&& tenth < 10
            &&& 2 * (unit * (10 * whole + tenth)) <= 20 * amount + unit
            &&& 20 * amount <= 2 * (unit * (10 * whole + tenth)) + unit
        }
}

proof fn lemma_in_units(amount: u64, unit: nat, suffix: Seq<char>)
    requires
        unit > 0,
    ensures
        writes_units(in_units(amount, unit) + suffix, rounded(amount as nat), unit, suffix),
{
    let n = rounded(amount as nat);
    let tenths = nearest(10 * n, unit);
    law_nearest_is_near(10 * n, unit);
    let whole = tenths / 10;
    let tenth = tenths % 10;
    assert(tenths == 10 * whole + tenth);
    assert(unit * tenths == tenths * unit) by (nonlinear_arith);
    assert(in_units(amount, unit) + suffix == text::decimal(whole) + "."@ + text::decimal(tenth)
        + suffix);
}

/// A size is written as its bytes, or in kibi-, mebi- or gibibytes with the nearest decimal,
/// whichever of them it has at least one of.
pub proof fn law_sizes_tell_the_bytes(bytes: u64)
    ensures
        bytes == 0 ==> bytes_text(bytes) == "—"@,
        0 < bytes < 1024 ==> bytes_text(bytes) == text::decimal(bytes as nat) + " B"@,
        1024 <= bytes < 1024 * 1024 ==> writes_units(
            bytes_text(bytes),
            bytes as nat,
            1024,
            " KB"@,
        ),
        1024 * 1024 <= bytes < 1024 * 1024 * 1024 ==> writes_units(
            bytes_text(bytes),
            bytes as nat,
            1024 * 1024,
            " MB"@,
        ),
        1024 * 1024 * 1024 <= bytes ==> writes_units(
            bytes_text(bytes),
            rounded(bytes as nat),
            1024 * 1024 * 1024,
            " GB"@,
        ),
{
    if bytes < 0x20_0000_0000_0000 {
        law_small_numbers_are_not_rounded(bytes as nat);
    }
    lemma_in_units(bytes, 1024, " KB"@);
    lemma_in_units(bytes, 0x10_0000, " MB"@);
    lemma_in_units(bytes, 0x4000_0000, " GB"@);
}

/// A speed is written in bytes, or in kibi- or mebibytes with the nearest decimal, per second.
pub proof fn law_speeds_tell_the_bytes(bps: u64)
    ensures
        bps < 1024 ==> speed_text(bps) == text::decimal(bps as nat) + " B/s"@,
        1024 <= bps < 1024 * 1024 ==> writes_units(speed_text(bps), bps as nat, 1024, " KB/s"@),
        1024 * 1024 <= bps ==> writes_units(
            speed_text(bps),
            rounded(bps as nat),
            1024 * 1024,
            " MB/s"@,
        ),
{
    if bps < 0x20_0000_0000_0000 {
        law_small_numbers_are_not_rounded(bps as nat);
    }
    lemma_in_units(bps, 1024, " KB/s"@);
    lemma_in_units(bps, 0x10_0000, " MB/s"@);
}

/// A span of so many hours, minutes and seconds is written with the two largest of them.
pub proof fn law_spans_tell_hours_minutes_seconds(hours: nat, min: nat, sec: nat)
    requires
        min < 60,
        sec < 60,
        hours * 3600 + min * 60 + sec <= u64::MAX,
    ensures
        ({
            let s = duration_text((hours * 3600 + min * 60 + sec) as u64);
            &&& hours > 0 ==> s == text::decimal(hours) + "h "@ + text::decimal(min) + "m"@
            &&& hours == 0 && min > 0 ==> s == text::decimal(min) + "m "@ + text::decimal(sec)
                + "s"@
            &&& hours == 0 && min == 0 ==> s == text::decimal(sec) + "s"@
        }),
{
    let s = hours * 3600 + min * 60 + sec;
    assert(s / 3600 == hours);
    assert(s % 3600 == min * 60 + sec);
    assert((min * 60 + sec) / 60 == min);
}

/// A day later it is the same time of day.
pub proof fn law_times_come_back_every_day(epoch_secs: int)
    ensures
        time_text(epoch_secs + 86400) == time_text(epoch_secs),
        time_text(epoch_secs).len() == 8,
{
    reveal_strlit(":");
    let of_day = epoch_secs % 86400;
    assert((epoch_secs + 86400) % 86400 == of_day);
    text::law_two_digits_write_the_number((of_day / 3600) as nat);
    text::law_two_digits_write_the_number((of_day % 3600 / 60) as nat);
    text::law_two_digits_write_the_number((of_day % 60) as nat);
}

/// A range goes from its start to its end, or to the present where there is no end yet.
pub proof fn law_ranges_go_from_start_to_end(start: i64, end: i64, now: i64, later: Option<i64>)
    ensures
        range_text(Some(start), Some(end), now) == time_text(start as int) + " - "@ + time_text(
            end as int,
        ),
        range_text(Some(start), None, now) == range_text(Some(start), Some(now), end),
        range_text(None, later, now) == "—"@,
{
}

} // verus!
