use vstd::prelude::*;

use crate::text::{
    digits_value, format_zero_padded, lemma_zero_padded_exact, pow10, spec_zero_padded,
};

verus! {

/// The first millisecond after the Unix epoch that RFC 3339 cannot write:
/// 10000-01-01T00:00:00Z (its years have four digits).
pub const RFC3339_END_UNIX_MS: u128 = 253402300800000;

/// Gregorian leap years.
pub open spec fn is_leap_year(y: nat) -> bool {
    y % 4 == 0 && (y % 100 != 0 || y % 400 == 0)
}

pub open spec fn days_in_year(y: nat) -> nat {
    if is_leap_year(y) { 366 } else { 365 }
}

/// Days in month `m` (1 = January) of year `y`.
pub open spec fn days_in_month(y: nat, m: nat) -> nat {
    if m == 2 {
        if is_leap_year(y) { 29 } else { 28 }
    } else if m == 4 || m == 6 || m == 9 || m == 11 {
        30
    } else {
        31
    }
}

/// Day `days` counted from 1 January of year `y`: the year it falls in, and
/// its index (from 0) within that year.
pub open spec fn year_and_day(days: nat, y: nat) -> (nat, nat)
    decreases days,
{
    if days < days_in_year(y) {
        (y, days)
    } else {
        year_and_day((days - days_in_year(y)) as nat, y + 1)
    }
}

/// Day `day` counted from the first of month `m` of year `y`: the month it
/// falls in (December at the latest), and its index (from 0) within that month.
pub open spec fn month_and_day(day: nat, y: nat, m: nat) -> (nat, nat)
    decreases 12 - m,
{
    if m >= 12 || day < days_in_month(y, m) {
        (m, day)
    } else {
        month_and_day((day - days_in_month(y, m)) as nat, y, m + 1)
    }
}

/// Calendar fields (UTC) of `unix_ms` milliseconds after the Unix epoch:
/// year, month, day of month, hour, minute, second.
pub open spec fn spec_utc_fields(unix_ms: nat) -> (nat, nat, nat, nat, nat, nat) {
    let secs = unix_ms / 1000;
    let (y, day_of_year) = year_and_day(secs / 86400, 1970);
    let (m, day_of_month) = month_and_day(day_of_year, y, 1);
    let second_of_day = secs % 86400;
    (y, m, day_of_month + 1, second_of_day / 3600, second_of_day % 3600 / 60, second_of_day % 60)
}

/// `unix_ms` as an RFC 3339 UTC timestamp to the second, such as
/// `2026-03-30T12:00:00Z`.
pub open spec fn spec_rfc3339_utc(unix_ms: nat) -> Seq<char> {
    let (y, mo, d, h, mi, s) = spec_utc_fields(unix_ms);
    spec_zero_padded(y, 4) + "-"@ + spec_zero_padded(mo, 2) + "-"@ + spec_zero_padded(d, 2)
        + "T"@ + spec_zero_padded(h, 2) + ":"@ + spec_zero_padded(mi, 2) + ":"@
        + spec_zero_padded(s, 2) + "Z"@
}

fn year_length(y: u128) -> (n: u128)
    ensures
        n == days_in_year(y as nat),
{
    if y % 4 == 0 && (y % 100 != 0 || y % 400 == 0) {
        366
    } else {
        365
    }
}

fn month_length(y: u128, m: u128) -> (n: u128)
    ensures
        n == days_in_month(y as nat, m as nat),
{
    if m == 2 {
        if y % 4 == 0 && (y % 100 != 0 || y % 400 == 0) {
            29
        } else {
            28
        }
    } else if m == 4 || m == 6 || m == 9 || m == 11 {
        30
    } else {
        31
    }
}

/// Writes `unix_ms` milliseconds after the Unix epoch as an RFC 3339 UTC
/// timestamp to the second (`YYYY-MM-DDTHH:MM:SSZ`).
pub fn rfc3339_utc(unix_ms: u128) -> (s: String)
    requires
        unix_ms < RFC3339_END_UNIX_MS,
    ensures
        s@ == spec_rfc3339_utc(unix_ms as nat),
{
    let secs = unix_ms / 1000;
    let days = secs / 86400;
    let second_of_day = secs % 86400;

    let mut y: u128 = 1970;
    let mut day_of_year: u128 = days;
    while day_of_year >= year_length(y)
        invariant
            year_and_day(days as nat, 1970) == year_and_day(day_of_year as nat, y as nat),
            day_of_year <= days,
            y - 1970 <= days - day_of_year,
            1970 <= y,
            days < RFC3339_END_UNIX_MS,
        decreases day_of_year,
    {
        day_of_year = day_of_year - year_length(y);
        y = y + 1;
    }

    let mut m: u128 = 1;
    let mut day_of_month: u128 = day_of_year;
    while m < 12 && day_of_month >= month_length(y, m)
        invariant
            month_and_day(day_of_year as nat, y as nat, 1) == month_and_day(
                day_of_month as nat,
                y as nat,
                m as nat,
            ),
            1 <= m <= 12,
            day_of_month <= day_of_year,
            day_of_year < RFC3339_END_UNIX_MS,
        decreases 12 - m,
    {
        day_of_month = day_of_month - month_length(y, m);
        m = m + 1;
    }

    let mut s = format_zero_padded(y, 4);
    s.append("-");
    s.append(format_zero_padded(m, 2).as_str());
    s.append("-");
    s.append(format_zero_padded(day_of_month + 1, 2).as_str());
    s.append("T");
    s.append(format_zero_padded(second_of_day / 3600, 2).as_str());
    s.append(":");
    s.append(format_zero_padded(second_of_day % 3600 / 60, 2).as_str());
    s.append(":");
    s.append(format_zero_padded(second_of_day % 60, 2).as_str());
    s.append("Z");
    s
}

} // verus!

verus! {

/// Days from the first of month `m` of year `y` to the end of that year.
pub open spec fn days_left_in_year(y: nat, m: nat) -> nat
    decreases 13 - m,
{
    if m == 0 || m > 12 {
        0
    } else {
        days_in_month(y, m) + days_left_in_year(y, m + 1)
    }
}

proof fn lemma_months_make_year(y: nat)
    ensures
        days_left_in_year(y, 1) == days_in_year(y),
{
    reveal_with_fuel(days_left_in_year, 13);
}

proof fn lemma_year_and_day_valid(days: nat, y: nat)
    ensures
        year_and_day(days, y).0 >= y,
        year_and_day(days, y).1 < days_in_year(year_and_day(days, y).0),
    decreases days,
{
    if days >= days_in_year(y) {
        lemma_year_and_day_valid((days - days_in_year(y)) as nat, y + 1);
    }
}

proof fn lemma_month_and_day_valid(day: nat, y: nat, m: nat)
    requires
        1 <= m <= 12,
        day < days_left_in_year(y, m),
    ensures
        1 <= month_and_day(day, y, m).0 <= 12,
        month_and_day(day, y, m).1 < days_in_month(y, month_and_day(day, y, m).0),
    decreases 12 - m,
{
    if m < 12 && day >= days_in_month(y, m) {
        lemma_month_and_day_valid((day - days_in_month(y, m)) as nat, y, m + 1);
    } else if m == 12 {
        assert(days_left_in_year(y, 13) == 0);
    }
}

/// Every timestamp names a real date and time: a year from 1970 on, a month
/// from 1 to 12, a day that exists in that month, and an hour, minute and
/// second in range.
pub proof fn lemma_utc_fields_valid(unix_ms: nat)
    ensures
        ({
            let (y, mo, d, h, mi, s) = spec_utc_fields(unix_ms);
            &&& y >= 1970
            &&& 1 <= mo <= 12
            &&& 1 <= d <= days_in_month(y, mo)
            &&& h < 24 && mi < 60 && s < 60
        }),
{
    let secs = unix_ms / 1000;
    let (y, day_of_year) = year_and_day(secs / 86400, 1970);
    lemma_year_and_day_valid(secs / 86400, 1970);
    lemma_months_make_year(y);
    lemma_month_and_day_valid(day_of_year, y, 1);
}

} // verus!

verus! {

/// Leap years among years 1 to `n`, counted by the Gregorian rule: every
/// fourth year, except centuries, except every fourth century.
pub open spec fn leap_years_through(n: nat) -> int {
    (n / 4) as int - (n / 100) as int + (n / 400) as int
}

/// Days from 1970-01-01 to 1 January of year `y` (`y >= 1970`): 365 a year
/// plus one for each leap year in between.
pub open spec fn days_before_year(y: nat) -> int {
    365 * (y - 1970) + leap_years_through((y - 1) as nat) - leap_years_through(1969)
}

/// Days from 1 January to the first of month `m` (1 to 12; 13 stands for the
/// next 1 January) in year `y`, by the month table 31, 28/29, 31, 30, 31, 30,
/// 31, 31, 30, 31, 30, 31.
pub open spec fn days_before_month(y: nat, m: nat) -> nat {
    let leap: nat = if y % 4 == 0 && (y % 100 != 0 || y % 400 == 0) { 1 } else { 0 };
    if m <= 1 { 0 }
    else if m == 2 { 31 }
    else if m == 3 { 59 + leap }
    else if m == 4 { 90 + leap }
    else if m == 5 { 120 + leap }
    else if m == 6 { 151 + leap }
    else if m == 7 { 181 + leap }
    else if m == 8 { 212 + leap }
    else if m == 9 { 243 + leap }
    else if m == 10 { 273 + leap }
    else if m == 11 { 304 + leap }
    else if m == 12 { 334 + leap }
    else { 365 + leap }
}

proof fn lemma_div_step(n: nat, d: nat)
    requires
        n >= 1,
        d > 0,
    ensures
        (n / d) as int - ((n - 1) as nat / d) as int == (if n % d == 0 { 1int } else { 0int }),
{
    let q = (n / d) as int;
    let r = (n % d) as int;
    vstd::arithmetic::div_mod::lemma_fundamental_div_mod(n as int, d as int);
    vstd::arithmetic::div_mod::lemma_mod_bound(n as int, d as int);
    if r > 0 {
        vstd::arithmetic::div_mod::lemma_fundamental_div_mod_converse(
            n - 1,
            d as int,
            q,
            r - 1,
        );
    } else {
        assert(n as int == q * d);
        assert(q >= 1) by (nonlinear_arith)
            requires
                n as int == q * d,
                n >= 1,
                d > 0,
                q >= 0,
        ;
        assert(n - 1 == (q - 1) * d + (d - 1)) by (nonlinear_arith)
            requires
                n as int == q * d,
        ;
        vstd::arithmetic::div_mod::lemma_fundamental_div_mod_converse(
            n - 1,
            d as int,
            q - 1,
            d - 1,
        );
    }
}

proof fn lemma_leap_step(y: nat)
    requires
        y >= 1,
    ensures
        leap_years_through(y) - leap_years_through((y - 1) as nat) == (if is_leap_year(y) { 1int } else { 0int }),
{
    lemma_div_step(y, 4);
    lemma_div_step(y, 100);
    lemma_div_step(y, 400);
    vstd::arithmetic::div_mod::lemma_fundamental_div_mod(y as int, 100);
    vstd::arithmetic::div_mod::lemma_fundamental_div_mod(y as int, 400);
    vstd::arithmetic::div_mod::lemma_fundamental_div_mod(y as int, 4);
    vstd::arithmetic::div_mod::lemma_mod_bound(y as int, 4);
    vstd::arithmetic::div_mod::lemma_mod_bound(y as int, 100);
    vstd::arithmetic::div_mod::lemma_mod_bound(y as int, 400);
    if y % 100 == 0 {
        // a multiple of 100 is a multiple of 4
        let q = y / 100;
        assert(y == 4 * (25 * q)) by (nonlinear_arith) requires y == 100 * q;
        vstd::arithmetic::div_mod::lemma_fundamental_div_mod_converse(y as int, 4, (25 * q) as int, 0);
    }
    if y % 400 == 0 {
        let q = y / 400;
        assert(y == 100 * (4 * q)) by (nonlinear_arith) requires y == 400 * q;
        vstd::arithmetic::div_mod::lemma_fundamental_div_mod_converse(y as int, 100, (4 * q) as int, 0);
    }
}

proof fn lemma_year_step(y: nat)
    requires
        y >= 1970,
    ensures
        days_before_year(y + 1) == days_before_year(y) + days_in_year(y),
{
    lemma_leap_step(y);
}

proof fn lemma_year_and_day_counts(days: nat, y: nat)
    requires
        y >= 1970,
    ensures
        year_and_day(days, y).0 >= y,
        days_before_year(y) + days == days_before_year(year_and_day(days, y).0) + year_and_day(days, y).1,
        year_and_day(days, y).1 < days_in_year(year_and_day(days, y).0),
    decreases days,
{
    if days >= days_in_year(y) {
        lemma_year_step(y);
        lemma_year_and_day_counts((days - days_in_year(y)) as nat, y + 1);
    }
}

proof fn lemma_month_and_day_counts(day: nat, y: nat, m: nat)
    requires
        1 <= m <= 12,
        days_before_month(y, m) + day < days_before_month(y, 13),
    ensures
        1 <= month_and_day(day, y, m).0 <= 12,
        days_before_month(y, m) + day == days_before_month(y, month_and_day(day, y, m).0)
            + month_and_day(day, y, m).1,
        days_before_month(y, month_and_day(day, y, m).0) + month_and_day(day, y, m).1
            < days_before_month(y, month_and_day(day, y, m).0 + 1),
    decreases 12 - m,
{
    assert(days_before_month(y, m + 1) == days_before_month(y, m) + days_in_month(y, m));
    if m < 12 && day >= days_in_month(y, m) {
        lemma_month_and_day_counts((day - days_in_month(y, m)) as nat, y, m + 1);
    }
}

/// The calendar fields name the Gregorian date and time of the instant: the
/// whole seconds since the epoch equal the days before that date (365 a year,
/// leap days by the Gregorian rule, months by the standard table) times 86400
/// plus the time of day, and every field is in range (the day lies within its
/// month by the same table).
pub proof fn lemma_utc_fields_are_gregorian(unix_ms: nat)
    ensures
        ({
            let (y, mo, d, h, mi, s) = spec_utc_fields(unix_ms);
            &&& y >= 1970
            &&& 1 <= mo <= 12
            &&& 1 <= d
            &&& days_before_month(y, mo) + d <= days_before_month(y, mo + 1)
            &&& h < 24 && mi < 60 && s < 60
            &&& unix_ms / 1000 == (days_before_year(y) + days_before_month(y, mo) + d - 1) * 86400
                + h * 3600 + mi * 60 + s
        }),
{
    let secs = unix_ms / 1000;
    let days = secs / 86400;
    let (y, day_of_year) = year_and_day(days, 1970);
    lemma_year_and_day_counts(days, 1970);
    assert(days_before_year(1970) == 0);
    assert(days_in_year(y) == days_before_month(y, 13));
    lemma_month_and_day_counts(day_of_year, y, 1);
    let sod = secs % 86400;
    vstd::arithmetic::div_mod::lemma_fundamental_div_mod(secs as int, 86400);
    vstd::arithmetic::div_mod::lemma_mod_bound(secs as int, 86400);
    vstd::arithmetic::div_mod::lemma_fundamental_div_mod(sod as int, 3600);
    vstd::arithmetic::div_mod::lemma_mod_bound(sod as int, 3600);
    vstd::arithmetic::div_mod::lemma_fundamental_div_mod((sod % 3600) as int, 60);
    vstd::arithmetic::div_mod::lemma_mod_bound((sod % 3600) as int, 60);
    vstd::arithmetic::div_mod::lemma_mod_mod(sod as int, 3600, 60);
}

} // verus!

verus! {

proof fn lemma_leaps_monotone(a: nat, b: nat)
    requires
        a <= b,
    ensures
        leap_years_through(a) <= leap_years_through(b),
    decreases b - a,
{
    if a < b {
        lemma_leap_step(b);
        lemma_leaps_monotone(a, (b - 1) as nat);
    }
}

/// Instants before [`RFC3339_END_UNIX_MS`] fall in years before 10000.
pub proof fn lemma_year_below_ten_thousand(unix_ms: nat)
    requires
        unix_ms < RFC3339_END_UNIX_MS,
    ensures
        spec_utc_fields(unix_ms).0 < 10000,
{
    lemma_utc_fields_are_gregorian(unix_ms);
    let y = spec_utc_fields(unix_ms).0;
    if y >= 10000 {
        lemma_leaps_monotone(9999, (y - 1) as nat);
        vstd::arithmetic::div_mod::lemma_fundamental_div_mod_converse(9999, 4, 2499, 3);
        vstd::arithmetic::div_mod::lemma_fundamental_div_mod_converse(9999, 100, 99, 99);
        vstd::arithmetic::div_mod::lemma_fundamental_div_mod_converse(9999, 400, 24, 399);
        vstd::arithmetic::div_mod::lemma_fundamental_div_mod_converse(1969, 4, 492, 1);
        vstd::arithmetic::div_mod::lemma_fundamental_div_mod_converse(1969, 100, 19, 69);
        vstd::arithmetic::div_mod::lemma_fundamental_div_mod_converse(1969, 400, 4, 369);
        assert(days_before_year(y) >= 2932897);
        assert(unix_ms / 1000 < 253402300800);
    }
}

/// The timestamp text reads back as the instant's calendar fields: four digits
/// of year, `-`, two of month, `-`, two of day, `T`, two each of hour, minute
/// and second separated by `:`, then `Z`.
pub proof fn lemma_rfc3339_reads_back(unix_ms: nat)
    requires
        unix_ms < RFC3339_END_UNIX_MS,
    ensures
        ({
            let t = spec_rfc3339_utc(unix_ms);
            let (y, mo, d, h, mi, s) = spec_utc_fields(unix_ms);
            &&& t.len() == 20
            &&& digits_value(t.subrange(0, 4), 10) == y
            &&& t[4] == '-'
            &&& digits_value(t.subrange(5, 7), 10) == mo
            &&& t[7] == '-'
            &&& digits_value(t.subrange(8, 10), 10) == d
            &&& t[10] == 'T'
            &&& digits_value(t.subrange(11, 13), 10) == h
            &&& t[13] == ':'
            &&& digits_value(t.subrange(14, 16), 10) == mi
            &&& t[16] == ':'
            &&& digits_value(t.subrange(17, 19), 10) == s
            &&& t[19] == 'Z'
        }),
{
    let (y, mo, d, h, mi, s) = spec_utc_fields(unix_ms);
    lemma_utc_fields_are_gregorian(unix_ms);
    lemma_year_below_ten_thousand(unix_ms);
    assert(days_before_month(y, mo + 1) - days_before_month(y, mo) <= 31);
    assert(pow10(4) == 10000) by {
        assert(pow10(0) == 1);
        assert(pow10(1) == 10);
        assert(pow10(2) == 100);
        assert(pow10(3) == 1000);
    }
    assert(pow10(2) == 100) by {
        assert(pow10(0) == 1);
        assert(pow10(1) == 10);
    }
    lemma_zero_padded_exact(y, 4);
    lemma_zero_padded_exact(mo, 2);
    lemma_zero_padded_exact(d, 2);
    lemma_zero_padded_exact(h, 2);
    lemma_zero_padded_exact(mi, 2);
    lemma_zero_padded_exact(s, 2);
    reveal_strlit("-");
    reveal_strlit("T");
    reveal_strlit(":");
    reveal_strlit("Z");
    let py = spec_zero_padded(y, 4);
    let pmo = spec_zero_padded(mo, 2);
    let pd = spec_zero_padded(d, 2);
    let ph = spec_zero_padded(h, 2);
    let pmi = spec_zero_padded(mi, 2);
    let ps = spec_zero_padded(s, 2);
    let t = spec_rfc3339_utc(unix_ms);
    assert(t == py + "-"@ + pmo + "-"@ + pd + "T"@ + ph + ":"@ + pmi + ":"@ + ps + "Z"@);
    assert(t.subrange(0, 4) =~= py);
    assert(t.subrange(5, 7) =~= pmo);
    assert(t.subrange(8, 10) =~= pd);
    assert(t.subrange(11, 13) =~= ph);
    assert(t.subrange(14, 16) =~= pmi);
    assert(t.subrange(17, 19) =~= ps);
}

} // verus!
