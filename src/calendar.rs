//! Calendar date and time (proleptic Gregorian, no time zone) of a Unix time.
use chrono::{Datelike, Timelike};
use vstd::arithmetic::div_mod::{
    lemma_fundamental_div_mod, lemma_fundamental_div_mod_converse, lemma_mod_bound,
};
use vstd::prelude::*;

verus! {

/// A date and a time of day, to the second, with no time zone.
#[derive(Clone, Copy, Debug, PartialEq, Eq, Structural)]
pub struct DateTime {
    /// Gregorian year.
    pub year: i32,
    /// 1 to 12.
    pub month: u32,
    /// 1 to the length of the month.
    pub day: u32,
    /// 0 to 23.
    pub hour: u32,
    /// 0 to 59.
    pub minute: u32,
    /// 0 to 59.
    pub second: u32,
}

/// Whether `y` is a leap year of the Gregorian calendar.
pub open spec fn is_leap_year(y: int) -> bool {
    (y % 4 == 0 && y % 100 != 0) || y % 400 == 0
}

/// Number of days in month `m` of year `y`.
pub open spec fn days_in_month(y: int, m: int) -> int {
    if m == 2 {
        if is_leap_year(y) {
            29
        } else {
            28
        }
    } else if m == 4 || m == 6 || m == 9 || m == 11 {
        30
    } else {
        31
    }
}

/// Days from 1970-01-01 to the date `y-m-d` (negative before it). Years are
/// counted from March so that the leap day falls at the end of a year; an
/// era is the 400-year cycle of 146097 days.
pub open spec fn days_from_civil(y: int, m: int, d: int) -> int {
    let y1 = if m <= 2 { y - 1 } else { y };
    let era = y1 / 400;
    let yoe = y1 - era * 400;
    let mp = if m > 2 { m - 3 } else { m + 9 };
    let doy = (153 * mp + 2) / 5 + d - 1;
    let doe = yoe * 365 + yoe / 4 - yoe / 100 + doy;
    era * 146097 + doe - 719468
}

/// The character of the decimal digit `d`, for `0 <= d < 10`.
pub open spec fn digit_char(d: int) -> char {
    seq!['0', '1', '2', '3', '4', '5', '6', '7', '8', '9'][d]
}

/// `n` in two decimal digits, for `0 <= n < 100`.
pub open spec fn two_digits(n: int) -> Seq<char> {
    seq![digit_char(n / 10), digit_char(n % 10)]
}

/// `n` in four decimal digits, for `0 <= n < 10000`.
pub open spec fn four_digits(n: int) -> Seq<char> {
    two_digits(n / 100) + two_digits(n % 100)
}

impl DateTime {
    /// A real date of the calendar and a time of day.
    pub open spec fn is_valid(&self) -> bool {
        &&& 1 <= self.month <= 12
        &&& 1 <= self.day <= days_in_month(self.year as int, self.month as int)
        &&& self.hour < 24
        &&& self.minute < 60
        &&& self.second < 60
    }

    /// Seconds from 1970-01-01 00:00:00 to this date and time.
    pub open spec fn unix_seconds(&self) -> int {
        days_from_civil(self.year as int, self.month as int, self.day as int) * 86400
            + self.hour * 3600 + self.minute * 60 + self.second
    }

    /// This is the valid date and time that lies `secs` seconds after the
    /// Unix epoch.
    pub open spec fn denotes(&self, secs: int) -> bool {
        self.is_valid() && self.unix_seconds() == secs
    }

    /// The text `YYYY-MM-DD HH:MM:SS`.
    pub open spec fn text(&self) -> Seq<char> {
        four_digits(self.year as int) + seq!['-'] + two_digits(self.month as int) + seq!['-']
            + two_digits(self.day as int) + seq![' '] + two_digits(self.hour as int) + seq![':']
            + two_digits(self.minute as int) + seq![':'] + two_digits(self.second as int)
    }

    /// The text `YYYY-MM-DD HH:MM:SS` of a valid date with a year of four digits.
    pub fn to_string(&self) -> (r: String)
        requires
            self.is_valid(),
            0 <= self.year <= 9999,
        ensures
            r@ == self.text(),
    {
        datetime_text(self)
    }
}

/// Relies on chrono's `DateTime::from_timestamp`, read through `naive_utc` and
/// the `Datelike` and `Timelike` getters: the proleptic Gregorian date and the
/// time of day, in UTC, of a Unix second count. It returns `None` only for a
/// date outside the years -262143 to 262142, which 2^40 seconds do not reach.
#[verifier::external_body]
pub(crate) fn civil_from_unix(secs: i64) -> (r: DateTime)
    requires
        -0x100_0000_0000 <= secs <= 0x100_0000_0000,
    ensures
        r.denotes(secs as int),
{
    let dt = chrono::DateTime::from_timestamp(secs, 0).unwrap().naive_utc();
    DateTime {
        year: dt.year(),
        month: dt.month(),
        day: dt.day(),
        hour: dt.hour(),
        minute: dt.minute(),
        second: dt.second(),
    }
}

/// Relies on chrono's `NaiveDate::from_ymd_opt`, `NaiveDate::and_hms_opt` and
/// the `Display` of `NaiveDateTime`: a valid date and time with no
/// nanoseconds prints as `YYYY-MM-DD HH:MM:SS`, a year of 0 to 9999 in four
/// digits, every other field in two.
#[verifier::external_body]
fn datetime_text(t: &DateTime) -> (r: String)
    requires
        t.is_valid(),
        0 <= t.year <= 9999,
    ensures
        r@ == t.text(),
{
    chrono::NaiveDate::from_ymd_opt(t.year, t.month, t.day)
        .unwrap()
        .and_hms_opt(t.hour, t.minute, t.second)
        .unwrap()
        .to_string()
}

/// Days from 0000-03-01 to the first of March of year `y`.
spec fn march_days(y: int) -> int {
    365 * y + y / 4 - y / 100 + y / 400
}

/// The year that begins on the first of March and holds month `m` of year `y`.
spec fn march_year(y: int, m: int) -> int {
    if m <= 2 {
        y - 1
    } else {
        y
    }
}

/// Months counted from March: March is 0, February is 11.
spec fn march_month(m: int) -> int {
    if m > 2 {
        m - 3
    } else {
        m + 9
    }
}

/// Day of a March-based month's first day within its year.
spec fn month_start(mp: int) -> int {
    (153 * mp + 2) / 5
}

/// Day of `m-d` within its March-based year, from 0.
spec fn march_day(m: int, d: int) -> int {
    month_start(march_month(m)) + d - 1
}

/// Length of the March-based year `y`: it holds February of year `y + 1`.
spec fn march_year_len(y: int) -> int {
    if is_leap_year(y + 1) {
        366
    } else {
        365
    }
}

proof fn lemma_div_succ(x: int, k: int)
    requires
        k > 0,
    ensures
        (x + 1) / k == x / k + (if (x + 1) % k == 0 { 1int } else { 0int }),
{
    lemma_fundamental_div_mod(x, k);
    lemma_mod_bound(x, k);
    let q = x / k;
    let r = x % k;
    assert(x == q * k + r) by (nonlinear_arith)
        requires
            x == k * q + r,
    ;
    if r == k - 1 {
        assert(x + 1 == (q + 1) * k + 0) by (nonlinear_arith)
            requires
                x == q * k + r,
                r == k - 1,
        ;
        lemma_fundamental_div_mod_converse(x + 1, k, q + 1, 0);
    } else {
        lemma_fundamental_div_mod_converse(x + 1, k, q, r + 1);
    }
}

proof fn lemma_divides_coarser(x: int, k: int, n: int)
    requires
        k > 0,
        n > 0,
        x % (k * n) == 0,
    ensures
        x % k == 0,
{
    assert(k * n > 0) by (nonlinear_arith)
        requires
            k > 0,
            n > 0,
    ;
    lemma_fundamental_div_mod(x, k * n);
    let q = x / (k * n);
    assert(x == (q * n) * k) by (nonlinear_arith)
        requires
            x == (k * n) * q + 0,
    ;
    lemma_fundamental_div_mod_converse(x, k, q * n, 0);
}

proof fn lemma_march_days_step(y: int)
    ensures
        march_days(y + 1) == march_days(y) + march_year_len(y),
{
    lemma_div_succ(y, 4);
    lemma_div_succ(y, 100);
    lemma_div_succ(y, 400);
    if (y + 1) % 400 == 0 {
        lemma_divides_coarser(y + 1, 100, 4);
        lemma_divides_coarser(y + 1, 4, 100);
    } else if (y + 1) % 100 == 0 {
        lemma_divides_coarser(y + 1, 4, 25);
    }
}

proof fn lemma_march_days_increase(y: int, z: int)
    requires
        y < z,
    ensures
        march_days(y) + march_year_len(y) <= march_days(z),
    decreases z - y,
{
    lemma_march_days_step(y);
    if y + 1 < z {
        lemma_march_days_increase(y + 1, z);
    }
}

proof fn lemma_days_from_civil_split(y: int, m: int, d: int)
    ensures
        days_from_civil(y, m, d) == march_days(march_year(y, m)) + march_day(m, d) - 719468,
{
    let y1 = march_year(y, m);
    let era = y1 / 400;
    let yoe = y1 - era * 400;
    lemma_fundamental_div_mod(y1, 400);
    assert(0 <= yoe < 400);
    lemma_fundamental_div_mod(yoe, 4);
    lemma_fundamental_div_mod(yoe, 100);
    lemma_fundamental_div_mod_converse(y1, 4, era * 100 + yoe / 4, yoe % 4);
    lemma_fundamental_div_mod_converse(y1, 100, era * 4 + yoe / 100, yoe % 100);
}

proof fn lemma_month_starts()
    ensures
        month_start(0) == 0,
        month_start(1) == 31,
        month_start(2) == 61,
        month_start(3) == 92,
        month_start(4) == 122,
        month_start(5) == 153,
        month_start(6) == 184,
        month_start(7) == 214,
        month_start(8) == 245,
        month_start(9) == 275,
        month_start(10) == 306,
        month_start(11) == 337,
{
}

/// The day of a valid date within its March-based year lies in
/// `[month_start(mp), month_start(mp + 1))`, or `[337, 337 + 29)` for February.
proof fn lemma_march_day_bounds(y: int, m: int, d: int)
    requires
        1 <= m <= 12,
        1 <= d <= days_in_month(y, m),
    ensures
        month_start(march_month(m)) <= march_day(m, d),
        march_month(m) < 11 ==> march_day(m, d) < month_start(march_month(m) + 1),
        0 <= march_day(m, d) < march_year_len(march_year(y, m)),
{
    lemma_month_starts();
    assert(month_start(12) == 367);
}

/// Two valid dates at the same day count are the same date.
proof fn lemma_days_from_civil_injective(a: DateTime, b: DateTime)
    requires
        a.is_valid(),
        b.is_valid(),
        days_from_civil(a.year as int, a.month as int, a.day as int) == days_from_civil(
            b.year as int,
            b.month as int,
            b.day as int,
        ),
    ensures
        a.year == b.year,
        a.month == b.month,
        a.day == b.day,
{
    let (ya, ma, da) = (a.year as int, a.month as int, a.day as int);
    let (yb, mb, db) = (b.year as int, b.month as int, b.day as int);
    lemma_days_from_civil_split(ya, ma, da);
    lemma_days_from_civil_split(yb, mb, db);
    lemma_march_day_bounds(ya, ma, da);
    lemma_march_day_bounds(yb, mb, db);
    let (ya1, yb1) = (march_year(ya, ma), march_year(yb, mb));
    if ya1 < yb1 {
        lemma_march_days_increase(ya1, yb1);
    } else if yb1 < ya1 {
        lemma_march_days_increase(yb1, ya1);
    }
    assert(ya1 == yb1);
    let (pa, pb) = (march_month(ma), march_month(mb));
    lemma_month_starts();
    if pa < pb {
        assert(month_start(pa + 1) <= month_start(pb));
    } else if pb < pa {
        assert(month_start(pb + 1) <= month_start(pa));
    }
    assert(pa == pb);
}

/// A count of seconds since the Unix epoch denotes at most one valid date and
/// time.
pub proof fn lemma_denotes_unique(a: DateTime, b: DateTime, secs: int)
    requires
        a.denotes(secs),
        b.denotes(secs),
    ensures
        a == b,
{
    let da = days_from_civil(a.year as int, a.month as int, a.day as int);
    let db = days_from_civil(b.year as int, b.month as int, b.day as int);
    let ta = a.hour * 3600 + a.minute * 60 + a.second;
    let tb = b.hour * 3600 + b.minute * 60 + b.second;
    lemma_fundamental_div_mod_converse(secs, 86400, da, ta);
    lemma_fundamental_div_mod_converse(secs, 86400, db, tb);
    lemma_fundamental_div_mod_converse(ta, 3600, a.hour as int, a.minute * 60 + a.second);
    lemma_fundamental_div_mod_converse(tb, 3600, b.hour as int, b.minute * 60 + b.second);
    lemma_fundamental_div_mod_converse(
        a.minute * 60 + a.second,
        60,
        a.minute as int,
        a.second as int,
    );
    lemma_fundamental_div_mod_converse(
        b.minute * 60 + b.second,
        60,
        b.minute as int,
        b.second as int,
    );
    lemma_days_from_civil_injective(a, b);
}

} // verus!
