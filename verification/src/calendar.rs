//! Dates of the Gregorian calendar, from 1970 on.

use vstd::prelude::*;
use vstd::string::*;

use crate::text::{dec_padded, decimal_padded};

verus! {

/// Whether a year has a day more.
pub open spec fn is_leap(y: int) -> bool {
    y % 4 == 0 && (y % 100 != 0 || y % 400 == 0)
}

/// How many days a year has.
pub open spec fn days_in_year(y: int) -> int {
    if is_leap(y) {
        366
    } else {
        365
    }
}

/// How many days a month has.
pub open spec fn days_in_month(y: int, m: int) -> int {
    if m == 2 {
        if is_leap(y) {
            29
        } else {
            28
        }
    } else if m == 4 || m == 6 || m == 9 || m == 11 {
        30
    } else {
        31
    }
}

/// How many days pass from the start of 1970 to that of a year.
pub open spec fn days_to_year(y: int) -> int
    decreases y - 1970,
{
    if y <= 1970 {
        0
    } else {
        days_to_year(y - 1) + days_in_year(y - 1)
    }
}

/// How many days pass from the start of a year to that of a month.
pub open spec fn days_to_month(y: int, m: int) -> int
    decreases m,
{
    if m <= 1 {
        0
    } else {
        days_to_month(y, m - 1) + days_in_month(y, m - 1)
    }
}

/// A day of the calendar.
pub struct Date {
    pub year: int,
    pub month: int,
    pub day: int,
}

impl Date {
    /// Whether there is such a day, from 1970 on.
    pub open spec fn valid(self) -> bool {
        &&& 1970 <= self.year
        &&& 1 <= self.month <= 12
        &&& 1 <= self.day <= days_in_month(self.year, self.month)
    }

    /// How many days pass from the first of January 1970 to this one.
    pub open spec fn number(self) -> int {
        days_to_year(self.year) + days_to_month(self.year, self.month) + self.day - 1
    }
}

/// How many days pass from the first of March of the year 0 to that of a year.
spec fn to_march(y: int) -> int {
    365 * y + y / 4 - y / 100 + y / 400
}

proof fn lemma_march_to_march(y: int)
    requires
        y >= 0,
    ensures
        to_march(y + 1) == to_march(y) + days_in_year(y + 1),
{
    let x = y + 1;
    assert(x / 4 == y / 4 + (if x % 4 == 0 { 1int } else { 0 }));
    assert(x / 100 == y / 100 + (if x % 100 == 0 { 1int } else { 0 }));
    assert(x / 400 == y / 400 + (if x % 400 == 0 { 1int } else { 0 }));
    assert(x % 100 == 0 ==> x % 4 == 0);
    assert(x % 400 == 0 ==> x % 100 == 0);
}

proof fn lemma_to_year(y: int)
    requires
        y >= 1970,
    ensures
        days_to_year(y) == to_march(y - 1) + 306 - 719468,
    decreases y,
{
    if y > 1970 {
        lemma_to_year(y - 1);
        lemma_march_to_march(y - 2);
    } else {
        assert(to_march(1969) == 719162);
    }
}

proof fn lemma_months(y: int)
    ensures
        days_to_month(y, 1) == 0,
        days_to_month(y, 2) == 31,
        days_to_month(y, 3) == days_in_year(y) - 306,
        days_to_month(y, 4) == days_in_year(y) - 275,
        days_to_month(y, 5) == days_in_year(y) - 245,
        days_to_month(y, 6) == days_in_year(y) - 214,
        days_to_month(y, 7) == days_in_year(y) - 184,
        days_to_month(y, 8) == days_in_year(y) - 153,
        days_to_month(y, 9) == days_in_year(y) - 122,
        days_to_month(y, 10) == days_in_year(y) - 92,
        days_to_month(y, 11) == days_in_year(y) - 61,
        days_to_month(y, 12) == days_in_year(y) - 31,
{
    reveal_with_fuel(days_to_month, 13);
}

/// The year, counted from March on, that a day of a cycle of 400 years lies in.
proof fn lemma_year_of_era(doe: int, yoe: int)
    requires
        0 <= doe < 146097,
        yoe == (doe - doe / 1460 + doe / 36524 - doe / 146096) / 365,
    ensures
        0 <= yoe <= 399,
        365 * yoe + yoe / 4 - yoe / 100 <= doe,
        doe < 365 * (yoe + 1) + (yoe + 1) / 4 - (yoe + 1) / 100 + (yoe + 1) / 400,
{
    let a = doe / 1460;
    let b = doe / 36524;
    let c = doe / 146096;
    let t = doe - a + b - c;
    assert(1460 * a <= doe < 1460 * a + 1460);
    assert(36524 * b <= doe < 36524 * b + 36524);
    assert(0 <= b <= 4);
    assert(c == 0 || c == 1);
    assert(b == 4 <==> c == 1);
    assert(365 * yoe <= t < 365 * yoe + 365);
    let q = yoe / 4;
    let h = yoe / 100;
    assert(4 * q <= yoe < 4 * q + 4);
    assert(100 * h <= yoe < 100 * h + 100);
    assert(0 <= h <= 4);
    let q1 = (yoe + 1) / 4;
    let h1 = (yoe + 1) / 100;
    assert(4 * q1 <= yoe + 1 < 4 * q1 + 4);
    assert(100 * h1 <= yoe + 1 < 100 * h1 + 100);
}

proof fn lemma_months_of_march_year(doy: int, mp: int)
    requires
        0 <= doy <= 365,
        mp == (5 * doy + 2) / 153,
    ensures
        0 <= mp <= 11,
        (153 * mp + 2) / 5 <= doy,
        mp < 11 ==> doy < (153 * (mp + 1) + 2) / 5,
{
    assert(153 * mp <= 5 * doy + 2 < 153 * mp + 153);
}

proof fn lemma_date_in_march_year(y0: int, doy: int, mp: int, d: int, m: int, y: int)
    requires
        y0 >= 1969,
        0 <= doy < days_in_year(y0 + 1),
        y0 == 1969 ==> doy >= 306,
        mp == (5 * doy + 2) / 153,
        d == doy - (153 * mp + 2) / 5 + 1,
        m == (if mp < 10 {
            mp + 3
        } else {
            mp - 9
        }),
        y == (if m <= 2 {
            y0 + 1
        } else {
            y0
        }),
    ensures
        (Date { year: y, month: m, day: d }).valid(),
        (Date { year: y, month: m, day: d }).number() == to_march(y0) + doy - 719468,
{
    lemma_months_of_march_year(doy, mp);
    lemma_months(y);
    lemma_march_to_march(y0);
    if m <= 2 {
        lemma_to_year(y0 + 1);
    } else {
        assert(y0 >= 1970);
        lemma_to_year(y0);
        lemma_march_to_march(y0 - 1);
    }
}

/// A moment, written as a date and a time of day.
pub open spec fn moment_text(date: Date, second_of_day: int) -> Seq<char> {
    dec_padded(date.year as nat, 4) + "-"@ + dec_padded(date.month as nat, 2) + "-"@ + dec_padded(
        date.day as nat,
        2,
    ) + " "@ + dec_padded((second_of_day / 3600) as nat, 2) + ":"@ + dec_padded(
        (second_of_day % 3600 / 60) as nat,
        2,
    ) + ":"@ + dec_padded((second_of_day % 60) as nat, 2) + " UTC"@
}

/// The year, the month and the day that so many days after the first of January
/// 1970 is.
pub fn date_of(days: u64) -> (r: (u64, u64, u64))
    requires
        days <= 0x1_0000_0000_0000,
    ensures
        (Date { year: r.0 as int, month: r.1 as int, day: r.2 as int }).valid(),
        (Date { year: r.0 as int, month: r.1 as int, day: r.2 as int }).number() == days,
{
    let z: u64 = days + 719468;
    let era: u64 = z / 146097;
    let doe: u64 = z % 146097;
    let yoe: u64 = (doe - doe / 1460 + doe / 36524 - doe / 146096) / 365;
    proof {
        lemma_year_of_era(doe as int, yoe as int);
    }
    let y0: u64 = yoe + era * 400;
    let doy: u64 = doe - (365 * yoe + yoe / 4 - yoe / 100);
    let mp: u64 = (5 * doy + 2) / 153;
    proof {
        assert(y0 / 4 == yoe / 4 + era * 100);
        assert(y0 / 100 == yoe / 100 + era * 4);
        assert(y0 / 400 == era + yoe / 400);
        assert(to_march(y0 as int) + doy == z);
        lemma_march_to_march(y0 as int);
        assert((y0 + 1) / 4 == (yoe + 1) / 4 + era * 100);
        assert((y0 + 1) / 100 == (yoe + 1) / 100 + era * 4);
        assert((y0 + 1) / 400 == era + (yoe + 1) / 400);
        assert(doy < days_in_year(y0 + 1));
        lemma_months_of_march_year(doy as int, mp as int);
        assert(to_march(1969) == 719162);
        if y0 < 1969 {
            lemma_march_grows(y0 + 1, 1969);
        }
    }
    let d: u64 = doy - (153 * mp + 2) / 5 + 1;
    let m: u64 = if mp < 10 { mp + 3 } else { mp - 9 };
    let y: u64 = if m <= 2 { y0 + 1 } else { y0 };
    proof {
        lemma_date_in_march_year(y0 as int, doy as int, mp as int, d as int, m as int, y as int);
    }
    (y, m, d)
}

proof fn lemma_march_grows(a: int, b: int)
    requires
        0 <= a <= b,
    ensures
        to_march(a) <= to_march(b),
    decreases b - a,
{
    if a < b {
        lemma_march_to_march(a);
        lemma_march_grows(a + 1, b);
    }
}

/// The day with a number.
pub open spec fn day_with(number: int) -> Date {
    choose|date: Date| date.valid() && #[trigger] date.number() == number
}

/// A moment, given by the seconds from the start of 1970, written as a date and
/// a time of day.
pub open spec fn epoch_text(epoch: u64) -> Seq<char> {
    moment_text(day_with((epoch / 86400) as int), (epoch % 86400) as int)
}

/// A moment, given by the seconds from the start of 1970, written as a date and
/// a time of day.
pub fn format_epoch(epoch: u64) -> (r: String)
    ensures
        r@ == epoch_text(epoch),
        day_with((epoch / 86400) as int).valid(),
        day_with((epoch / 86400) as int).number() == epoch / 86400,
{
    let second: u64 = epoch % 86400;
    let (y, m, d) = date_of(epoch / 86400);
    let ghost date = Date { year: y as int, month: m as int, day: d as int };
    proof {
        assert(date.valid() && date.number() == epoch / 86400);
        law_one_day_per_number(date, day_with((epoch / 86400) as int));
    }
    let year = decimal_padded(y, 4);
    let month = decimal_padded(m, 2);
    let day = decimal_padded(d, 2);
    let hour = decimal_padded(second / 3600, 2);
    let min = decimal_padded(second % 3600 / 60, 2);
    let sec = decimal_padded(second % 60, 2);
    year.concat("-").concat(month.as_str()).concat("-").concat(day.as_str()).concat(" ").concat(
        hour.as_str(),
    ).concat(":").concat(min.as_str()).concat(":").concat(sec.as_str()).concat(" UTC")
}

proof fn lemma_in_year(date: Date)
    requires
        date.valid(),
    ensures
        0 <= days_to_month(date.year, date.month) + date.day - 1 < days_in_year(date.year),
{
    lemma_months(date.year);
}

proof fn lemma_years_grow(a: int, b: int)
    requires
        1970 <= a < b,
    ensures
        days_to_year(a) + days_in_year(a) <= days_to_year(b),
    decreases b,
{
    if a < b - 1 {
        lemma_years_grow(a, b - 1);
    }
}

proof fn lemma_months_grow(y: int, a: int, b: int)
    requires
        1 <= a < b <= 12,
    ensures
        days_to_month(y, a) + days_in_month(y, a) <= days_to_month(y, b),
    decreases b,
{
    if a < b - 1 {
        lemma_months_grow(y, a, b - 1);
    }
}

/// A later day has a higher number, so a number belongs to one day alone.
pub proof fn law_one_day_per_number(a: Date, b: Date)
    requires
        a.valid(),
        b.valid(),
        a.number() == b.number(),
    ensures
        a == b,
{
    lemma_in_year(a);
    lemma_in_year(b);
    if a.year < b.year {
        lemma_years_grow(a.year, b.year);
    }
    if b.year < a.year {
        lemma_years_grow(b.year, a.year);
    }
    if a.month < b.month {
        lemma_months_grow(a.year, a.month, b.month);
    }
    if b.month < a.month {
        lemma_months_grow(a.year, b.month, a.month);
    }
}

} // verus!
