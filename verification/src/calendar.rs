//! The proleptic Gregorian calendar, counted in days from 1970-01-01.

use vstd::arithmetic::div_mod::{
    lemma_fundamental_div_mod, lemma_fundamental_div_mod_converse, lemma_mod_mod,
};
use vstd::prelude::*;

verus! {

/// Whether year `y` has a 29th of February.
pub open spec fn is_leap(y: int) -> bool {
    y % 4 == 0 && (y % 100 != 0 || y % 400 == 0)
}

/// How many days year `y` has.
pub open spec fn days_in_year(y: int) -> int {
    if is_leap(y) { 366 } else { 365 }
}

/// How many days month `m` (1 to 12) of year `y` has.
pub open spec fn days_in_month(y: int, m: int) -> int {
    if m == 2 {
        if is_leap(y) { 29 } else { 28 }
    } else if m == 4 || m == 6 || m == 9 || m == 11 {
        30
    } else {
        31
    }
}

/// Whether `y`-`m`-`d` is a day of the calendar.
pub open spec fn is_date(y: int, m: int, d: int) -> bool {
    1 <= m <= 12 && 1 <= d <= days_in_month(y, m)
}

/// The number of the first day of year `y`: the years between `y` and 1970,
/// each counted with its own length.
pub open spec fn days_before_year(y: int) -> int
    decreases (if y >= 1970 { y - 1970 } else { 1970 - y }),
{
    if y == 1970 {
        0
    } else if y > 1970 {
        days_before_year(y - 1) + days_in_year(y - 1)
    } else {
        days_before_year(y + 1) - days_in_year(y)
    }
}

/// How many days of year `y` lie before the first of month `m`.
pub open spec fn days_before_month(y: int, m: int) -> int
    decreases m,
{
    if m <= 1 {
        0
    } else {
        days_before_month(y, m - 1) + days_in_month(y, m - 1)
    }
}

/// The number of the day `y`-`m`-`d`, counted from 1970-01-01, which is day 0.
pub open spec fn day_number(y: int, m: int, d: int) -> int {
    days_before_year(y) + days_before_month(y, m) + (d - 1)
}

/// The leap years before year `y`, counted from year 1.
spec fn leap_years_before(y: int) -> int {
    (y - 1) / 4 - (y - 1) / 100 + (y - 1) / 400
}

/// The day on which the `k`th year of a 400-year cycle begins, where years
/// begin on the first of March.
spec fn cycle_year_start(k: int) -> int {
    365 * k + k / 4 - k / 100 + k / 400
}

/// Counting up to a multiple of `n` is where division by `n` steps.
proof fn lemma_quotient_step(y: int, n: int)
    requires
        n > 0,
    ensures
        y / n - (y - 1) / n == (if y % n == 0 { 1int } else { 0 }),
{
    let q = y / n;
    let r = y % n;
    lemma_fundamental_div_mod(y, n);
    if r == 0 {
        assert(y - 1 == (q - 1) * n + (n - 1)) by (nonlinear_arith)
            requires
                y == n * q + r,
                r == 0,
        ;
        lemma_fundamental_div_mod_converse(y - 1, n, q - 1, n - 1);
    } else {
        assert(y - 1 == q * n + (r - 1)) by (nonlinear_arith)
            requires
                y == n * q + r,
        ;
        lemma_fundamental_div_mod_converse(y - 1, n, q, r - 1);
    }
}

proof fn lemma_leap_years_step(y: int)
    ensures
        leap_years_before(y + 1) == leap_years_before(y) + (if is_leap(y) { 1int } else { 0 }),
{
    lemma_quotient_step(y, 4);
    lemma_quotient_step(y, 100);
    lemma_quotient_step(y, 400);
    lemma_mod_mod(y, 4, 25);
    lemma_mod_mod(y, 100, 4);
}

proof fn lemma_days_before_year(y: int)
    ensures
        days_before_year(y) == 365 * (y - 1970) + leap_years_before(y) - 477,
    decreases (if y >= 1970 { y - 1970 } else { 1970 - y }),
{
    if y > 1970 {
        lemma_days_before_year(y - 1);
        lemma_leap_years_step(y - 1);
    } else if y < 1970 {
        lemma_days_before_year(y + 1);
        lemma_leap_years_step(y);
    }
}

proof fn lemma_days_before_month(y: int, m: int)
    requires
        1 <= m <= 12,
    ensures
        days_before_month(y, m) == (if m <= 2 {
            31 * (m - 1)
        } else {
            (153 * (m - 3) + 2) / 5 + 59 + (if is_leap(y) { 1int } else { 0 })
        }),
{
    reveal_with_fuel(days_before_month, 13);
}

/// The first of March of the `k`th year of a 400-year cycle, in closed form.
proof fn lemma_march_first(cycle: int, k: int)
    requires
        0 <= k <= 399,
    ensures
        day_number(k + cycle * 400, 3, 1) == cycle * 146_097 + cycle_year_start(k) - 719_468,
{
    let y = k + cycle * 400;
    lemma_days_before_year(y);
    lemma_leap_years_step(y);
    lemma_days_before_month(y, 3);
    assert(y / 4 == k / 4 + cycle * 100);
    assert(y / 100 == k / 100 + cycle * 4);
    assert(y / 400 == cycle);
}

/// Day `doy` of the year that begins on the first of March of `y` lies in the
/// `mp`th month of it.
proof fn lemma_march_year(y: int, mp: int, doy: int)
    requires
        0 <= doy <= 365,
        mp == (5 * doy + 2) / 153,
    ensures
        0 <= mp <= 11,
        ({
            let d = doy - (153 * mp + 2) / 5 + 1;
            if mp < 10 {
                day_number(y, mp + 3, d) == day_number(y, 3, 1) + doy
            } else {
                day_number(y + 1, mp - 9, d) == day_number(y, 3, 1) + doy
            }
        }),
{
    lemma_days_before_month(y, 3);
    if mp < 10 {
        lemma_days_before_month(y, mp + 3);
    } else {
        lemma_days_before_month(y + 1, mp - 9);
        lemma_days_before_year(y);
        lemma_days_before_year(y + 1);
        lemma_leap_years_step(y);
    }
}

/// Which year of the 400-year cycle day `doe` of the cycle lies in, for a
/// cycle day in its `b`th stretch of 36524 days.
proof fn lemma_year_of_cycle_in_stretch(doe: int, a: int, b: int, e: int, k: int, p: int, q: int)
    requires
        0 <= doe <= 146_096,
        1460 * a <= doe < 1460 * a + 1460,
        36524 * b <= doe < 36524 * b + 36524,
        e == (if doe == 146_096 { 1int } else { 0 }),
        365 * k <= doe - a + b - e < 365 * k + 365,
        4 * p <= k < 4 * p + 4,
        100 * q <= k < 100 * q + 100,
    ensures
        0 <= k <= 399,
        365 * k + p - q <= doe,
        doe < 365 * k + 365 + p - q || (k == 4 * p + 3 && (k != 100 * q + 99 || k == 399) && doe
            == 365 * k + 365 + p - q),
{
    if b == 0 {
    } else if b == 1 {
    } else if b == 2 {
    } else if b == 3 {
    } else {
        assert(b == 4);
    }
}

/// Which year of the 400-year cycle day `doe` of the cycle lies in.
proof fn lemma_year_of_cycle(doe: int, yoe: int)
    requires
        0 <= doe <= 146_096,
        yoe == (doe - doe / 1460 + doe / 36524 - doe / 146_096) / 365,
    ensures
        0 <= yoe <= 399,
        cycle_year_start(yoe) <= doe < cycle_year_start(yoe + 1),
{
    lemma_year_of_cycle_in_stretch(
        doe,
        doe / 1460,
        doe / 36524,
        doe / 146_096,
        yoe,
        yoe / 4,
        yoe / 100,
    );
    lemma_quotient_step(yoe + 1, 4);
    lemma_quotient_step(yoe + 1, 100);
    lemma_quotient_step(yoe + 1, 400);
}

/// The whole conversion, for day `doe` of the cycle `era`, which lies in year
/// `yoe` of the cycle.
#[verifier::spinoff_prover]
#[verifier::rlimit(60)]
proof fn lemma_civil(z: int, era: int, doe: int, yoe: int)
    requires
        z + 719_468 == era * 146_097 + doe,
        0 <= doe <= 146_096,
        yoe == (doe - doe / 1460 + doe / 36524 - doe / 146_096) / 365,
    ensures
        0 <= yoe <= 399,
        ({
            let doy = doe - (365 * yoe + yoe / 4 - yoe / 100);
            let mp = (5 * doy + 2) / 153;
            let d = doy - (153 * mp + 2) / 5 + 1;
            let m = if mp < 10 { mp + 3 } else { mp - 9 };
            let y = yoe + era * 400 + (if m <= 2 { 1int } else { 0 });
            &&& 0 <= doy <= 365
            &&& 0 <= mp <= 11
            &&& is_date(y, m, d)
            &&& day_number(y, m, d) == z
        }),
{
    lemma_year_of_cycle(doe, yoe);
    let doy = doe - (365 * yoe + yoe / 4 - yoe / 100);
    let mp = (5 * doy + 2) / 153;
    let y = yoe + era * 400;
    assert(0 <= doy <= 365);
    assert(doy == 365 ==> is_leap(y + 1));
    lemma_march_first(era, yoe);
    lemma_march_year(y, mp, doy);
}

/// Whether the date `y1`-`m1`-`d1` comes before the date `y2`-`m2`-`d2`.
pub open spec fn is_earlier(y1: int, m1: int, d1: int, y2: int, m2: int, d2: int) -> bool {
    y1 < y2 || (y1 == y2 && (m1 < m2 || (m1 == m2 && d1 < d2)))
}

proof fn lemma_later_year(y1: int, y2: int)
    requires
        y1 < y2,
    ensures
        days_before_year(y1) + days_in_year(y1) <= days_before_year(y2),
    decreases y2 - y1,
{
    assert(days_before_year(y2) == days_before_year(y2 - 1) + days_in_year(y2 - 1));
    if y1 < y2 - 1 {
        lemma_later_year(y1, y2 - 1);
    }
}

proof fn lemma_later_month(y: int, m1: int, m2: int)
    requires
        1 <= m1 < m2,
    ensures
        days_before_month(y, m1) + days_in_month(y, m1) <= days_before_month(y, m2),
    decreases m2 - m1,
{
    if m1 < m2 - 1 {
        lemma_later_month(y, m1, m2 - 1);
    }
}

/// Every month begins within its year and ends within it.
proof fn lemma_month_in_year(y: int, m: int)
    requires
        1 <= m <= 12,
    ensures
        0 <= days_before_month(y, m),
        days_before_month(y, m) + days_in_month(y, m) <= days_in_year(y),
{
    reveal_with_fuel(days_before_month, 14);
    lemma_later_month(y, m, 13);
    if m > 1 {
        lemma_later_month(y, 1, m);
    }
}

/// An earlier date has a smaller day number.
proof fn lemma_earlier_is_smaller(y1: int, m1: int, d1: int, y2: int, m2: int, d2: int)
    requires
        is_date(y1, m1, d1),
        is_date(y2, m2, d2),
        is_earlier(y1, m1, d1, y2, m2, d2),
    ensures
        day_number(y1, m1, d1) < day_number(y2, m2, d2),
{
    if y1 < y2 {
        lemma_later_year(y1, y2);
        lemma_month_in_year(y1, m1);
        lemma_month_in_year(y2, m2);
    } else if m1 < m2 {
        lemma_later_month(y1, m1, m2);
    }
}

/// Day numbers order the dates of the calendar: of two dates the earlier one
/// has the smaller number, and no two dates share one. A day number therefore
/// belongs to exactly one date.
pub proof fn law_day_numbers_order_dates(y1: int, m1: int, d1: int, y2: int, m2: int, d2: int)
    requires
        is_date(y1, m1, d1),
        is_date(y2, m2, d2),
    ensures
        is_earlier(y1, m1, d1, y2, m2, d2) <==> day_number(y1, m1, d1) < day_number(y2, m2, d2),
        (y1, m1, d1) == (y2, m2, d2) <==> day_number(y1, m1, d1) == day_number(y2, m2, d2),
{
    if is_earlier(y1, m1, d1, y2, m2, d2) {
        lemma_earlier_is_smaller(y1, m1, d1, y2, m2, d2);
    } else if is_earlier(y2, m2, d2, y1, m1, d1) {
        lemma_earlier_is_smaller(y2, m2, d2, y1, m1, d1);
    }
}

/// The date of the day with number `z`, as year, month and day.
pub open spec fn date_of(z: int) -> (int, int, int) {
    choose|date: (int, int, int)| is_date_of(z, date)
}

/// Whether `date` is the date of the day with number `z`.
pub open spec fn is_date_of(z: int, date: (int, int, int)) -> bool {
    is_date(date.0, date.1, date.2) && day_number(date.0, date.1, date.2) == z
}

/// Every day has exactly one date: `date_of` gives it, and it gives back the
/// date that a day number was made from.
pub proof fn law_every_day_has_one_date(z: int, date: (int, int, int))
    ensures
        is_date_of(z, date_of(z)),
        is_date_of(z, date) <==> date == date_of(z),
{
    let era = (z + 719_468) / 146_097;
    let doe = (z + 719_468) % 146_097;
    let yoe = (doe - doe / 1460 + doe / 36524 - doe / 146_096) / 365;
    lemma_fundamental_div_mod(z + 719_468, 146_097);
    lemma_civil(z, era, doe, yoe);
    let doy = doe - (365 * yoe + yoe / 4 - yoe / 100);
    let mp = (5 * doy + 2) / 153;
    let d = doy - (153 * mp + 2) / 5 + 1;
    let m = if mp < 10 { mp + 3 } else { mp - 9 };
    let y = yoe + era * 400 + (if m <= 2 { 1int } else { 0 });
    assert(is_date_of(z, (y, m, d)));
    let found = date_of(z);
    if is_date_of(z, date) {
        law_day_numbers_order_dates(date.0, date.1, date.2, found.0, found.1, found.2);
    }
}

/// Days since 1970-01-01 to the calendar date, as year, month and day.
pub fn civil_from_days(z: i64) -> (date: (i64, u32, u32))
    requires
        z <= i64::MAX - 719_468,
    ensures
        is_date(date.0 as int, date.1 as int, date.2 as int),
        day_number(date.0 as int, date.1 as int, date.2 as int) == z,
        (date.0 as int, date.1 as int, date.2 as int) == date_of(z as int),
{
    let z0: i64 = z + 719_468;
    let era: i64 = if z0 >= 0 { z0 } else { z0 - 146_096 } / 146_097;
    assert(era == z0 as int / 146_097);
    let doe: u64 = (z0 - era * 146_097) as u64;
    let yoe: u64 = (doe - doe / 1460 + doe / 36524 - doe / 146_096) / 365;
    proof {
        lemma_year_of_cycle(doe as int, yoe as int);
    }
    let y: i64 = yoe as i64 + era * 400;
    let doy: u64 = doe - (365 * yoe + yoe / 4 - yoe / 100);
    let mp: u64 = (5 * doy + 2) / 153;
    let d: u32 = (doy - (153 * mp + 2) / 5 + 1) as u32;
    let m: u32 = if mp < 10 { mp + 3 } else { mp - 9 } as u32;
    proof {
        lemma_civil(z as int, era as int, doe as int, yoe as int);
    }
    let date: (i64, u32, u32) = (if m <= 2 { y + 1 } else { y }, m, d);
    proof {
        law_every_day_has_one_date(z as int, (date.0 as int, date.1 as int, date.2 as int));
    }
    date
}

/// The lengths of the twelve months, in a leap year or in another.
pub open spec fn month_lengths(leap: bool) -> Seq<int> {
    seq![31int, if leap { 29 } else { 28 }, 31, 30, 31, 30, 31, 31, 30, 31, 30, 31]
}

/// The calendar is the Gregorian one. Day 0 is the first of January 1970. Each
/// day has the number after that of the day before, a year has 366 days where
/// four divides it, but not where a hundred does unless four hundred does too,
/// and 365 elsewhere, and each month has its own length.
pub proof fn law_calendar_is_gregorian(y: int, m: int, d: int)
    ensures
        is_date(y, m, d) ==> 1 <= m <= 12,
        1 <= m <= 12 ==> {
            let leap = y % 400 == 0 || (y % 4 == 0 && y % 100 != 0);
            let length = month_lengths(leap)[m - 1];
            &&& day_number(1970, 1, 1) == 0
            &&& day_number(y, m, d + 1) == day_number(y, m, d) + 1
            &&& day_number(y + 1, 1, 1) == day_number(y, 1, 1) + (if leap { 366int } else { 365 })
            &&& m < 12 ==> day_number(y, m + 1, 1) == day_number(y, m, 1) + length
            &&& m == 12 ==> day_number(y + 1, 1, 1) == day_number(y, m, 1) + length
            &&& is_date(y, m, d) <==> 1 <= d <= length
        },
{
    lemma_mod_mod(y, 4, 25);
    lemma_mod_mod(y, 100, 4);
    reveal_with_fuel(days_before_month, 13);
    reveal_with_fuel(days_before_year, 2);
}

}
