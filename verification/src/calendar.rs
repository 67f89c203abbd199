//! The civil calendar and UTC timestamps.
//!
//! A date is counted as a number of days since 1 January 1970. The count is
//! defined from the calendar's own rules (month lengths, leap years), and the
//! conversion back from a count to a date is proved against it.
use vstd::prelude::*;
use vstd::string::*;

use crate::text::push_decimal;

verus! {

/// A date of the proleptic Gregorian calendar.
pub ghost struct CivilDate {
    pub year: int,
    pub month: int,
    pub day: int,
}

/// Whether `year` has a 29 February.
pub open spec fn is_leap(year: int) -> bool {
    year % 4 == 0 && (year % 100 != 0 || year % 400 == 0)
}

/// The number of days that `month` has in `year`.
pub open spec fn month_length(year: int, month: int) -> int {
    if month == 2 {
        if is_leap(year) {
            29
        } else {
            28
        }
    } else if month == 4 || month == 6 || month == 9 || month == 11 {
        30
    } else {
        31
    }
}

/// The number of days in `year` before the first of `month`.
pub open spec fn days_before_month(year: int, month: int) -> int
    decreases month,
{
    if month <= 1 {
        0
    } else {
        days_before_month(year, month - 1) + month_length(year, month - 1)
    }
}

/// The number of days from 1 January of year 1 to 1 January of `year`: 365 for
/// each year passed, and one more for each leap year among them.
pub open spec fn days_before_year(year: int) -> int {
    365 * (year - 1) + (year - 1) / 4 - (year - 1) / 100 + (year - 1) / 400
}

/// The number of days from 1 January of year 1 to 1 January 1970.
pub open spec fn epoch_offset() -> int {
    719162
}

impl CivilDate {
    /// Whether the calendar has this date.
    pub open spec fn valid(self) -> bool {
        1 <= self.month <= 12 && 1 <= self.day <= month_length(self.year, self.month)
    }

    /// The number of days from 1 January 1970 to this date.
    pub open spec fn day_number(self) -> int {
        days_before_year(self.year) + days_before_month(self.year, self.month) + self.day - 1
            - epoch_offset()
    }

    /// The date one day later.
    pub open spec fn next(self) -> CivilDate {
        if self.day < month_length(self.year, self.month) {
            CivilDate { day: self.day + 1, ..self }
        } else if self.month < 12 {
            CivilDate { year: self.year, month: self.month + 1, day: 1 }
        } else {
            CivilDate { year: self.year + 1, month: 1, day: 1 }
        }
    }
}

/// The date `days` days after 1 January 1970.
pub open spec fn date_of(days: int) -> CivilDate {
    choose|date: CivilDate| date.valid() && #[trigger] date.day_number() == days
}

proof fn lemma_month_table(year: int)
    ensures
        days_before_month(year, 1) == 0,
        days_before_month(year, 2) == 31,
        days_before_month(year, 3) == 31 + month_length(year, 2),
        days_before_month(year, 4) == 62 + month_length(year, 2),
        days_before_month(year, 5) == 92 + month_length(year, 2),
        days_before_month(year, 6) == 123 + month_length(year, 2),
        days_before_month(year, 7) == 153 + month_length(year, 2),
        days_before_month(year, 8) == 184 + month_length(year, 2),
        days_before_month(year, 9) == 215 + month_length(year, 2),
        days_before_month(year, 10) == 245 + month_length(year, 2),
        days_before_month(year, 11) == 276 + month_length(year, 2),
        days_before_month(year, 12) == 306 + month_length(year, 2),
{
    reveal_with_fuel(days_before_month, 13);
}

/// One where `d` divides `n`, zero where it does not.
spec fn divides(d: int, n: int) -> int {
    if n % d == 0 {
        1
    } else {
        0
    }
}

proof fn lemma_quotient_step_4(n: int)
    ensures
        n / 4 == (n - 1) / 4 + divides(4, n),
{
}

proof fn lemma_quotient_step_100(n: int)
    ensures
        n / 100 == (n - 1) / 100 + divides(100, n),
{
}

proof fn lemma_quotient_step_400(n: int)
    ensures
        n / 400 == (n - 1) / 400 + divides(400, n),
{
}

proof fn lemma_divisibility(n: int)
    ensures
        n % 400 == 0 ==> n % 100 == 0,
        n % 100 == 0 ==> n % 4 == 0,
{
}

proof fn lemma_february(year: int)
    ensures
        month_length(year, 2) == 28 + divides(4, year) - divides(100, year) + divides(400, year),
{
    lemma_divisibility(year);
}

proof fn lemma_year_length(year: int)
    ensures
        days_before_year(year + 1) - days_before_year(year) == (if is_leap(year) {
            366int
        } else {
            365
        }),
{
    lemma_february(year);
    lemma_quotient_step_4(year);
    lemma_quotient_step_100(year);
    lemma_quotient_step_400(year);
}

/// 1 January 1970 is day zero.
pub proof fn law_epoch_is_day_zero()
    ensures
        (CivilDate { year: 1970, month: 1, day: 1 }).day_number() == 0,
{
}

/// Counting goes up by one from each date to the next, and the next date of a
/// valid date is valid.
#[verifier::spinoff_prover]
pub proof fn law_next_day_counts_one(date: CivilDate)
    requires
        date.valid(),
    ensures
        date.next().valid(),
        date.next().day_number() == date.day_number() + 1,
{
    lemma_month_table(date.year);
    lemma_month_table(date.year + 1);
    lemma_year_length(date.year);
}

/// The days of a year lie between its first day and the first of the next.
proof fn lemma_within_year(date: CivilDate)
    requires
        date.valid(),
    ensures
        days_before_year(date.year) <= date.day_number() + epoch_offset() < days_before_year(
            date.year + 1,
        ),
{
    lemma_month_table(date.year);
    lemma_year_length(date.year);
}

proof fn lemma_years_grow(a: int, b: int)
    requires
        a <= b,
    ensures
        days_before_year(a) <= days_before_year(b),
    decreases b - a,
{
    if a < b {
        lemma_years_grow(a, b - 1);
        lemma_year_length(b - 1);
    }
}

/// Two different dates have different day numbers.
#[verifier::spinoff_prover]
pub proof fn law_day_number_is_injective(a: CivilDate, b: CivilDate)
    requires
        a.valid(),
        b.valid(),
        a.day_number() == b.day_number(),
    ensures
        a == b,
{
    lemma_within_year(a);
    lemma_within_year(b);
    if a.year < b.year {
        lemma_years_grow(a.year + 1, b.year);
    }
    if b.year < a.year {
        lemma_years_grow(b.year + 1, a.year);
    }
    assert(a.year == b.year);
    lemma_month_table(a.year);
}

proof fn lemma_date_of(date: CivilDate)
    requires
        date.valid(),
    ensures
        date_of(date.day_number()) == date,
{
    let days = date.day_number();
    assert(date.valid() && date.day_number() == days);
    let other = date_of(days);
    assert(other.valid() && other.day_number() == days);
    law_day_number_is_injective(date, other);
}

/// The number of days in the first `years` years of a four-hundred-year era,
/// where years begin on 1 March and the era with a year divisible by 400.
spec fn era_days(years: int) -> int {
    365 * years + years / 4 - years / 100
}

#[verifier::spinoff_prover]
proof fn lemma_year_of_era(doe: int, yoe: int)
    requires
        0 <= doe < 146097,
        yoe == (doe - doe / 1460 + doe / 36524 - doe / 146096) / 365,
    ensures
        0 <= yoe < 400,
        era_days(yoe) <= doe,
        doe < era_days(yoe + 1) || (yoe == 399 && doe < era_days(400) + 1),
{
    let century = doe / 36524;
    assert(century == 0 || century == 1 || century == 2 || century == 3 || century == 4);
}

/// The number of days from 1 March to the first of the month `mp` months later.
spec fn march_days(mp: int) -> int {
    (153 * mp + 2) / 5
}

/// From a day's position in its March-based year to its month and day.
#[verifier::spinoff_prover]
proof fn lemma_month_of_year(doy: int, mp: int)
    requires
        0 <= doy <= 365,
        mp == (5 * doy + 2) / 153,
    ensures
        0 <= mp <= 11,
        march_days(mp) <= doy < march_days(mp + 1),
{
    assert(mp == 0 || mp == 1 || mp == 2 || mp == 3 || mp == 4 || mp == 5 || mp == 6 || mp == 7
        || mp == 8 || mp == 9 || mp == 10 || mp == 11);
}

/// The months from March on, counted from the first of March.
#[verifier::spinoff_prover]
proof fn lemma_march_months(year: int, mp: int)
    requires
        0 <= mp <= 9,
    ensures
        days_before_month(year, mp + 3) == 31 + month_length(year, 2) + march_days(mp),
        month_length(year, mp + 3) == march_days(mp + 1) - march_days(mp),
{
    lemma_month_table(year);
    assert(mp == 0 || mp == 1 || mp == 2 || mp == 3 || mp == 4 || mp == 5 || mp == 6 || mp == 7
        || mp == 8 || mp == 9);
}

/// Where 1 March of a year falls, counted from 1 January of year 1.
proof fn lemma_first_of_march(year: int)
    ensures
        days_before_year(year) + 31 + month_length(year, 2) == 365 * year + year / 4 - year / 100
            + year / 400 - 306,
{
    lemma_february(year);
    lemma_quotient_step_4(year);
    lemma_quotient_step_100(year);
    lemma_quotient_step_400(year);
}

#[verifier::spinoff_prover]
proof fn lemma_march_year_in_era(year: int, era: int, yoe: int)
    requires
        0 <= yoe < 400,
        year == yoe + era * 400,
    ensures
        365 * year + year / 4 - year / 100 + year / 400 == 146097 * era + era_days(yoe),
{
    assert(year / 4 == yoe / 4 + 100 * era);
    assert(year / 100 == yoe / 100 + 4 * era);
    assert(year / 400 == era);
}

/// A March-based year has at most 366 days, and 366 only where it ends in a
/// leap year's February.
#[verifier::spinoff_prover]
proof fn lemma_last_position(yoe: int, doy: int)
    requires
        0 <= yoe < 400,
        0 <= doy,
        era_days(yoe) + doy < era_days(yoe + 1) || (yoe == 399 && era_days(yoe) + doy < era_days(400)
            + 1),
    ensures
        doy <= 365,
        doy == 365 ==> is_leap(yoe + 1),
{
}

proof fn lemma_leap_in_era(year: int, era: int, position: int)
    requires
        year == position + era * 400,
    ensures
        is_leap(year) == is_leap(position),
{
    assert(year % 4 == position % 4);
    assert(year % 100 == position % 100);
    assert(year % 400 == position % 400);
}

/// The date on position `doy` of the March-based year that is year `yoe` of
/// `era`.
#[verifier::spinoff_prover]
proof fn lemma_date_in_era(era: int, yoe: int, doy: int, mp: int, date: CivilDate)
    requires
        0 <= yoe < 400,
        0 <= doy,
        era_days(yoe) + doy < era_days(yoe + 1) || (yoe == 399 && era_days(yoe) + doy < era_days(400)
            + 1),
        mp == (5 * doy + 2) / 153,
        date.day == doy - (153 * mp + 2) / 5 + 1,
        date.month == (if mp < 10 {
            mp + 3
        } else {
            mp - 9
        }),
        date.year == (if date.month <= 2 {
            yoe + era * 400 + 1
        } else {
            yoe + era * 400
        }),
    ensures
        date.valid(),
        date.day_number() == era * 146097 + era_days(yoe) + doy - 719468,
{
    let march_year = yoe + era * 400;
    lemma_last_position(yoe, doy);
    lemma_month_of_year(doy, mp);
    lemma_march_year_in_era(march_year, era, yoe);
    if mp < 10 {
        lemma_first_of_march(march_year);
        lemma_march_months(march_year, mp);
    } else {
        lemma_month_table(date.year);
        assert(march_days(10) == 306 && march_days(11) == 337);
        lemma_leap_in_era(march_year + 1, era, yoe + 1);
    }
}

/// Days since 1 January 1970 to year, month and day.
#[verifier::spinoff_prover]
pub fn civil_from_days(days: i64) -> (date: (i64, u32, u32))
    requires
        days <= i64::MAX - 719468,
    ensures
        (CivilDate { year: date.0 as int, month: date.1 as int, day: date.2 as int }) == date_of(
            days as int,
        ),
        (CivilDate { year: date.0 as int, month: date.1 as int, day: date.2 as int }).valid(),
        (CivilDate {
            year: date.0 as int,
            month: date.1 as int,
            day: date.2 as int,
        }).day_number() == days,
{
    let z: i64 = days + 719468;
    let era: i64 = (if z >= 0 {
        z
    } else {
        z - 146096
    }) / 146097;
    let doe: u64 = (z - era * 146097) as u64;
    let yoe: u64 = (doe - doe / 1460 + doe / 36524 - doe / 146096) / 365;
    proof {
        lemma_year_of_era(doe as int, yoe as int);
    }
    let march_year: i64 = yoe as i64 + era * 400;
    let doy: u64 = doe - (365 * yoe + yoe / 4 - yoe / 100);
    let mp: u64 = (5 * doy + 2) / 153;
    proof {
        lemma_month_of_year(doy as int, mp as int);
    }
    let day: u32 = (doy - (153 * mp + 2) / 5 + 1) as u32;
    let month: u32 = (if mp < 10 {
        mp + 3
    } else {
        mp - 9
    }) as u32;
    let year: i64 = if month <= 2 {
        march_year + 1
    } else {
        march_year
    };
    proof {
        let date = CivilDate { year: year as int, month: month as int, day: day as int };
        lemma_date_in_era(era as int, yoe as int, doy as int, mp as int, date);
        lemma_date_of(date);
    }
    (year, month, day)
}

/// `n` in decimal, filled up with leading zeros to `width` digits.
pub open spec fn padded(n: nat, width: nat) -> Seq<char> {
    let digits = crate::text::decimal(n);
    if digits.len() < width {
        Seq::new((width - digits.len()) as nat, |i: int| '0') + digits
    } else {
        digits
    }
}

/// The UTC timestamp `YYYY-MM-DDTHH:MM:SSZ` of the moment `seconds` seconds
/// after the start of 1970.
pub open spec fn timestamp(seconds: nat) -> Seq<char> {
    let date = date_of((seconds / 86400) as int);
    let second_of_day = seconds % 86400;
    padded(date.year as nat, 4) + seq!['-'] + padded(date.month as nat, 2) + seq!['-'] + padded(
        date.day as nat,
        2,
    ) + seq!['T'] + padded(second_of_day / 3600, 2) + seq![':'] + padded(
        (second_of_day % 3600) / 60,
        2,
    ) + seq![':'] + padded(second_of_day % 60, 2) + seq!['Z']
}

proof fn lemma_decimal_len(n: nat)
    ensures
        n < 10 ==> crate::text::decimal(n).len() == 1,
        10 <= n < 100 ==> crate::text::decimal(n).len() == 2,
        100 <= n < 1000 ==> crate::text::decimal(n).len() == 3,
        1000 <= n ==> crate::text::decimal(n).len() >= 4,
    decreases n,
{
    if n >= 10 {
        lemma_decimal_len(n / 10);
    }
}

fn push_two_digits(out: &mut String, n: u64)
    ensures
        final(out)@ == old(out)@ + padded(n as nat, 2),
{
    proof {
        lemma_decimal_len(n as nat);
    }
    if n < 10 {
        out.push('0');
    }
    push_decimal(out, n);
    assert(out@ =~= old(out)@ + padded(n as nat, 2));
}

fn push_four_digits(out: &mut String, n: u64)
    ensures
        final(out)@ == old(out)@ + padded(n as nat, 4),
{
    proof {
        lemma_decimal_len(n as nat);
    }
    if n < 1000 {
        out.push('0');
    }
    if n < 100 {
        out.push('0');
    }
    if n < 10 {
        out.push('0');
    }
    push_decimal(out, n);
    assert(out@ =~= old(out)@ + padded(n as nat, 4));
}

/// The UTC timestamp of the moment `seconds` seconds after the start of 1970.
pub fn rfc3339(seconds: u64) -> (text: String)
    ensures
        text@ == timestamp(seconds as nat),
{
    let days: i64 = (seconds / 86400) as i64;
    let second_of_day: u64 = seconds % 86400;
    let (year, month, day) = civil_from_days(days);
    proof {
        let date = date_of(days as int);
        lemma_within_year(date);
        if date.year < 1 {
            lemma_years_grow(date.year + 1, 1);
        }
    }
    let mut text = String::new();
    push_four_digits(&mut text, year as u64);
    text.push('-');
    push_two_digits(&mut text, month as u64);
    text.push('-');
    push_two_digits(&mut text, day as u64);
    text.push('T');
    push_two_digits(&mut text, second_of_day / 3600);
    text.push(':');
    push_two_digits(&mut text, (second_of_day % 3600) / 60);
    text.push(':');
    push_two_digits(&mut text, second_of_day % 60);
    text.push('Z');
    assert(text@ =~= timestamp(seconds as nat));
    text
}

/// `SystemTime::elapsed`, asked of the start of 1970: the whole seconds that
/// have passed since then by the machine's clock, or `None` where the clock
/// stands before it. Nothing is claimed of the reading.
#[verifier::external_body]
fn clock_seconds() -> (seconds: Option<u64>) {
    match std::time::UNIX_EPOCH.elapsed() {
        Ok(elapsed) => Some(elapsed.as_secs()),
        Err(_) => None,
    }
}

/// The current UTC time as a timestamp. A clock that stands before 1970 counts
/// as standing at its start.
pub fn now_rfc3339() -> (text: String)
    ensures
        exists|seconds: u64| text@ == #[trigger] timestamp(seconds as nat),
{
    let seconds: u64 = match clock_seconds() {
        Some(seconds) => seconds,
        None => 0,
    };
    rfc3339(seconds)
}

} // verus!
