//! Timestamps: which moment a text writes.
use vstd::prelude::*;

use crate::calendar::CivilDate;

verus! {

/// The character of a decimal digit.
pub open spec fn digit(d: int) -> char {
    (48 + d) as char
}

/// A number below one hundred in two digits.
pub open spec fn two(n: int) -> Seq<char> {
    seq![digit(n / 10), digit(n % 10)]
}

/// A number below ten thousand in four digits.
pub open spec fn four(n: int) -> Seq<char> {
    seq![digit(n / 1000), digit(n / 100 % 10), digit(n / 10 % 10), digit(n % 10)]
}

proof fn lemma_two(n: nat)
    requires
        n < 100,
    ensures
        crate::calendar::padded(n, 2) == two(n as int),
{
    reveal_with_fuel(crate::text::decimal, 3);
    assert(crate::calendar::padded(n, 2) =~= two(n as int));
}

proof fn lemma_four(n: nat)
    requires
        n < 10000,
    ensures
        crate::calendar::padded(n, 4) == four(n as int),
{
    reveal_with_fuel(crate::text::decimal, 5);
    assert(n / 10 / 10 == n / 100);
    assert(n / 10 / 10 / 10 == n / 1000);
    assert(crate::calendar::padded(n, 4) =~= four(n as int));
}

/// A timestamp writes the date of its day and the time in that day: the date
/// is one that the calendar has, its day number is the number of whole days
/// since 1970, and hours, minutes and seconds add up to what is left. So it is
/// for every moment of the years up to 9999.
pub proof fn law_timestamp(seconds: nat, date: CivilDate)
    requires
        date.valid(),
        date.day_number() == seconds / 86400,
        0 <= date.year <= 9999,
    ensures
        ({
            let left = seconds as int % 86400;
            let hours = left / 3600;
            let minutes = left % 3600 / 60;
            let rest = left % 60;
            &&& hours * 3600 + minutes * 60 + rest == left
            &&& 0 <= hours < 24 && 0 <= minutes < 60 && 0 <= rest < 60
            &&& crate::calendar::timestamp(seconds) == four(date.year) + seq!['-'] + two(date.month)
                + seq!['-'] + two(date.day) + seq!['T'] + two(hours) + seq![':'] + two(minutes)
                + seq![':'] + two(rest) + seq!['Z']
        }),
{
    let days = (seconds / 86400) as int;
    let found = crate::calendar::date_of(days);
    assert(found.valid() && found.day_number() == days) by {
        assert(date.valid() && date.day_number() == days);
    }
    crate::calendar::law_day_number_is_injective(date, found);
    lemma_four(date.year as nat);
    lemma_two(date.month as nat);
    lemma_two(date.day as nat);
    let left = seconds as int % 86400;
    lemma_two((left / 3600) as nat);
    lemma_two((left % 3600 / 60) as nat);
    lemma_two((left % 60) as nat);
    assert(left % 60 == left % 3600 % 60);
}

/// The months have the days that everyone knows, and a year is a leap year
/// where four divides it, unless a hundred does and four hundred does not.
pub proof fn law_month_lengths(year: int)
    ensures
        crate::calendar::month_length(year, 1) == 31,
        crate::calendar::month_length(year, 3) == 31,
        crate::calendar::month_length(year, 4) == 30,
        crate::calendar::month_length(year, 5) == 31,
        crate::calendar::month_length(year, 6) == 30,
        crate::calendar::month_length(year, 7) == 31,
        crate::calendar::month_length(year, 8) == 31,
        crate::calendar::month_length(year, 9) == 30,
        crate::calendar::month_length(year, 10) == 31,
        crate::calendar::month_length(year, 11) == 30,
        crate::calendar::month_length(year, 12) == 31,
        year % 400 == 0 ==> crate::calendar::month_length(year, 2) == 29,
        year % 400 != 0 && year % 100 == 0 ==> crate::calendar::month_length(year, 2) == 28,
        year % 100 != 0 && year % 4 == 0 ==> crate::calendar::month_length(year, 2) == 29,
        year % 4 != 0 ==> crate::calendar::month_length(year, 2) == 28,
{
}

} // verus!
