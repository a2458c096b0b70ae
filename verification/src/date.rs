//! Dates of the Gregorian calendar for days counted from the epoch.
use crate::clock::quotient;
use crate::text::{decimal_text, same_text};
use vstd::prelude::*;
use vstd::string::*;

verus! {

/// Whether a year has a leap day.
pub open spec fn leap(year: int) -> bool {
    year % 4 == 0 && (year % 100 != 0 || year % 400 == 0)
}

/// The days of a month.
pub open spec fn month_length(year: int, month: int) -> int {
    if month == 2 {
        if leap(year) {
            29
        } else {
            28
        }
    } else if month == 4 || month == 6 || month == 9 || month == 11 {
        30
    } else {
        31
    }
}

/// The days of a year before a month.
pub open spec fn days_before_month(year: int, month: int) -> int
    decreases month,
{
    if month <= 1 {
        0
    } else {
        days_before_month(year, month - 1) + month_length(year, month - 1)
    }
}

/// The days before a year, counted from the year one.
pub open spec fn days_before_year(year: int) -> int {
    365 * (year - 1) + (year - 1) / 4 - (year - 1) / 100 + (year - 1) / 400
}

/// Whether this is a date of the calendar.
pub open spec fn is_date(year: int, month: int, day_of_month: int) -> bool {
    1 <= month <= 12 && 1 <= day_of_month <= month_length(year, month)
}

/// The days from the epoch, the first of January 1970, to a date.
pub open spec fn day_number(year: int, month: int, day_of_month: int) -> int {
    days_before_year(year) + days_before_month(year, month) + day_of_month - 1 - 719_162
}

/// Whether a day falls on that day of that month, in some year.
pub open spec fn falls_on(day: int, month: int, day_of_month: int) -> bool {
    exists|year: int|
        is_date(year, month, day_of_month) && #[trigger] day_number(year, month, day_of_month)
            == day
}

/// The days of a year that begins in March before the month so many months later.
pub open spec fn days_before_march_month(months: int) -> int {
    (153 * months + 2) / 5
}

/// The days before a year that begins in March.
pub open spec fn days_before_march_year(year: int) -> int {
    365 * year + year / 4 - year / 100 + year / 400
}

#[verifier::spinoff_prover]
proof fn lemma_march_months(year: int, months: int)
    requires
        0 <= months < 12,
    ensures
        months < 10 ==> days_before_month(year, months + 3) == days_before_month(year, 3)
            + days_before_march_month(months),
        months >= 10 ==> days_before_month(year, months - 9) == days_before_march_month(months)
            - 306,
        days_before_month(year, 3) == 59 + (if leap(year) {
            1int
        } else {
            0
        }),
{
    reveal_with_fuel(days_before_month, 13);
    if months == 0 {
    } else if months == 1 {
    } else if months == 2 {
    } else if months == 3 {
    } else if months == 4 {
    } else if months == 5 {
    } else if months == 6 {
    } else if months == 7 {
    } else if months == 8 {
    } else if months == 9 {
    } else if months == 10 {
    } else {
    }
}

#[verifier::spinoff_prover]
proof fn lemma_march_year(year: int)
    ensures
        days_before_march_year(year) == days_before_year(year) + 365 + (if leap(year) {
            1int
        } else {
            0
        }),
        days_before_year(year + 1) == days_before_march_year(year),
{
    lemma_step_quotient(year, 4);
    lemma_step_quotient(year, 100);
    lemma_step_quotient(year, 400);
    vstd::arithmetic::div_mod::lemma_mod_mod(year, 4, 25);
    vstd::arithmetic::div_mod::lemma_mod_mod(year, 100, 4);
}

proof fn lemma_step_quotient(value: int, divisor: int)
    requires
        divisor > 1,
    ensures
        value / divisor == (value - 1) / divisor + (if value % divisor == 0 {
            1int
        } else {
            0
        }),
{
    let quotient = value / divisor;
    let remainder = value % divisor;
    vstd::arithmetic::div_mod::lemma_fundamental_div_mod(value, divisor);
    if remainder == 0 {
        assert(value - 1 == (quotient - 1) * divisor + (divisor - 1)) by (nonlinear_arith)
            requires
                value == divisor * quotient + remainder,
                remainder == 0,
        ;
        vstd::arithmetic::div_mod::lemma_fundamental_div_mod_converse(
            value - 1,
            divisor,
            quotient - 1,
            divisor - 1,
        );
    } else {
        assert(value - 1 == quotient * divisor + (remainder - 1)) by (nonlinear_arith)
            requires
                value == divisor * quotient + remainder,
        ;
        vstd::arithmetic::div_mod::lemma_fundamental_div_mod_converse(
            value - 1,
            divisor,
            quotient,
            remainder - 1,
        );
    }
}

/// The year of an era of four hundred years that a day of the era falls in; the years begin
/// in March.
pub open spec fn year_of_era(day_of_era: int) -> int {
    (day_of_era - day_of_era / 1_460 + day_of_era / 36_524 - day_of_era / 146_096) / 365
}

#[verifier::spinoff_prover]
proof fn lemma_year_of_era(day_of_era: int)
    requires
        0 <= day_of_era <= 146_096,
    ensures
        ({
            let year = year_of_era(day_of_era);
            let rest = day_of_era - (365 * year + year / 4 - year / 100);
            &&& 0 <= year <= 399
            &&& 0 <= rest <= 365
            &&& rest == 365 ==> leap(year + 1)
        }),
{
    let year = year_of_era(day_of_era);
    let century = day_of_era / 36_524;
    let a = day_of_era / 1_460;
    if day_of_era == 146_096 {
        assert(year == 399);
    } else {
        assert(day_of_era / 146_096 == 0);
        assert(0 <= century <= 3);
        // Within a century the leap years come every four years.
        let in_century = day_of_era - 36_524 * century;
        let y = year - 100 * century;
        assert(0 <= in_century < 36_524);
        if century == 0 {
        } else if century == 1 {
        } else if century == 2 {
        } else {
        }
    }
}

/// The name of a month.
pub open spec fn month_name(month: int) -> Seq<char> {
    if month == 1 {
        "Jan"@
    } else if month == 2 {
        "Feb"@
    } else if month == 3 {
        "Mar"@
    } else if month == 4 {
        "Apr"@
    } else if month == 5 {
        "May"@
    } else if month == 6 {
        "Jun"@
    } else if month == 7 {
        "Jul"@
    } else if month == 8 {
        "Aug"@
    } else if month == 9 {
        "Sep"@
    } else if month == 10 {
        "Oct"@
    } else if month == 11 {
        "Nov"@
    } else {
        "Dec"@
    }
}

fn month_text(month: i64) -> (name: &'static str)
    requires
        1 <= month <= 12,
    ensures
        name@ == month_name(month as int),
{
    if month == 1 {
        "Jan"
    } else if month == 2 {
        "Feb"
    } else if month == 3 {
        "Mar"
    } else if month == 4 {
        "Apr"
    } else if month == 5 {
        "May"
    } else if month == 6 {
        "Jun"
    } else if month == 7 {
        "Jul"
    } else if month == 8 {
        "Aug"
    } else if month == 9 {
        "Sep"
    } else if month == 10 {
        "Oct"
    } else if month == 11 {
        "Nov"
    } else {
        "Dec"
    }
}

proof fn lemma_quotients_of_era(era: int, year: int)
    ensures
        (400 * era + year) / 4 == 100 * era + year / 4,
        (400 * era + year) / 100 == 4 * era + year / 100,
        (400 * era + year) / 400 == era + year / 400,
{
    assert((400 * era + year) / 4 == 100 * era + year / 4) by {
        vstd::arithmetic::div_mod::lemma_hoist_over_denominator(year, 100 * era, 4);
    }
    assert((400 * era + year) / 100 == 4 * era + year / 100) by {
        vstd::arithmetic::div_mod::lemma_hoist_over_denominator(year, 4 * era, 100);
    }
    assert((400 * era + year) / 400 == era + year / 400) by {
        vstd::arithmetic::div_mod::lemma_hoist_over_denominator(year, era, 400);
    }
}

proof fn lemma_remainders_of_era(era: int, year: int)
    ensures
        (400 * era + year) % 4 == year % 4,
        (400 * era + year) % 100 == year % 100,
        (400 * era + year) % 400 == year % 400,
{
    vstd::arithmetic::div_mod::lemma_mod_multiples_vanish(100 * era, year, 4);
    vstd::arithmetic::div_mod::lemma_mod_multiples_vanish(4 * era, year, 100);
    vstd::arithmetic::div_mod::lemma_mod_multiples_vanish(era, year, 400);
}

proof fn lemma_era_years(era: int, year: int)
    requires
        0 <= year <= 399,
    ensures
        days_before_march_year(400 * era + year) == 146_097 * era + 365 * year + year / 4 - year
            / 100,
        leap(400 * era + year + 1) == leap(year + 1),
{
    lemma_quotients_of_era(era, year);
    lemma_remainders_of_era(era, year + 1);
}

#[verifier::spinoff_prover]
proof fn lemma_day_of_march_year(day_of_year: int)
    requires
        0 <= day_of_year <= 365,
    ensures
        ({
            let months = (5 * day_of_year + 2) / 153;
            &&& 0 <= months <= 11
            &&& days_before_march_month(months) <= day_of_year
            &&& months < 11 ==> day_of_year < days_before_march_month(months + 1)
            &&& day_of_year - days_before_march_month(months) <= 30
        }),
{
}

/// The day of a year that begins in March on which a day of an era falls.
spec fn day_of_march_year(day_of_era: int) -> int {
    let year = year_of_era(day_of_era);
    day_of_era - (365 * year + year / 4 - year / 100)
}

/// The month of a day of an era, counted from March.
#[verifier::opaque]
spec fn march_month(day_of_era: int) -> int {
    (5 * day_of_march_year(day_of_era) + 2) / 153
}

/// The day of the month of a day of an era.
#[verifier::opaque]
spec fn march_day(day_of_era: int) -> int {
    day_of_march_year(day_of_era) - days_before_march_month(march_month(day_of_era)) + 1
}

/// The month of the year for a month counted from March.
spec fn civil_month(months: int) -> int {
    if months < 10 {
        months + 3
    } else {
        months - 9
    }
}

proof fn lemma_falls_on(shifted: int, era: int, day_of_era: int)
    requires
        shifted == era * 146_097 + day_of_era,
        0 <= day_of_era <= 146_096,
    ensures
        falls_on(shifted - 719_468, civil_month(march_month(day_of_era)), march_day(day_of_era)),
{
    reveal(march_month);
    reveal(march_day);
    lemma_date_of_day(shifted, era, day_of_era);
}

#[verifier::spinoff_prover]
proof fn lemma_date_of_day(shifted: int, era: int, day_of_era: int)
    requires
        shifted == era * 146_097 + day_of_era,
        0 <= day_of_era <= 146_096,
    ensures
        ({
            let year = year_of_era(day_of_era);
            let day_of_year = day_of_era - (365 * year + year / 4 - year / 100);
            let months = (5 * day_of_year + 2) / 153;
            let day_of_month = day_of_year - days_before_march_month(months) + 1;
            let month = if months < 10 {
                months + 3
            } else {
                months - 9
            };
            let civil_year = if months < 10 {
                400 * era + year
            } else {
                400 * era + year + 1
            };
            &&& is_date(civil_year, month, day_of_month)
            &&& day_number(civil_year, month, day_of_month) == shifted - 719_468
        }),
{
    let year = year_of_era(day_of_era);
    lemma_year_of_era(day_of_era);
    let day_of_year = day_of_era - (365 * year + year / 4 - year / 100);
    lemma_day_of_march_year(day_of_year);
    let months = (5 * day_of_year + 2) / 153;
    lemma_era_years(era, year);
    let all = 400 * era + year;
    lemma_march_year(all);
    lemma_march_months(all, months);
    lemma_march_months(all + 1, months);
    let day_of_month = day_of_year - days_before_march_month(months) + 1;
    if months == 11 {
        assert(days_before_march_month(11) == 337);
    }
    let month = if months < 10 {
        months + 3
    } else {
        months - 9
    };
    let civil_year = if months < 10 {
        all
    } else {
        all + 1
    };
    assert(day_of_month <= month_length(civil_year, month)) by {
        assert(days_before_march_month(0) == 0 && days_before_march_month(1) == 31
            && days_before_march_month(2) == 61 && days_before_march_month(3) == 92
            && days_before_march_month(4) == 122 && days_before_march_month(5) == 153
            && days_before_march_month(6) == 184 && days_before_march_month(7) == 214
            && days_before_march_month(8) == 245 && days_before_march_month(9) == 275
            && days_before_march_month(10) == 306 && days_before_march_month(11) == 337);
    }
}

/// The month and the day of the month of a day of an era. The months are counted from March.
fn date_in_era(day_of_era: u64) -> (result: (u64, u64))
    requires
        day_of_era <= 146_096,
    ensures
        result.0 == march_month(day_of_era as int),
        result.1 == march_day(day_of_era as int),
        result.0 <= 11,
        1 <= result.1 <= 31,
{
    proof {
        reveal(march_month);
        reveal(march_day);
        lemma_year_of_era(day_of_era as int);
    }
    let year: u64 = (day_of_era - day_of_era / 1_460 + day_of_era / 36_524 - day_of_era / 146_096)
        / 365;
    let day_of_year: u64 = day_of_era - (365 * year + year / 4 - year / 100);
    proof {
        lemma_day_of_march_year(day_of_year as int);
    }
    let months: u64 = (5 * day_of_year + 2) / 153;
    let day_of_month: u64 = day_of_year - (153 * months + 2) / 5 + 1;
    (months, day_of_month)
}

proof fn lemma_years_ascend(earlier: int, later: int)
    requires
        earlier < later,
    ensures
        days_before_year(earlier) + 365 + (if leap(earlier) {
            1int
        } else {
            0
        }) <= days_before_year(later),
    decreases later - earlier,
{
    lemma_march_year(later - 1);
    if earlier < later - 1 {
        lemma_years_ascend(earlier, later - 1);
    }
}

proof fn lemma_months_ascend(year: int, earlier: int, later: int)
    requires
        1 <= earlier < later <= 13,
    ensures
        days_before_month(year, earlier) + month_length(year, earlier) <= days_before_month(
            year,
            later,
        ),
    decreases later - earlier,
{
    if earlier < later - 1 {
        lemma_months_ascend(year, earlier, later - 1);
    }
}

proof fn lemma_date_within_year(year: int, month: int, day_of_month: int)
    requires
        is_date(year, month, day_of_month),
    ensures
        0 <= days_before_month(year, month),
        days_before_month(year, month) + day_of_month <= 365 + (if leap(year) {
            1int
        } else {
            0
        }),
{
    lemma_months_ascend(year, month, 13);
    lemma_march_months(year, 11);
    reveal_with_fuel(days_before_month, 13);
    if month > 1 {
        lemma_months_ascend(year, 1, month);
    }
}

/// No two dates fall on one day.
pub proof fn law_dates_are_unique(
    year: int,
    month: int,
    day_of_month: int,
    other_year: int,
    other_month: int,
    other_day: int,
)
    requires
        is_date(year, month, day_of_month),
        is_date(other_year, other_month, other_day),
        day_number(year, month, day_of_month) == day_number(other_year, other_month, other_day),
    ensures
        year == other_year,
        month == other_month,
        day_of_month == other_day,
{
    lemma_date_within_year(year, month, day_of_month);
    lemma_date_within_year(other_year, other_month, other_day);
    if year < other_year {
        lemma_years_ascend(year, other_year);
    } else if other_year < year {
        lemma_years_ascend(other_year, year);
    }
    if month < other_month {
        lemma_months_ascend(year, month, other_month);
    } else if other_month < month {
        lemma_months_ascend(year, other_month, month);
    }
}

/// The month and the day of the month that a day falls on.
pub open spec fn date_of(day: int) -> (int, int) {
    choose|month: int, day_in_month: int| #[trigger] falls_on(day, month, day_in_month)
}

/// The month that a day falls in.
pub open spec fn month_of(day: int) -> int {
    date_of(day).0
}

/// The day of the month that a day falls on.
pub open spec fn day_of_month(day: int) -> int {
    date_of(day).1
}

proof fn lemma_date_is_chosen(day: int, month: int, day_in_month: int)
    requires
        falls_on(day, month, day_in_month),
    ensures
        month_of(day) == month,
        day_of_month(day) == day_in_month,
{
    let year = choose|year: int|
        is_date(year, month, day_in_month) && #[trigger] day_number(year, month, day_in_month)
            == day;
    let chosen = month_of(day);
    let picked = day_of_month(day);
    assert(falls_on(day, chosen, picked));
    let other = choose|other: int|
        is_date(other, chosen, picked) && #[trigger] day_number(other, chosen, picked) == day;
    law_dates_are_unique(year, month, day_in_month, other, chosen, picked);
}

/// The month and the day of the month that a day falls on.
pub fn calendar_month_day(day: i128) -> (result: (&'static str, u8))
    requires
        crate::clock::day_in_range(day as int),
    ensures
        falls_on(day as int, month_of(day as int), day_of_month(day as int)),
        result.0@ == month_name(month_of(day as int)),
        result.1 == day_of_month(day as int),
{
    let shifted: i128 = day + 719_468;
    let era: i128 = quotient(shifted, 146_097);
    let day_of_era: u64 = (shifted - era * 146_097) as u64;
    let (months, day_in_month) = date_in_era(day_of_era);
    let month: u64 = if months < 10 {
        months + 3
    } else {
        months - 9
    };
    proof {
        lemma_falls_on(shifted as int, era as int, day_of_era as int);
        lemma_date_is_chosen(day as int, month as int, day_in_month as int);
    }
    (month_text(month as i64), day_in_month as u8)
}

/// A date in words.
pub open spec fn date_label(day: int) -> Seq<char> {
    month_name(month_of(day)) + " "@ + crate::text::decimal(day_of_month(day) as nat)
}

/// Spells the date of a day.
pub fn calendar_date(day: i128) -> (text: String)
    requires
        crate::clock::day_in_range(day as int),
    ensures
        text@ == date_label(day as int),
{
    let (month, day_in_month) = calendar_month_day(day);
    let mut text = month.to_owned();
    text.append(" ");
    text.append(decimal_text(day_in_month as u64).as_str());
    text
}

/// The week that begins on a Monday in words. The month is named once where the week stays
/// in it.
pub open spec fn week_label(monday: int) -> Seq<char> {
    if month_name(month_of(monday)) == month_name(month_of(monday + 6)) {
        date_label(monday) + "–"@ + crate::text::decimal(day_of_month(monday + 6) as nat)
    } else {
        date_label(monday) + "–"@ + date_label(monday + 6)
    }
}

/// Spells the week that begins on a Monday.
pub fn calendar_week_label(monday: i128) -> (text: String)
    requires
        crate::clock::day_in_range(monday as int),
        crate::clock::day_in_range(monday + 6),
    ensures
        text@ == week_label(monday as int),
{
    let (start_month, _) = calendar_month_day(monday);
    let (end_month, end_day) = calendar_month_day(monday + 6);
    let mut text = calendar_date(monday);
    text.append("–");
    if same_text(start_month, end_month) {
        text.append(decimal_text(end_day as u64).as_str());
    } else {
        text.append(calendar_date(monday + 6).as_str());
    }
    text
}

/// The first of January 1970 is the day that days are counted from.
pub proof fn law_days_count_from_the_epoch()
    ensures
        day_number(1970, 1, 1) == 0,
        is_date(1970, 1, 1),
{
    reveal_with_fuel(days_before_month, 2);
}

/// How long each month lasts: February has a day more in every fourth year, but for the years that
/// end a century, of which only every fourth has it.
pub proof fn law_months_last(year: int)
    ensures
        forall|month: int|
            month == 1 || month == 3 || month == 5 || month == 7 || month == 8 || month == 10
                || month == 12 ==> #[trigger] month_length(year, month) == 31,
        forall|month: int|
            month == 4 || month == 6 || month == 9 || month == 11 ==> #[trigger] month_length(
                year,
                month,
            ) == 30,
        year % 4 != 0 ==> month_length(year, 2) == 28,
        year % 4 == 0 && year % 100 != 0 ==> month_length(year, 2) == 29,
        year % 100 == 0 && year % 400 != 0 ==> month_length(year, 2) == 28,
        year % 400 == 0 ==> month_length(year, 2) == 29,
{
}

/// Days follow one another: the next day of the month while the month lasts, then the first of the
/// next month, and after December the first of January of the next year.
pub proof fn law_days_follow(year: int, month: int, day_in_month: int)
    requires
        is_date(year, month, day_in_month),
    ensures
        day_in_month < month_length(year, month) ==> is_date(year, month, day_in_month + 1)
            && day_number(year, month, day_in_month + 1) == day_number(year, month, day_in_month)
            + 1,
        day_in_month == month_length(year, month) && month < 12 ==> is_date(year, month + 1, 1)
            && day_number(year, month + 1, 1) == day_number(year, month, day_in_month) + 1,
        day_in_month == month_length(year, month) && month == 12 ==> is_date(year + 1, 1, 1)
            && day_number(year + 1, 1, 1) == day_number(year, month, day_in_month) + 1,
{
    reveal_with_fuel(days_before_month, 13);
}

/// The day after a date is the date after it.
pub proof fn law_shown_dates_follow(day: int, year: int, month: int, day_in_month: int)
    requires
        is_date(year, month, day_in_month),
        day_number(year, month, day_in_month) == day,
    ensures
        month_of(day) == month,
        day_of_month(day) == day_in_month,
        day_in_month < month_length(year, month) ==> month_of(day + 1) == month && day_of_month(
            day + 1,
        ) == day_in_month + 1,
        day_in_month == month_length(year, month) ==> day_of_month(day + 1) == 1 && month_of(
            day + 1,
        ) == (if month == 12 {
            1
        } else {
            month + 1
        }),
{
    law_days_follow(year, month, day_in_month);
    assert(falls_on(day, month, day_in_month));
    lemma_date_is_chosen(day, month, day_in_month);
    if day_in_month < month_length(year, month) {
        assert(falls_on(day + 1, month, day_in_month + 1));
        lemma_date_is_chosen(day + 1, month, day_in_month + 1);
    } else if month < 12 {
        assert(falls_on(day + 1, month + 1, 1));
        lemma_date_is_chosen(day + 1, month + 1, 1);
    } else {
        assert(falls_on(day + 1, 1, 1)) by {
            assert(is_date(year + 1, 1, 1) && day_number(year + 1, 1, 1) == day + 1);
        }
        lemma_date_is_chosen(day + 1, 1, 1);
    }
}

/// Every month has a short name of its own.
pub proof fn law_months_are_named(month: int, other: int)
    requires
        1 <= month <= 12,
        1 <= other <= 12,
    ensures
        month_name(month) == month_name(other) ==> month == other,
        month_name(1) == "Jan"@ && month_name(2) == "Feb"@ && month_name(3) == "Mar"@,
        month_name(4) == "Apr"@ && month_name(5) == "May"@ && month_name(6) == "Jun"@,
        month_name(7) == "Jul"@ && month_name(8) == "Aug"@ && month_name(9) == "Sep"@,
        month_name(10) == "Oct"@ && month_name(11) == "Nov"@ && month_name(12) == "Dec"@,
{
    reveal_strlit("Jan");
    reveal_strlit("Feb");
    reveal_strlit("Mar");
    reveal_strlit("Apr");
    reveal_strlit("May");
    reveal_strlit("Jun");
    reveal_strlit("Jul");
    reveal_strlit("Aug");
    reveal_strlit("Sep");
    reveal_strlit("Oct");
    reveal_strlit("Nov");
    reveal_strlit("Dec");
    assert("Jan"@[1] == 'a' && "Jan"@[2] == 'n' && "Jan"@[0] == 'J');
    assert("Feb"@[0] == 'F');
    assert("Mar"@[0] == 'M' && "Mar"@[2] == 'r');
    assert("Apr"@[0] == 'A' && "Apr"@[1] == 'p');
    assert("May"@[0] == 'M' && "May"@[2] == 'y');
    assert("Jun"@[0] == 'J' && "Jun"@[1] == 'u' && "Jun"@[2] == 'n');
    assert("Jul"@[0] == 'J' && "Jul"@[1] == 'u' && "Jul"@[2] == 'l');
    assert("Aug"@[0] == 'A' && "Aug"@[1] == 'u');
    assert("Sep"@[0] == 'S');
    assert("Oct"@[0] == 'O');
    assert("Nov"@[0] == 'N');
    assert("Dec"@[0] == 'D');
}

/// A week is shown from its first day to its last, with the month behind the dash only where that
/// is another one.
pub proof fn law_weeks_name_their_months(monday: int)
    requires
        1 <= month_of(monday) <= 12,
        1 <= month_of(monday + 6) <= 12,
    ensures
        ({
            let first = month_name(month_of(monday)) + " "@ + crate::text::decimal(
                day_of_month(monday) as nat,
            );
            let last = crate::text::decimal(day_of_month(monday + 6) as nat);
            &&& month_of(monday) == month_of(monday + 6) ==> week_label(monday) == first + "–"@
                + last
            &&& month_of(monday) != month_of(monday + 6) ==> week_label(monday) == first + "–"@ + (
            month_name(month_of(monday + 6)) + " "@ + last)
        }),
{
    law_months_are_named(month_of(monday), month_of(monday + 6));
}

} // verus!
