//! The Gregorian calendar in UTC, and how its moments are spelled.
//!
//! A moment is a number of milliseconds after the epoch, the beginning of 1970.
//! Its spelling is RFC 3339 with milliseconds, `YYYY-MM-DDThh:mm:ss.mmmZ`.

use vstd::prelude::*;

use crate::text;

verus! {

/// The milliseconds of a day.
pub const DAY_MS: i64 = 86_400_000;

/// The first moment whose year has five digits.
pub const FIVE_DIGIT_YEARS: i64 = 253_402_300_800_000;

/// Whether a year has a 29th of February.
pub open spec fn is_leap(year: int) -> bool {
    year % 4 == 0 && (year % 100 != 0 || year % 400 == 0)
}

/// How many days a month has.
pub open spec fn month_days(year: int, month: int) -> int {
    if month == 2 {
        if is_leap(year) {
            29
        } else {
            28
        }
    } else if month == 4 || month == 6 || month == 9 || month == 11 {
        30
    } else {
        31
    }
}

/// How many days of a year lie before a month.
pub open spec fn days_before_month(year: int, month: int) -> int
    decreases month,
{
    if month <= 1 {
        0
    } else {
        days_before_month(year, month - 1) + month_days(year, month - 1)
    }
}

/// How many days lie between the epoch and the beginning of a year.
pub open spec fn days_before_year(year: int) -> int {
    365 * (year - 1) + (year - 1) / 4 - (year - 1) / 100 + (year - 1) / 400 - 719_162
}

/// Whether there is such a day, in a year of up to four digits.
pub open spec fn is_date(year: int, month: int, day: int) -> bool {
    &&& 1 <= year <= 9999
    &&& 1 <= month <= 12
    &&& 1 <= day <= month_days(year, month)
}

/// How many days lie between the epoch and a day.
pub open spec fn day_number(year: int, month: int, day: int) -> int {
    days_before_year(year) + days_before_month(year, month) + day - 1
}

/// The last `width` decimal digits of `n`.
pub open spec fn digits(n: nat, width: nat) -> Seq<char>
    decreases width,
{
    if width == 0 {
        Seq::empty()
    } else {
        digits(n / 10, (width - 1) as nat).push(text::digit_char(n % 10))
    }
}

/// The spelling of a day.
pub open spec fn day_text(year: int, month: int, day: int) -> Seq<char> {
    digits(year as nat, 4) + (seq!['-'] + (digits(month as nat, 2) + (seq!['-'] + digits(
        day as nat,
        2,
    ))))
}

/// The hour, minute, second and millisecond of a time of the day.
pub open spec fn clock(time: int) -> (nat, nat, nat, nat) {
    (
        (time / 3_600_000) as nat,
        (time / 60_000 % 60) as nat,
        (time / 1_000 % 60) as nat,
        (time % 1_000) as nat,
    )
}

/// The spelling of an hour, a minute, a second and a millisecond.
pub open spec fn clock_text(clock: (nat, nat, nat, nat)) -> Seq<char> {
    seq!['T'] + (digits(clock.0, 2) + (seq![':'] + (digits(clock.1, 2) + (seq![':'] + (digits(
        clock.2,
        2,
    ) + (seq!['.'] + (digits(clock.3, 3) + seq!['Z'])))))))
}

/// The spelling of a moment of a day, by the milliseconds after its beginning.
pub open spec fn time_text(time: int) -> Seq<char> {
    clock_text(clock(time))
}

/// Whether a text spells a moment: the day on which it falls, and the time of
/// that day.
pub open spec fn spells(value: Seq<char>, milliseconds: i64) -> bool {
    exists|year: int, month: int, day: int|
        #![trigger is_date(year, month, day)]
        is_date(year, month, day) && day_number(year, month, day) == milliseconds as int
            / DAY_MS as int && value == day_text(year, month, day) + time_text(
            milliseconds as int % DAY_MS as int,
        )
}

/// Whether there is a spelling and it spells the moment, where that lies
/// between the epoch and the end of the year 9999.
pub open spec fn is_spelling(value: Option<Seq<char>>, milliseconds: i64) -> bool {
    0 <= milliseconds < FIVE_DIGIT_YEARS ==> (value matches Some(value) && spells(
        value,
        milliseconds,
    ))
}

// ----------------------------------------------------------------------
// The order of texts

/// Whether `left` stands before `right` in the order of texts, and is no
/// beginning of it: at the first difference it has the smaller character.
pub open spec fn below(left: Seq<char>, right: Seq<char>) -> bool {
    exists|at: int|
        #![trigger left[at]]
        0 <= at < left.len() && at < right.len() && left.take(at) == right.take(at) && left[at]
            < right[at]
}

proof fn lemma_below_append(
    left: Seq<char>,
    right: Seq<char>,
    after_left: Seq<char>,
    after_right: Seq<char>,
)
    requires
        below(left, right),
    ensures
        below(left + after_left, right + after_right),
{
    let at = choose|at: int|
        #![trigger left[at]]
        0 <= at < left.len() && at < right.len() && left.take(at) == right.take(at) && left[at]
            < right[at];
    let one = left + after_left;
    let other = right + after_right;
    assert(one.take(at) == left.take(at));
    assert(other.take(at) == right.take(at));
    assert(one[at] == left[at] && other[at] == right[at]);
}

proof fn lemma_below_prefix(front: Seq<char>, left: Seq<char>, right: Seq<char>)
    requires
        below(left, right),
    ensures
        below(front + left, front + right),
{
    let at = choose|at: int|
        #![trigger left[at]]
        0 <= at < left.len() && at < right.len() && left.take(at) == right.take(at) && left[at]
            < right[at];
    let one = front + left;
    let other = front + right;
    let place = front.len() + at;
    assert(one.take(place) == front + left.take(at));
    assert(other.take(place) == front + right.take(at));
    assert(one[place] == left[at] && other[place] == right[at]);
}

proof fn lemma_digits_len(n: nat, width: nat)
    ensures
        digits(n, width).len() == width,
    decreases width,
{
    if width > 0 {
        lemma_digits_len(n / 10, (width - 1) as nat);
    }
}

/// The larger of two numbers of as many digits stands behind the smaller.
proof fn lemma_digits_order(left: nat, right: nat, width: nat)
    requires
        left < right,
        right < vstd::arithmetic::power::pow(10, width),
    ensures
        below(digits(left, width), digits(right, width)),
    decreases width,
{
    if width == 0 {
        vstd::arithmetic::power::lemma_pow0(10);
    } else {
        let rest = (width - 1) as nat;
        vstd::arithmetic::power::lemma_pow1(10);
        vstd::arithmetic::power::lemma_pow_adds(10, 1, rest);
        let bound = vstd::arithmetic::power::pow(10, rest);
        assert(right / 10 < bound) by (nonlinear_arith)
            requires
                right < 10 * bound,
        ;
        let one = digits(left / 10, rest);
        let other = digits(right / 10, rest);
        lemma_digits_len(left / 10, rest);
        lemma_digits_len(right / 10, rest);
        if left / 10 < right / 10 {
            lemma_digits_order(left / 10, right / 10, rest);
            lemma_below_append(
                one,
                other,
                seq![text::digit_char(left % 10)],
                seq![text::digit_char(right % 10)],
            );
            assert(one + seq![text::digit_char(left % 10)] == digits(left, width));
            assert(other + seq![text::digit_char(right % 10)] == digits(right, width));
        } else {
            assert(left % 10 < right % 10);
            assert(one == other);
            let whole = digits(left, width);
            let behind = digits(right, width);
            assert(whole.take(rest as int) == one);
            assert(behind.take(rest as int) == other);
            assert(whole[rest as int] < behind[rest as int]);
        }
    }
}

/// Two fields one behind the other are ordered as their numbers are: by the
/// first, and where that is the same, by what follows.
proof fn lemma_fields(
    left: nat,
    right: nat,
    width: nat,
    after_left: Seq<char>,
    after_right: Seq<char>,
)
    requires
        left < right || (left == right && below(after_left, after_right)),
        right < vstd::arithmetic::power::pow(10, width),
    ensures
        below(digits(left, width) + after_left, digits(right, width) + after_right),
{
    if left < right {
        lemma_digits_order(left, right, width);
        lemma_below_append(digits(left, width), digits(right, width), after_left, after_right);
    } else {
        lemma_below_prefix(digits(left, width), after_left, after_right);
    }
}

proof fn lemma_powers()
    ensures
        vstd::arithmetic::power::pow(10, 2) == 100,
        vstd::arithmetic::power::pow(10, 3) == 1_000,
        vstd::arithmetic::power::pow(10, 4) == 10_000,
{
    reveal_with_fuel(vstd::arithmetic::power::pow, 5);
}

// ----------------------------------------------------------------------
// The order of days and moments

/// How many days a year has.
pub open spec fn year_days(year: int) -> int {
    if is_leap(year) {
        366
    } else {
        365
    }
}

/// The years follow one another without a gap.
proof fn lemma_years(earlier: int, later: int)
    requires
        1 <= earlier < later,
    ensures
        days_before_year(earlier) + year_days(earlier) <= days_before_year(later),
        days_before_year(earlier + 1) == days_before_year(earlier) + year_days(earlier),
    decreases later - earlier,
{
    if earlier + 1 < later {
        lemma_years(earlier + 1, later);
    }
}

/// The months follow one another without a gap.
proof fn lemma_months(year: int, earlier: int, later: int)
    requires
        1 <= earlier < later,
    ensures
        days_before_month(year, earlier) + month_days(year, earlier) <= days_before_month(
            year,
            later,
        ),
    decreases later - earlier,
{
    if earlier + 1 < later {
        lemma_months(year, earlier, later - 1);
    }
}

/// A day falls into its year.
proof fn lemma_day_of_year(year: int, month: int, day: int)
    requires
        is_date(year, month, day),
    ensures
        0 <= day_number(year, month, day) - days_before_year(year) < year_days(year),
{
    lemma_months(year, month, 13);
    if month > 1 {
        lemma_months(year, 1, month);
    }
    reveal_with_fuel(days_before_month, 14);
    assert(days_before_month(year, 13) == year_days(year));
}

/// The earlier of two days comes first by year, month and day.
proof fn lemma_days(year: int, month: int, day: int, y: int, m: int, d: int)
    requires
        is_date(year, month, day),
        is_date(y, m, d),
        day_number(year, month, day) < day_number(y, m, d),
    ensures
        year < y || (year == y && (month < m || (month == m && day < d))),
{
    lemma_day_of_year(year, month, day);
    lemma_day_of_year(y, m, d);
    if y < year {
        lemma_years(y, year);
    } else if y == year && m < month {
        lemma_months(year, m, month);
    }
}

/// There is one day for a day number.
proof fn lemma_one_day(year: int, month: int, day: int, y: int, m: int, d: int)
    requires
        is_date(year, month, day),
        is_date(y, m, d),
        day_number(year, month, day) == day_number(y, m, d),
    ensures
        year == y && month == m && day == d,
{
    lemma_day_of_year(year, month, day);
    lemma_day_of_year(y, m, d);
    if year < y {
        lemma_years(year, y);
    } else if y < year {
        lemma_years(y, year);
    } else if month < m {
        lemma_months(year, month, m);
    } else if m < month {
        lemma_months(year, m, month);
    }
}

proof fn lemma_day_texts(year: int, month: int, day: int, y: int, m: int, d: int)
    requires
        is_date(year, month, day),
        is_date(y, m, d),
        day_number(year, month, day) < day_number(y, m, d),
    ensures
        below(day_text(year, month, day), day_text(y, m, d)),
{
    lemma_powers();
    lemma_days(year, month, day, y, m, d);
    let dash = seq!['-'];
    let one = dash + digits(day as nat, 2);
    let other = dash + digits(d as nat, 2);
    if year == y {
        if month == m {
            lemma_digits_order(day as nat, d as nat, 2);
            lemma_below_prefix(dash, digits(day as nat, 2), digits(d as nat, 2));
        }
        lemma_fields(month as nat, m as nat, 2, one, other);
        lemma_below_prefix(dash, digits(month as nat, 2) + one, digits(m as nat, 2) + other);
    }
    lemma_fields(
        year as nat,
        y as nat,
        4,
        dash + (digits(month as nat, 2) + one),
        dash + (digits(m as nat, 2) + other),
    );
}

proof fn lemma_clock(time: int)
    requires
        0 <= time < DAY_MS,
    ensures
        ({
            let (hour, minute, second, fraction) = clock(time);
            &&& hour < 24 && minute < 60 && second < 60 && fraction < 1_000
            &&& time == hour * 3_600_000 + minute * 60_000 + second * 1_000 + fraction
        }),
{
    let seconds = time / 1_000;
    let minutes = time / 60_000;
    assert(minutes == seconds / 60);
    assert(time / 3_600_000 == minutes / 60);
}

proof fn lemma_clock_texts(left: (nat, nat, nat, nat), right: (nat, nat, nat, nat))
    requires
        left.0 < right.0 || (left.0 == right.0 && (left.1 < right.1 || (left.1 == right.1 && (left.2
            < right.2 || (left.2 == right.2 && left.3 < right.3))))),
        right.0 < 100,
        right.1 < 100,
        right.2 < 100,
        right.3 < 1_000,
    ensures
        below(clock_text(left), clock_text(right)),
{
    lemma_powers();
    let colon = seq![':'];
    let (fraction, fraction2) = (digits(left.3, 3) + seq!['Z'], digits(right.3, 3) + seq!['Z']);
    let (point, point2) = (seq!['.'] + fraction, seq!['.'] + fraction2);
    let (seconds, seconds2) = (digits(left.2, 2) + point, digits(right.2, 2) + point2);
    let (minutes, minutes2) = (
        digits(left.1, 2) + (colon + seconds),
        digits(right.1, 2) + (colon + seconds2),
    );
    let (hours, hours2) = (
        digits(left.0, 2) + (colon + minutes),
        digits(right.0, 2) + (colon + minutes2),
    );
    if left.0 == right.0 {
        if left.1 == right.1 {
            if left.2 == right.2 {
                lemma_fields(left.3, right.3, 3, seq!['Z'], seq!['Z']);
                lemma_below_prefix(seq!['.'], fraction, fraction2);
            }
            lemma_fields(left.2, right.2, 2, point, point2);
            lemma_below_prefix(colon, seconds, seconds2);
        }
        lemma_fields(left.1, right.1, 2, colon + seconds, colon + seconds2);
        lemma_below_prefix(colon, minutes, minutes2);
    }
    lemma_fields(left.0, right.0, 2, colon + minutes, colon + minutes2);
    lemma_below_prefix(seq!['T'], hours, hours2);
}

proof fn lemma_time_texts(earlier: int, later: int)
    requires
        0 <= earlier < later < DAY_MS,
    ensures
        below(time_text(earlier), time_text(later)),
{
    lemma_clock(earlier);
    lemma_clock(later);
    lemma_clock_texts(clock(earlier), clock(later));
}

/// The spelling of a moment has 24 characters, there is one for every moment,
/// and the spellings are ordered as the moments are.
pub proof fn law_spellings_are_ordered(
    earlier: i64,
    later: i64,
    left: Seq<char>,
    right: Seq<char>,
)
    requires
        spells(left, earlier),
        spells(right, later),
    ensures
        left.len() == 24 && right.len() == 24,
        earlier == later ==> left == right,
        earlier < later ==> below(left, right),
{
    let (year, month, day) = choose|year: int, month: int, day: int|
        #![trigger is_date(year, month, day)]
        is_date(year, month, day) && day_number(year, month, day) == earlier as int / DAY_MS as int
            && left == day_text(year, month, day) + time_text(earlier as int % DAY_MS as int);
    let (y, m, d) = choose|year: int, month: int, day: int|
        #![trigger is_date(year, month, day)]
        is_date(year, month, day) && day_number(year, month, day) == later as int / DAY_MS as int
            && right == day_text(year, month, day) + time_text(later as int % DAY_MS as int);
    let (one, other) = (earlier as int % DAY_MS as int, later as int % DAY_MS as int);
    lemma_lengths(year, month, day, one);
    lemma_lengths(y, m, d, other);
    if earlier == later {
        lemma_one_day(year, month, day, y, m, d);
    } else if earlier < later {
        if earlier as int / DAY_MS as int == later as int / DAY_MS as int {
            lemma_one_day(year, month, day, y, m, d);
            lemma_time_texts(one, other);
            lemma_below_prefix(day_text(year, month, day), time_text(one), time_text(other));
        } else {
            lemma_day_texts(year, month, day, y, m, d);
            lemma_below_append(
                day_text(year, month, day),
                day_text(y, m, d),
                time_text(one),
                time_text(other),
            );
        }
    }
}

proof fn lemma_lengths(year: int, month: int, day: int, time: int)
    ensures
        day_text(year, month, day).len() == 10,
        time_text(time).len() == 14,
{
    lemma_digits_len(year as nat, 4);
    lemma_digits_len(month as nat, 2);
    lemma_digits_len(day as nat, 2);
    lemma_digits_len((time / 3_600_000) as nat, 2);
    lemma_digits_len((time / 60_000 % 60) as nat, 2);
    lemma_digits_len((time / 1_000 % 60) as nat, 2);
    lemma_digits_len((time % 1_000) as nat, 3);
}

/// Every day between the epoch and the end of the year 9999 has a date.
proof fn lemma_date_of(number: int) -> (date: (int, int, int))
    requires
        0 <= number < FIVE_DIGIT_YEARS as int / DAY_MS as int,
    ensures
        is_date(date.0, date.1, date.2),
        day_number(date.0, date.1, date.2) == number,
    decreases number,
{
    if number == 0 {
        (1970, 1, 1)
    } else {
        let (year, month, day) = lemma_date_of(number - 1);
        if day < month_days(year, month) {
            (year, month, day + 1)
        } else if month < 12 {
            (year, month + 1, 1)
        } else {
            lemma_years(year, year + 1);
            assert(days_before_month(year, 13) == year_days(year)) by {
                reveal_with_fuel(days_before_month, 14);
            }
            assert(days_before_month(year, 13) == days_before_month(year, 12) + month_days(
                year,
                12,
            ));
            assert(days_before_month(year + 1, 1) == 0);
            (year + 1, 1, 1)
        }
    }
}

/// Every moment between the epoch and the end of the year 9999 has a spelling.
pub proof fn law_every_moment_has_a_spelling(milliseconds: i64) -> (value: Seq<char>)
    requires
        0 <= milliseconds < FIVE_DIGIT_YEARS,
    ensures
        spells(value, milliseconds),
{
    let (year, month, day) = lemma_date_of(milliseconds as int / DAY_MS as int);
    day_text(year, month, day) + time_text(milliseconds as int % DAY_MS as int)
}

} // verus!
