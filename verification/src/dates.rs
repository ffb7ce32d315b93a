//! Moments in time, as RFC 3339 texts in UTC with milliseconds.

use vstd::arithmetic::power::pow;
use vstd::prelude::*;

use crate::bridge;
use crate::calendar;
use crate::json;
use crate::text;

verus! {

/// The format of the service's own dates.
pub const SERVICE_DATE: &'static str = "%a %b %d %H:%M:%S %z %Y";

/// The moment of the service's first ID, in milliseconds after the epoch.
pub const SNOWFLAKE_EPOCH_MS: u64 = 1_288_834_974_657;

/// The moment `milliseconds` after the epoch.
pub fn timestamp_to_iso(milliseconds: i64) -> (out: Option<String>)
    ensures
        out.deep_view() == bridge::iso_of_millis(milliseconds),
        calendar::is_spelling(out.deep_view(), milliseconds),
{
    bridge::iso_from_millis(milliseconds)
}

/// The moment that an ID of 15 to 19 digits carries above its low 22 bits, in
/// milliseconds after the epoch.
pub open spec fn millis_in_id(id: Seq<char>) -> Option<i64> {
    if 15 <= id.len() <= 19 && text::all_digits(id) {
        match text::parse_unsigned(id, u64::MAX as nat) {
            Some(value) => Some((value as int / 0x40_0000 + SNOWFLAKE_EPOCH_MS) as i64),
            None => None,
        }
    } else {
        None
    }
}

/// Computes `millis_in_id`.
pub fn snowflake_millis(id: &str) -> (out: Option<i64>)
    ensures
        out == millis_in_id(id@),
{
    let len: usize = text::chars_of(id).len();
    if len < 15 || len > 19 || !text::text_all_digits(id) {
        return None;
    }
    match text::parse_number(id, u64::MAX) {
        Some(value) => Some((value / 0x40_0000 + SNOWFLAKE_EPOCH_MS) as i64),
        None => None,
    }
}

/// The moment that an ID carries.
pub open spec fn moment_of_id(id: Seq<char>) -> Option<Seq<char>> {
    match millis_in_id(id) {
        Some(milliseconds) => bridge::iso_of_millis(milliseconds),
        None => None,
    }
}

/// Whether an ID is long enough to carry a moment: 15 to 19 digits.
pub open spec fn carries_moment(id: Seq<char>) -> bool {
    15 <= id.len() <= 19 && text::all_digits(id)
}

/// Every ID that is long enough carries a moment, in a year of four digits.
proof fn lemma_carried_moment(id: Seq<char>)
    ensures
        millis_in_id(id) is Some <==> carries_moment(id),
        millis_in_id(id) matches Some(milliseconds) ==> 0 <= milliseconds
            < calendar::FIVE_DIGIT_YEARS,
{
    if carries_moment(id) {
        text::lemma_decimal_bound(id);
        assert(text::is_digit(id[0]));
        assert(pow(10, 19) == 10_000_000_000_000_000_000) by {
            reveal_with_fuel(pow, 20);
        }
        if id.len() < 19 {
            vstd::arithmetic::power::lemma_pow_increases(10, id.len(), 19);
        }
    }
}

/// Derive the creation time from a post ID. There is one for every ID of 15 to
/// 19 digits, and for no other text.
pub fn snowflake_timestamp(id: &str) -> (out: Option<String>)
    ensures
        out.deep_view() == moment_of_id(id@),
        out is Some <==> carries_moment(id@),
        out matches Some(moment) ==> calendar::spells(moment@, millis_in_id(id@)->0),
{
    proof {
        lemma_carried_moment(id@);
    }
    match snowflake_millis(id) {
        Some(milliseconds) => timestamp_to_iso(milliseconds),
        None => None,
    }
}

/// The moment that a date names, as RFC 3339 or in the service's own format.
pub open spec fn date_in(value: Seq<char>) -> Option<Seq<char>> {
    json::or(bridge::iso_of_rfc3339(value), bridge::iso_of_format(value, SERVICE_DATE@))
}

/// Computes `date_in`.
pub fn parse_date(value: &str) -> (out: Option<String>)
    ensures
        out.deep_view() == date_in(value@),
{
    match bridge::iso_from_rfc3339(value) {
        Some(date) => Some(date),
        None => bridge::iso_from_format(value, SERVICE_DATE),
    }
}

/// A later ID never carries an earlier moment.
pub proof fn law_ids_are_ordered_in_time(earlier: Seq<char>, later: Seq<char>)
    requires
        millis_in_id(earlier) is Some,
        millis_in_id(later) is Some,
        text::decimal_value(earlier) <= text::decimal_value(later),
    ensures
        millis_in_id(earlier)->0 <= millis_in_id(later)->0,
{
    assert(text::is_digit(earlier[0]) && text::is_digit(later[0]));
}

/// The moments of IDs as texts: each has 24 characters, they are ordered as
/// the IDs are, and IDs that differ in their low 22 bits only have the same.
pub proof fn law_times_are_ordered_as_ids(
    earlier: Seq<char>,
    later: Seq<char>,
    left: Seq<char>,
    right: Seq<char>,
)
    requires
        carries_moment(earlier),
        carries_moment(later),
        calendar::spells(left, millis_in_id(earlier)->0),
        calendar::spells(right, millis_in_id(later)->0),
        text::decimal_value(earlier) <= text::decimal_value(later),
    ensures
        left.len() == 24 && right.len() == 24,
        left == right || calendar::below(left, right),
        text::decimal_value(earlier) / 0x40_0000 == text::decimal_value(later) / 0x40_0000 ==> left
            == right,
{
    lemma_carried_moment(earlier);
    lemma_carried_moment(later);
    law_ids_are_ordered_in_time(earlier, later);
    assert(text::is_digit(earlier[0]) && text::is_digit(later[0]));
    calendar::law_spellings_are_ordered(
        millis_in_id(earlier)->0,
        millis_in_id(later)->0,
        left,
        right,
    );
}

/// An ID of 15 to 19 digits carries, above its low 22 bits, the milliseconds
/// since the service began to count, and no other text carries a moment.
pub proof fn law_ids_carry_their_moment(id: Seq<char>)
    ensures
        15 <= id.len() <= 19 && text::all_digits(id) ==> (millis_in_id(id) matches Some(moment)
            && moment == text::decimal_value(id) / 4_194_304 + 1_288_834_974_657),
        id.len() < 15 || id.len() > 19 || !text::all_digits(id) ==> millis_in_id(id) is None
            && moment_of_id(id) is None,
{
    lemma_carried_moment(id);
    if carries_moment(id) {
        text::lemma_decimal_bound(id);
        assert(text::is_digit(id[0]));
        assert(pow(10, 19) == 10_000_000_000_000_000_000) by {
            reveal_with_fuel(pow, 20);
        }
        if id.len() < 19 {
            vstd::arithmetic::power::lemma_pow_increases(10, id.len(), 19);
        }
    }
}

/// A date is read as RFC 3339 where it is one, and else in the format of the
/// service.
pub proof fn law_dates_in_their_formats(value: Seq<char>)
    ensures
        bridge::iso_of_rfc3339(value) matches Some(moment) ==> date_in(value) == Some(moment),
        bridge::iso_of_rfc3339(value) is None ==> date_in(value) == bridge::iso_of_format(
            value,
            "%a %b %d %H:%M:%S %z %Y"@,
        ),
{
}

} // verus!
