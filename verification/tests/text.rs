//! Text, UTF-16, doubles and dates.

use xread::dates::{parse_date, snowflake_millis, timestamp_to_iso};
use xread::double::{count, millis, unsigned_millis, zero};
use xread::snowflake_timestamp;
use xread::text::{
    blank, collapse_blank_lines, join_strings, lines_of, list_contains, number_text, parse_number,
    prefix_lines, repeated, replace_text, same_ignoring_case, split_text, text_contains,
    text_ends_with, text_starts_with, text_strip_prefix, to_lower, trim_end_text, trim_text,
    without_blank, without_empty, words_of,
};
use xread::utf16::{decode_units, encode_text, utf16_slice};

fn owned(parts: &[&str]) -> Vec<String> {
    parts.iter().map(|part| (*part).to_owned()).collect()
}

#[test]
fn trims_like_the_standard_library() {
    for value in ["", "  ", " a b ", "\u{3000}x\u{a0}", "a\n", "\u{85}q", "\u{200b}z"] {
        assert_eq!(trim_text(value), value.trim());
        assert_eq!(trim_end_text(value), value.trim_end());
        assert_eq!(blank(value), value.trim().is_empty());
    }
}

#[test]
fn splits_into_lines_like_the_standard_library() {
    for value in ["", "\n", "a", "a\n", "a\r\nb", "a\n\nb\r", "\r\n\r\n", "a\rb\n"] {
        let expected: Vec<&str> = value.lines().collect();
        assert_eq!(lines_of(value), expected);
    }
}

#[test]
fn splits_into_words_like_the_standard_library() {
    for value in ["", "  ", "a", " a  b\tc\u{3000}d ", "https://x.com y"] {
        let expected: Vec<&str> = value.split_whitespace().collect();
        assert_eq!(words_of(value), expected);
    }
}

#[test]
fn replaces_like_the_standard_library() {
    for (value, from, to) in [
        ("aaa", "aa", "b"),
        ("abc", "", "-"),
        ("", "", "-"),
        ("a.b.c", ".", ""),
        ("🚀x🚀", "🚀", "rocket"),
        ("none", "zz", "y"),
    ] {
        assert_eq!(replace_text(value, from, to), value.replace(from, to));
    }
}

#[test]
fn splitting_and_joining_are_inverse() {
    for value in ["", "T", "aTb", "TaTTbT", "no separator"] {
        let parts = split_text(value, 'T');
        let expected: Vec<&str> = value.split('T').collect();
        assert_eq!(parts, expected);
        assert_eq!(join_strings(&parts, "T"), value);
    }
}

#[test]
fn searches_like_the_standard_library() {
    for (value, part) in [("abcabc", "cab"), ("abc", ""), ("", "a"), ("中文abc", "文a")] {
        assert_eq!(text_contains(value, part), value.contains(part));
        assert_eq!(text_starts_with(value, part), value.starts_with(part));
        assert_eq!(text_ends_with(value, part), value.ends_with(part));
        assert_eq!(text_strip_prefix(value, part), value.strip_prefix(part));
    }
    assert!(list_contains(&owned(&["a", "b"]), "b"));
    assert!(!list_contains(&owned(&["a", "b"]), "c"));
}

#[test]
fn keeps_filled_pieces() {
    assert_eq!(without_empty(&owned(&["", "a", " ", ""])), ["a", " "]);
    assert_eq!(without_blank(&owned(&["", "a", " ", "b"])), ["a", "b"]);
}

#[test]
fn lowers_ascii_letters_only() {
    assert_eq!(to_lower("ÄBC-xyZ"), "Äbc-xyz");
    assert!(same_ignoring_case("STATUS", "status"));
    assert!(!same_ignoring_case("STATU", "status"));
}

#[test]
fn reads_and_writes_numbers() {
    for value in [0_u64, 9, 10, 144, 18_446_744_073_709_551_615] {
        assert_eq!(number_text(value), value.to_string());
        assert_eq!(parse_number(&value.to_string(), u64::MAX), Some(value));
    }
    assert_eq!(parse_number("+7", u64::MAX), Some(7));
    assert_eq!(parse_number("007", u64::MAX), Some(7));
    for value in ["", "+", "-1", "1 ", "1.0", "18446744073709551616", "٣"] {
        assert_eq!(parse_number(value, u64::MAX), None);
    }
    assert_eq!(parse_number("256", 255), None);
}

#[test]
fn repeats_and_prefixes() {
    assert_eq!(repeated("ab", 3), "ababab");
    assert_eq!(repeated("ab", 0), "");
    assert_eq!(prefix_lines("a\n\nb", "> ", ">"), "> a\n>\n> b");
    assert_eq!(prefix_lines("", "> ", ">"), "");
}

#[test]
fn runs_of_blank_lines_become_one() {
    assert_eq!(
        collapse_blank_lines("\n\na\n\n\n \t\nb\n\nc\n\n"),
        "a\n\nb\n\nc"
    );
    assert_eq!(collapse_blank_lines(""), "");
    assert_eq!(collapse_blank_lines("a\nb"), "a\nb");
    let collapsed = collapse_blank_lines("x\n\n\n\n\ny\n \n \nz");
    assert!(!collapsed.contains("\n\n\n"));
}

#[test]
fn utf16_round_trip_on_values() {
    for value in ["", "plain", "a🚀link", "中文", "\u{10ffff}\u{ffff}"] {
        let units = encode_text(value);
        assert_eq!(units, value.encode_utf16().collect::<Vec<_>>());
        assert_eq!(decode_units(&units, 0, units.len()).as_deref(), Some(value));
    }
}

#[test]
fn refuses_to_cut_a_surrogate_pair() {
    assert_eq!(utf16_slice("a🚀link", 2, 5), None);
    assert_eq!(utf16_slice("a🚀link", 1, 2).as_deref(), Some("🚀"));
    assert_eq!(utf16_slice("abc", 2, 2), None);
    assert_eq!(utf16_slice("abc", usize::MAX, 1), None);
    assert_eq!(utf16_slice("abc", 3, 0).as_deref(), Some(""));
}

#[test]
fn doubles_are_read_by_their_bits() {
    for value in [
        0.0_f64,
        -0.0,
        0.5,
        1.0,
        12.9,
        1234.5678,
        1e15,
        1e19,
        1e300,
        5e-324,
        1_699_999_999.123,
        9_007_199_254_740_993.0,
    ] {
        assert_eq!(count(value.to_bits()), Some(value as u64), "{value}");
        assert_eq!(millis(value.to_bits()), (value * 1_000.0) as i64, "{value}");
        assert_eq!(
            unsigned_millis(value.to_bits()),
            (value * 1_000.0) as u64,
            "{value}"
        );
    }
    for value in [-1.0_f64, -1.5, -1e300] {
        assert_eq!(count(value.to_bits()), None);
        assert_eq!(millis(value.to_bits()), (value * 1_000.0) as i64);
        assert_eq!(unsigned_millis(value.to_bits()), 0);
    }
    for value in [f64::NAN, f64::INFINITY, f64::NEG_INFINITY] {
        assert_eq!(count(value.to_bits()), None);
        assert_eq!(millis(value.to_bits()), (value * 1_000.0) as i64);
        assert_eq!(unsigned_millis(value.to_bits()), (value * 1_000.0) as u64);
    }
    assert!(zero((-0.0_f64).to_bits()));
    assert!(!zero(f64::NAN.to_bits()));
    assert!(!zero(5e-324_f64.to_bits()));
}

#[test]
fn many_doubles_agree_with_the_machine() {
    let mut state: u64 = 0x9e37_79b9_7f4a_7c15;
    for _ in 0..20_000 {
        state ^= state << 13;
        state ^= state >> 7;
        state ^= state << 17;
        let exponent = 900 + state % 200;
        let bits = (state & 0x800f_ffff_ffff_ffff) | (exponent << 52);
        let value = f64::from_bits(bits);
        assert_eq!(millis(bits), (value * 1_000.0) as i64, "{value}");
        assert_eq!(unsigned_millis(bits), (value * 1_000.0) as u64, "{value}");
        if value >= 0.0 {
            assert_eq!(count(bits), Some(value as u64), "{value}");
        } else {
            assert_eq!(count(bits), None);
        }
    }
}

#[test]
fn dates_are_brought_to_utc() {
    assert_eq!(
        parse_date("2024-01-02T03:04:05+02:00").as_deref(),
        Some("2024-01-02T01:04:05.000Z")
    );
    assert_eq!(
        parse_date("Mon May 05 22:09:42 +0000 2014").as_deref(),
        Some("2014-05-05T22:09:42.000Z")
    );
    assert_eq!(parse_date("yesterday"), None);
    assert_eq!(
        timestamp_to_iso(0).as_deref(),
        Some("1970-01-01T00:00:00.000Z")
    );
    assert_eq!(timestamp_to_iso(i64::MAX), None);
}

#[test]
fn short_and_odd_ids_carry_no_time() {
    assert_eq!(snowflake_millis("463440424141459456"), Some(1_399_327_782_079));
    for id in ["20", "12345678901234", "1234567890123456789012", "46344042414145945x", ""] {
        assert_eq!(snowflake_timestamp(id), None);
    }
}

#[test]
fn later_ids_carry_later_times() {
    let earlier = snowflake_millis("463440424141459456").unwrap();
    let later = snowflake_millis("1890000000000000000").unwrap();
    assert!(earlier < later);
}

#[test]
fn moments_are_spelled_by_the_calendar() {
    for (milliseconds, expected) in [
        (951_782_400_000, "2000-02-29T00:00:00.000Z"),
        (951_868_799_999, "2000-02-29T23:59:59.999Z"),
        (951_868_800_000, "2000-03-01T00:00:00.000Z"),
        (4_107_542_400_000, "2100-03-01T00:00:00.000Z"),
        (253_402_300_799_999, "9999-12-31T23:59:59.999Z"),
    ] {
        assert_eq!(timestamp_to_iso(milliseconds).as_deref(), Some(expected));
    }
}

#[test]
fn times_of_ids_are_ordered_as_texts() {
    let ids = ["000000000000000", "463440424141459456", "463440424141459457", "9999999999999999999"];
    let times: Vec<String> = ids.iter().map(|id| snowflake_timestamp(id).unwrap()).collect();
    for pair in times.windows(2) {
        assert_eq!(pair[0].len(), 24);
        assert!(pair[0] <= pair[1]);
    }
    assert_eq!(times[0], "2010-11-04T01:42:54.657Z");
    assert_eq!(times[1], times[2]);
}
