use chrono::{Datelike, TimeZone};
use smotrim_rss_proxy::calendar::Date;
use smotrim_rss_proxy::custom_date::{
    current_timestamp, format_rfc822, parse_custom_date, parse_custom_date_on, today_in_moscow,
    DateError,
};

fn moscow_ts(y: i32, mo: u32, d: u32, h: u32, mi: u32) -> i64 {
    chrono_tz::Europe::Moscow
        .with_ymd_and_hms(y, mo, d, h, mi, 0)
        .unwrap()
        .timestamp()
}

#[test]
fn short_form_is_today_in_moscow() {
    let today = Date { year: 2025, month: 2, day: 5 };
    let got = parse_custom_date_on("10:06", today).unwrap();
    assert_eq!(got, moscow_ts(2025, 2, 5, 10, 6));
}

#[test]
fn short_form_with_clock_today() {
    let before = chrono::Utc::now()
        .with_timezone(&chrono_tz::Europe::Moscow)
        .date_naive();
    let got = parse_custom_date("10:06").unwrap();
    let after = chrono::Utc::now()
        .with_timezone(&chrono_tz::Europe::Moscow)
        .date_naive();
    let e1 = moscow_ts(before.year(), before.month(), before.day(), 10, 6);
    let e2 = moscow_ts(after.year(), after.month(), after.day(), 10, 6);
    assert!(got == e1 || got == e2);
}

#[test]
fn full_form_is_moscow_midnight() {
    let today = Date { year: 2025, month: 6, day: 1 };
    let got = parse_custom_date_on("05 февраля 2025", today).unwrap();
    assert_eq!(got, moscow_ts(2025, 2, 5, 0, 0));
    // Independent of the notion of today.
    let other = Date { year: 1999, month: 12, day: 31 };
    assert_eq!(parse_custom_date_on("05 февраля 2025", other).unwrap(), got);
    // And through the clock-based entry point.
    assert_eq!(parse_custom_date("05 февраля 2025").unwrap(), got);
}

#[test]
fn quoted_input_is_trimmed() {
    let today = Date { year: 2025, month: 6, day: 1 };
    assert_eq!(
        parse_custom_date_on("\"05 февраля 2025\"", today).unwrap(),
        moscow_ts(2025, 2, 5, 0, 0)
    );
}

#[test]
fn moscow_offset_is_applied() {
    // Moscow is ahead of UTC, so its midnight comes earlier as an instant;
    // on 2025-02-05 the offset is three hours.
    let today = Date { year: 2025, month: 6, day: 1 };
    let got = parse_custom_date_on("05 февраля 2025", today).unwrap();
    let utc_midnight = chrono::Utc.with_ymd_and_hms(2025, 2, 5, 0, 0, 0).unwrap().timestamp();
    assert_eq!(got, utc_midnight - 3 * 3600);
}

#[test]
fn round_trip_renders_rfc822() {
    let today = Date { year: 2025, month: 2, day: 1 };
    let ts = parse_custom_date_on("05 февраля 2025", today).unwrap();
    assert_eq!(format_rfc822(ts), "Tue, 04 Feb 2025 21:00:00 +0000");
    let ts2 = parse_custom_date_on("10:06", today).unwrap();
    assert_eq!(format_rfc822(ts2), "Sat, 01 Feb 2025 07:06:00 +0000");
}

#[test]
fn rfc822_known_instants() {
    assert_eq!(format_rfc822(0), "Thu, 01 Jan 1970 00:00:00 +0000");
    let sat = chrono::Utc.with_ymd_and_hms(2025, 2, 1, 0, 0, 0).unwrap().timestamp();
    assert_eq!(format_rfc822(sat), "Sat, 01 Feb 2025 00:00:00 +0000");
    let leap = chrono::Utc.with_ymd_and_hms(2024, 2, 29, 23, 59, 59).unwrap().timestamp();
    assert_eq!(format_rfc822(leap), "Thu, 29 Feb 2024 23:59:59 +0000");
    let pre_epoch = chrono::Utc.with_ymd_and_hms(1969, 12, 31, 23, 0, 0).unwrap().timestamp();
    assert_eq!(format_rfc822(pre_epoch), "Wed, 31 Dec 1969 23:00:00 +0000");
}

#[test]
fn date_error_variants() {
    let today = Date { year: 2025, month: 6, day: 1 };
    assert_eq!(
        parse_custom_date_on("31 февраля 2025", today),
        Err(DateError::InvalidDate)
    );
    assert_eq!(
        parse_custom_date_on("05 xyz 2025", today),
        Err(DateError::Month)
    );
    assert_eq!(
        parse_custom_date_on("05 февраля", today),
        Err(DateError::Format)
    );
    assert_eq!(
        parse_custom_date_on("ab февраля 2025", today),
        Err(DateError::Number)
    );
    assert_eq!(
        parse_custom_date_on("05 февраля 20256", today),
        Err(DateError::InvalidDate)
    );
    assert_eq!(
        parse_custom_date_on("0 января 2025", today),
        Err(DateError::InvalidDate)
    );
    // A digit run too long even for a u64 is a number error, like any
    // unparsable numeric token.
    assert_eq!(
        parse_custom_date_on("18446744073709551616 февраля 2025", today),
        Err(DateError::Number)
    );
    // Year 0 falls outside the supported 1..=9999 range.
    assert_eq!(
        parse_custom_date_on("05 февраля 0", today),
        Err(DateError::InvalidDate)
    );
    assert_eq!(parse_custom_date_on("99:99", today), Err(DateError::Format));
    assert_eq!(parse_custom_date_on("", today), Err(DateError::Format));
}

#[test]
fn skipped_moscow_local_time_is_rejected() {
    // Russia still observed daylight saving in 2010: on 2010-03-28 the
    // clocks jumped from 02:00 to 03:00, so 02:30 never happened.
    let today = Date { year: 2010, month: 3, day: 28 };
    assert_eq!(
        parse_custom_date_on("02:30", today),
        Err(DateError::AmbiguousLocal)
    );
}

#[test]
fn today_in_moscow_matches_timezone_database() {
    let before = chrono::Utc::now()
        .with_timezone(&chrono_tz::Europe::Moscow)
        .date_naive();
    let got = today_in_moscow();
    let after = chrono::Utc::now()
        .with_timezone(&chrono_tz::Europe::Moscow)
        .date_naive();
    let matches = |d: chrono::NaiveDate| {
        got.year == d.year() as i64 && got.month == d.month() as u8 && got.day == d.day() as u8
    };
    assert!(matches(before) || matches(after));
}

#[test]
fn current_timestamp_tracks_clock() {
    let before = chrono::Utc::now().timestamp();
    let got = current_timestamp();
    let after = chrono::Utc::now().timestamp();
    assert!(before <= got && got <= after);
}

#[test]
fn leap_year_rules_follow_the_calendar() {
    let today = Date { year: 2025, month: 6, day: 1 };
    assert_eq!(
        parse_custom_date_on("29 февраля 2024", today).unwrap(),
        moscow_ts(2024, 2, 29, 0, 0)
    );
    assert_eq!(
        parse_custom_date_on("29 февраля 2023", today),
        Err(DateError::InvalidDate)
    );
    // A century year is a leap year only when divisible by 400.
    assert_eq!(
        parse_custom_date_on("29 февраля 2000", today).unwrap(),
        moscow_ts(2000, 2, 29, 0, 0)
    );
    assert_eq!(
        parse_custom_date_on("29 февраля 1900", today),
        Err(DateError::InvalidDate)
    );
}

#[test]
fn digit_tokens_are_judged_by_value() {
    let today = Date { year: 2025, month: 6, day: 1 };
    let want = moscow_ts(2025, 2, 5, 0, 0);
    // Leading zeros are accepted: the value decides.
    assert_eq!(parse_custom_date_on("005 февраля 2025", today).unwrap(), want);
    assert_eq!(
        parse_custom_date_on("5 февраля 0002025", today).unwrap(),
        want
    );
}

#[test]
fn tokens_split_on_any_whitespace() {
    let today = Date { year: 2025, month: 6, day: 1 };
    let want = moscow_ts(2025, 2, 5, 0, 0);
    assert_eq!(
        parse_custom_date_on("05\tфевраля\t2025", today).unwrap(),
        want
    );
    assert_eq!(
        parse_custom_date_on("  05  февраля  2025  ", today).unwrap(),
        want
    );
    assert_eq!(
        parse_custom_date_on("05\u{a0}февраля\u{a0}2025", today).unwrap(),
        want
    );
    assert_eq!(
        parse_custom_date_on("05\nфевраля\r\n2025", today).unwrap(),
        want
    );
}
