//! Locale-specific date normalization: parses the upstream's two date
//! shapes (a short Moscow clock time, and a day / Russian genitive month /
//! year form) into a UTC Unix timestamp, and renders any timestamp as an
//! RFC-822 date-time line for the feed. Moscow's UTC offset and the current
//! date and time come from the timezone database and clock through trusted
//! wrappers; all remaining arithmetic and grammar is verified.

use vstd::prelude::*;
use chrono::{Datelike, Offset, TimeZone};

use crate::calendar::{
    civil_from_days, civil_from_days_exec, date_valid, days_from_civil, days_from_civil_exec,
    is_valid_date, valid_date_exec, weekday_exec, weekday_of_day, Date,
};
use crate::text::{
    all_digits, dec_val, digit_char, four_dig, is_digit_char, parse_u64_digits, push_2dig,
    push_4dig, str_eq, trim_quote_ends, trim_quotes,
};

verus! {

/// Why a date string was rejected.
#[derive(Clone, Copy, PartialEq, Eq, Structural, Debug)]
pub enum DateError {
    /// The text fits neither accepted shape.
    Format,
    /// A day or year token is not a short digit run.
    Number,
    /// The month token is not a known Russian genitive month name.
    Month,
    /// The day, month and year do not name a calendar date in years 1-9999.
    InvalidDate,
    /// The Moscow civil time is skipped or repeated, so no single UTC
    /// instant corresponds to it.
    AmbiguousLocal,
}

/// Earliest timestamp the RFC-822 renderer accepts (midnight before
/// 0001-01-01 UTC, with a day of slack for timezone conversion).
pub const FMT_TS_MIN: i64 = -62135683200;

/// Latest timestamp the RFC-822 renderer accepts (end of 9999-12-31 UTC,
/// with a day of slack for timezone conversion).
pub const FMT_TS_MAX: i64 = 253402387199;

/// UTC offset, in seconds, that the timezone database assigns to the Moscow
/// civil time y-m-d hh:mi, or None when that civil time is skipped or
/// repeated. The database is compiled into the library, so the result is a
/// function of the civil time alone.
pub uninterp spec fn moscow_offset_seconds(y: int, m: int, d: int, hh: int, mi: int) -> Option<
    int,
>;

/// Relies on chrono-tz's `Europe::Moscow` with chrono's
/// `TimeZone::from_local_datetime` and `LocalResult::single`: resolves a
/// Moscow civil time to its UTC offset in seconds, None when the local time
/// is skipped or repeated. The offset comes out of a chrono `FixedOffset`,
/// which holds strictly between -86400 and 86400 seconds by construction.
#[verifier::external_body]
fn moscow_offset_lookup(y: i64, m: u8, d: u8, hh: u8, mi: u8) -> (r: Option<i32>)
    requires
        0 <= y <= 9999,
        is_valid_date(y as int, m as int, d as int),
        hh < 24,
        mi < 60,
    ensures
        r matches Some(off) ==> {
            &&& moscow_offset_seconds(y as int, m as int, d as int, hh as int, mi as int)
                == Some(off as int)
            &&& -86400 < off < 86400
        },
        r is None ==> moscow_offset_seconds(
            y as int,
            m as int,
            d as int,
            hh as int,
            mi as int,
        ) is None,
{
    let nd = chrono::NaiveDate::from_ymd_opt(y as i32, m as u32, d as u32).unwrap();
    let nt = chrono::NaiveTime::from_hms_opt(hh as u32, mi as u32, 0).unwrap();
    let ndt = chrono::NaiveDateTime::new(nd, nt);
    match chrono_tz::Europe::Moscow.from_local_datetime(&ndt).single() {
        Some(dt) => Some(dt.offset().fix().local_minus_utc()),
        None => None,
    }
}

/// Relies on chrono's `Utc::now` converted through chrono-tz's
/// `Europe::Moscow`: the current civil date in Moscow. Only that the result
/// is a real calendar date is assumed; nothing about which date comes back,
/// as it depends on the clock. `Utc::now` itself panics on a host clock set
/// before the Unix epoch; that exposure is the outside call's own.
#[verifier::external_body]
fn today_in_moscow_raw() -> (r: (i64, u8, u8))
    ensures
        is_valid_date(r.0 as int, r.1 as int, r.2 as int),
{
    let d = chrono::Utc::now().with_timezone(&chrono_tz::Europe::Moscow).date_naive();
    (d.year() as i64, d.month() as u8, d.day() as u8)
}

/// Relies on chrono's `Utc::now`: seconds since the Unix epoch. Nothing is
/// assumed of the value, which depends on the clock. `Utc::now` itself
/// panics on a host clock set before the Unix epoch; that exposure is the
/// outside call's own.
#[verifier::external_body]
fn now_unix_seconds() -> (r: i64) {
    chrono::Utc::now().timestamp()
}

/// Today's civil date in Moscow, clamped into the supported year range;
/// the clamp only matters for a clock set outside years 1-9999.
pub fn today_in_moscow() -> (r: Date)
    ensures
        date_valid(r),
        1 <= r.year <= 9999,
{
    let (y, m, d) = today_in_moscow_raw();
    if 1 <= y && y <= 9999 {
        Date { year: y, month: m, day: d }
    } else {
        Date { year: 1970, month: 1, day: 1 }
    }
}

/// The current Unix timestamp, clamped into the range the RFC-822 renderer
/// accepts; the clamp only matters for a clock set outside years 1-9999.
pub fn current_timestamp() -> (r: i64)
    ensures
        FMT_TS_MIN <= r <= FMT_TS_MAX,
{
    let t = now_unix_seconds();
    if FMT_TS_MIN <= t && t <= FMT_TS_MAX {
        t
    } else {
        0
    }
}

/// English three-letter weekday name, 0 for Sunday through 6 for Saturday.
pub open spec fn weekday_name(wd: int) -> Seq<char> {
    if wd == 0 { "Sun"@ }
    else if wd == 1 { "Mon"@ }
    else if wd == 2 { "Tue"@ }
    else if wd == 3 { "Wed"@ }
    else if wd == 4 { "Thu"@ }
    else if wd == 5 { "Fri"@ }
    else { "Sat"@ }
}

/// English three-letter month name, 1 for January through 12 for December.
pub open spec fn month_name(m: int) -> Seq<char> {
    if m == 1 { "Jan"@ }
    else if m == 2 { "Feb"@ }
    else if m == 3 { "Mar"@ }
    else if m == 4 { "Apr"@ }
    else if m == 5 { "May"@ }
    else if m == 6 { "Jun"@ }
    else if m == 7 { "Jul"@ }
    else if m == 8 { "Aug"@ }
    else if m == 9 { "Sep"@ }
    else if m == 10 { "Oct"@ }
    else if m == 11 { "Nov"@ }
    else { "Dec"@ }
}

/// The RFC-822 date-time line for a UTC timestamp, always with a +0000 zone.
pub open spec fn spec_rfc822(ts: int) -> Seq<char> {
    let rel = ts - FMT_TS_MIN;
    let day = rel / 86400 - 719163;
    let sod = rel % 86400;
    let ymd = civil_from_days(day);
    let wd = weekday_of_day(day);
    Seq::<char>::empty() + weekday_name(wd) + ", "@ + crate::text::two_dig(ymd.2) + " "@
        + month_name(ymd.1) + " "@ + four_dig(ymd.0) + " "@ + crate::text::two_dig(sod / 3600)
        + ":"@ + crate::text::two_dig(sod % 3600 / 60) + ":"@ + crate::text::two_dig(sod % 60)
        + " +0000"@
}

fn push_weekday(out: &mut String, wd: u8)
    requires
        wd < 7,
    ensures
        final(out)@ == old(out)@ + weekday_name(wd as int),
{
    if wd == 0 { out.append("Sun"); }
    else if wd == 1 { out.append("Mon"); }
    else if wd == 2 { out.append("Tue"); }
    else if wd == 3 { out.append("Wed"); }
    else if wd == 4 { out.append("Thu"); }
    else if wd == 5 { out.append("Fri"); }
    else { out.append("Sat"); }
}

fn push_month(out: &mut String, m: u8)
    requires
        1 <= m <= 12,
    ensures
        final(out)@ == old(out)@ + month_name(m as int),
{
    if m == 1 { out.append("Jan"); }
    else if m == 2 { out.append("Feb"); }
    else if m == 3 { out.append("Mar"); }
    else if m == 4 { out.append("Apr"); }
    else if m == 5 { out.append("May"); }
    else if m == 6 { out.append("Jun"); }
    else if m == 7 { out.append("Jul"); }
    else if m == 8 { out.append("Aug"); }
    else if m == 9 { out.append("Sep"); }
    else if m == 10 { out.append("Oct"); }
    else if m == 11 { out.append("Nov"); }
    else { out.append("Dec"); }
}

/// Renders a UTC timestamp as an RFC-822 date-time line, such as
/// `Sat, 01 Feb 2025 00:00:00 +0000`.
pub fn format_rfc822(ts: i64) -> (r: String)
    requires
        FMT_TS_MIN <= ts <= FMT_TS_MAX,
    ensures
        r@ == spec_rfc822(ts as int),
{
    let rel: i64 = ts - FMT_TS_MIN;
    proof {
        assert(0 <= rel <= 315538070399);
        assert(rel as int / 86400 < 3652061) by {
            vstd::arithmetic::div_mod::lemma_multiply_divide_lt(rel as int, 86400, 3652061);
        }
        assert(0 <= rel as int / 86400);
    }
    let day: i64 = rel / 86400 - 719163;
    let sod: i64 = rel % 86400;
    let ymd = civil_from_days_exec(day);
    let wd = weekday_exec(day);
    let mut out = String::new();
    push_weekday(&mut out, wd);
    out.append(", ");
    push_2dig(&mut out, ymd.2 as u64);
    out.append(" ");
    push_month(&mut out, ymd.1);
    out.append(" ");
    push_4dig(&mut out, ymd.0 as u64);
    out.append(" ");
    push_2dig(&mut out, (sod / 3600) as u64);
    out.append(":");
    push_2dig(&mut out, (sod % 3600 / 60) as u64);
    out.append(":");
    push_2dig(&mut out, (sod % 60) as u64);
    out.append(" +0000");
    out
}

/// Shape of an RFC-822 date-time line as this library renders it: a
/// three-letter weekday, comma, two-digit day, month name, four-digit year,
/// a colon-separated clock time, and the literal +0000 zone.
pub open spec fn is_rfc822(s: Seq<char>) -> bool {
    &&& s.len() == 31
    &&& exists|w: int| 0 <= w < 7 && s.take(3) == weekday_name(w)
    &&& s[3] == ',' && s[4] == ' '
    &&& is_digit_char(s[5]) && is_digit_char(s[6]) && s[7] == ' '
    &&& exists|m: int| 1 <= m <= 12 && s.subrange(8, 11) == month_name(m)
    &&& s[11] == ' '
    &&& is_digit_char(s[12]) && is_digit_char(s[13]) && is_digit_char(s[14]) && is_digit_char(
        s[15],
    )
    &&& s[16] == ' '
    &&& is_digit_char(s[17]) && is_digit_char(s[18]) && s[19] == ':'
    &&& is_digit_char(s[20]) && is_digit_char(s[21]) && s[22] == ':'
    &&& is_digit_char(s[23]) && is_digit_char(s[24])
    &&& s[25] == ' ' && s[26] == '+'
    &&& s[27] == '0' && s[28] == '0' && s[29] == '0' && s[30] == '0'
}

proof fn lemma_weekday_name_len(w: int)
    ensures
        weekday_name(w).len() == 3,
{
    reveal_strlit("Sun");
    reveal_strlit("Mon");
    reveal_strlit("Tue");
    reveal_strlit("Wed");
    reveal_strlit("Thu");
    reveal_strlit("Fri");
    reveal_strlit("Sat");
}

proof fn lemma_month_name_len(m: int)
    ensures
        month_name(m).len() == 3,
{
    reveal_strlit("Jan");
    reveal_strlit("Feb");
    reveal_strlit("Mar");
    reveal_strlit("Apr");
    reveal_strlit("May");
    reveal_strlit("Jun");
    reveal_strlit("Jul");
    reveal_strlit("Aug");
    reveal_strlit("Sep");
    reveal_strlit("Oct");
    reveal_strlit("Nov");
    reveal_strlit("Dec");
}

proof fn lemma_digit_char_is_digit(n: int)
    ensures
        is_digit_char(digit_char(n)),
{
}

/// The month component of a day-number decomposition stays within 1..=12.
proof fn lemma_month_from_days_range(y: int, m: int, rem: int)
    requires
        1 <= m <= 12,
    ensures
        m <= crate::calendar::month_from_days(y, m, rem).0 <= 12,
    decreases 12 - m,
{
    if !(m >= 12 || rem < crate::calendar::days_in_month(y, m)) {
        lemma_month_from_days_range(y, m + 1, rem - crate::calendar::days_in_month(y, m));
    }
}

/// Every rendered timestamp takes the RFC-822 shape; the shape does not
/// depend on which instant is rendered.
pub proof fn lemma_rfc822_shape(ts: int)
    ensures
        is_rfc822(spec_rfc822(ts)),
{
    let rel = ts - FMT_TS_MIN;
    let day = rel / 86400 - 719163;
    let sod = rel % 86400;
    let ymd = civil_from_days(day);
    let wd = weekday_of_day(day);
    let s = spec_rfc822(ts);
    lemma_weekday_name_len(wd);
    lemma_month_name_len(ymd.1);
    lemma_month_from_days_range(ymd.0, 1, crate::calendar::year_from_days(0, day + 719528).1);
    reveal_strlit(", ");
    reveal_strlit(" ");
    reveal_strlit(":");
    reveal_strlit(" +0000");
    assert(0 <= wd < 7);
    assert(0 <= sod < 86400);
    assert(s.len() == 31);
    assert(s.take(3) =~= weekday_name(wd));
    assert(s.subrange(8, 11) =~= month_name(ymd.1));
    assert forall|n: int| is_digit_char(digit_char(n)) by {
        lemma_digit_char_is_digit(n);
    }
}

/// The Unicode White_Space code points: the separators that splitting a
/// text on whitespace recognizes.
pub open spec fn is_space_char(c: char) -> bool {
    let u = c as u32;
    ||| (9 <= u && u <= 13)
    ||| u == 32
    ||| u == 0x85
    ||| u == 0xa0
    ||| u == 0x1680
    ||| (0x2000 <= u && u <= 0x200a)
    ||| u == 0x2028
    ||| u == 0x2029
    ||| u == 0x202f
    ||| u == 0x205f
    ||| u == 0x3000
}

fn is_space_exec(c: char) -> (r: bool)
    ensures
        r == is_space_char(c),
{
    let u = c as u32;
    (9 <= u && u <= 13) || u == 32 || u == 0x85 || u == 0xa0 || u == 0x1680 || (0x2000 <= u && u
        <= 0x200a) || u == 0x2028 || u == 0x2029 || u == 0x202f || u == 0x205f || u == 0x3000
}

/// Drops leading whitespace characters.
pub open spec fn skip_spaces(s: Seq<char>) -> Seq<char>
    decreases s.len(),
{
    if s.len() > 0 && is_space_char(s[0]) {
        skip_spaces(s.skip(1))
    } else {
        s
    }
}

/// Length of the leading run of non-whitespace characters.
pub open spec fn token_len(s: Seq<char>) -> int
    decreases s.len(),
{
    if s.len() == 0 || is_space_char(s[0]) {
        0int
    } else {
        1 + token_len(s.skip(1))
    }
}

/// Position of the first colon, or the length when there is none.
pub open spec fn first_colon(s: Seq<char>) -> int
    decreases s.len(),
{
    if s.len() == 0 {
        0int
    } else if s[0] == ':' {
        0int
    } else {
        1 + first_colon(s.skip(1))
    }
}

pub open spec fn has_colon(s: Seq<char>) -> bool {
    exists|i: int| 0 <= i < s.len() && s[i] == ':'
}

proof fn lemma_skip_spaces_at(s: Seq<char>, k: int)
    requires
        0 <= k <= s.len(),
        forall|j: int| 0 <= j < k ==> is_space_char(s[j]),
        k == s.len() || !is_space_char(s[k]),
    ensures
        skip_spaces(s) == s.skip(k),
    decreases k,
{
    if k == 0 {
        assert(s.skip(0) =~= s);
    } else {
        lemma_skip_spaces_at(s.skip(1), k - 1);
        assert(s.skip(1).skip(k - 1) =~= s.skip(k));
    }
}

proof fn lemma_token_len_at(s: Seq<char>, k: int)
    requires
        0 <= k <= s.len(),
        forall|j: int| 0 <= j < k ==> !is_space_char(s[j]),
        k == s.len() || is_space_char(s[k]),
    ensures
        token_len(s) == k,
    decreases k,
{
    if k > 0 {
        lemma_token_len_at(s.skip(1), k - 1);
    }
}

proof fn lemma_first_colon_at(s: Seq<char>, k: int)
    requires
        0 <= k <= s.len(),
        forall|j: int| 0 <= j < k ==> s[j] != ':',
        k == s.len() || s[k] == ':',
    ensures
        first_colon(s) == k,
    decreases k,
{
    if k > 0 {
        lemma_first_colon_at(s.skip(1), k - 1);
    }
}

/// A digit string of up to two characters stays under one hundred.
proof fn lemma_dec_val_small(s: Seq<char>)
    requires
        all_digits(s),
    ensures
        s.len() == 0 ==> dec_val(s) == 0,
        s.len() <= 1 ==> dec_val(s) < 10,
        s.len() <= 2 ==> dec_val(s) < 100,
    decreases s.len(),
{
    if s.len() > 0 {
        assert(all_digits(s.drop_last()));
        lemma_dec_val_small(s.drop_last());
        assert(is_digit_char(s.last()));
    }
}

/// The fixed table of Russian genitive month names.
pub open spec fn month_from_russian(t: Seq<char>) -> Option<int> {
    if t == "января"@ { Some(1int) }
    else if t == "февраля"@ { Some(2int) }
    else if t == "марта"@ { Some(3int) }
    else if t == "апреля"@ { Some(4int) }
    else if t == "мая"@ { Some(5int) }
    else if t == "июня"@ { Some(6int) }
    else if t == "июля"@ { Some(7int) }
    else if t == "августа"@ { Some(8int) }
    else if t == "сентября"@ { Some(9int) }
    else if t == "октября"@ { Some(10int) }
    else if t == "ноября"@ { Some(11int) }
    else if t == "декабря"@ { Some(12int) }
    else { None }
}

fn month_from_russian_exec(t: &str) -> (r: Option<u8>)
    ensures
        match r {
            Some(m) => month_from_russian(t@) == Some(m as int) && 1 <= m <= 12,
            None => month_from_russian(t@) is None,
        },
{
    if str_eq(t, "января") { Some(1) }
    else if str_eq(t, "февраля") { Some(2) }
    else if str_eq(t, "марта") { Some(3) }
    else if str_eq(t, "апреля") { Some(4) }
    else if str_eq(t, "мая") { Some(5) }
    else if str_eq(t, "июня") { Some(6) }
    else if str_eq(t, "июля") { Some(7) }
    else if str_eq(t, "августа") { Some(8) }
    else if str_eq(t, "сентября") { Some(9) }
    else if str_eq(t, "октября") { Some(10) }
    else if str_eq(t, "ноября") { Some(11) }
    else if str_eq(t, "декабря") { Some(12) }
    else { None }
}

/// Holds when an executable parse result and the specification-level parse
/// result agree, value for value and error for error.
pub open spec fn result_ts_matches(r: Result<i64, DateError>, s: Result<int, DateError>) -> bool {
    match r {
        Ok(v) => s == Ok::<int, DateError>(v as int),
        Err(e) => s == Err::<int, DateError>(e),
    }
}

/// The short clock form `H:MM` / `HH:MM`: that time today in Moscow,
/// converted to a UTC instant with the Moscow offset.
pub open spec fn spec_parse_time_only(t: Seq<char>, today: Date) -> Result<int, DateError> {
    let k = first_colon(t);
    let h = t.take(k);
    let mnt = t.skip(k + 1);
    if !(k < t.len() && 1 <= h.len() <= 2 && all_digits(h) && 1 <= mnt.len() <= 2 && all_digits(
        mnt,
    ) && dec_val(h) < 24 && dec_val(mnt) < 60) {
        Err(DateError::Format)
    } else {
        match moscow_offset_seconds(
            today.year as int,
            today.month as int,
            today.day as int,
            dec_val(h) as int,
            dec_val(mnt) as int,
        ) {
            Some(off) => Ok(
                days_from_civil(today.year as int, today.month as int, today.day as int) * 86400
                    + dec_val(h) * 3600 + dec_val(mnt) * 60 - off,
            ),
            None => Err(DateError::AmbiguousLocal),
        }
    }
}

/// The full form `day russian-month-genitive year`: midnight Moscow time on
/// that date, converted to a UTC instant with the Moscow offset.
pub open spec fn spec_parse_full_date(t: Seq<char>) -> Result<int, DateError> {
    let r0 = skip_spaces(t);
    let k1 = token_len(r0);
    let t1 = r0.take(k1);
    let r1 = skip_spaces(r0.skip(k1));
    let k2 = token_len(r1);
    let t2 = r1.take(k2);
    let r2 = skip_spaces(r1.skip(k2));
    let k3 = token_len(r2);
    let t3 = r2.take(k3);
    let r3 = skip_spaces(r2.skip(k3));
    if !(k1 > 0 && k2 > 0 && k3 > 0 && r3.len() == 0) {
        Err(DateError::Format)
    } else if !(all_digits(t1) && dec_val(t1) < 0x1_0000_0000_0000_0000 && all_digits(t3)
        && dec_val(t3) < 0x1_0000_0000_0000_0000) {
        Err(DateError::Number)
    } else {
        match month_from_russian(t2) {
            None => Err(DateError::Month),
            Some(m) => {
                // Digit tokens are judged by value, of any width. Years are
                // capped to 1..=9999: the RFC-822 renderer writes four-digit
                // years and the timestamp bounds end with year 9999.
                if !(1 <= dec_val(t3) <= 9999 && is_valid_date(
                    dec_val(t3) as int,
                    m,
                    dec_val(t1) as int,
                )) {
                    Err(DateError::InvalidDate)
                } else {
                    match moscow_offset_seconds(dec_val(t3) as int, m, dec_val(t1) as int, 0, 0) {
                        Some(off) => Ok(
                            days_from_civil(dec_val(t3) as int, m, dec_val(t1) as int) * 86400
                                - off,
                        ),
                        None => Err(DateError::AmbiguousLocal),
                    }
                }
            },
        }
    }
}

/// The date grammar: quote characters are trimmed from both ends; short
/// texts holding a colon are clock times on `today`, everything else is the
/// three-token day-month-year form.
pub open spec fn spec_parse_custom_date(s: Seq<char>, today: Date) -> Result<int, DateError> {
    let t = trim_quotes(s);
    if t.len() <= 5 && has_colon(t) {
        spec_parse_time_only(t, today)
    } else {
        spec_parse_full_date(t)
    }
}

/// Index right after the leading run of whitespace starting at `from`.
fn scan_spaces(s: &str, from: usize) -> (r: usize)
    requires
        from <= s@.len(),
    ensures
        from <= r <= s@.len(),
        skip_spaces(s@.skip(from as int)) == s@.skip(r as int),
        r == s@.len() || !is_space_char(s@[r as int]),
    decreases s@.len() - from,
{
    let n = s.unicode_len();
    let mut i: usize = from;
    while i < n && is_space_exec(s.get_char(i))
        invariant
            from <= i <= n,
            n == s@.len(),
            forall|j: int| from <= j < i ==> is_space_char(s@[j]),
        decreases n - i,
    {
        i = i + 1;
    }
    proof {
        let t = s@.skip(from as int);
        assert(forall|j: int| 0 <= j < i - from ==> t[j] == s@[j + from] && is_space_char(t[j]));
        assert(i < n ==> t[i - from] == s@[i as int]);
        lemma_skip_spaces_at(t, i - from);
        assert(t.skip(i - from) =~= s@.skip(i as int));
    }
    i
}

/// Index right after the run of non-whitespace characters starting at
/// `from`.
fn scan_token(s: &str, from: usize) -> (r: usize)
    requires
        from <= s@.len(),
    ensures
        from <= r <= s@.len(),
        token_len(s@.skip(from as int)) == r - from,
        r == s@.len() || is_space_char(s@[r as int]),
    decreases s@.len() - from,
{
    let n = s.unicode_len();
    let mut i: usize = from;
    while i < n && !is_space_exec(s.get_char(i))
        invariant
            from <= i <= n,
            n == s@.len(),
            forall|j: int| from <= j < i ==> !is_space_char(s@[j]),
        decreases n - i,
    {
        i = i + 1;
    }
    proof {
        let t = s@.skip(from as int);
        assert(forall|j: int| 0 <= j < i - from ==> t[j] == s@[j + from] && !is_space_char(t[j]));
        assert(i < n ==> t[i - from] == s@[i as int]);
        lemma_token_len_at(t, i - from);
    }
    i
}

fn has_colon_exec(s: &str) -> (b: bool)
    ensures
        b == has_colon(s@),
{
    let n = s.unicode_len();
    let mut i: usize = 0;
    while i < n
        invariant
            0 <= i <= n,
            n == s@.len(),
            forall|j: int| 0 <= j < i ==> s@[j] != ':',
        decreases n - i,
    {
        if s.get_char(i) == ':' {
            return true;
        }
        i = i + 1;
    }
    false
}

fn parse_time_only(t: &str, today: Date) -> (r: Result<i64, DateError>)
    requires
        date_valid(today),
        1 <= today.year <= 9999,
    ensures
        result_ts_matches(r, spec_parse_time_only(t@, today)),
        r matches Ok(v) ==> FMT_TS_MIN <= v <= FMT_TS_MAX,
{
    let n = t.unicode_len();
    let mut k: usize = 0;
    while k < n && t.get_char(k) != ':'
        invariant
            0 <= k <= n,
            n == t@.len(),
            forall|j: int| 0 <= j < k ==> t@[j] != ':',
        decreases n - k,
    {
        k = k + 1;
    }
    proof {
        lemma_first_colon_at(t@, k as int);
    }
    if k >= n || k < 1 || k > 2 || n - (k + 1) < 1 || n - (k + 1) > 2 {
        return Err(DateError::Format);
    }
    let htok = t.substring_char(0, k);
    let mtok = t.substring_char(k + 1, n);
    proof {
        assert(htok@ =~= t@.take(k as int));
        assert(mtok@ =~= t@.skip(k + 1));
    }
    let hv = match parse_u64_digits(htok) {
        Some(v) => v,
        None => {
            proof {
                if all_digits(t@.take(k as int)) {
                    lemma_dec_val_small(t@.take(k as int));
                }
            }
            return Err(DateError::Format);
        },
    };
    let mv = match parse_u64_digits(mtok) {
        Some(v) => v,
        None => {
            proof {
                if all_digits(t@.skip(k + 1)) {
                    lemma_dec_val_small(t@.skip(k + 1));
                }
            }
            return Err(DateError::Format);
        },
    };
    if !(hv < 24 && mv < 60) {
        return Err(DateError::Format);
    }
    match moscow_offset_lookup(today.year, today.month, today.day, hv as u8, mv as u8) {
        Some(off) => {
            let days = days_from_civil_exec(today.year, today.month, today.day);
            proof {
                crate::calendar::lemma_days_from_civil_tight(
                    today.year as int,
                    today.month as int,
                    today.day as int,
                );
            }
            Ok(days * 86400 + (hv as i64) * 3600 + (mv as i64) * 60 - off as i64)
        },
        None => Err(DateError::AmbiguousLocal),
    }
}

fn parse_full_date(t: &str) -> (r: Result<i64, DateError>)
    ensures
        result_ts_matches(r, spec_parse_full_date(t@)),
        r matches Ok(v) ==> FMT_TS_MIN <= v <= FMT_TS_MAX,
{
    let n = t.unicode_len();
    let i0 = scan_spaces(t, 0);
    proof {
        assert(t@.skip(0) =~= t@);
    }
    let j1 = scan_token(t, i0);
    let i1 = scan_spaces(t, j1);
    let j2 = scan_token(t, i1);
    let i2 = scan_spaces(t, j2);
    let j3 = scan_token(t, i2);
    let i3 = scan_spaces(t, j3);
    proof {
        assert(t@.skip(i0 as int).skip(j1 - i0) =~= t@.skip(j1 as int));
        assert(t@.skip(i1 as int).skip(j2 - i1) =~= t@.skip(j2 as int));
        assert(t@.skip(i2 as int).skip(j3 - i2) =~= t@.skip(j3 as int));
    }
    if !(j1 > i0 && j2 > i1 && j3 > i2 && i3 == n) {
        return Err(DateError::Format);
    }
    proof {
        assert(t@.skip(i0 as int).take(j1 - i0) =~= t@.subrange(i0 as int, j1 as int));
        assert(t@.skip(i1 as int).take(j2 - i1) =~= t@.subrange(i1 as int, j2 as int));
        assert(t@.skip(i2 as int).take(j3 - i2) =~= t@.subrange(i2 as int, j3 as int));
    }
    let tok1 = t.substring_char(i0, j1);
    let tok2 = t.substring_char(i1, j2);
    let tok3 = t.substring_char(i2, j3);
    let day64 = match parse_u64_digits(tok1) {
        Some(v) => v,
        None => {
            return Err(DateError::Number);
        },
    };
    let yr64 = match parse_u64_digits(tok3) {
        Some(v) => v,
        None => {
            return Err(DateError::Number);
        },
    };
    let m = match month_from_russian_exec(tok2) {
        Some(m) => m,
        None => {
            return Err(DateError::Month);
        },
    };
    if !(1 <= yr64 && yr64 <= 9999 && day64 <= 31 && valid_date_exec(
        yr64 as i64,
        m,
        day64 as u8,
    )) {
        proof {
            assert(crate::calendar::days_in_month(yr64 as int, m as int) <= 31);
        }
        return Err(DateError::InvalidDate);
    }
    match moscow_offset_lookup(yr64 as i64, m, day64 as u8, 0, 0) {
        Some(off) => {
            let days = days_from_civil_exec(yr64 as i64, m, day64 as u8);
            proof {
                crate::calendar::lemma_days_from_civil_tight(
                    yr64 as int,
                    m as int,
                    day64 as int,
                );
            }
            Ok(days * 86400 - off as i64)
        },
        None => Err(DateError::AmbiguousLocal),
    }
}

/// Parses a date string against a given notion of today, exactly as the
/// grammar specification says: quotes trimmed, clock times resolved on
/// `today`, full dates resolved at Moscow midnight.
pub fn parse_custom_date_on(date_str: &str, today: Date) -> (r: Result<i64, DateError>)
    requires
        date_valid(today),
        1 <= today.year <= 9999,
    ensures
        result_ts_matches(r, spec_parse_custom_date(date_str@, today)),
        r matches Ok(v) ==> FMT_TS_MIN <= v <= FMT_TS_MAX,
{
    let t = trim_quote_ends(date_str);
    let n = t.as_str().unicode_len();
    if n <= 5 && has_colon_exec(t.as_str()) {
        parse_time_only(t.as_str(), today)
    } else {
        parse_full_date(t.as_str())
    }
}

/// Parses a date string, taking today's Moscow civil date from the clock.
/// The result agrees with the grammar specification for the date that was
/// current during the call.
pub fn parse_custom_date(date_str: &str) -> (r: Result<i64, DateError>)
    ensures
        exists|today: Date|
            #![auto]
            date_valid(today) && 1 <= today.year <= 9999 && result_ts_matches(
                r,
                spec_parse_custom_date(date_str@, today),
            ),
        r matches Ok(v) ==> FMT_TS_MIN <= v <= FMT_TS_MAX,
{
    let today = today_in_moscow();
    parse_custom_date_on(date_str, today)
}

/// Round trip: any instant the date parser accepts, from either input
/// shape, is rendered by the RFC-822 formatter as a date-time line of the
/// RFC-822 shape.
pub proof fn lemma_format_parse_round_trip(s: Seq<char>, today: Date, ts: int)
    requires
        spec_parse_custom_date(s, today) == Ok::<int, DateError>(ts),
    ensures
        is_rfc822(spec_rfc822(ts)),
{
    lemma_rfc822_shape(ts);
}

} // verus!
