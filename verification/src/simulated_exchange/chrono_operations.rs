//! Dates and times of market data: exchange-local (UTC+8) clock fields of
//! UNIX timestamps, dates inside table names, and date text expansion.
use vstd::prelude::*;
use vstd::string::*;
use vstd::utf8::*;
use chrono::{Datelike, FixedOffset, NaiveDate, TimeZone, Timelike};
use regex::Regex;
use crate::common::ExchangeError;
use crate::sandbox::queries_operations::texts;
use crate::text::{has_prefix, starts_with};

verus! {

broadcast use {encode_utf8_decode_utf8, encode_utf8_valid_utf8};

/// Seconds east of UTC of the exchange's clock (UTC+8).
pub const EXCHANGE_OFFSET_SECS: i32 = 28800;

/// The earliest UNIX time in milliseconds that chrono can represent: the
/// first millisecond of its first calendar day, in UTC.
pub const EARLIEST_UNIX_MS: i64 = -8334601228800000;

/// The latest UNIX time in milliseconds that chrono can represent: the last
/// millisecond of its last calendar day, in UTC.
pub const LATEST_UNIX_MS: i64 = 8210266876799999;

/// The UNIX time in milliseconds at which year 0 (1 BC) begins in UTC.
pub const YEAR_ZERO_UNIX_MS: i64 = -62167219200000;

/// The second of the day, at `offset_secs` seconds east of UTC, at which a
/// UNIX time in milliseconds falls.
pub open spec fn second_of_day_at_offset(unix_ms: int, offset_secs: int) -> int {
    (unix_ms / 1000 + offset_secs) % 86400
}

/// The hour of a UNIX time in milliseconds at `offset_secs` seconds east
/// of UTC.
pub open spec fn hour_at_offset(unix_ms: int, offset_secs: int) -> int {
    second_of_day_at_offset(unix_ms, offset_secs) / 3600
}

/// The minute of a UNIX time in milliseconds at `offset_secs` seconds east
/// of UTC.
pub open spec fn minute_at_offset(unix_ms: int, offset_secs: int) -> int {
    (second_of_day_at_offset(unix_ms, offset_secs) % 3600) / 60
}

/// Whether chrono can represent a UNIX time in milliseconds.
pub open spec fn representable_ms(unix_ms: int) -> bool {
    EARLIEST_UNIX_MS <= unix_ms <= LATEST_UNIX_MS
}

/// The day, counted from 1970-01-01 (day 0), on which a UNIX time in
/// milliseconds falls at `offset_secs` seconds east of UTC.
pub open spec fn local_day(unix_ms: int, offset_secs: int) -> int {
    (unix_ms + offset_secs * 1000) / 86_400_000
}

/// The date (year, month, day) in the proleptic Gregorian calendar of a day
/// counted from 1970-01-01 (day 0); year 0 is the year before year 1.
pub open spec fn civil_from_days(days: int) -> (int, int, int) {
    let z = days + 719468;
    let era = z / 146097;
    let doe = z - era * 146097;
    let yoe = (doe - doe / 1460 + doe / 36524 - doe / 146096) / 365;
    let doy = doe - (365 * yoe + yoe / 4 - yoe / 100);
    let mp = (5 * doy + 2) / 153;
    let d = doy - (153 * mp + 2) / 5 + 1;
    let m = if mp < 10 { mp + 3 } else { mp - 9 };
    let y = yoe + era * 400;
    (if m <= 2 { y + 1 } else { y }, m, d)
}

/// The date (year, month, day) of a UNIX time in milliseconds at
/// `offset_secs` seconds east of UTC.
pub open spec fn date_at_offset(unix_ms: int, offset_secs: int) -> (int, int, int) {
    civil_from_days(local_day(unix_ms, offset_secs))
}

/// The clock fields of a UNIX time in milliseconds at `offset_secs`
/// seconds east of UTC: (year, month, day, hour, minute).
///
/// Calls chrono's `FixedOffset::east_opt`, `TimeZone::timestamp_millis_opt`,
/// `Datelike::{year, month, day}` and `Timelike::{hour, minute}`. Stated: the
/// result is present exactly when chrono can represent the time, which is
/// when it lies between its first and its last calendar day in UTC; the date
/// is the proleptic Gregorian date of the local day ([`date_at_offset`]),
/// with month and day in their calendar ranges and the year within chrono's
/// representable years, not negative exactly when the local time is at or
/// after the start of year 0; hour and minute follow from the time of day,
/// as chrono computes it from the Euclidean division of the milliseconds.
#[verifier::external_body]
fn clock_fields_at_offset(unix_ms: i64, offset_secs: i32) -> (r: Option<(i32, u32, u32, u32, u32)>)
    requires
        -86400 < offset_secs < 86400,
    ensures
        r is Some <==> representable_ms(unix_ms as int),
        r matches Some((y, mo, d, h, mi)) ==> {
            &&& date_at_offset(unix_ms as int, offset_secs as int) == (y as int, mo as int, d as int)
            &&& 1 <= mo <= 12
            &&& 1 <= d <= 31
            &&& -262145 < y < 262144
            &&& (y >= 0 <==> unix_ms + offset_secs * 1000 >= YEAR_ZERO_UNIX_MS)
            &&& h as int == hour_at_offset(unix_ms as int, offset_secs as int)
            &&& mi as int == minute_at_offset(unix_ms as int, offset_secs as int)
        },
{
    let offset = FixedOffset::east_opt(offset_secs).unwrap();
    match offset.timestamp_millis_opt(unix_ms).single() {
        Some(t) => Some((t.year(), t.month(), t.day(), t.hour(), t.minute())),
        None => None,
    }
}

/// The hour (0 to 23) of a UNIX time in milliseconds on the exchange's
/// UTC+8 clock.
pub fn local_hour_from_unix(unix_time: i64) -> (r: u32)
    requires
        representable_ms(unix_time as int),
    ensures
        r as int == hour_at_offset(unix_time as int, EXCHANGE_OFFSET_SECS as int),
        r < 24,
{
    match clock_fields_at_offset(unix_time, EXCHANGE_OFFSET_SECS) {
        Some((_y, _mo, _d, h, _mi)) => h,
        None => 0,
    }
}

/// The minute (0 to 59) of a UNIX time in milliseconds on the exchange's
/// UTC+8 clock.
pub fn local_minute_from_unix(unix_time: i64) -> (r: u32)
    requires
        representable_ms(unix_time as int),
    ensures
        r as int == minute_at_offset(unix_time as int, EXCHANGE_OFFSET_SECS as int),
        r < 60,
{
    match clock_fields_at_offset(unix_time, EXCHANGE_OFFSET_SECS) {
        Some((_y, _mo, _d, _h, mi)) => mi,
        None => 0,
    }
}

/// The date `year * 10000 + month * 100 + day` of a calendar date.
pub open spec fn packed_date(date: (int, int, int)) -> int {
    date.0 * 10000 + date.1 * 100 + date.2
}

/// Whether the exchange-local (UTC+8) time of a UNIX time in milliseconds
/// is at or after the start of year 0.
pub open spec fn local_year_not_negative(unix_ms: int) -> bool {
    unix_ms + EXCHANGE_OFFSET_SECS * 1000 >= YEAR_ZERO_UNIX_MS
}

/// The UTC+8 date of a UNIX time in milliseconds as `YYYYMMDD`, for times
/// whose year is not negative.
pub fn local_date_from_unix(unix_time: i64) -> (r: u32)
    requires
        representable_ms(unix_time as int),
        local_year_not_negative(unix_time as int),
    ensures
        r as int == packed_date(date_at_offset(unix_time as int, EXCHANGE_OFFSET_SECS as int)),
{
    match clock_fields_at_offset(unix_time, EXCHANGE_OFFSET_SECS) {
        Some((y, mo, d, _h, _mi)) => {
            let year = y as u32;
            year * 10000 + mo * 100 + d
        },
        None => 0,
    }
}

/// The UTC+8 hour, minute and `YYYYMMDD` date of a UNIX time in
/// milliseconds: `None` when chrono cannot represent the time; the date is
/// `None` for times before year 0.
pub fn local_clock_from_unix(unix_time: i64) -> (r: Option<(u32, u32, Option<u32>)>)
    ensures
        r is Some <==> representable_ms(unix_time as int),
        r matches Some((h, mi, date)) ==> {
            &&& h as int == hour_at_offset(unix_time as int, EXCHANGE_OFFSET_SECS as int)
            &&& mi as int == minute_at_offset(unix_time as int, EXCHANGE_OFFSET_SECS as int)
            &&& (date is Some <==> local_year_not_negative(unix_time as int))
            &&& (date matches Some(p) ==> p as int == packed_date(
                date_at_offset(unix_time as int, EXCHANGE_OFFSET_SECS as int),
            ))
        },
{
    if unix_time < EARLIEST_UNIX_MS || unix_time > LATEST_UNIX_MS {
        return None;
    }
    let h = local_hour_from_unix(unix_time);
    let mi = local_minute_from_unix(unix_time);
    let date = if unix_time >= YEAR_ZERO_UNIX_MS - 28800000 {
        Some(local_date_from_unix(unix_time))
    } else {
        None
    };
    Some((h, mi, date))
}

/// The text of capture group 1 of the regular expression `pattern` in `text`,
/// as the regex crate finds it: `None` when the pattern does not compile,
/// does not match, or the group does not take part in the match.
pub uninterp spec fn regex_first_group(pattern: Seq<char>, text: Seq<char>) -> Option<Seq<char>>;

/// Calls `Regex::new(pattern)`, `Regex::captures(text)` and `Captures::get(1)`.
/// The result is named [`regex_first_group`]; the regex semantics are not
/// restated.
#[verifier::external_body]
fn first_group(pattern: &str, text: &str) -> (r: Option<String>)
    ensures
        match r {
            Some(s) => regex_first_group(pattern@, text@) == Some(s@),
            None => regex_first_group(pattern@, text@) is None,
        },
{
    let re = match Regex::new(pattern) {
        Ok(re) => re,
        Err(_) => return None,
    };
    match re.captures(text) {
        Some(caps) => match caps.get(1) {
            Some(m) => Some(m.as_str().to_string()),
            None => None,
        },
        None => None,
    }
}

/// The pattern of a Binance table name with its `YYYY_MM_DD` date captured.
pub open spec fn binance_table_pattern() -> Seq<char> {
    "(?i)binance_.+_(\\d{4}_\\d{2}_\\d{2})"@
}

/// The pattern of an OKEx table name with its `YYYY_MM_DD` date captured.
pub open spec fn okex_table_pattern() -> Seq<char> {
    "(?i)okex_.+_(\\d{4}_\\d{2}_\\d{2})"@
}

/// The date in a table name: for names that start with `binance` or `okex`,
/// the date that the exchange's table pattern captures; otherwise none.
pub open spec fn table_name_date(table_name: Seq<char>) -> Option<Seq<char>> {
    if has_prefix(table_name, "binance"@) {
        regex_first_group(binance_table_pattern(), table_name)
    } else if has_prefix(table_name, "okex"@) {
        regex_first_group(okex_table_pattern(), table_name)
    } else {
        None
    }
}

/// The `YYYY_MM_DD` date inside a table name (see [`table_name_date`]).
pub fn extract_date(table_name: &str) -> (r: Option<String>)
    ensures
        match r {
            Some(s) => table_name_date(table_name@) == Some(s@),
            None => table_name_date(table_name@) is None,
        },
{
    if starts_with(table_name, "binance") {
        first_group("(?i)binance_.+_(\\d{4}_\\d{2}_\\d{2})", table_name)
    } else if starts_with(table_name, "okex") {
        first_group("(?i)okex_.+_(\\d{4}_\\d{2}_\\d{2})", table_name)
    } else {
        None
    }
}

/// The expansion of an eight-byte `YYYYMMDD` date to `YYYY-MM-DD 00:00:00`,
/// cut at bytes 4 and 6; any other length gives `Invalid Date`.
pub open spec fn expanded_date(bytes: Seq<u8>) -> Seq<char> {
    if bytes.len() == 8 {
        decode_utf8(bytes.subrange(0, 4)) + "-"@ + decode_utf8(bytes.subrange(4, 6)) + "-"@
            + decode_utf8(bytes.subrange(6, 8)) + " 00:00:00"@
    } else {
        "Invalid Date"@
    }
}

/// Expands a `YYYYMMDD` date (see [`expanded_date`]).
pub fn expand_date_str(input_str: &str) -> (r: String)
    requires
        input_str.spec_bytes().len() <= usize::MAX,
        input_str.spec_bytes().len() == 8 ==> {
            &&& is_char_boundary(input_str.spec_bytes(), 4)
            &&& is_char_boundary(input_str.spec_bytes(), 6)
        },
    ensures
        r@ == expanded_date(input_str.spec_bytes()),
{
    if input_str.len() == 8 {
        let ghost b = input_str.spec_bytes();
        assert(b.len() == 8);
        assert(valid_utf8(b));
        let (head, tail) = input_str.split_at(6);
        proof {
            is_char_boundary_iff_not_is_continuation_byte(b, 4);
            valid_utf8_split(b, 6);
            assert(head.spec_bytes()[4] == b[4]);
            is_char_boundary_iff_not_is_continuation_byte(head.spec_bytes(), 4);
        }
        let (year, month) = head.split_at(4);
        proof {
            assert(year.spec_bytes() =~= b.subrange(0, 4));
            assert(month.spec_bytes() =~= b.subrange(4, 6));
            assert(tail.spec_bytes() =~= b.subrange(6, 8));
        }
        let mut out = String::from_str(year);
        out.append("-");
        out.append(month);
        out.append("-");
        out.append(tail);
        out.append(" 00:00:00");
        out
    } else {
        String::from_str("Invalid Date")
    }
}

} // verus!

verus! {

/// The first day that chrono's `NaiveDate` holds, counted as
/// `Datelike::num_days_from_ce` counts (January 1 of year 1 is day 1).
pub const FIRST_CALENDAR_DAY: i32 = -95746129;

/// The last day that chrono's `NaiveDate` holds, counted as
/// `Datelike::num_days_from_ce` counts.
pub const LAST_CALENDAR_DAY: i32 = 95745399;

/// The format of the dates in the names of trade tables.
pub open spec fn table_date_format() -> Seq<char> {
    "%Y_%m_%d"@
}

/// Whether chrono can write dates in `format` without an error: every `%`
/// starts one of the specifiers `%Y`, `%m` or `%d`.
pub open spec fn plain_date_format(format: Seq<char>) -> bool {
    forall|i: int|
        0 <= i < format.len() && #[trigger] format[i] == '%' ==> i + 1 < format.len() && (format[i + 1] == 'Y'
            || format[i + 1] == 'm' || format[i + 1] == 'd')
}

/// What chrono's `NaiveDate::parse_from_str` gives for `text` read in
/// `format`: the day, counted as `num_days_from_ce` counts, or the text of
/// the parse error.
pub uninterp spec fn trade_day_parse(format: Seq<char>, text: Seq<char>) -> Result<i32, Seq<char>>;

/// The text that chrono's `NaiveDate::format` writes in `format` for a day
/// counted as `num_days_from_ce` counts.
pub uninterp spec fn trade_day_label(format: Seq<char>, day: i32) -> Seq<char>;

/// Calls chrono's `NaiveDate::parse_from_str(text, format)` and counts the
/// date with `Datelike::num_days_from_ce`; a parse error is handed back as
/// its display text. Stated: the result is named [`trade_day_parse`], and a
/// parsed day lies between the first and last day that `NaiveDate` holds.
/// Not stated: which texts parse, and to which day.
#[verifier::external_body]
fn parse_trade_day(text: &str, format: &str) -> (r: Result<i32, String>)
    ensures
        match r {
            Ok(day) => trade_day_parse(format@, text@) == Ok::<i32, Seq<char>>(day) && FIRST_CALENDAR_DAY <= day
                <= LAST_CALENDAR_DAY,
            Err(e) => trade_day_parse(format@, text@) == Err::<i32, Seq<char>>(e@),
        },
{
    match NaiveDate::parse_from_str(text, format) {
        Ok(date) => Ok(date.num_days_from_ce()),
        Err(e) => Err(e.to_string()),
    }
}

/// Calls chrono's `NaiveDate::from_num_days_from_ce_opt`, which holds every
/// day from the first to the last that `NaiveDate` holds, and writes the
/// date with `format(format)`, which cannot fail for a format whose every
/// `%` starts `%Y`, `%m` or `%d`. Stated: the text is named
/// [`trade_day_label`]. Not stated: the characters of the text.
#[verifier::external_body]
fn trade_day_text(day: i32, format: &str) -> (r: String)
    requires
        FIRST_CALENDAR_DAY <= day <= LAST_CALENDAR_DAY,
        plain_date_format(format@),
    ensures
        r@ == trade_day_label(format@, day),
{
    NaiveDate::from_num_days_from_ce_opt(day).unwrap().format(format).to_string()
}

/// The texts, in the format of table dates, of the days from `first` to
/// `last`, both included, in order (none when `last` comes before `first`).
pub open spec fn day_labels(first: i32, last: i32) -> Seq<Seq<char>> {
    Seq::new(
        if first <= last { (last - first + 1) as nat } else { 0 },
        |i: int| trade_day_label(table_date_format(), (first + i) as i32),
    )
}

/// The dates, written `%Y_%m_%d`, from `start_date` to `end_date`, both
/// included and written the same way. A date that does not parse is an
/// `InvalidTradingPair` error that quotes chrono's message, the start date
/// first (see [`trade_dates_from_parsed`]).
pub fn trade_dates_between(start_date: &str, end_date: &str) -> (r: Result<Vec<String>, ExchangeError>)
    ensures
        match (trade_day_parse(table_date_format(), start_date@), trade_day_parse(table_date_format(), end_date@)) {
            (Err(e), _) => r matches Err(ExchangeError::InvalidTradingPair(m)) && m@
                == "Invalid start date format: "@ + e,
            (Ok(_), Err(e)) => r matches Err(ExchangeError::InvalidTradingPair(m)) && m@
                == "Invalid end date format: "@ + e,
            (Ok(first), Ok(last)) => r matches Ok(v) && texts(v@) == day_labels(first, last),
        },
{
    let start = parse_trade_day(start_date, "%Y_%m_%d");
    let end = parse_trade_day(end_date, "%Y_%m_%d");
    trade_dates_from_parsed(start, end)
}

/// The dates, written `%Y_%m_%d`, of the days from `start` to `end`, both
/// included, each day counted as `num_days_from_ce` counts; a date that did
/// not parse is an `InvalidTradingPair` error that quotes the parse error,
/// the start date first.
pub fn trade_dates_from_parsed(start: Result<i32, String>, end: Result<i32, String>) -> (r: Result<
    Vec<String>,
    ExchangeError,
>)
    requires
        start matches Ok(d) ==> FIRST_CALENDAR_DAY <= d <= LAST_CALENDAR_DAY,
        end matches Ok(d) ==> FIRST_CALENDAR_DAY <= d <= LAST_CALENDAR_DAY,
    ensures
        match (start, end) {
            (Err(e), _) => r matches Err(ExchangeError::InvalidTradingPair(m)) && m@
                == "Invalid start date format: "@ + e@,
            (Ok(_), Err(e)) => r matches Err(ExchangeError::InvalidTradingPair(m)) && m@
                == "Invalid end date format: "@ + e@,
            (Ok(first), Ok(last)) => r matches Ok(v) && texts(v@) == day_labels(first, last),
        },
{
    let format = "%Y_%m_%d";
    proof {
        reveal_strlit("%Y_%m_%d");
        assert forall|i: int| 0 <= i < format@.len() && #[trigger] format@[i] == '%' implies i + 1 < format@.len() && (
        format@[i + 1] == 'Y' || format@[i + 1] == 'm' || format@[i + 1] == 'd') by {
            assert(i == 0 || i == 3 || i == 6);
        }
    }
    let first = match start {
        Ok(d) => d,
        Err(e) => {
            let mut m = String::from_str("Invalid start date format: ");
            m.append(e.as_str());
            return Err(ExchangeError::InvalidTradingPair(m));
        },
    };
    let last = match end {
        Ok(d) => d,
        Err(e) => {
            let mut m = String::from_str("Invalid end date format: ");
            m.append(e.as_str());
            return Err(ExchangeError::InvalidTradingPair(m));
        },
    };
    let mut dates: Vec<String> = Vec::new();
    if first <= last {
        let mut day = first;
        loop
            invariant_except_break
                FIRST_CALENDAR_DAY <= first <= day <= last <= LAST_CALENDAR_DAY,
                format@ == table_date_format(),
                plain_date_format(format@),
                texts(dates@) == day_labels(first, (day - 1) as i32),
            ensures
                texts(dates@) == day_labels(first, last),
            decreases last - day,
        {
            let label = trade_day_text(day, format);
            let ghost before = texts(dates@);
            dates.push(label);
            proof {
                let want = day_labels(first, day);
                let had = day_labels(first, (day - 1) as i32);
                assert(before.len() == day - first);
                assert(texts(dates@).len() == want.len());
                assert forall|i: int| 0 <= i < want.len() implies #[trigger] texts(dates@)[i] == want[i] by {
                    if i < before.len() {
                        assert(before[i] == had[i]);
                    }
                }
                assert(texts(dates@) =~= want);
            }
            if day == last {
                break;
            }
            day = day + 1;
        }
    } else {
        assert(texts(dates@) =~= day_labels(first, last));
    }
    Ok(dates)
}

} // verus!
