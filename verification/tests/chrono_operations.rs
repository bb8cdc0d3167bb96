use chrono::{Datelike, FixedOffset, TimeZone, Timelike, Utc};
use unilink_execution::simulated_exchange::chrono_operations::{
    expand_date_str, extract_date, local_clock_from_unix, local_date_from_unix, local_hour_from_unix, local_minute_from_unix,
    EARLIEST_UNIX_MS, EXCHANGE_OFFSET_SECS, LATEST_UNIX_MS, YEAR_ZERO_UNIX_MS,
};

#[test]
fn test_local_hour_from_unix() {
    let unix_time: i64 = 1634817600000;
    let hour = local_hour_from_unix(unix_time);
    assert_eq!(hour, 20);
}

#[test]
fn test_local_date_from_unix() {
    let unix_time: i64 = 1634817600000;
    let date = local_date_from_unix(unix_time);
    assert_eq!(date, 20211021);
}

#[test]
fn test_convert_date_str() {
    let date_str = "20230314";
    let formatted_date_str = expand_date_str(date_str);
    assert_eq!(formatted_date_str, "2023-03-14 00:00:00");
}

#[test]
fn test_local_minute_from_unix() {
    let unix_time: i64 = 1634817600000;
    let local_datetime = FixedOffset::east_opt(8 * 3600).unwrap().timestamp_millis_opt(unix_time).unwrap();
    let minute = local_minute_from_unix(unix_time);
    assert_eq!(local_datetime.minute(), minute);
}

#[test]
fn test_extract_date_binance() {
    let file_name = "binance_futures_trades_2024_07_03_ZRXUSDT";
    let date = extract_date(file_name);
    assert_eq!(date, Some("2024_07_03".to_string()));
}

#[test]
fn test_extract_date_okex() {
    let file_name = "okex_swap_trades_2024_03_03_BTC_USDT_SWAP";
    let date = extract_date(file_name);
    assert_eq!(date, Some("2024_03_03".to_string()));
}

#[test]
fn test_extract_date_invalid_binance() {
    let file_name = "binance_futures_trades_invalid_ZRXUSDT";
    let date = extract_date(file_name);
    assert_eq!(date, None);
}

#[test]
fn test_extract_date_invalid_okex() {
    let file_name = "okex_swap_trades_invalid_BTC_USDT_SWAP";
    let date = extract_date(file_name);
    assert_eq!(date, None);
}

#[test]
fn test_extract_date_unrecognized_exchange() {
    let file_name = "unrecognized_futures_trades_2024_07_03_ZRXUSDT";
    let date = extract_date(file_name);
    assert_eq!(date, None);
}

#[test]
fn expand_date_str_rejects_other_lengths() {
    assert_eq!(expand_date_str("2023031"), "Invalid Date");
    assert_eq!(expand_date_str("202303141"), "Invalid Date");
    assert_eq!(expand_date_str(""), "Invalid Date");
}

#[test]
fn local_clock_crosses_midnight_at_sixteen_utc() {
    // 2021-10-21 16:30:00 UTC is 2021-10-22 00:30 at UTC+8.
    let unix_time: i64 = 1634833800000;
    assert_eq!(local_hour_from_unix(unix_time), 0);
    assert_eq!(local_minute_from_unix(unix_time), 30);
    assert_eq!(local_date_from_unix(unix_time), 20211022);
    assert_eq!(local_clock_from_unix(unix_time), Some((0, 30, Some(20211022))));
}

#[test]
fn local_clock_before_the_epoch() {
    // 1969-12-31 23:59:00 UTC is 1970-01-01 07:59 at UTC+8.
    assert_eq!(local_clock_from_unix(-60_000), Some((7, 59, Some(19700101))));
}

#[test]
fn local_clock_out_of_chrono_range_is_none() {
    assert_eq!(local_clock_from_unix(i64::MAX), None);
}

#[test]
fn representable_times_are_chronos() {
    assert!(Utc.timestamp_millis_opt(EARLIEST_UNIX_MS).single().is_some());
    assert!(Utc.timestamp_millis_opt(EARLIEST_UNIX_MS - 1).single().is_none());
    assert!(Utc.timestamp_millis_opt(LATEST_UNIX_MS).single().is_some());
    assert!(Utc.timestamp_millis_opt(LATEST_UNIX_MS + 1).single().is_none());
    assert_eq!(local_clock_from_unix(EARLIEST_UNIX_MS), Some((8, 0, None)));
    assert_eq!(local_clock_from_unix(EARLIEST_UNIX_MS - 1), None);
    assert_eq!(local_clock_from_unix(LATEST_UNIX_MS), Some((7, 59, Some(2621430101))));
    assert_eq!(local_clock_from_unix(LATEST_UNIX_MS + 1), None);
}

#[test]
fn year_zero_starts_at_its_constant() {
    assert_eq!(Utc.timestamp_millis_opt(YEAR_ZERO_UNIX_MS).unwrap().year(), 0);
    assert_eq!(Utc.timestamp_millis_opt(YEAR_ZERO_UNIX_MS - 1).unwrap().year(), -1);
    let local_start = YEAR_ZERO_UNIX_MS - 1000 * EXCHANGE_OFFSET_SECS as i64;
    assert_eq!(local_clock_from_unix(local_start), Some((0, 0, Some(101))));
    assert_eq!(local_clock_from_unix(local_start - 1), Some((23, 59, None)));
}

#[test]
fn exchange_clock_is_eight_hours_east() {
    assert_eq!(EXCHANGE_OFFSET_SECS, 8 * 3600);
}
