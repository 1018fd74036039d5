use tron_node::logfmt::{civil_from_days, commas, duration_ms, log_timestamp, utc_millis};

#[test]
fn commas_groups_by_three() {
    assert_eq!(commas(0), "0");
    assert_eq!(commas(999), "999");
    assert_eq!(commas(1_000), "1,000");
    assert_eq!(commas(83_344_101), "83,344,101");
    assert_eq!(commas(-12_345), "-12,345");
}

#[test]
fn utc_millis_renders_known_timestamps() {
    assert_eq!(utc_millis(1_700_000_000_000), "2023-11-14 22:13:20Z");
    assert_eq!(utc_millis(1), "1970-01-01 00:00:00Z");
    assert_eq!(utc_millis(0), "—");
}

#[test]
fn log_timestamp_keeps_millis_and_drops_z() {
    assert_eq!(log_timestamp(1_700_000_000_123), "2023-11-14 22:13:20.123");
    assert_eq!(log_timestamp(0), "1970-01-01 00:00:00.000");
    assert_eq!(log_timestamp(-5), "1970-01-01 00:00:00.000");
}

#[test]
fn duration_ms_picks_top_two_units() {
    assert_eq!(duration_ms(0), "0s");
    assert_eq!(duration_ms(-5), "0s");
    assert_eq!(duration_ms(4_000), "4s");
    assert_eq!(duration_ms(65_000), "1m 5s");
    assert_eq!(duration_ms(3_660_000), "1h 1m");
    assert_eq!(duration_ms(90_000_000), "1d 1h");
}

#[test]
fn dates_follow_the_calendar() {
    // Leap day, the day after it, and the turn of a century year.
    assert_eq!(utc_millis(951_782_400_000), "2000-02-29 00:00:00Z");
    assert_eq!(utc_millis(951_868_800_000), "2000-03-01 00:00:00Z");
    assert_eq!(utc_millis(4_107_542_400_000), "2100-03-01 00:00:00Z");
    assert_eq!(utc_millis(4_107_456_000_000), "2100-02-28 00:00:00Z");
}

#[test]
fn grouping_keeps_the_extremes() {
    assert_eq!(commas(i64::MAX), "9,223,372,036,854,775,807");
    assert_eq!(commas(i64::MIN + 1), "-9,223,372,036,854,775,807");
}

#[test]
fn dates_reach_back_before_the_epoch() {
    assert_eq!(civil_from_days(0), (1970, 1, 1));
    assert_eq!(civil_from_days(-1), (1969, 12, 31));
    assert_eq!(civil_from_days(11_016), (2000, 2, 29));
    assert_eq!(civil_from_days(-25_509), (1900, 2, 28));
    assert_eq!(civil_from_days(-25_508), (1900, 3, 1));
    assert_eq!(civil_from_days(-719_528), (0, 1, 1));
    assert_eq!(civil_from_days(-719_529), (-1, 12, 31));
}
