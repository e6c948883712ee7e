use ploy_clean::utils::time::{ceil_to_interval, floor_to_interval, format_timestamp, time_diff_seconds};

#[test]
fn test_floor_to_interval() {
    assert_eq!(floor_to_interval(3661, 3600), 3600);
    assert_eq!(floor_to_interval(3600, 3600), 3600);
}

#[test]
fn test_ceil_to_interval() {
    assert_eq!(ceil_to_interval(3661, 3600), 7200);
    assert_eq!(ceil_to_interval(3600, 3600), 3600);
}

#[test]
fn test_time_diff() {
    assert_eq!(time_diff_seconds(1000, 2000), 1000);
}

#[test]
fn time_diff_is_symmetric() {
    assert_eq!(time_diff_seconds(2000, 1000), 1000);
    assert_eq!(time_diff_seconds(-50, 50), 100);
}

#[test]
fn time_diff_wraps_past_i64_max() {
    // |i64::MAX - i64::MIN| = 2^64 - 1, which wraps to -1 as an i64.
    assert_eq!(time_diff_seconds(i64::MIN, i64::MAX), -1);
}

#[test]
fn floor_aligns_down_before_the_epoch() {
    assert_eq!(floor_to_interval(-1, 3600), -3600);
    assert_eq!(floor_to_interval(-3601, 3600), -7200);
    assert_eq!(floor_to_interval(-3600, 3600), -3600);
    assert_eq!(floor_to_interval(7250, -3600), 7200);
    assert_eq!(floor_to_interval(-1, -3600), -3600);
}

#[test]
fn ceil_aligns_up_before_the_epoch() {
    assert_eq!(ceil_to_interval(-1, 3600), 0);
    assert_eq!(ceil_to_interval(-3601, 3600), -3600);
    assert_eq!(ceil_to_interval(-3600, 3600), -3600);
    assert_eq!(ceil_to_interval(7250, -3600), 10800);
}

#[test]
fn ceil_of_zero_and_small_values() {
    assert_eq!(ceil_to_interval(0, 60), 0);
    assert_eq!(ceil_to_interval(1, 60), 60);
    assert_eq!(ceil_to_interval(59, 60), 60);
}

#[test]
fn format_timestamp_renders_utc() {
    assert_eq!(format_timestamp(0), "1970-01-01 00:00:00 UTC");
    assert_eq!(format_timestamp(1000000), "1970-01-12 13:46:40 UTC");
    assert_eq!(format_timestamp(-1), "1969-12-31 23:59:59 UTC");
}

#[test]
fn format_timestamp_at_the_ends_of_the_range() {
    let last = format_timestamp(8210266876799);
    assert!(last.ends_with("12-31 23:59:59 UTC"));
    assert!(last.contains("262142"));
    let first = format_timestamp(-8334601228800);
    assert!(first.ends_with("01-01 00:00:00 UTC"));
    assert!(first.contains("262143"));
}

#[test]
fn chrono_range_ends_where_the_library_says() {
    // the day before the first representable one has no UTC date-time in chrono
    assert!(chrono::DateTime::from_timestamp(-8334601228800, 0).is_some());
    assert!(chrono::DateTime::from_timestamp(-8334601228801, 0).is_none());
    assert!(chrono::DateTime::from_timestamp(-8334601315200, 0).is_none());
    assert!(chrono::DateTime::from_timestamp(8210266876799, 0).is_some());
    assert!(chrono::DateTime::from_timestamp(8210266876800, 0).is_none());
}
