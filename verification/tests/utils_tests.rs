use cetacea::utils::{format_duration, format_duration_at};

#[test]
fn test_format_duration() {
    // Test cases with different timestamps
    let now = std::time::SystemTime::now()
        .duration_since(std::time::UNIX_EPOCH)
        .unwrap()
        .as_secs() as i64;

    assert_eq!(format_duration(now), "0 seconds ago");
    assert_eq!(format_duration(now - 30), "30 seconds ago");
    assert_eq!(format_duration(now - 90), "1 minutes ago");
    assert_eq!(format_duration(now - 3600), "1 hours ago");
    assert_eq!(format_duration(now - 86400), "1 days ago");
}

#[test]
fn test_format_duration_at_exact() {
    assert_eq!(format_duration_at(1000, 1000), "0 seconds ago");
    assert_eq!(format_duration_at(970, 1000), "30 seconds ago");
    assert_eq!(format_duration_at(1000, 1059), "59 seconds ago");
    assert_eq!(format_duration_at(1000, 1060), "1 minutes ago");
    assert_eq!(format_duration_at(1000, 4599), "59 minutes ago");
    assert_eq!(format_duration_at(1000, 4600), "1 hours ago");
    assert_eq!(format_duration_at(0, 86399), "23 hours ago");
    assert_eq!(format_duration_at(0, 86400), "1 days ago");
    assert_eq!(format_duration_at(0, 8640000), "100 days ago");
}

#[test]
fn test_format_duration_at_future_timestamp() {
    // A creation time ahead of the clock renders a negative second count,
    // as the age text always uses the seconds branch below one minute.
    assert_eq!(format_duration_at(1030, 1000), "-30 seconds ago");
}
