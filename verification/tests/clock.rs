use vault_identity::clock::{
    current_time, Timestamp, ACCESS_SECONDS, MAX_SECONDS, MIN_SECONDS, REFRESH_SECONDS,
};

#[test]
fn times_are_written_by_the_rfc() {
    let at = |secs: i64, nanos: u32| Timestamp { secs, nanos }.to_rfc3339();
    assert_eq!(at(0, 0), "1970-01-01T00:00:00+00:00");
    assert_eq!(at(1700000000, 0), "2023-11-14T22:13:20+00:00");
    assert_eq!(at(1700000000, 123456789), "2023-11-14T22:13:20.123456789+00:00");
    assert_eq!(at(1700000000, 5000000), "2023-11-14T22:13:20.005+00:00");
    assert_eq!(at(-1, 0), "1969-12-31T23:59:59+00:00");
}

#[test]
fn the_calendar_ends_where_chrono_says() {
    assert_eq!(MIN_SECONDS, chrono::DateTime::<chrono::Utc>::MIN_UTC.timestamp());
    assert_eq!(MAX_SECONDS, chrono::DateTime::<chrono::Utc>::MAX_UTC.timestamp());
    assert_eq!(Timestamp { secs: MIN_SECONDS, nanos: 0 }.to_rfc3339(), "-262143-01-01T00:00:00+00:00");
    assert_eq!(
        Timestamp { secs: MAX_SECONDS, nanos: 999999999 }.to_rfc3339(),
        "+262142-12-31T23:59:59.999999999+00:00"
    );
}

#[test]
fn the_current_time_passes() {
    let before = chrono::Utc::now().timestamp();
    let now = current_time();
    let after = chrono::Utc::now().timestamp();
    assert!(before <= now.secs && now.secs <= after);
    assert!(now.nanos < 1000000000);
}

#[test]
fn tokens_live_for_two_hours_and_thirty_days() {
    assert_eq!(ACCESS_SECONDS, chrono::Duration::hours(2).num_seconds());
    assert_eq!(REFRESH_SECONDS, chrono::Duration::days(30).num_seconds());
}
