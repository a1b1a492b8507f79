use chrono::{DateTime, NaiveDateTime, NaiveTime, Timelike, Utc};

use tpt_focus::cli::print::{local_stamp, short_local_stamp};
use tpt_focus::clock::{
    floor_div, local_now, now_with_local, same_time, Span, Timestamp, WallTime, Weekday,
    FIRST_SECOND, LAST_SECOND,
};
use tpt_focus::rows::millis_to_datetime;

#[test]
fn the_calendar_has_the_same_ends() {
    assert_eq!(DateTime::<Utc>::MIN_UTC.timestamp(), FIRST_SECOND);
    assert_eq!(DateTime::<Utc>::MAX_UTC.timestamp(), LAST_SECOND);
    assert!(Timestamp::new(FIRST_SECOND, 0).is_some());
    assert!(Timestamp::new(FIRST_SECOND - 1, 0).is_none());
    assert!(Timestamp::new(LAST_SECOND, 999_999_999).is_some());
    assert!(Timestamp::new(LAST_SECOND + 1, 0).is_none());
    assert!(Timestamp::new(0, 1_000_000_000).is_none());
}

#[test]
fn milliseconds_are_counted_alike() {
    for millis in [
        0i64, 1, -1, 999, -999, -1_000, -1_001, 1_790_000_000_123, i64::MIN, i64::MAX,
        FIRST_SECOND * 1_000, FIRST_SECOND * 1_000 - 1, LAST_SECOND * 1_000 + 999,
        LAST_SECOND * 1_000 + 1_000,
    ] {
        let theirs = DateTime::from_timestamp_millis(millis);
        let ours = Timestamp::from_millis(millis);
        assert_eq!(ours.is_some(), theirs.is_some(), "{millis}");
        if let (Some(ours), Some(theirs)) = (ours, theirs) {
            assert_eq!(ours.seconds(), theirs.timestamp());
            assert_eq!(ours.subsecond_nanos(), theirs.timestamp_subsec_nanos());
            assert_eq!(ours.millis(), millis);
        }
    }
    let t = Timestamp::new(-1, 999_999_999).unwrap();
    assert_eq!(t.millis(), -1);
    assert_eq!(t.nanos(), -1);
    assert_eq!(millis_to_datetime(-1), Timestamp::new(-1, 999_000_000).unwrap());
}

#[test]
fn wall_times_are_written_alike() {
    for (secs, nanos) in [
        (0u32, 0u32), (1, 0), (86_399, 0), (3_661, 1), (3_661, 1_000), (3_661, 123_456_789),
        (45_296, 500_000_000),
    ] {
        let theirs = NaiveTime::from_num_seconds_from_midnight_opt(secs, nanos).unwrap();
        let ours = WallTime::new(secs, nanos).unwrap();
        assert_eq!(ours.to_text(), theirs.to_string());
        let back = WallTime::read(&ours.to_text()).unwrap();
        assert!(same_time(&back, &ours));
    }
    assert!(WallTime::new(86_400, 0).is_none());
    assert!(WallTime::from_hms(24, 0, 0).is_none());
    assert!(WallTime::from_hms(0, 60, 0).is_none());
    assert_eq!(WallTime::from_hms(1, 2, 3).unwrap().seconds(), 3_723);
}

#[test]
fn fractions_take_as_few_digits_as_they_need() {
    for (nanos, text) in [
        (0u32, "07:08:09"),
        (12_000_000, "07:08:09.012"),
        (1_234_000, "07:08:09.001234"),
        (123_456, "07:08:09.000123456"),
    ] {
        assert_eq!(WallTime::new(25_689, nanos).unwrap().to_text(), text);
    }
}

#[test]
fn wall_times_are_read_alike() {
    for text in [
        "00:00:00", "23:59:59", "9:05:07", "12:30", "25:00:00", "12:60:00", "", "noon",
        "12:30:15.25", "12:30:15.", " 12:30:15", "23:59:60",
    ] {
        let theirs: Option<NaiveTime> = text.parse().ok();
        let ours = WallTime::read(text);
        assert_eq!(ours.is_some(), theirs.is_some(), "{text:?}");
        if let (Some(ours), Some(theirs)) = (ours, theirs) {
            if theirs.nanosecond() < 1_000_000_000 {
                assert_eq!(ours.seconds(), theirs.num_seconds_from_midnight());
                assert_eq!(ours.subsecond_nanos(), theirs.nanosecond());
            }
        }
    }
}

#[test]
fn instants_move_and_stop_at_the_ends() {
    let t = Timestamp::new(100, 5).unwrap();
    assert_eq!(t.later_by(Span::from_millis(1_500)).nanos(), 101_500_000_005);
    assert_eq!(t.earlier_by(Span::from_secs(101)).nanos(), -1_000_000_000 + 5);
    assert_eq!(
        t.later_by(Span::from_days(u64::MAX)),
        Timestamp::new(LAST_SECOND, 999_999_999).unwrap()
    );
    assert_eq!(
        t.earlier_by(Span::from_days(u64::MAX)),
        Timestamp::new(FIRST_SECOND, 0).unwrap()
    );
    assert_eq!(Span::from_minutes(2), Span::from_secs(120));
    assert_eq!(floor_div(-7, 2), -4);
    assert_eq!(floor_div(7, 2), 3);
}

#[test]
fn the_present_is_read_from_the_system() {
    let before = Utc::now().timestamp_nanos_opt().unwrap() as i128;
    let (instant, local) = now_with_local();
    let after = Utc::now().timestamp_nanos_opt().unwrap() as i128;
    assert!(before <= instant.nanos() && instant.nanos() <= after);
    assert!(local.time.seconds() < 86_400);
    assert!(local_now().time.subsecond_nanos() < 1_000_000_000);
    let offset = (local.time.seconds() as i64 - instant.seconds()).rem_euclid(60);
    assert!(offset <= 1 || offset == 59 || offset == 30 || offset == 31, "{offset}");
}

#[test]
fn days_follow_monday() {
    assert_eq!(Weekday::from_monday(0), Weekday::Mon);
    assert_eq!(Weekday::from_monday(6), Weekday::Sun);
}

#[test]
fn the_wall_clock_shows_the_present_instant() {
    let (now, local) = now_with_local();
    assert_eq!(local.time.subsecond_nanos(), now.subsecond_nanos());
    let ahead = (i64::from(local.time.seconds()) - now.seconds()).rem_euclid(86_400);
    assert!([ahead, ahead - 86_400].into_iter().any(|offset| {
        let days = (now.seconds() + offset).div_euclid(86_400);
        Weekday::from_monday((days + 3).rem_euclid(7) as u32) == local.weekday
    }));
}

#[test]
fn stamps_show_the_instant_on_a_local_calendar() {
    for seconds in [0i64, 951_782_400, 1_767_225_599, -62_135_596_800, 253_402_300_799] {
        let at = Timestamp::new(seconds, 999_999_999).unwrap();
        let stamp = local_stamp(at);
        let shown = NaiveDateTime::parse_from_str(&stamp, "%Y-%m-%d %H:%M:%S").unwrap();
        assert!((shown.and_utc().timestamp() - seconds).abs() < 86_400, "{stamp}");
        assert_eq!(short_local_stamp(at), shown.format("%m-%d %H:%M").to_string());
    }
}
