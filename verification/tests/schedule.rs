use tpt_focus::clock::{LocalTime, WallTime, Weekday};
use tpt_focus::schedule::{
    day_name, parse_weekday, time_in_range, weekday_names, weekday_selected, weekdays_from_names,
};
use tpt_focus::{active_schedules, Schedule};

fn t(h: u32, m: u32) -> WallTime {
    WallTime::from_hms(h, m, 0).unwrap()
}

/// A day of September 2026, whose 21st is a Monday.
fn local(h: u32, m: u32, day: u32) -> LocalTime {
    LocalTime {
        weekday: Weekday::from_monday((day + 7 * 4 - 21) % 7),
        time: t(h, m),
    }
}

#[test]
fn normal_range_is_inclusive_start_exclusive_end() {
    assert!(time_in_range(t(9, 0), t(17, 0), t(9, 0)));
    assert!(time_in_range(t(9, 0), t(17, 0), t(16, 59)));
    assert!(!time_in_range(t(9, 0), t(17, 0), t(17, 0)));
    assert!(!time_in_range(t(9, 0), t(17, 0), t(8, 59)));
}

#[test]
fn wrapping_range_crosses_midnight() {
    assert!(time_in_range(t(22, 0), t(6, 0), t(23, 30)));
    assert!(time_in_range(t(22, 0), t(6, 0), t(2, 0)));
    assert!(!time_in_range(t(22, 0), t(6, 0), t(12, 0)));
}

#[test]
fn windows_and_their_reverse_split_the_day() {
    for minute in 0..(24 * 60) {
        let now = t(minute / 60, minute % 60);
        assert_ne!(
            time_in_range(t(9, 15), t(17, 45), now),
            time_in_range(t(17, 45), t(9, 15), now)
        );
    }
}

#[test]
fn empty_weekday_list_matches_every_day() {
    assert!(weekday_selected(&[], Weekday::Sat));
}

#[test]
fn weekdays_parse_forgivingly() {
    assert_eq!(parse_weekday("Monday"), Some(Weekday::Mon));
    assert_eq!(parse_weekday(" fri "), Some(Weekday::Fri));
    assert_eq!(parse_weekday("THURSDAY"), Some(Weekday::Thu));
    assert_eq!(parse_weekday("noday"), None);
}

#[test]
fn day_names_read_back() {
    for day in [
        Weekday::Mon,
        Weekday::Tue,
        Weekday::Wed,
        Weekday::Thu,
        Weekday::Fri,
        Weekday::Sat,
        Weekday::Sun,
    ] {
        assert_eq!(parse_weekday(day_name(day)), Some(day));
    }
    assert_eq!(
        weekdays_from_names(&weekday_names(&[Weekday::Sun, Weekday::Mon])).unwrap(),
        vec![Weekday::Sun, Weekday::Mon]
    );
    let error = weekdays_from_names(&vec!["mon".into(), "never".into()]).unwrap_err();
    assert!(error.contains("never"));
}

#[test]
fn schedule_matches_only_inside_its_window() {
    let schedule = Schedule::new("quiet", t(22, 0), t(6, 0)).named("Quiet hours");

    assert!(schedule.matches(local(23, 0, 25)));
    assert!(schedule.matches(local(5, 0, 26)));
    assert!(!schedule.matches(local(12, 0, 25)));

    let disabled = Schedule {
        enabled: false,
        ..schedule
    };
    assert!(!disabled.matches(local(23, 0, 25)));
}

#[test]
fn active_schedules_are_filtered_by_weekday() {
    let schedule =
        Schedule::new("weekdays", t(9, 0), t(17, 0)).with_weekdays(vec![Weekday::Mon]);

    // 2026-09-21 is a Monday, 2026-09-26 a Saturday.
    assert_eq!(
        active_schedules(std::slice::from_ref(&schedule), local(10, 0, 21)).len(),
        1
    );
    assert_eq!(
        active_schedules(std::slice::from_ref(&schedule), local(10, 0, 26)).len(),
        0
    );
}

#[test]
fn schedule_validation_rejects_empty_window() {
    let schedule = Schedule::new("bad", t(9, 0), t(9, 0));
    assert!(schedule.validate().is_err());

    let ok = Schedule::new("ok", t(9, 0), t(17, 0));
    assert!(ok.validate().is_ok());
}

#[test]
fn schedule_validation_rejects_a_missing_id() {
    let error = Schedule::new(" ", t(9, 0), t(17, 0)).validate().unwrap_err();
    assert!(error.to_text().starts_with("invalid configuration: "));
}
