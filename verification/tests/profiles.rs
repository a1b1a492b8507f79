use tpt_focus::clock::{LocalTime, Timestamp, WallTime, Weekday};
use tpt_focus::profile::validate_profiles;
use tpt_focus::{
    find_profile, ActiveProfile, Decision, FocusProfile, Schedule, ScheduleController,
};

fn t(hour: u32, minute: u32) -> WallTime {
    WallTime::from_hms(hour, minute, 0).unwrap()
}

/// A day of September 2026, whose 21st is a Monday.
fn at(day: u32, hour: u32, minute: u32) -> LocalTime {
    LocalTime {
        weekday: Weekday::from_monday((day + 7 * 4 - 21) % 7),
        time: t(hour, minute),
    }
}

fn night_schedule() -> Schedule {
    Schedule::new("night", t(22, 0), t(6, 0)).activating_profile("Deep Work")
}

#[test]
fn toggle_activates_and_clears() {
    let mut active = ActiveProfile::new();
    assert_eq!(active.active(), None);

    active.toggle("Deep Work");
    assert!(active.is_active("deep work"));

    active.toggle("Deep Work");
    assert_eq!(active.active(), None);
}

#[test]
fn switching_profiles_replaces_previous() {
    let mut active = ActiveProfile::new();
    active.activate("Deep Work");
    assert_eq!(active.activate("Meetings").as_deref(), Some("Deep Work"));
    assert!(active.is_active("Meetings"));
    assert_eq!(active.clear().as_deref(), Some("Meetings"));
    assert_eq!(active.active(), None);
}

#[test]
fn duplicate_profile_names_are_rejected_case_insensitively() {
    let profiles = vec![
        FocusProfile::new("Deep Work"),
        FocusProfile::new("deep work"),
    ];
    assert!(validate_profiles(&profiles).is_err());

    let ok = vec![
        FocusProfile::new("Deep Work"),
        FocusProfile::new("Meetings"),
    ];
    assert!(validate_profiles(&ok).is_ok());
}

#[test]
fn nameless_profiles_are_rejected() {
    let error = validate_profiles(&[FocusProfile::new("  ")]).unwrap_err();
    assert!(error.to_text().contains("name"), "{}", error.to_text());
    assert!(validate_profiles(&[]).is_ok());
}

#[test]
fn profiles_are_found_by_name() {
    let profiles = vec![
        FocusProfile::new("Deep Work").with_default_decision(Decision::Mute),
        FocusProfile::new("Meetings").with_description("calls"),
    ];
    assert_eq!(
        find_profile(&profiles, "MEETINGS").unwrap().description.as_deref(),
        Some("calls")
    );
    assert!(find_profile(&profiles, "Sleep").is_none());
}

#[test]
fn toggling_is_exact_about_case() {
    let mut active = ActiveProfile::with_profile("Deep Work");
    active.toggle("deep work");
    assert_eq!(active.active().as_deref(), Some("deep work"));
    active.toggle("deep work");
    assert_eq!(active.active(), None);
}

#[test]
fn activates_on_window_entry_and_clears_on_exit() {
    let mut active = ActiveProfile::new();
    let mut controller = ScheduleController::new();
    let schedules = vec![night_schedule()];

    let tick = controller.tick(&schedules, &mut active, at(25, 23, 0));
    assert!(tick.changed);
    assert_eq!(tick.profile.as_deref(), Some("Deep Work"));
    assert_eq!(active.active().as_deref(), Some("Deep Work"));

    // Still inside the window: no change, no churn.
    let tick = controller.tick(&schedules, &mut active, at(25, 23, 30));
    assert!(!tick.changed);

    // Window over: profile cleared.
    let tick = controller.tick(&schedules, &mut active, at(26, 12, 0));
    assert!(tick.changed);
    assert_eq!(tick.profile, None);
    assert_eq!(active.active(), None);
}

#[test]
fn schedule_without_profile_leaves_the_toggle_alone() {
    let schedules = vec![Schedule::new("quiet", t(22, 0), t(6, 0))];

    let mut active = ActiveProfile::new();
    active.activate("Deep Work");
    let mut controller = ScheduleController::new();

    let tick = controller.tick(&schedules, &mut active, at(25, 23, 0));
    assert!(tick.changed);
    assert_eq!(tick.profile, None);
    // The live schedule names no profile, so the manual toggle wins.
    assert_eq!(active.active().as_deref(), Some("Deep Work"));
}

#[test]
fn first_live_schedule_wins() {
    let schedules = vec![
        Schedule::new("a", t(9, 0), t(17, 0)).activating_profile("Meetings"),
        Schedule::new("b", t(10, 0), t(12, 0)).activating_profile("Deep Work"),
    ];

    let mut active = ActiveProfile::new();
    let mut controller = ScheduleController::new();
    let tick = controller.tick(&schedules, &mut active, at(26, 11, 0));
    assert_eq!(tick.profile.as_deref(), Some("Meetings"));
}

#[test]
fn a_live_schedule_takes_the_slot_back() {
    let mut active = ActiveProfile::new();
    let mut controller = ScheduleController::new();
    let schedules = vec![night_schedule()];
    controller.tick(&schedules, &mut active, at(25, 23, 0));

    active.activate("Meetings");
    let tick = controller.tick(&schedules, &mut active, at(25, 23, 1));
    assert!(tick.changed);
    assert_eq!(active.active().as_deref(), Some("Deep Work"));

    let tick = controller.tick(&schedules, &mut active, at(25, 23, 1));
    assert!(!tick.changed);
}

#[test]
fn idle_schedules_leave_the_toggle_alone() {
    let mut active = ActiveProfile::with_profile("Meetings");
    let mut controller = ScheduleController::new();
    let schedules = vec![night_schedule()];
    controller.tick(&schedules, &mut active, at(25, 12, 0));
    assert_eq!(active.active().as_deref(), Some("Meetings"));
    let tick = controller.tick(&schedules, &mut active, at(25, 13, 0));
    assert!(!tick.changed);
    assert_eq!(active.active().as_deref(), Some("Meetings"));
}

#[test]
fn the_clock_is_past_the_epoch() {
    assert!(Timestamp::now().millis() > 0);
}
