use tpt_focus::clock::{LocalTime, Span, Timestamp, WallTime, Weekday};
use tpt_focus::storage::StoredRow;
use tpt_focus::{
    ActiveProfile, AppIdentity, Condition, Config, Decision, FocusRuntime, HistoryEntry,
    MockContextProvider, Notification, Retention, Rule, Schedule,
};

fn runtime() -> FocusRuntime<MockContextProvider> {
    let config = Config {
        rules: vec![
            Rule::new("mute-slack", Decision::Mute).with_condition(Condition::App {
                apps: vec!["slack".into()],
            }),
        ],
        ..Config::default()
    };
    FocusRuntime::new(config, MockContextProvider::new(), ActiveProfile::new())
}

#[test]
fn processed_notifications_land_in_history_and_digest() {
    let mut runtime = runtime();
    let mut history: Vec<HistoryEntry> = Vec::new();

    let (allowed, entry) =
        runtime.process(Notification::new(AppIdentity::new("mail"), "t", "b"));
    history.push(entry);
    let (muted, entry) = runtime.process(Notification::new(AppIdentity::new("slack"), "t", "b"));
    history.push(entry);
    assert_eq!(allowed.evaluation.decision, Decision::Allow);
    assert_eq!(muted.evaluation.decision, Decision::Mute);

    assert_eq!(history.len(), 2);
    assert_eq!(
        history
            .iter()
            .filter(|entry| entry.decision == Decision::Mute)
            .count(),
        1
    );

    assert_eq!(runtime.digests().held_count(), 1);
    assert!(runtime.digests().holds(&muted.notification.id));
}

#[test]
fn retention_prunes_history() {
    let mut runtime = runtime();
    let (processed, _) = runtime.process(Notification::new(AppIdentity::new("mail"), "t", "b"));
    let stored = vec![StoredRow {
        id: processed.notification.id.to_text(),
        timestamp_millis: processed.notification.timestamp.millis(),
    }];

    let later = processed
        .notification
        .timestamp
        .later_by(Span::from_millis(5));
    assert!(runtime.prune(&stored, later).by_age.is_empty());

    runtime.set_retention(Retention {
        max_age: Some(Span::from_secs(0)),
        max_count: None,
    });
    let plan = runtime.prune(&stored, later);
    assert_eq!(plan.by_age.len(), 1);
    assert!(plan.by_count.is_empty());
}

#[test]
fn empty_schedule_list_never_touched_the_manual_toggle() {
    let mut runtime = runtime();
    runtime.set_schedules(Vec::new());

    runtime.tick_schedules();
    assert!(runtime.active_profile().active().is_none());

    // With no schedule claiming the slot the manual toggle stays put.
    runtime.active_profile_mut().activate("Deep Work");
    runtime.tick_schedules();
    assert_eq!(
        runtime.active_profile().active().as_deref(),
        Some("Deep Work")
    );
}

#[test]
fn schedules_switch_the_profile() {
    let mut runtime = runtime();
    let t = |h: u32| WallTime::from_hms(h, 0, 0).unwrap();
    runtime.set_schedules(vec![
        Schedule::new("lunch", t(12), t(13)).activating_profile("Meetings")
    ]);
    let noon = LocalTime {
        weekday: Weekday::Wed,
        time: t(12),
    };
    assert!(runtime.tick_schedules_at(noon).changed);
    assert_eq!(
        runtime.active_profile().active().as_deref(),
        Some("Meetings")
    );
    assert!(!runtime.tick_schedules_at(noon).changed);
}

#[test]
fn configurations_are_replaced_while_running() {
    let mut runtime = runtime();
    runtime.replace_config(Config::default());
    let (processed, entry) =
        runtime.process(Notification::new(AppIdentity::new("slack"), "t", "b"));
    assert_eq!(processed.evaluation.decision, Decision::Allow);
    assert_eq!(entry.notification, processed.notification);
    assert!(!entry.read);
    assert!(entry.decided_at.nanos() <= Timestamp::now().nanos());
    assert!(runtime.pipeline().config().rules.is_empty());
    runtime.context_provider_mut().set_fullscreen(true);
    runtime.digests_mut().clear();
    assert!(runtime.digests().is_empty());
}
