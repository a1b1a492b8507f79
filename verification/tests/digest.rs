use tpt_focus::clock::{Span, Timestamp};
use tpt_focus::digest::{fold_entry, sort_groups};
use tpt_focus::{
    AppIdentity, Condition, Config, Decision, DigestCollector, DigestEntry, DigestGroup,
    MockContextProvider,
    Notification, NotificationId, Pipeline, Rule,
};

fn pipeline_muting(app: &str) -> Pipeline<MockContextProvider> {
    let config = Config {
        rules: vec![
            Rule::new("mute-app", Decision::Mute).with_condition(Condition::App {
                apps: vec![app.into()],
            }),
        ],
        ..Config::default()
    };
    Pipeline::from_refs(&config, MockContextProvider::new())
}

fn notification(app: &str, title: &str) -> Notification {
    Notification::new(AppIdentity::new(app), title, "body")
}

fn millis(n: i64) -> Timestamp {
    Timestamp::from_millis(n).unwrap()
}

#[test]
fn allowed_notifications_are_never_collected() {
    let mut collector = DigestCollector::default();
    let pipeline = pipeline_muting("slack");

    collector.add(&pipeline.process(notification("mail", "hello")));
    assert!(collector.is_empty());
    assert_eq!(collector.held_count(), 0);
}

#[test]
fn suppressed_notifications_group_by_app() {
    let mut collector = DigestCollector::default();
    let pipeline = pipeline_muting("slack");

    collector.add(&pipeline.process(notification("slack", "one")));
    collector.add(&pipeline.process(notification("slack", "two")));
    collector.add(&pipeline.process(notification("slack", "three")));

    let groups = collector.groups();
    assert_eq!(groups.len(), 1);
    assert_eq!(groups[0].app_id, "slack");
    assert_eq!(groups[0].entries.len(), 3);
    assert_eq!(groups[0].headline(), "three");
    assert_eq!(
        groups[0].entries[0].matched_rule.as_deref(),
        Some("mute-app")
    );
    assert_eq!(collector.held_count(), 3);
}

#[test]
fn display_name_survives_when_first_entry_has_none() {
    let mut collector = DigestCollector::default();
    let pipeline = pipeline_muting("slack");

    let named = Notification::new(
        AppIdentity::new("slack").with_display_name("Slack"),
        "t",
        "b",
    );
    collector.add(&pipeline.process(named));
    collector.add(&pipeline.process(notification("slack", "second")));

    let groups = collector.groups();
    assert_eq!(groups[0].app_display_name.as_deref(), Some("Slack"));
}

#[test]
fn display_name_is_picked_up_later() {
    let mut collector = DigestCollector::default();
    let pipeline = pipeline_muting("slack");
    collector.add(&pipeline.process(notification("slack", "first")));
    collector.add(&pipeline.process(Notification::new(
        AppIdentity::new("slack").with_display_name("Slack"),
        "t",
        "b",
    )));
    assert_eq!(
        collector.groups()[0].app_display_name.as_deref(),
        Some("Slack")
    );
}

#[test]
fn mature_groups_are_those_quiet_past_the_window() {
    let mut collector = DigestCollector::new(Span::from_secs(60));
    let pipeline = pipeline_muting("slack");

    let early =
        Notification::new(AppIdentity::new("slack"), "early", "b").with_timestamp(millis(0));
    collector.add(&pipeline.process(early));

    let now = millis(30_000);
    assert!(collector.mature(now).is_empty());

    let later = now.later_by(Span::from_secs(31));
    let matured = collector.mature(later);
    assert_eq!(matured.len(), 1);
    assert_eq!(matured[0].app_id, "slack");
}

#[test]
fn drain_mature_removes_only_those_groups() {
    let mut collector = DigestCollector::new(Span::from_secs(60));
    let pipeline = pipeline_muting("*");

    // slack matures at t=60s; teams at t=120s.
    let slack = Notification::new(AppIdentity::new("slack"), "s", "b").with_timestamp(millis(0));
    let teams =
        Notification::new(AppIdentity::new("teams"), "t", "b").with_timestamp(millis(60_000));
    collector.add(&pipeline.process(slack));
    collector.add(&pipeline.process(teams));

    let drained = collector.drain_mature(millis(61_000));
    assert_eq!(drained.len(), 1);
    assert_eq!(drained[0].app_id, "slack");

    assert!(collector.take("teams").is_some());
    assert!(collector.is_empty());
}

#[test]
fn draining_leaves_nothing_mature() {
    let mut collector = DigestCollector::new(Span::from_secs(60));
    let pipeline = pipeline_muting("*");
    for (app, at) in [
        ("late", 70_000),
        ("slack", 5_000),
        ("teams", 80_000),
        ("mail", 0),
        ("slack", 6_000),
        ("late", 90_000),
    ] {
        let n = Notification::new(AppIdentity::new(app), "t", "b").with_timestamp(millis(at));
        collector.add(&pipeline.process(n));
    }
    let names = |groups: &[DigestGroup]| -> Vec<String> {
        groups.iter().map(|g| g.app_id.clone()).collect()
    };
    let now = millis(100_000);
    let held = collector.held_count();
    let before = names(&collector.groups());
    assert_eq!(before, vec!["mail", "slack", "late", "teams"]);
    let mature = names(&collector.mature(now));

    let drained = collector.drain_mature(now);
    assert_eq!(names(&drained), mature);
    assert_eq!(names(&drained), vec!["mail", "slack"]);
    assert!(collector.mature(now).is_empty());
    assert_eq!(names(&collector.groups()), vec!["late", "teams"]);
    let taken: usize = drained.iter().map(|g| g.entries.len()).sum();
    assert_eq!(taken, 3);
    assert_eq!(collector.held_count() + taken, held);
}

#[test]
fn holds_reports_suppressed_ids() {
    let mut collector = DigestCollector::default();
    let pipeline = pipeline_muting("slack");

    let processed = pipeline.process(notification("slack", "held"));
    collector.add(&processed);
    assert!(collector.holds(&processed.notification.id));
    assert!(!collector.holds(&NotificationId::new()));

    collector.clear();
    assert!(!collector.holds(&processed.notification.id));
}

#[test]
fn batch_decision_is_collected_like_mute() {
    let config = Config {
        rules: vec![Rule::new("batch-all", Decision::Batch)],
        ..Config::default()
    };
    let pipeline = Pipeline::from_refs(&config, MockContextProvider::new());
    let mut collector = DigestCollector::default();

    collector.add(&pipeline.process(notification("any", "held")));
    assert_eq!(collector.held_count(), 1);
}

#[test]
fn groups_know_their_first_and_last() {
    let mut collector = DigestCollector::default();
    let pipeline = pipeline_muting("*");
    for at in [5_000i64, 1_000, 3_000] {
        collector.add(&pipeline.process(notification("a", "t").with_timestamp(millis(at))));
    }
    let groups = collector.groups();
    assert_eq!(groups[0].first_seen().millis(), 5_000);
    assert_eq!(groups[0].last_seen().millis(), 3_000);
    assert!(collector.take("b").is_none());
    assert_eq!(collector.window(), Span::from_secs(900));
}

#[test]
fn folding_and_sorting_keep_every_entry() {
    let mut groups = Vec::new();
    for (app, at) in [("late", 9_000i64), ("early", 1_000), ("late", 2_000)] {
        fold_entry(
            &mut groups,
            DigestEntry {
                notification: notification(app, "t").with_timestamp(millis(at)),
                matched_rule: None,
                reason: "r".to_string(),
            },
        );
    }
    assert_eq!(groups.len(), 2);
    assert_eq!(groups[0].entries.len(), 2);
    let sorted = sort_groups(&groups);
    assert_eq!(sorted[0].app_id, "early");
    assert_eq!(sorted[1].app_id, "late");
    assert_eq!(sorted[1].entries.len(), 2);
}
