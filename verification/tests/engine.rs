use chrono::{DateTime, Datelike, Local, Timelike};
use tpt_focus::clock::{LocalTime, Timestamp, Weekday};
use tpt_focus::engine::decide;
use tpt_focus::{
    AppIdentity, Condition, Config, ContextProvider, ContextSnapshot, Decision,
    MockContextProvider, MockNotificationSource, Notification, NotificationId, Pipeline, Rule,
    SourceCapabilities,
};

fn mute_slack_when_fullscreen() -> Config {
    Config {
        rules: vec![
            Rule::new("mute-slack-when-fullscreen", Decision::Mute).with_conditions(vec![
                Condition::App {
                    apps: vec!["slack".into()],
                },
                Condition::Fullscreen { equals: true },
            ]),
        ],
        ..Config::default()
    }
}

fn shown_by_chrono(at: Timestamp) -> (Weekday, u32, u32) {
    let shown = DateTime::from_timestamp_nanos(at.nanos() as i64)
        .with_timezone(&Local)
        .naive_local();
    let weekday = match shown.weekday().num_days_from_monday() {
        0 => Weekday::Mon,
        1 => Weekday::Tue,
        2 => Weekday::Wed,
        3 => Weekday::Thu,
        4 => Weekday::Fri,
        5 => Weekday::Sat,
        _ => Weekday::Sun,
    };
    (weekday, shown.num_seconds_from_midnight(), shown.nanosecond())
}

fn shown(local: LocalTime) -> (Weekday, u32, u32) {
    let nanos = local.time.nanos() % 1_000_000_000;
    (local.weekday, local.time.seconds(), nanos as u32)
}

#[test]
fn pipeline_applies_rules_with_live_context() {
    let mut pipeline =
        Pipeline::from_refs(&mute_slack_when_fullscreen(), MockContextProvider::new());

    let notification = Notification::new(AppIdentity::new("slack"), "hi", "there");

    assert_eq!(
        pipeline.process(notification.clone()).evaluation.decision,
        Decision::Allow
    );

    pipeline.context_provider_mut().set_fullscreen(true);
    let processed = pipeline.process(notification);
    assert_eq!(processed.evaluation.decision, Decision::Mute);
    assert!(processed.suppressed());
    assert_eq!(
        processed.evaluation.matched_rule.as_deref(),
        Some("mute-slack-when-fullscreen")
    );
}

#[test]
fn config_can_be_reloaded_at_runtime() {
    let mut pipeline = Pipeline::from_refs(&Config::default(), MockContextProvider::new());
    let notification = Notification::new(AppIdentity::new("slack"), "hi", "there");
    assert_eq!(
        pipeline.process(notification.clone()).evaluation.decision,
        Decision::Allow
    );

    pipeline.context_provider_mut().set_fullscreen(true);
    assert_eq!(
        pipeline.process(notification.clone()).evaluation.decision,
        Decision::Allow
    );

    pipeline.replace_config(mute_slack_when_fullscreen());
    assert_eq!(
        pipeline.process(notification).evaluation.decision,
        Decision::Mute
    );
    assert_eq!(pipeline.config().rules.len(), 1);
}

#[test]
fn listener_receives_every_decision() {
    let pipeline = Pipeline::from_refs(&Config::default(), MockContextProvider::new());
    let mut seen: Vec<Decision> = Vec::new();

    for app in ["a", "b"] {
        let processed = pipeline.process(Notification::new(AppIdentity::new(app), "t", "b"));
        seen.push(processed.evaluation.decision);
    }

    assert_eq!(seen, vec![Decision::Allow, Decision::Allow]);
}

#[test]
fn attached_source_routes_through_pipeline() {
    let mut context = MockContextProvider::new();
    context.set_fullscreen(true);
    let pipeline = Pipeline::from_refs(&mute_slack_when_fullscreen(), context);

    let mut source = MockNotificationSource::new("mock");
    let mut seen: Vec<Decision> = Vec::new();

    source.start().unwrap();
    assert!(source.is_running());

    for app in ["slack", "mail"] {
        if let Some(n) = source.push(Notification::new(AppIdentity::new(app), "hi", "there")) {
            seen.push(pipeline.process(n).evaluation.decision);
        }
    }

    assert_eq!(seen, vec![Decision::Mute, Decision::Allow]);
}

#[test]
fn context_provider_is_exposed() {
    let mut context = MockContextProvider::new();
    context.set_active_profile(Some("Deep Work"));
    let pipeline = Pipeline::from_refs(&Config::default(), context);

    let snapshot = pipeline.context_provider().snapshot();
    assert_eq!(snapshot.active_profile.as_deref(), Some("Deep Work"));
}

#[test]
fn mock_provider_reflects_mutations() {
    let mut provider = MockContextProvider::new();
    assert!(provider.snapshot().foreground_app.is_none());

    provider.set_foreground_app(Some(AppIdentity::new("code")));
    provider.set_fullscreen(true);
    provider.set_active_profile(Some("Deep Work"));

    let snapshot = provider.snapshot();
    assert_eq!(
        snapshot.foreground_app.as_ref().map(|a| a.app_id.as_str()),
        Some("code")
    );
    assert!(snapshot.fullscreen);
    assert_eq!(snapshot.active_profile.as_deref(), Some("Deep Work"));
}

#[test]
fn snapshot_captures_local_wall_clock() {
    let snapshot = ContextSnapshot::now();
    assert!(!snapshot.local_time.time.to_text().is_empty());
    assert_eq!(shown(snapshot.local_time), shown_by_chrono(snapshot.captured_at));
    let snapshot = MockContextProvider::new().snapshot();
    assert_eq!(shown(snapshot.local_time), shown_by_chrono(snapshot.captured_at));
}

#[test]
fn start_delivers_and_stop_halts() {
    let mut source = MockNotificationSource::new("mock");
    let mut seen: Vec<Notification> = Vec::new();

    source.start().unwrap();
    assert!(source.is_running());

    if let Some(n) = source.push(Notification::new(AppIdentity::new("app"), "t", "b")) {
        seen.push(n);
    }
    assert_eq!(seen.len(), 1);

    source.stop().unwrap();
    assert!(!source.is_running());

    if let Some(n) = source.push(Notification::new(AppIdentity::new("app"), "t", "b")) {
        seen.push(n);
    }
    assert_eq!(seen.len(), 1);
}

#[test]
fn double_start_is_rejected() {
    let mut source = MockNotificationSource::new("mock");
    source.start().unwrap();
    assert!(source.start().is_err());
}

#[test]
fn dismiss_requires_running_source() {
    let mut source = MockNotificationSource::new("mock");
    let id = NotificationId::new();
    assert!(source.dismiss(&id).is_err());

    source.start().unwrap();
    source.dismiss(&id).unwrap();
    assert_eq!(*source.dismissed(), vec![id]);
}

#[test]
fn capabilities_are_queryable() {
    let source = MockNotificationSource::new("mock");
    assert!(source.capabilities().can_dismiss);
    assert_eq!(source.id(), "mock");
}

#[test]
fn capabilities_can_be_withheld() {
    let source =
        MockNotificationSource::new("mock").with_capabilities(SourceCapabilities::default());
    assert!(!source.capabilities().can_dismiss);
    assert!(!source.capabilities().supports_replace);
}

#[test]
fn stopping_a_stopped_source_fails() {
    let mut source = MockNotificationSource::new("mock");
    assert!(source.stop().is_err());
}

#[test]
fn deciding_looks_at_the_given_context() {
    let mut context = ContextSnapshot::now();
    context.fullscreen = true;
    let n = Notification::new(AppIdentity::new("slack"), "hi", "there");
    let processed = decide(&mute_slack_when_fullscreen(), n, &context);
    assert_eq!(processed.evaluation.decision, Decision::Mute);
    assert_eq!(processed.notification.title, "hi");
}

fn mute_slack_when_ide_fullscreen() -> Config {
    Config {
        rules: vec![
            Rule::new("mute-slack-when-ide-fullscreen", Decision::Mute)
                .named("Mute Slack when the IDE is fullscreen")
                .with_priority(10)
                .with_conditions(vec![
                    Condition::App {
                        apps: vec!["slack".into()],
                    },
                    Condition::Fullscreen { equals: true },
                ]),
            Rule::new("mute-mail", Decision::Mute)
                .with_priority(1)
                .with_condition(Condition::App {
                    apps: vec!["mail".into()],
                }),
        ],
        ..Config::default()
    }
}

#[test]
fn mute_slack_when_ide_is_fullscreen() {
    let mut pipeline =
        Pipeline::from_refs(&mute_slack_when_ide_fullscreen(), MockContextProvider::new());

    let mut source = MockNotificationSource::new("mock");
    let mut decisions: Vec<(String, Decision)> = Vec::new();
    source.start().unwrap();

    let context = pipeline.context_provider_mut();
    context.set_foreground_app(Some(AppIdentity::new("code")));
    context.set_fullscreen(false);
    for (fullscreen, app, title, body) in [
        (false, "slack", "Ping", "hello"),
        (true, "slack", "Ping", "hello"),
        (true, "mail", "News", "digest"),
    ] {
        pipeline.context_provider_mut().set_fullscreen(fullscreen);
        let pushed = source.push(Notification::new(AppIdentity::new(app), title, body));
        let processed = pipeline.process(pushed.expect("delivered"));
        decisions.push((
            processed.notification.source.app_id.clone(),
            processed.evaluation.decision,
        ));
    }

    assert_eq!(
        decisions,
        vec![
            ("slack".to_string(), Decision::Allow),
            ("slack".to_string(), Decision::Mute),
            ("mail".to_string(), Decision::Mute),
        ]
    );
}

#[test]
fn dismissed_notifications_reach_the_source() {
    let pipeline = Pipeline::from_refs(&Config::default(), MockContextProvider::new());

    let mut source = MockNotificationSource::new("mock");
    source.start().unwrap();

    let notification = Notification::new(AppIdentity::new("mail"), "Subject", "Body");
    let pushed = source.push(notification.clone());
    pipeline.process(pushed.expect("delivered"));
    source.dismiss(&notification.id).unwrap();

    assert_eq!(*source.dismissed(), vec![notification.id]);
    assert_eq!(source.delivered().len(), 1);
}

#[test]
fn mute_decision_does_not_drop_history_record() {
    let config = Config {
        rules: vec![
            Rule::new("mute-mail", Decision::Mute).with_condition(Condition::App {
                apps: vec!["mail".into()],
            }),
        ],
        ..Config::default()
    };

    let pipeline = Pipeline::from_refs(&config, MockContextProvider::new());
    let processed = pipeline.process(Notification::new(AppIdentity::new("mail"), "s", "b"));

    assert!(processed.suppressed());
    assert_eq!(processed.notification.source.app_id, "mail");
    assert_eq!(
        processed.evaluation.matched_rule.as_deref(),
        Some("mute-mail")
    );
}

#[test]
fn snapshots_can_be_given_and_replaced() {
    let mut first = ContextSnapshot::now();
    first.fullscreen = true;
    let mut second = ContextSnapshot::now();
    second.active_profile = Some("Gaming".to_string());

    let mut context = MockContextProvider::with_snapshot(first.clone());
    assert_eq!(context.snapshot(), first);
    context.set_snapshot(second.clone());
    assert_eq!(context.snapshot(), second);
    assert!(!context.snapshot().fullscreen);
}
