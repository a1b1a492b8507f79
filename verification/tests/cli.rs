use chrono::{DateTime, Local};
use tpt_focus::cli::config::{config_path, db_path, plan as config_plan, validate_line, ConfigArgs, ConfigStep};
use tpt_focus::cli::daemon::{
    default_retention, degraded_line, level_word, listening_line, refusal, retention_due,
    should_request, start_mode, DaemonArgs, StartMode, TICK_SECONDS,
};
use tpt_focus::cli::effect::{Effect, Failure};
use tpt_focus::cli::evaluate::{run as evaluate, EvaluateArgs};
use tpt_focus::cli::history::{
    plan, report, HistoryArgs, HistoryFilter, HistoryReply, HistoryStep,
};
use tpt_focus::cli::print::{condition_label, history_line, history_line_at, profile_line, rule_line, schedule_line};
use tpt_focus::cli::profiles::{run as profiles, DefaultArg, ProfilesArgs};
use tpt_focus::cli::rules::{
    run as rules, ActionArg, ModeArg, NewRule, RulesArgs, UrgencyArg,
};
use tpt_focus::cli::schedules::{
    build_schedule, list_lines, removed_line, stored_line, toggle, NewSchedule, ToggleState,
};
use tpt_focus::cli::times::{parse_hm, parse_time_window, parse_weekdays};
use tpt_focus::clock::{Span, Timestamp, WallTime, Weekday};
use tpt_focus::{
    AccessState, AppIdentity, Condition, Config, ContextSnapshot, Decision, DigestEntry,
    DigestGroup, FocusProfile, HistoryEntry, Notification, PruneReport, Rule, Schedule, Urgency,
};

fn new_rule(id: &str) -> NewRule {
    NewRule {
        id: id.to_string(),
        name: None,
        action: ActionArg::Mute,
        priority: 0,
        mode: ModeArg::All,
        apps: vec!["slack".to_string()],
        profiles: Vec::new(),
        urgencies: Vec::new(),
        fullscreen: false,
        no_fullscreen: false,
        time: None,
        weekdays: Vec::new(),
    }
}

fn entry(app: &str, title: &str) -> HistoryEntry {
    HistoryEntry {
        notification: Notification::new(AppIdentity::new(app), title, "b"),
        decision: Decision::Mute,
        rule_id: None,
        reason: String::new(),
        read: false,
        decided_at: Timestamp::new(0, 0).unwrap(),
    }
}

fn filter() -> HistoryFilter {
    HistoryFilter {
        app: None,
        decision: None,
        unread: false,
        limit: 50,
    }
}

fn lines(effect: Effect) -> Vec<String> {
    match effect {
        Effect::Print(lines) => lines,
        Effect::Save(lines) => lines,
        Effect::PrintThenSave { lines, .. } => lines,
        Effect::PrintJson => vec!["json".to_string()],
    }
}

fn plain(message: &str) -> Failure {
    Failure {
        message: message.to_string(),
        cause: None,
    }
}

fn caused(message: &str, cause: &str) -> Failure {
    Failure {
        message: message.to_string(),
        cause: Some(cause.to_string()),
    }
}

#[test]
fn rules_are_added_switched_and_removed() {
    let (config, effect) =
        rules(Config::default(), RulesArgs::Add(new_rule("quiet")), "p").unwrap();
    assert_eq!(effect, Effect::Save(vec!["rule `quiet` added".to_string()]));
    assert_eq!(config.rules[0].name, "quiet");
    assert_eq!(config.rules[0].action, Decision::Mute);

    let message = rules(config.clone(), RulesArgs::Add(new_rule("QUIET")), "p").unwrap_err();
    assert_eq!(message, plain("rule `QUIET` already exists"));

    let id = || "Quiet".to_string();
    let (config, effect) = rules(config, RulesArgs::Disable { id: id() }, "p").unwrap();
    assert_eq!(effect, Effect::Save(vec!["rule `Quiet` disabled".to_string()]));
    assert!(!config.rules[0].enabled);
    let (config, effect) = rules(config, RulesArgs::Disable { id: id() }, "p").unwrap();
    assert_eq!(
        effect,
        Effect::Print(vec!["rule `Quiet` is already disabled".to_string()])
    );
    let (config, _) = rules(config, RulesArgs::Enable { id: id() }, "p").unwrap();
    assert!(config.rules[0].enabled);

    let (config, effect) = rules(config, RulesArgs::Remove { id: id() }, "p").unwrap();
    assert_eq!(effect, Effect::Save(vec!["rule `Quiet` removed".to_string()]));
    assert_eq!(config, Config::default());
    let message = rules(config, RulesArgs::Remove { id: id() }, "p").unwrap_err();
    assert_eq!(message, plain("no rule with id `Quiet`"));
}

#[test]
fn typed_conditions_become_conditions() {
    let new = NewRule {
        name: Some("N".to_string()),
        priority: -3,
        mode: ModeArg::Any,
        urgencies: vec![UrgencyArg::Low, UrgencyArg::Critical],
        no_fullscreen: true,
        time: Some("22:00-06:30".to_string()),
        weekdays: vec!["sat".to_string(), "Sunday".to_string()],
        ..new_rule("all")
    };
    let (config, _) = rules(Config::default(), RulesArgs::Add(new), "p").unwrap();
    let rule = &config.rules[0];
    assert_eq!(rule.priority, -3);
    assert_eq!(
        rule.conditions,
        vec![
            Condition::App {
                apps: vec!["slack".to_string()]
            },
            Condition::Urgency {
                urgencies: vec![Urgency::Low, Urgency::Critical]
            },
            Condition::Fullscreen { equals: false },
            Condition::TimeOfDay {
                start: WallTime::from_hms(22, 0, 0).unwrap(),
                end: WallTime::from_hms(6, 30, 0).unwrap(),
                weekdays: vec![Weekday::Sat, Weekday::Sun],
            },
        ]
    );
    let bad = NewRule {
        time: Some("22:00".to_string()),
        ..new_rule("x")
    };
    assert!(rules(Config::default(), RulesArgs::Add(bad), "p").is_err());
    let orphan = NewRule {
        profiles: vec!["Nowhere".to_string()],
        ..new_rule("x")
    };
    assert_eq!(
        rules(Config::default(), RulesArgs::Add(orphan), "p").unwrap_err(),
        caused(
            "failed to save config",
            "invalid configuration: rule `x` references unknown focus profile `Nowhere`"
        )
    );
}

#[test]
fn rules_are_listed_in_evaluation_order() {
    let config = Config {
        rules: vec![
            Rule::new("low", Decision::Mute).with_priority(1),
            Rule::new("high", Decision::Allow).with_priority(9).disabled(),
        ],
        ..Config::default()
    };
    let (_, effect) = rules(config, RulesArgs::List { json: false }, "p").unwrap();
    let lines = lines(effect);
    assert_eq!(lines.len(), 3);
    assert!(lines[0].starts_with("ID "));
    assert!(lines[1].starts_with("high "));
    assert!(lines[1].ends_with("high [disabled]"), "{}", lines[1]);
    assert!(lines[2].starts_with("low "));
    let (_, effect) = rules(Config::default(), RulesArgs::List { json: false }, "/x").unwrap();
    assert_eq!(effect, Effect::Print(vec!["no rules configured (/x)".to_string()]));
    let (_, effect) = rules(Config::default(), RulesArgs::List { json: true }, "/x").unwrap();
    assert_eq!(effect, Effect::PrintJson);
}

#[test]
fn profiles_are_added_updated_and_removed() {
    let add = |description: Option<&str>, default: Option<DefaultArg>| ProfilesArgs::Add {
        name: "Deep Work".to_string(),
        description: description.map(|d| d.to_string()),
        default,
    };
    let (config, effect) = profiles(Config::default(), add(None, None), "p").unwrap();
    assert_eq!(
        effect,
        Effect::PrintThenSave {
            lines: vec!["profile `Deep Work` added".to_string()],
            fault: None,
        }
    );
    assert_eq!(config.profiles.len(), 1);
    let (config, effect) =
        profiles(config, add(Some("quiet"), Some(DefaultArg::Batch)), "p").unwrap();
    assert_eq!(lines(effect), vec!["profile `Deep Work` updated"]);
    assert_eq!(config.profiles.len(), 1);
    assert_eq!(config.profiles[0].description.as_deref(), Some("quiet"));
    assert_eq!(config.profiles[0].default_decision, Some(Decision::Batch));

    // What was done is said even where it then cannot be saved.
    let nameless = ProfilesArgs::Add {
        name: " ".to_string(),
        description: None,
        default: None,
    };
    let (_, effect) = profiles(config.clone(), nameless, "p").unwrap();
    match effect {
        Effect::PrintThenSave { lines, fault } => {
            assert_eq!(lines, vec!["profile ` ` added"]);
            let failure = fault.unwrap();
            assert_eq!(failure.message, "failed to save config");
            assert!(failure.cause.unwrap().starts_with("invalid configuration: "));
        }
        other => panic!("{other:?}"),
    }

    let mut referring = config.clone();
    referring.rules.push(
        Rule::new("r", Decision::Mute).with_condition(Condition::Profile {
            profiles: vec!["Deep Work".to_string()],
        }),
    );
    let remove = || ProfilesArgs::Remove {
        name: "deep work".to_string(),
    };
    assert!(profiles(referring, remove(), "p").is_err());
    let (config, _) = profiles(config, remove(), "p").unwrap();
    assert!(config.profiles.is_empty());
    assert!(profiles(config, remove(), "p").is_err());
}

#[test]
fn schedules_are_built_and_switched() {
    let new = |start: &str, end: &str, days: &[&str]| NewSchedule {
        id: "lunch".to_string(),
        start: start.to_string(),
        end: end.to_string(),
        name: None,
        profile: Some("Meetings".to_string()),
        weekdays: days.iter().map(|d| d.to_string()).collect(),
    };
    let schedule = build_schedule(new("12:00", "13:00", &["mon"])).unwrap();
    assert_eq!(schedule.start_time, WallTime::from_hms(12, 0, 0).unwrap());
    assert_eq!(schedule.weekdays, vec![Weekday::Mon]);
    assert!(schedule.enabled);
    let digit = "invalid digit found in string";
    assert_eq!(
        build_schedule(new("noon", "13:00", &[])).unwrap_err(),
        caused("bad hour", digit)
    );
    assert_eq!(
        build_schedule(new("12:00", "13:x", &[])).unwrap_err(),
        caused("bad minute", digit)
    );
    assert_eq!(
        build_schedule(new("12:00", "99:00", &[])).unwrap_err(),
        plain("bad time `99:00`")
    );
    assert!(build_schedule(new("12:00", "13:00", &["x"])).is_err());
    assert!(build_schedule(new("12:00", "12:00", &[])).is_err());

    let stored = vec![schedule];
    let (changed, line) = toggle(&stored, "lunch", ToggleState::Off).unwrap();
    assert!(!changed.unwrap().enabled);
    assert_eq!(line, "schedule `lunch` disabled");
    let (changed, line) = toggle(&stored, "lunch", ToggleState::On).unwrap();
    assert!(changed.is_none());
    assert_eq!(line, "schedule `lunch` is already enabled");
    assert_eq!(
        toggle(&stored, "dinner", ToggleState::On).unwrap_err(),
        "no schedule with id `dinner`"
    );
    assert_eq!(list_lines(&Vec::new(), "/db"), vec!["no schedules stored (/db)"]);
    assert_eq!(list_lines(&stored, "/db"), vec![schedule_line(&stored[0])]);
    assert_eq!(stored_line("a"), "schedule `a` stored");
    assert_eq!(removed_line("a", true).unwrap(), "schedule `a` removed");
    assert_eq!(removed_line("a", false).unwrap_err(), "no schedule with id `a`");
}

#[test]
fn times_are_read_as_typed() {
    assert_eq!(parse_hm(" 7:05 ").unwrap(), WallTime::from_hms(7, 5, 0).unwrap());
    assert_eq!(parse_hm("7").unwrap(), WallTime::from_hms(7, 0, 0).unwrap());
    assert_eq!(parse_hm("7:05:59").unwrap(), WallTime::from_hms(7, 5, 0).unwrap());
    for bad in ["24:00", "7:60", "a:b", "", "7:", ":5"] {
        assert!(parse_hm(bad).is_err(), "{bad}");
    }
    assert!(parse_time_window("9:00-17:00", &Vec::new()).is_ok());
    assert!(parse_time_window("9:00-9:00-9:00", &Vec::new()).is_err());
    assert_eq!(
        parse_weekdays(&vec!["tue".to_string()]).unwrap(),
        vec![Weekday::Tue]
    );
    assert_eq!(
        parse_weekdays(&vec!["tues day".to_string()]).unwrap_err(),
        "unknown weekday `tues day` (use mon tue wed thu fri sat sun)"
    );
}

#[test]
fn history_commands_are_planned() {
    let now = Timestamp::new(100_000, 0).unwrap();
    let list = HistoryArgs::List {
        filter: HistoryFilter {
            app: Some("slack".to_string()),
            decision: Some(" Muted".to_string()),
            unread: true,
            limit: 3,
        },
        json: false,
    };
    match plan(&list, now).unwrap() {
        HistoryStep::Query(query) => {
            assert_eq!(query.app.as_deref(), Some("slack"));
            assert_eq!(query.decision, Some(Decision::Mute));
            assert!(query.unread_only);
            assert_eq!(query.limit, Some(3));
        }
        other => panic!("{other:?}"),
    }
    let wrong = HistoryArgs::Search {
        query: "x".to_string(),
        filter: HistoryFilter {
            decision: Some("loud".to_string()),
            ..filter()
        },
        json: false,
    };
    assert_eq!(
        plan(&wrong, now).unwrap_err(),
        "unknown decision `loud` (use allow, mute or batch)"
    );
    match plan(&HistoryArgs::Read { id: "n".into(), undo: true }, now).unwrap() {
        HistoryStep::SetRead(id, read) => assert!(id.as_str() == "n" && !read),
        other => panic!("{other:?}"),
    }
    match plan(
        &HistoryArgs::Prune {
            max_age_days: Some(2),
            max_count: None,
        },
        now,
    )
    .unwrap()
    {
        HistoryStep::Prune(retention) => assert_eq!(retention.max_age, Some(Span::from_days(2))),
        other => panic!("{other:?}"),
    }
    assert_eq!(
        plan(
            &HistoryArgs::Prune {
                max_age_days: None,
                max_count: None
            },
            now
        )
        .unwrap_err(),
        "pass --max-age-days and/or --max-count"
    );
    assert_eq!(
        plan(&HistoryArgs::Clear { yes: false }, now).unwrap_err(),
        "refusing to clear history without --yes"
    );
    assert!(matches!(
        plan(&HistoryArgs::Clear { yes: true }, now).unwrap(),
        HistoryStep::Clear
    ));
    match plan(&HistoryArgs::Digest { minutes: 60, json: false }, now).unwrap() {
        HistoryStep::Digest(since) => assert_eq!(since.seconds(), 100_000 - 3_600),
        other => panic!("{other:?}"),
    }
    assert!(matches!(
        plan(&HistoryArgs::Export { file: "f".into() }, now).unwrap(),
        HistoryStep::Export(file) if file == "f"
    ));
    assert!(matches!(
        plan(&HistoryArgs::Import { file: "f".into() }, now).unwrap(),
        HistoryStep::Import(file) if file == "f"
    ));
}

#[test]
fn history_replies_are_reported() {
    let list = |json: bool| HistoryArgs::List {
        filter: filter(),
        json,
    };
    let none = HistoryReply::Entries(Vec::new());
    assert_eq!(
        report(&list(false), &none).unwrap(),
        Effect::Print(vec!["no notifications matched".to_string()])
    );
    assert_eq!(report(&list(true), &none).unwrap(), Effect::PrintJson);
    let some = HistoryReply::Entries(vec![entry("slack", "Ping")]);
    let shown = lines(report(&list(false), &some).unwrap());
    assert_eq!(shown.len(), 2);
    assert!(shown[0].contains("TIME"));
    assert!(shown[1].contains("slack") && shown[1].contains("Ping"));
    let search = HistoryArgs::Search {
        query: "zap".to_string(),
        filter: filter(),
        json: false,
    };
    assert_eq!(
        report(&search, &none).unwrap(),
        Effect::Print(vec!["`zap` did not match any notifications".to_string()])
    );
    assert_eq!(lines(report(&search, &some).unwrap()).len(), 1);

    let read = HistoryArgs::Read {
        id: "n".into(),
        undo: false,
    };
    assert_eq!(
        lines(report(&read, &HistoryReply::Marked(true)).unwrap()),
        vec!["notification updated"]
    );
    assert_eq!(
        report(&read, &HistoryReply::Marked(false)).unwrap_err(),
        "no notification with that id"
    );
    let prune = HistoryArgs::Prune {
        max_age_days: Some(1),
        max_count: None,
    };
    assert_eq!(
        lines(
            report(
                &prune,
                &HistoryReply::Pruned(PruneReport {
                    removed_by_age: 3,
                    removed_by_count: 4
                })
            )
            .unwrap()
        ),
        vec!["pruned 7 notifications (3 by age, 4 by count)"]
    );
    assert_eq!(
        lines(report(&HistoryArgs::Export { file: "f".into() }, &HistoryReply::Exported).unwrap()),
        vec!["history exported to f"]
    );
    assert_eq!(
        lines(
            report(&HistoryArgs::Import { file: "f".into() }, &HistoryReply::Imported(2)).unwrap()
        ),
        vec!["imported 2 notifications"]
    );
    assert_eq!(
        lines(report(&HistoryArgs::Clear { yes: true }, &HistoryReply::Cleared(5)).unwrap()),
        vec!["deleted 5 notifications"]
    );
    let digest = HistoryArgs::Digest {
        minutes: 15,
        json: false,
    };
    assert_eq!(
        lines(report(&digest, &HistoryReply::Groups(Vec::new())).unwrap()),
        vec!["nothing was suppressed in the last 15 minutes"]
    );
    let group = DigestGroup {
        app_id: "slack".to_string(),
        app_display_name: None,
        entries: vec![DigestEntry {
            notification: Notification::new(AppIdentity::new("slack"), "Ping", "b"),
            matched_rule: None,
            reason: String::new(),
        }],
    };
    assert_eq!(
        lines(report(&digest, &HistoryReply::Groups(vec![group])).unwrap()),
        vec![format!("{:22} {:>3} held   latest: {}", "slack", 1, "Ping")]
    );
}

#[test]
fn lines_have_their_columns() {
    let rule = Rule::new("mute-slack", Decision::Mute)
        .named("Mute Slack")
        .with_priority(10)
        .with_condition(Condition::App {
            apps: vec!["slack".to_string()],
        });
    assert_eq!(
        rule_line(&rule),
        format!(
            "{:<28} {:<6} {:>3}  {:<45} {}",
            "mute-slack",
            "mute",
            10,
            condition_label(&rule.conditions[0]),
            "Mute Slack"
        )
    );
    let shown = history_line_at(&entry("slack", "Ping"), "2026-09-25 10:00:00");
    assert!(shown.contains("2026-09-25 10:00:00"));
    let mut dated = entry("slack", "Ping");
    dated.notification.timestamp = Timestamp::new(1_758_794_400, 0).unwrap();
    let stamp = DateTime::from_timestamp(1_758_794_400, 0)
        .unwrap()
        .with_timezone(&Local)
        .format("%Y-%m-%d %H:%M:%S")
        .to_string();
    assert_eq!(history_line(&dated), history_line_at(&dated, &stamp));
    assert!(shown.contains(&format!("{:<20}", "slack")));
    assert!(shown.contains(&format!("{:<40}", "Ping")));
    assert!(profile_line(&FocusProfile::new("Deep Work")).contains("Deep Work"));
    let schedule = Schedule::new(
        "night",
        WallTime::from_hms(22, 0, 0).unwrap(),
        WallTime::from_hms(6, 0, 0).unwrap(),
    );
    assert!(schedule_line(&schedule).contains("22:00"));
}

#[test]
fn evaluations_are_explained() {
    let config = Config {
        rules: vec![Rule::new("mute-chat", Decision::Mute).with_conditions(vec![
            Condition::App {
                apps: vec!["slack".to_string()],
            },
            Condition::Fullscreen { equals: true },
        ])],
        ..Config::default()
    };
    let args = |fullscreen: bool, time: Option<&str>| EvaluateArgs {
        app: "slack".to_string(),
        title: "t".to_string(),
        body: "b".to_string(),
        urgency: UrgencyArg::Normal,
        fullscreen,
        profile: None,
        time: time.map(|t| t.to_string()),
    };
    let lines = evaluate(&config, ContextSnapshot::now(), &args(true, None)).unwrap();
    assert_eq!(lines[0], "decision: MUTE");
    assert_eq!(lines[1], "matched rule: mute-chat");
    assert!(lines[2].starts_with("reason: "));
    let lines = evaluate(&config, ContextSnapshot::now(), &args(false, Some("9:30"))).unwrap();
    assert_eq!(lines[0], "decision: ALLOW");
    assert_eq!(lines.len(), 2);
    assert!(evaluate(&config, ContextSnapshot::now(), &args(false, Some("930"))).is_err());
}

#[test]
fn the_daemon_decides_how_to_start() {
    let args = |consent: bool, degraded: bool| DaemonArgs { consent, degraded };
    assert!(should_request(AccessState::Unknown, &args(true, false)));
    assert!(!should_request(AccessState::Unknown, &args(false, false)));
    assert!(!should_request(AccessState::Denied, &args(true, false)));
    assert_eq!(start_mode(AccessState::Granted, &args(false, false)), StartMode::Listen);
    assert_eq!(start_mode(AccessState::Denied, &args(false, true)), StartMode::Degraded);
    assert_eq!(start_mode(AccessState::Denied, &args(false, false)), StartMode::Refuse);
    assert_eq!(
        refusal(AccessState::Denied),
        "notification access unavailable (denied); pass --degraded to run without live ingestion"
    );
    assert_eq!(
        listening_line("dbus", AccessState::Granted),
        "listening via `dbus` (access: granted)"
    );
    assert_eq!(
        degraded_line(AccessState::Unavailable),
        "running degraded (access: unavailable): rules and history stay usable, live ingestion is off"
    );
    assert_eq!(level_word(&AccessState::Denied.banner().unwrap()), "warning");
    assert_eq!(TICK_SECONDS, 30);
    assert!(!retention_due(119) && retention_due(120) && retention_due(240));
    let retention = default_retention();
    assert_eq!(retention.max_age, Some(Span::from_days(30)));
    assert_eq!(retention.max_count, Some(20_000));
}

#[test]
fn configuration_commands_are_planned() {
    assert_eq!(
        config_plan(&ConfigArgs::Init { force: false }, "/c", true).unwrap_err(),
        "/c already exists (use --force to overwrite)"
    );
    assert_eq!(
        config_plan(&ConfigArgs::Init { force: true }, "/c", true).unwrap(),
        ConfigStep::WriteStarter("starter configuration written to /c".to_string())
    );
    assert_eq!(
        config_plan(&ConfigArgs::Path, "/c", false).unwrap(),
        ConfigStep::Print("/c".to_string())
    );
    assert_eq!(config_plan(&ConfigArgs::Show, "/c", true).unwrap(), ConfigStep::Show);
    assert_eq!(
        config_plan(&ConfigArgs::Validate { path: None }, "/c", true).unwrap(),
        ConfigStep::Validate("/c".to_string())
    );
    assert_eq!(
        config_plan(&ConfigArgs::Validate { path: Some("/d".into()) }, "/c", true).unwrap(),
        ConfigStep::Validate("/d".to_string())
    );
    assert_eq!(
        validate_line("/c", &Config::default()).unwrap(),
        "/c is valid: 0 rules, 0 profiles"
    );
    let broken = Config {
        version: 0,
        ..Config::default()
    };
    assert!(validate_line("/c", &broken).is_err());
    assert_eq!(config_path(Some("a"), "b"), "a");
    assert_eq!(config_path(None, "b"), "b");
    assert_eq!(db_path(Some(1), 2), 1);
    assert_eq!(db_path(None, 2), 2);
}
