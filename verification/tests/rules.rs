use tpt_focus::clock::{LocalTime, WallTime, Weekday};
use tpt_focus::rules::rank;
use tpt_focus::{
    AppIdentity, Condition, Config, ContextSnapshot, Decision, Defaults, FocusProfile, MatchMode,
    Notification, Rule, RuleEngine, RuleEvaluation, Urgency,
};

fn notification(app: &str) -> Notification {
    Notification::new(AppIdentity::new(app), "Title", "Body")
}

fn t(hour: u32, minute: u32) -> WallTime {
    WallTime::from_hms(hour, minute, 0).unwrap()
}

/// 2026-09-25, a Friday.
fn context_at(hour: u32, minute: u32) -> ContextSnapshot {
    ContextSnapshot {
        local_time: LocalTime {
            weekday: Weekday::Fri,
            time: t(hour, minute),
        },
        ..ContextSnapshot::now()
    }
}

fn config(rules: Vec<Rule>) -> Config {
    Config {
        rules,
        ..Config::default()
    }
}

#[test]
fn higher_priority_rule_wins() {
    let config = config(vec![
        Rule::new("mute-all", Decision::Mute).with_priority(1),
        Rule::new("allow-slack", Decision::Allow)
            .with_priority(10)
            .with_condition(Condition::App {
                apps: vec!["slack".into()],
            }),
    ]);
    let engine = RuleEngine::new(&config);

    let eval = engine.evaluate(&notification("slack"), &ContextSnapshot::now());
    assert_eq!(eval.decision, Decision::Allow);
    assert_eq!(eval.matched_rule.as_deref(), Some("allow-slack"));

    let eval = engine.evaluate(&notification("mail"), &ContextSnapshot::now());
    assert_eq!(eval.decision, Decision::Mute);
    assert_eq!(eval.matched_rule.as_deref(), Some("mute-all"));
}

#[test]
fn equal_priority_falls_back_to_file_order() {
    let config = config(vec![
        Rule::new("first", Decision::Batch),
        Rule::new("second", Decision::Mute),
    ]);
    let engine = RuleEngine::new(&config);
    let eval = engine.evaluate(&notification("any"), &ContextSnapshot::now());
    assert_eq!(eval.matched_rule.as_deref(), Some("first"));
}

#[test]
fn disabled_rules_are_skipped() {
    let config = config(vec![
        Rule::new("off", Decision::Mute).disabled(),
        Rule::new("on", Decision::Batch),
    ]);
    let engine = RuleEngine::new(&config);
    let eval = engine.evaluate(&notification("any"), &ContextSnapshot::now());
    assert_eq!(eval.matched_rule.as_deref(), Some("on"));
}

#[test]
fn fullscreen_condition_matches_context() {
    let config = config(vec![Rule::new("mute-when-fullscreen", Decision::Mute)
        .with_condition(Condition::Fullscreen { equals: true })]);
    let engine = RuleEngine::new(&config);

    let mut ctx = ContextSnapshot::now();
    ctx.fullscreen = true;
    assert_eq!(
        engine.evaluate(&notification("slack"), &ctx).decision,
        Decision::Mute
    );

    ctx.fullscreen = false;
    assert_eq!(
        engine.evaluate(&notification("slack"), &ctx).decision,
        Decision::Allow
    );
}

#[test]
fn profile_condition_matches_active_profile() {
    let config = config(vec![Rule::new("deep-work", Decision::Mute).with_condition(
        Condition::Profile {
            profiles: vec!["deep work".into()],
        },
    )]);
    let engine = RuleEngine::new(&config);

    let mut ctx = ContextSnapshot::now();
    ctx.active_profile = Some("Deep Work".into());
    assert_eq!(
        engine.evaluate(&notification("x"), &ctx).decision,
        Decision::Mute
    );

    ctx.active_profile = None;
    assert_eq!(
        engine.evaluate(&notification("x"), &ctx).decision,
        Decision::Allow
    );
}

#[test]
fn time_of_day_condition_uses_local_wall_clock() {
    let config = config(vec![Rule::new("quiet-hours", Decision::Batch)
        .with_condition(Condition::TimeOfDay {
            start: t(22, 0),
            end: t(6, 0),
            weekdays: Vec::new(),
        })]);
    let engine = RuleEngine::new(&config);

    assert_eq!(
        engine
            .evaluate(&notification("x"), &context_at(23, 30))
            .decision,
        Decision::Batch
    );
    assert_eq!(
        engine
            .evaluate(&notification("x"), &context_at(3, 0))
            .decision,
        Decision::Batch
    );
    assert_eq!(
        engine
            .evaluate(&notification("x"), &context_at(12, 0))
            .decision,
        Decision::Allow
    );
}

#[test]
fn time_of_day_respects_weekdays() {
    let config = config(vec![Rule::new("weekdays-only", Decision::Mute)
        .with_condition(Condition::TimeOfDay {
            start: t(9, 0),
            end: t(17, 0),
            weekdays: vec![
                Weekday::Mon,
                Weekday::Tue,
                Weekday::Wed,
                Weekday::Thu,
                Weekday::Fri,
            ],
        })]);
    let engine = RuleEngine::new(&config);

    // 2026-09-25 is a Friday.
    assert_eq!(
        engine
            .evaluate(&notification("x"), &context_at(10, 0))
            .decision,
        Decision::Mute
    );
    // 2026-09-26 is a Saturday.
    let sat = ContextSnapshot {
        local_time: LocalTime {
            weekday: Weekday::Sat,
            time: t(10, 0),
        },
        ..ContextSnapshot::now()
    };
    assert_eq!(
        engine.evaluate(&notification("x"), &sat).decision,
        Decision::Allow
    );
}

#[test]
fn match_mode_any_requires_only_one_condition() {
    let config = config(vec![Rule::new("either", Decision::Mute)
        .with_match_mode(MatchMode::Any)
        .with_conditions(vec![
            Condition::App {
                apps: vec!["slack".into()],
            },
            Condition::Fullscreen { equals: true },
        ])]);
    let engine = RuleEngine::new(&config);

    let mut ctx = ContextSnapshot::now();
    ctx.fullscreen = false;
    assert_eq!(
        engine.evaluate(&notification("slack"), &ctx).decision,
        Decision::Mute
    );

    ctx.fullscreen = true;
    assert_eq!(
        engine.evaluate(&notification("mail"), &ctx).decision,
        Decision::Mute
    );

    ctx.fullscreen = false;
    assert_eq!(
        engine.evaluate(&notification("mail"), &ctx).decision,
        Decision::Allow
    );
}

#[test]
fn all_mode_requires_every_condition() {
    let config = config(vec![Rule::new("slack-fullscreen", Decision::Mute)
        .with_conditions(vec![
            Condition::App {
                apps: vec!["slack".into()],
            },
            Condition::Fullscreen { equals: true },
        ])]);
    let engine = RuleEngine::new(&config);

    let mut ctx = ContextSnapshot::now();
    ctx.fullscreen = true;
    assert_eq!(
        engine.evaluate(&notification("slack"), &ctx).decision,
        Decision::Mute
    );

    ctx.fullscreen = false;
    assert_eq!(
        engine.evaluate(&notification("slack"), &ctx).decision,
        Decision::Allow
    );
}

#[test]
fn fallback_uses_profile_default_then_global_default() {
    let mut config = config(Vec::new());
    config.defaults = Defaults {
        decision: Decision::Batch,
    };
    config
        .profiles
        .push(FocusProfile::new("Deep Work").with_default_decision(Decision::Mute));

    let engine = RuleEngine::new(&config);

    let mut ctx = ContextSnapshot::now();
    assert_eq!(
        engine.evaluate(&notification("x"), &ctx).decision,
        Decision::Batch
    );

    ctx.active_profile = Some("Deep Work".into());
    let eval = engine.evaluate(&notification("x"), &ctx);
    assert_eq!(eval.decision, Decision::Mute);
    assert!(eval.reason.contains("Deep Work"));
}

#[test]
fn empty_condition_list_is_catch_all() {
    let config = config(vec![Rule::new("catch-all", Decision::Mute)]);
    let engine = RuleEngine::new(&config);
    let eval = engine.evaluate(&notification("anything"), &ContextSnapshot::now());
    assert_eq!(eval.decision, Decision::Mute);
}

#[test]
fn urgency_condition_matches_levels() {
    let config = Config {
        defaults: Defaults {
            decision: Decision::Mute,
        },
        rules: vec![Rule::new("critical", Decision::Allow).with_condition(
            Condition::Urgency {
                urgencies: vec![Urgency::Critical],
            },
        )],
        ..Config::default()
    };
    let engine = RuleEngine::new(&config);

    let critical = notification("x").with_urgency(Urgency::Critical);
    assert_eq!(
        engine.evaluate(&critical, &ContextSnapshot::now()).decision,
        Decision::Allow
    );

    let low = notification("x").with_urgency(Urgency::Low);
    assert_eq!(
        engine.evaluate(&low, &ContextSnapshot::now()).decision,
        Decision::Mute
    );
}

#[test]
fn suppressed_flags_non_allow_decisions() {
    assert!(!RuleEvaluation {
        decision: Decision::Allow,
        matched_rule: None,
        reason: String::new(),
    }
    .suppressed());
    assert!(RuleEvaluation {
        decision: Decision::Mute,
        matched_rule: None,
        reason: String::new(),
    }
    .suppressed());
    assert!(RuleEvaluation {
        decision: Decision::Batch,
        matched_rule: None,
        reason: String::new(),
    }
    .suppressed());
}

#[test]
fn app_conditions_look_at_the_display_name_too() {
    let condition = Condition::App {
        apps: vec!["slack*".into()],
    };
    let named = Notification::new(
        AppIdentity::new("com.example.chat").with_display_name("Slack Desktop"),
        "t",
        "b",
    );
    assert!(condition.matches(&named, &ContextSnapshot::now()));
    assert!(!condition.matches(&notification("com.example.chat"), &ContextSnapshot::now()));
}

#[test]
fn rules_rank_by_priority_and_then_by_place() {
    let rules = vec![
        Rule::new("a", Decision::Mute).with_priority(-5),
        Rule::new("b", Decision::Mute).with_priority(7),
        Rule::new("c", Decision::Mute).disabled().with_priority(7),
        Rule::new("d", Decision::Mute).with_priority(7),
        Rule::new("e", Decision::Mute).with_priority(i32::MAX),
    ];
    assert_eq!(rank(&rules, false), vec![4, 1, 3, 0]);
    assert_eq!(rank(&rules, true), vec![4, 1, 2, 3, 0]);
    let config = config(rules);
    let ordered: Vec<String> = RuleEngine::new(&config)
        .ordered_rules()
        .iter()
        .map(|rule| rule.id.clone())
        .collect();
    assert_eq!(ordered, vec!["e", "b", "d", "a"]);
}

#[test]
fn decisions_have_words() {
    assert_eq!(Decision::Allow.as_str(), "allow");
    assert_eq!(Decision::Mute.as_str(), "mute");
    assert_eq!(Decision::Batch.as_str(), "batch");
}
