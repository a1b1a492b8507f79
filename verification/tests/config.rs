use tpt_focus::clock::{WallTime, Weekday};
use tpt_focus::config::current_version;
use tpt_focus::{
    Condition, Config, Decision, Error, FocusProfile, MatchMode, Rule, Urgency, CONFIG_VERSION,
};

fn rule(id: &str, name: &str, action: Decision) -> Rule {
    Rule::new(id, action).named(name)
}

fn sample_config() -> Config {
    Config {
        profiles: vec![
            FocusProfile::new("Deep Work").with_default_decision(Decision::Mute),
            FocusProfile::new("Meetings"),
        ],
        rules: vec![
            Rule::new("quiet", Decision::Batch)
                .named("Quiet hours")
                .with_priority(50)
                .with_match_mode(MatchMode::All)
                .with_conditions(vec![
                    Condition::TimeOfDay {
                        start: WallTime::from_hms(22, 0, 0).unwrap(),
                        end: WallTime::from_hms(6, 0, 0).unwrap(),
                        weekdays: vec![Weekday::Sat, Weekday::Sun],
                    },
                    Condition::Profile {
                        profiles: vec!["Deep Work".into()],
                    },
                ]),
            Rule::new("critical", Decision::Allow)
                .named("Critical always allowed")
                .with_priority(100)
                .with_condition(Condition::Urgency {
                    urgencies: vec![Urgency::Critical],
                }),
        ],
        ..Config::default()
    }
}

#[test]
fn a_sound_configuration_is_valid_and_copies() {
    let config = sample_config();
    config.validate().unwrap();
    assert_eq!(config.clone(), config);
}

#[test]
fn duplicate_rule_ids_are_rejected() {
    let config = Config {
        rules: vec![
            rule("a", "A", Decision::Mute),
            rule("A", "B", Decision::Batch),
        ],
        ..Config::default()
    };
    let err = config.validate().unwrap_err();
    assert!(err.to_text().contains("duplicate rule id"));
}

#[test]
fn unknown_profile_reference_is_rejected() {
    let config = Config {
        rules: vec![
            rule("a", "A", Decision::Mute).with_condition(Condition::Profile {
                profiles: vec!["Missing".into()],
            }),
        ],
        ..Config::default()
    };
    let err = config.validate().unwrap_err();
    assert!(err.to_text().contains("unknown focus profile"));
}

#[test]
fn empty_app_list_is_rejected() {
    let config = Config {
        rules: vec![
            rule("a", "A", Decision::Mute).with_condition(Condition::App { apps: Vec::new() }),
        ],
        ..Config::default()
    };
    let err = config.validate().unwrap_err();
    assert!(err.to_text().contains("at least one application"));
}

#[test]
fn unsupported_version_is_rejected() {
    let config = Config {
        version: 99,
        ..Config::default()
    };
    let err = config.validate().unwrap_err();
    assert!(err.to_text().contains("unsupported config version"));
    assert!(matches!(err, Error::ConfigValidation(_)));
    assert_eq!(current_version(), CONFIG_VERSION);
}

#[test]
fn starter_config_is_valid() {
    let starter = Config::starter();
    starter.validate().unwrap();
    assert_eq!(starter.version, 1);
    assert_eq!(starter.clone(), starter);
}

#[test]
fn referenced_profiles_must_exist_by_name() {
    let referring = |name: &str| Config {
        rules: vec![
            rule("a", "A", Decision::Mute).with_condition(Condition::Profile {
                profiles: vec![name.into()],
            }),
        ],
        profiles: vec![FocusProfile::new("Deep Work")],
        ..Config::default()
    };
    referring("DEEP work").validate().unwrap();
    assert_eq!(
        referring("Deep*").validate().unwrap_err().to_text(),
        "invalid configuration: rule `a` references unknown focus profile `Deep*`"
    );
}

#[test]
fn faulty_rules_are_named() {
    for (faulty, word) in [
        (rule(" ", "A", Decision::Mute), "id"),
        (
            rule("a", "A", Decision::Mute).with_condition(Condition::Urgency {
                urgencies: Vec::new(),
            }),
            "urgency",
        ),
        (
            rule("a", "A", Decision::Mute).with_condition(Condition::Profile {
                profiles: Vec::new(),
            }),
            "profile",
        ),
        (
            rule("a", "A", Decision::Mute).with_condition(Condition::TimeOfDay {
                start: WallTime::from_hms(9, 0, 0).unwrap(),
                end: WallTime::from_hms(9, 0, 0).unwrap(),
                weekdays: Vec::new(),
            }),
            "time",
        ),
    ] {
        let config = Config {
            rules: vec![faulty],
            ..Config::default()
        };
        let text = config.validate().unwrap_err().to_text();
        assert!(text.contains(word), "{text} should speak of {word}");
    }
}

#[test]
fn errors_say_what_happened() {
    let shown = |e: Error| e.to_text();
    assert_eq!(
        shown(Error::ConfigValidation("x".into())),
        "invalid configuration: x"
    );
    assert_eq!(
        shown(Error::Source("x".into())),
        "notification source error: x"
    );
    for error in [
        Error::ConfigParse("x".into()),
        Error::ConfigSerialize("x".into()),
        Error::ConfigRead {
            path: "p".into(),
            source: "x".into(),
        },
        Error::ConfigWrite {
            path: "p".into(),
            source: "x".into(),
        },
        Error::StorageDir {
            path: "p".into(),
            source: "x".into(),
        },
        Error::SourceNotRunning("x".into()),
        Error::Storage("x".into()),
        Error::Json("x".into()),
    ] {
        let text = error.to_text();
        assert!(text.contains('x'), "{text}");
    }
}
