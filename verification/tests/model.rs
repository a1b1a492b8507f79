use tpt_focus::{
    pattern_matches, AppIdentity, IconRef, Notification, NotificationAction, NotificationId,
    Urgency,
};

#[test]
fn pattern_matching_is_case_insensitive() {
    assert!(pattern_matches("Slack", "slack"));
    assert!(pattern_matches("SLACK", "Slack"));
}

#[test]
fn pattern_supports_wildcards() {
    assert!(pattern_matches("*chrome*", "Google Chrome"));
    assert!(pattern_matches("slack*", "slack.desktop"));
    assert!(pattern_matches("code-?", "code-x"));
    assert!(!pattern_matches("code?", "code-x"));
    assert!(!pattern_matches("discord", "discord-ptb"));
}

#[test]
fn urgency_defaults_to_normal() {
    assert_eq!(Urgency::default(), Urgency::Normal);
}

#[test]
fn patterns_reach_the_edges() {
    assert!(pattern_matches("*", ""));
    assert!(pattern_matches("", ""));
    assert!(!pattern_matches("", "a"));
    assert!(!pattern_matches("?", ""));
    assert!(pattern_matches("?", "x"));
    assert!(pattern_matches("**a", "bca"));
    assert!(!pattern_matches("a*b*c", "acb"));
    assert!(pattern_matches("a*b*c", "aXbYbZc"));
    assert!(!pattern_matches("slack", "slac"));
}

#[test]
fn star_matches_a_value_with_stars() {
    assert!(pattern_matches("*", "*abc"));
    assert!(pattern_matches("*c", "*abc"));
    assert!(!pattern_matches("*d", "*abc"));
    assert!(pattern_matches("?abc", "*abc"));
}

#[test]
fn patterns_fold_letters_beyond_ascii() {
    assert!(pattern_matches("ÄRGER", "ärger"));
    assert!(pattern_matches("Ж*", "жук"));
    assert!(!pattern_matches("ärger", "arger"));
}

#[test]
fn a_plain_pattern_matches_itself_alone() {
    assert!(pattern_matches("Code - Insiders", "code - insiders"));
    assert!(!pattern_matches("code", "codex"));
    assert!(!pattern_matches("codex", "code"));
}

#[test]
fn fresh_ids_have_the_shape_of_a_random_uuid() {
    let a = NotificationId::new();
    let b = NotificationId::new();
    assert_ne!(a, b);
    for id in [a, b] {
        let text = id.as_str();
        assert_eq!(text.len(), 36);
        for (i, c) in text.chars().enumerate() {
            match i {
                8 | 13 | 18 | 23 => assert_eq!(c, '-'),
                14 => assert_eq!(c, '4'),
                19 => assert!("89ab".contains(c)),
                _ => assert!(c.is_ascii_digit() || ('a'..='f').contains(&c)),
            }
        }
    }
}

#[test]
fn ids_carry_their_text() {
    let id = NotificationId::from("dbus:7");
    assert_eq!(id.as_str(), "dbus:7");
    assert_eq!(id.to_text(), "dbus:7");
    assert!(id.same(&NotificationId::from("dbus:7".to_string())));
    assert!(!id.same(&NotificationId::from("dbus:8")));
}

#[test]
fn identities_show_name_and_id() {
    assert_eq!(AppIdentity::new("slack").to_text(), "slack");
    assert_eq!(
        AppIdentity::new("com.slack").with_display_name("Slack").to_text(),
        "Slack (com.slack)"
    );
}

#[test]
fn notifications_are_built_step_by_step() {
    let n = Notification::new(
        AppIdentity::new("com.slack.Slack").with_display_name("Slack"),
        "Standup in 5",
        "Daily standup starts soon",
    )
    .with_urgency(Urgency::Critical)
    .with_actions(vec![NotificationAction::new("join", "Join")])
    .with_icon(IconRef::Name("slack".to_string()));
    assert_eq!(n.source.app_id, "com.slack.Slack");
    assert_eq!(n.title, "Standup in 5");
    assert_eq!(n.body, "Daily standup starts soon");
    assert_eq!(n.urgency, Urgency::Critical);
    assert_eq!(n.actions.len(), 1);
    assert_eq!(n.actions[0].label, "Join");
    assert!(matches!(n.icon, Some(IconRef::Name(_))));
    assert_eq!(n.clone(), n);
}
