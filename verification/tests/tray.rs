use chrono::{DateTime, Local};
use tpt_focus::clock::{Span, Timestamp};
use tpt_focus::engine::decide;
use tpt_focus::platform::linux::{ClosedReason, Signal};
use tpt_focus::platform::windows::ListenerStatus;
use tpt_focus::tray::icon::{tray_icon, window_icon};
use tpt_focus::tray::menu::{
    answer_message, handle_menu_id, menu, show_menu, Answer, MenuEntry, COMMAND_MESSAGE,
    HOTKEY_MESSAGE, LEFT_BUTTON_UP, RIGHT_BUTTON_UP, TRAY_CALLBACK,
};
use tpt_focus::tray::pages::{
    add_profile, add_rule, bubble_card, digest_page, history_row, remove_rule, tint_of_banner,
    toggle_rule, HistoryAction, HistoryClick, Tint,
};
use tpt_focus::tray::source::{
    bubble_action, bubble_closed, consent_needed, daemon_access, effective_access, initial_access,
};
use tpt_focus::tray::state::{AppState, Bubble, Page, RuleDraft, UiCommand, WindowChange};
use tpt_focus::{
    AccessState, ActiveProfile, AppIdentity, BannerLevel, Condition, Config, ContextSnapshot,
    Decision, DigestCollector, FocusProfile, FocusRuntime, HistoryEntry, MockContextProvider,
    Notification, NotificationAction, NotificationId, Rule, Urgency,
};

fn state() -> AppState {
    AppState::new("/c".to_string())
}

fn note(title: &str) -> Notification {
    Notification::new(
        AppIdentity::new("com.example.application").with_display_name("Example"),
        title,
        "body",
    )
}

fn entry(decision: Decision, read: bool) -> HistoryEntry {
    HistoryEntry {
        notification: note("Title"),
        decision,
        rule_id: None,
        reason: String::new(),
        read,
        decided_at: Timestamp::new(0, 0).unwrap(),
    }
}

fn at(secs: i64) -> Timestamp {
    Timestamp::new(secs, 0).unwrap()
}

#[test]
fn commands_move_the_popup() {
    let mut state = state();
    let mut active = ActiveProfile::new();
    assert_eq!(state.page, Page::default());
    assert!(!state.visible && state.history_stale);
    state.history_stale = false;
    assert_eq!(state.run_command(&mut active, UiCommand::ToggleVisible), WindowChange::Raise);
    assert!(state.visible && state.history_stale);
    state.history_stale = false;
    assert_eq!(state.run_command(&mut active, UiCommand::ToggleVisible), WindowChange::Hide);
    assert!(!state.visible && !state.history_stale);
    assert_eq!(
        state.run_command(&mut active, UiCommand::Show(Page::Rules)),
        WindowChange::Raise
    );
    assert_eq!(state.page, Page::Rules);
    assert_eq!(
        state.run_command(&mut active, UiCommand::ActivateProfile(Some("Deep Work".into()))),
        WindowChange::Keep
    );
    assert_eq!(active.active().as_deref(), Some("Deep Work"));
    assert_eq!(state.active_profile.as_deref(), Some("Deep Work"));
    assert_eq!(state.focus_label().as_deref(), Some("focus: Deep Work"));
    state.run_command(&mut active, UiCommand::ActivateProfile(None));
    assert_eq!(active.active(), None);
    assert_eq!(state.focus_label(), None);
    assert_eq!(state.run_command(&mut active, UiCommand::Quit), WindowChange::Close);
}

#[test]
fn tabs_have_labels() {
    let labels: Vec<&str> = Page::tabs().iter().map(|page| page.label()).collect();
    assert_eq!(labels, vec!["History", "Digest", "Rules", "Profiles", "Settings"]);
}

#[test]
fn bubbles_expire_or_stick() {
    let now = at(1_000);
    let bubble = Bubble::appearing(note("t"), 5_000, now);
    assert!(!bubble.expired(now.later_by(Span::from_millis(4_999))));
    assert!(bubble.expired(now.later_by(Span::from_millis(5_000))));
    assert_eq!(bubble.seconds_left(now), Some(5));
    assert_eq!(bubble.seconds_left(now.later_by(Span::from_millis(1))), Some(4));
    assert_eq!(bubble.seconds_left(at(2_000)), Some(0));
    for sticky in [
        Bubble::appearing(note("t"), 0, now),
        Bubble::appearing(note("t"), -1, now),
        Bubble::appearing(note("t").with_urgency(Urgency::Critical), 5_000, now),
    ] {
        assert_eq!(sticky.expires, None);
        assert!(!sticky.expired(at(9_000_000)));
        assert_eq!(sticky.remaining_seconds(), None);
    }
    let fresh = Bubble::new(note("t"), 60_000);
    let left = fresh.remaining_seconds().unwrap();
    assert!((58..=60).contains(&left), "{left}");
}

#[test]
fn bubbles_are_dropped_and_closed() {
    let mut state = state();
    let now = at(1_000);
    let allowed = decide(&Config::default(), note("a"), &ContextSnapshot::now());
    assert_eq!(
        state.route(&allowed, now),
        Some(UiCommand::Show(Page::History))
    );
    assert_eq!(state.bubbles.len(), 1);
    let muting = Config {
        rules: vec![Rule::new("m", Decision::Mute)],
        ..Config::default()
    };
    let muted = decide(&muting, note("b"), &ContextSnapshot::now());
    assert_eq!(state.route(&muted, now), None);
    assert_eq!(state.bubbles.len(), 1);

    state.drop_expired(now.later_by(Span::from_millis(4_000)));
    assert_eq!(state.bubbles.len(), 1);
    state.close_bubble(&NotificationId::from("other"));
    assert_eq!(state.bubbles.len(), 1);
    let id = state.bubbles[0].notification.id.clone();
    state.close_bubble(&id);
    assert!(state.bubbles.is_empty());

    state.route(&allowed, now);
    state.drop_expired(now.later_by(Span::from_secs(5)));
    assert!(state.bubbles.is_empty());
}

#[test]
fn bubbles_are_shown_in_short() {
    let long = "x".repeat(100);
    let notification = Notification::new(AppIdentity::new("an.application.with.a.long.id"), &long, &long)
        .with_actions(vec![NotificationAction::new("reply", "Reply")]);
    let card = bubble_card(&Bubble::appearing(notification, 5_000, at(0)), at(2));
    assert_eq!(card.app, "an.application.wi…");
    assert_eq!(card.title.chars().count(), 44);
    assert_eq!(card.body.unwrap().chars().count(), 90);
    assert_eq!(card.countdown.as_deref(), Some("3s"));
    assert_eq!(card.actions[0].id, "reply");
    let mut state = state();
    state.bubbles.push(Bubble::appearing(
        Notification::new(AppIdentity::new("a"), "t", ""),
        0,
        at(0),
    ));
    let cards = state.bubbles_section(at(2));
    assert_eq!(cards[0].body, None);
    assert_eq!(cards[0].countdown, None);
    assert_eq!(cards[0].app, "a");
}

#[test]
fn drafts_become_rules() {
    let mut state = state();
    assert_eq!(RuleDraft::actions(), ["allow", "mute", "batch"]);
    assert!(state.submit_draft().is_none());
    assert_eq!(state.status, "rule id must not be empty");
    state.save_draft(RuleDraft {
        id: " quiet ".into(),
        app: "  ".into(),
        action: 1,
        fullscreen: true,
        priority: " 12 ".into(),
    });
    assert!(state.submit_draft().is_none());
    assert_eq!(state.status, "app pattern must not be empty");
    state.rule_draft.app = " slack* ".into();
    let rule = state.submit_draft().unwrap();
    assert_eq!(rule.id, "quiet");
    assert_eq!(rule.name, "quiet");
    assert_eq!(rule.action, Decision::Mute);
    assert_eq!(rule.priority, 12);
    assert_eq!(
        rule.conditions,
        vec![
            Condition::App {
                apps: vec!["slack*".into()]
            },
            Condition::Fullscreen { equals: true },
        ]
    );
    for (typed, priority) in [("x", 0), ("", 0), ("99999999999", 0), ("-4", -4)] {
        let draft = RuleDraft {
            priority: typed.into(),
            action: 2,
            fullscreen: false,
            ..state.rule_draft.clone()
        };
        let rule = draft.build().unwrap();
        assert_eq!(rule.priority, priority);
        assert_eq!(rule.action, Decision::Batch);
        assert_eq!(rule.conditions.len(), 1);
    }
    assert_eq!(RuleDraft::default().action, 0);
}

#[test]
fn history_is_read_again_when_due() {
    let mut state = state();
    assert!(state.refresh_due(0));
    state.refreshed(Some(vec![entry(Decision::Allow, false)]), &Config::starter());
    assert!(!state.history_stale);
    state.refreshed(None, &Config::starter());
    assert_eq!(state.history.len(), 1);
    assert_eq!(state.rules.len(), Config::starter().rules.len());
    assert!(!state.refresh_due(10_000));
    state.visible = true;
    assert!(!state.refresh_due(799));
    assert!(state.refresh_due(800));
    assert_eq!(state.search_terms(), None);
    state.search_changed(" ping ".into());
    assert_eq!(state.search_terms().as_deref(), Some(" ping "));
    assert!(state.refresh_due(0));
    assert_eq!(AppState::history_query().limit, Some(200));
}

#[test]
fn history_rows_say_what_happened() {
    let row = history_row(&entry(Decision::Allow, false));
    assert_eq!((row.badge, row.tint), ("show", Tint::Green));
    assert_eq!(row.app, "Example");
    assert_eq!(row.read_label, "mark read");
    assert!(row.dismissible);
    let mut dated = entry(Decision::Allow, false);
    dated.notification.timestamp = at(1_758_794_400);
    let stamp = DateTime::from_timestamp(1_758_794_400, 0)
        .unwrap()
        .with_timezone(&Local)
        .format("%m-%d %H:%M")
        .to_string();
    assert_eq!(history_row(&dated).stamp, stamp);
    let row = history_row(&entry(Decision::Batch, true));
    assert_eq!((row.badge, row.tint), ("batch", Tint::Yellow));
    assert_eq!(row.read_label, "mark unread");
    assert!(!row.dismissible);
    assert_eq!(history_row(&entry(Decision::Mute, true)).badge, "muted");

    let mut state = state();
    assert_eq!(state.history_hint(), Some("no notifications recorded yet"));
    state.search = "x".into();
    assert_eq!(state.history_hint(), Some("no notifications match the search"));
    state.history.push(dated);
    assert_eq!(state.history_hint(), None);
    assert_eq!(state.history_page().len(), 1);
    assert_eq!(state.history_page()[0].stamp, stamp);
}

#[test]
fn history_clicks_ask_for_actions() {
    let mut state = state();
    state.history_stale = false;
    let row = history_row(&entry(Decision::Allow, false));
    assert_eq!(
        state.history_click(&row, HistoryClick::Dismiss),
        Some(HistoryAction::Dismiss(row.id.clone()))
    );
    assert!(!state.history_stale);
    assert_eq!(
        state.history_click(&row, HistoryClick::ToggleRead),
        Some(HistoryAction::SetRead(row.id.clone(), true))
    );
    assert!(state.history_stale);
    assert_eq!(
        state.history_click(&row, HistoryClick::Delete),
        Some(HistoryAction::Delete(row.id.clone()))
    );
    let muted = history_row(&entry(Decision::Mute, true));
    assert_eq!(state.history_click(&muted, HistoryClick::Dismiss), None);
    assert_eq!(
        state.history_click(&muted, HistoryClick::ToggleRead),
        Some(HistoryAction::SetRead(muted.id.clone(), false))
    );
}

#[test]
fn digest_groups_are_shown_and_opened() {
    assert_eq!(
        digest_page(&Vec::new()).unwrap_err(),
        "nothing is being held back right now"
    );
    let muting = Config {
        rules: vec![Rule::new("m", Decision::Mute)],
        ..Config::default()
    };
    let mut digests = DigestCollector::default();
    for i in 0..7 {
        digests.add(&decide(&muting, note(&format!("t{i}")), &ContextSnapshot::now()));
    }
    let cards = digest_page(&digests.groups()).unwrap();
    assert_eq!(cards.len(), 1);
    assert_eq!(cards[0].held, "7 held");
    assert_eq!(cards[0].lines, vec!["  • t6", "  • t5", "  • t4", "  • t3", "  • t2"]);
    assert_eq!(cards[0].more.as_deref(), Some("  … and 2 more"));

    let mut state = state();
    state.history_stale = false;
    assert_eq!(state.open_group(&mut digests, "com.example.application").len(), 7);
    assert!(state.history_stale);
    assert!(digests.is_empty());
    assert!(state.open_group(&mut digests, "com.example.application").is_empty());
}

#[test]
fn rules_are_edited_on_their_page() {
    let config = Config {
        rules: vec![
            Rule::new("a", Decision::Mute),
            Rule::new("b", Decision::Batch).disabled(),
        ],
        ..Config::default()
    };
    let off = toggle_rule(&config, "a", false);
    assert!(!off.rules[0].enabled);
    assert_eq!(toggle_rule(&off, "a", true), config);
    assert_eq!(toggle_rule(&config, "A", false), config);
    let more = add_rule(&config, Rule::new("c", Decision::Allow));
    assert_eq!(more.rules.len(), 3);
    assert_eq!(remove_rule(&more, "c"), config);
    assert_eq!(remove_rule(&config, "z"), config);

    let mut state = state();
    state.refreshed(Some(Vec::new()), &config);
    let rows = state.rules_page();
    assert_eq!((rows[0].switch, rows[0].action), ("on", "mute"));
    assert_eq!((rows[1].switch, rows[1].action), ("off", "batch"));
}

#[test]
fn saved_configurations_come_into_force() {
    let mut state = state();
    let mut runtime = FocusRuntime::new(
        Config::default(),
        MockContextProvider::new(),
        ActiveProfile::new(),
    );
    state.persist_config(&mut runtime, Config::starter(), Err("disk full".into()));
    assert_eq!(state.status, "save failed: disk full");
    assert!(runtime.pipeline().config().rules.is_empty());
    assert!(state.rules.is_empty());
    state.persist_config(&mut runtime, Config::starter(), Ok(()));
    assert_eq!(*runtime.pipeline().config(), Config::starter());
    assert_eq!(state.rules, Config::starter().rules);
}

#[test]
fn profiles_are_switched_on_their_page() {
    let config = Config {
        profiles: vec![
            FocusProfile::new("Deep Work").with_description("quiet"),
            FocusProfile::new("Meetings"),
        ],
        ..Config::default()
    };
    let mut state = state();
    state.refreshed(Some(Vec::new()), &config);
    state.active_profile = Some("deep work".into());
    let rows = state.profiles_page();
    assert_eq!(rows[0].label, "● active");
    assert_eq!(rows[0].choice(), None);
    assert_eq!(rows[0].description.as_deref(), Some("quiet"));
    assert_eq!(rows[1].label, "activate");
    assert_eq!(rows[1].choice().as_deref(), Some("Meetings"));

    assert!(add_profile(&config, "  ").is_none());
    assert!(add_profile(&config, " MEETINGS ").is_none());
    let more = add_profile(&config, " Sleep ").unwrap();
    assert_eq!(more.profiles[2], FocusProfile::new("Sleep"));
    state.new_profile_changed("x".into());
    assert_eq!(state.new_profile, "x");
}

#[test]
fn settings_tell_the_access_state() {
    let mut state = state();
    assert_eq!(state.settings_note(), Some("✔ notifications available"));
    state.access = AccessState::Granted;
    assert_eq!(state.settings_note(), Some("✔ notification access granted"));
    state.access = AccessState::Denied;
    assert_eq!(state.settings_note(), None);
    assert_eq!(
        state.settings_lines(true, "1.0.0"),
        vec!["config: /c", "dismiss-through: true", "tpt-focus v1.0.0"]
    );
    assert_eq!(tint_of_banner(BannerLevel::Info), Tint::LightBlue);
    assert_eq!(tint_of_banner(BannerLevel::Warning), Tint::Yellow);
    assert_eq!(tint_of_banner(BannerLevel::Error), Tint::LightRed);
}

#[test]
fn sources_settle_with_a_status() {
    let mut state = state();
    state.source_settled(AccessState::Granted);
    assert_eq!(state.status, "");
    state.source_settled(AccessState::Denied);
    assert_eq!(state.status, "notification access denied");
    state.source_settled(AccessState::Unavailable);
    assert_eq!(state.status, "live ingestion unavailable");
    assert_eq!(state.access, AccessState::Unavailable);
    state.daemon_failed("taken");
    assert_eq!(state.status, "could not become the notification daemon: taken");
    state.no_source();
    assert_eq!(state.status, "no notification source for this platform");
    state.access_requested(None);
    assert_eq!(state.status, "no consent prompt on this platform");
    state.access_requested(Some(AccessState::Granted));
    assert_eq!(state.access, AccessState::Granted);
    assert_eq!(
        state.smoke_line(),
        "smoke ok: access=granted, bubbles=0, rules=0, profiles=0"
    );
}

#[test]
fn consent_is_remembered() {
    assert_eq!(
        initial_access(AccessState::Granted, AccessState::Unknown),
        AccessState::Granted
    );
    assert_eq!(
        initial_access(AccessState::Denied, AccessState::Granted),
        AccessState::Granted
    );
    assert_eq!(
        initial_access(AccessState::Denied, AccessState::Unknown),
        AccessState::Denied
    );
    assert_eq!(
        initial_access(AccessState::Unavailable, AccessState::Unknown),
        AccessState::Unknown
    );
    assert!(consent_needed(AccessState::Unknown) && !consent_needed(AccessState::Denied));
    assert_eq!(
        effective_access(AccessState::Unknown, Some(ListenerStatus::Denied)),
        AccessState::Denied
    );
    assert_eq!(
        effective_access(AccessState::Granted, None),
        AccessState::Granted
    );
    assert_eq!(daemon_access(true), AccessState::Granted);
    assert_eq!(daemon_access(false), AccessState::Unavailable);
}

#[test]
fn bubbles_answer_with_signals() {
    let id = NotificationId::from("dbus:3");
    assert_eq!(bubble_action(&id, "reply").unwrap().len(), 2);
    assert_eq!(
        bubble_closed(&id, true).unwrap(),
        vec![Signal::NotificationClosed {
            id: 3,
            reason: ClosedReason::Dismissed
        }]
    );
    assert_eq!(
        bubble_closed(&id, false).unwrap(),
        vec![Signal::NotificationClosed {
            id: 3,
            reason: ClosedReason::Expired
        }]
    );
    assert!(bubble_closed(&NotificationId::from("x"), true).is_err());
}

#[test]
fn menus_offer_the_profiles() {
    let profiles = vec![FocusProfile::new("Deep Work"), FocusProfile::new("Meetings")];
    let active = Some("MEETINGS".to_string());
    let entries = menu(&profiles, &active);
    assert_eq!(entries.len(), 8);
    assert_eq!(
        entries[0],
        MenuEntry::Item {
            label: "Open / hide popup",
            command: UiCommand::ToggleVisible
        }
    );
    match &entries[5] {
        MenuEntry::Submenu { label, entries } => {
            assert_eq!(*label, "Focus profile");
            let marks: Vec<(&str, bool)> = entries
                .iter()
                .map(|entry| (entry.label.as_str(), entry.checked))
                .collect();
            assert_eq!(
                marks,
                vec![
                    ("normal (no profile)", false),
                    ("Deep Work", false),
                    ("Meetings", true)
                ]
            );
        }
        other => panic!("{other:?}"),
    }

    let native = show_menu(&profiles, &None);
    assert_eq!(native.len(), 10);
    assert!(native[5].checked);
    for entry in &native {
        let command = handle_menu_id(entry.id, &profiles);
        assert_eq!(command.is_none(), entry.id == 0, "{}", entry.label);
    }
    assert_eq!(
        handle_menu_id(native[7].id, &profiles),
        Some(UiCommand::ActivateProfile(Some("Meetings".into())))
    );
    assert_eq!(handle_menu_id(1002, &profiles), None);
    assert_eq!(handle_menu_id(106, &profiles), None);
}

#[test]
fn window_messages_are_answered() {
    let profiles = vec![FocusProfile::new("Deep Work")];
    let answer =
        |message: u32, id: u32, mouse: u32| answer_message(message, id, mouse, &profiles);
    assert_eq!(
        answer(TRAY_CALLBACK, 0, LEFT_BUTTON_UP),
        Answer::Send(UiCommand::ToggleVisible)
    );
    assert_eq!(answer(TRAY_CALLBACK, 0, RIGHT_BUTTON_UP), Answer::ShowMenu);
    assert_eq!(answer(TRAY_CALLBACK, 0, 0), Answer::Swallow);
    assert_eq!(answer(HOTKEY_MESSAGE, 0, 0), Answer::Send(UiCommand::ToggleVisible));
    assert_eq!(answer(COMMAND_MESSAGE, 105, 0), Answer::Send(UiCommand::Quit));
    assert_eq!(answer(COMMAND_MESSAGE, 7, 0), Answer::Swallow);
    assert_eq!(answer(1, 0, 0), Answer::PassOn);
}

#[test]
fn icons_are_dots_with_a_bar() {
    let icon = tray_icon();
    assert_eq!(icon.len(), 1024);
    let window = window_icon();
    assert_eq!(window.len(), 4096);
    for y in 0..32i32 {
        for x in 0..32i32 {
            let dx = x as f32 - 15.5;
            let dy = y as f32 - 15.5;
            let inside = dx * dx + dy * dy <= 13.5 * 13.5;
            let bar = inside && (17..=23).contains(&y);
            let expected: [u8; 4] = if bar {
                [255, 255, 255, 255]
            } else if inside {
                [110, 70, 160, 255]
            } else {
                [0, 0, 0, 0]
            };
            let start = 4 * (32 * y + x) as usize;
            assert_eq!(window[start..start + 4], expected);
        }
    }
    for y in 0..16i32 {
        for x in 0..16i32 {
            let dx = x as f32 - 7.5;
            let dy = y as f32 - 7.5;
            let inside = dx * dx + dy * dy <= 6.5 * 6.5;
            let bar = inside && (8..=11).contains(&y);
            let expected: [u8; 4] = if bar {
                [255, 255, 255, 255]
            } else if inside {
                [255, 110, 70, 160]
            } else {
                [0, 0, 0, 0]
            };
            let start = 4 * (16 * y + x) as usize;
            assert_eq!(icon[start..start + 4], expected);
        }
    }
}
