use tpt_focus::platform::linux::{
    assign_id, dbus_capabilities, dismiss_signal, emit_action, emit_closed, focused_state,
    identity_from_class, image_hint, map_notify, notification_id, parse_id, parse_wm_class,
    probe_states, server_capabilities, server_information, x11_state, ClosedReason, Hint,
    HintValue, Signal, StaticContextProvider, Toplevel, ToplevelCache, STATE_ACTIVATED,
    STATE_FULLSCREEN,
};
use tpt_focus::platform::session::{
    backends, check_stop, claim_error, toplevel_step, toplevel_version, words_of, x11_step,
    Backend, PollStep, ToplevelEvent, ToplevelTable, X11Outcome, X11Step,
};
use tpt_focus::{ActiveProfile, ContextProvider, IconRef, NotificationId, Urgency};

fn hint(key: &str, value: HintValue) -> Hint {
    Hint {
        key: key.to_string(),
        value,
    }
}

fn text(value: &str) -> HintValue {
    HintValue::Text(value.to_string())
}

#[test]
fn state_bits_map_to_flags() {
    assert_eq!(probe_states(&vec![2]), (true, false));
    assert_eq!(probe_states(&vec![0, 2, 3]), (true, true));
    assert_eq!(probe_states(&vec![]), (false, false));
    assert_eq!(probe_states(&vec![1]), (false, false));
}

#[test]
fn identity_requires_an_app_id() {
    let mut toplevel = Toplevel::default();
    assert!(toplevel.identity().is_none());

    toplevel.app_id = "  ".into();
    assert!(toplevel.identity().is_none());

    toplevel.app_id = "slack".into();
    toplevel.title = " #general".into();
    let app = toplevel.identity().expect("identity");
    assert_eq!(app.app_id, "slack");
    assert_eq!(app.display_name.as_deref(), Some(" #general"));
}

#[test]
fn wm_class_prefers_the_class_name() {
    let app = parse_wm_class(b"slack\0Slack\0").expect("app");
    assert_eq!(app.app_id, "Slack");
    assert_eq!(app.display_name.as_deref(), Some("slack"));
}

#[test]
fn wm_class_survives_a_missing_instance() {
    let app = parse_wm_class(b"\0code-oss\0").expect("app");
    assert_eq!(app.app_id, "code-oss");
    assert_eq!(app.display_name, None);
}

#[test]
fn wm_class_rejects_garbage() {
    assert!(parse_wm_class(b"").is_none());
    assert!(parse_wm_class(b"\0\0").is_none());
}

#[test]
fn wm_class_replaces_bytes_that_are_no_text() {
    let app = parse_wm_class(b"in\xffst\0Cl\xe4ss\0").expect("app");
    assert_eq!(app.app_id, "Cl\u{fffd}ss");
    assert_eq!(app.display_name.as_deref(), Some("in\u{fffd}st"));
    let app = parse_wm_class("gänse\0Gänse\0".as_bytes()).expect("app");
    assert_eq!(app.app_id, "Gänse");
    assert!(parse_wm_class(b"  \0  \0").is_none());
}

#[test]
fn identities_come_from_instance_and_class() {
    let app = identity_from_class(" code ", "Code").expect("app");
    assert_eq!(app.app_id, "Code");
    assert_eq!(app.display_name.as_deref(), Some("code"));
    assert!(identity_from_class("x", "").is_none());
    assert_eq!(identity_from_class("Code", "Code").expect("app").display_name, None);
}

#[test]
fn static_provider_reports_only_the_profile() {
    let mut profile = ActiveProfile::new();
    profile.activate("Deep Work");
    let provider = StaticContextProvider::new(profile);

    let snapshot = provider.snapshot();
    assert_eq!(provider.name(), "linux-static");
    assert!(snapshot.foreground_app.is_none());
    assert!(!snapshot.fullscreen);
    assert_eq!(snapshot.active_profile.as_deref(), Some("Deep Work"));
}

#[test]
fn notify_maps_desktop_entry_and_urgency() {
    let notification = map_notify(
        7,
        "Slack",
        "slack-icon",
        "Standup",
        "starts soon",
        &["reply", "Reply", "default", "Open"],
        &vec![
            hint("desktop-entry", text("com.slack.Slack")),
            hint("urgency", HintValue::Byte(2)),
            hint("image-path", text("/tmp/img.png")),
        ],
    );

    assert_eq!(notification.id.as_str(), "dbus:7");
    assert_eq!(notification.source.app_id, "com.slack.Slack");
    assert_eq!(notification.source.display_name.as_deref(), Some("Slack"));
    assert_eq!(notification.urgency, Urgency::Critical);
    assert_eq!(notification.title, "Standup");
    assert_eq!(notification.body, "starts soon");
    assert!(matches!(notification.icon, Some(IconRef::Path(_))));
    // The `default` pseudo-action never becomes a button.
    assert_eq!(
        notification
            .actions
            .iter()
            .map(|action| action.id.as_str())
            .collect::<Vec<_>>(),
        vec!["reply"]
    );
}

#[test]
fn notify_falls_back_to_app_name() {
    let notification = map_notify(1, "", "", "Headline", "", &[], &Vec::new());
    assert_eq!(notification.source.app_id, "unknown");
    assert_eq!(notification.urgency, Urgency::Normal);
    assert_eq!(notification.title, "Headline");
    assert!(notification.actions.is_empty());
}

#[test]
fn notify_fills_in_what_is_missing() {
    let notification = map_notify(2, "mailer", "mail", "", "b", &["a", "A", "lonely"], &Vec::new());
    assert_eq!(notification.source.app_id, "mailer");
    assert_eq!(notification.title, "Notification");
    assert_eq!(notification.actions.len(), 1);
    assert!(matches!(notification.icon, Some(IconRef::Name(_))));
    let low = map_notify(3, "m", "", "t", "b", &[], &vec![hint("urgency", HintValue::Byte(0))]);
    assert_eq!(low.urgency, Urgency::Low);
    let odd = map_notify(4, "m", "", "t", "b", &[], &vec![hint("urgency", HintValue::Byte(9))]);
    assert_eq!(odd.urgency, Urgency::Normal);
    assert!(image_hint(&Vec::new()).is_none());
    assert!(image_hint(&vec![hint("image-path", HintValue::Other)]).is_none());
}

#[test]
fn dbus_ids_round_trip_through_the_namespace() {
    let id = NotificationId::from("dbus:42");
    assert_eq!(parse_id(&id).unwrap(), 42);
    assert!(parse_id(&NotificationId::from("winrt:1")).is_err());
    assert!(parse_id(&NotificationId::from("nope")).is_err());
}

#[test]
fn every_bus_id_reads_back() {
    for id in [0u32, 1, 9, 10, 4_294_967_295] {
        assert_eq!(parse_id(&notification_id(id)).unwrap(), id);
    }
    let error = parse_id(&NotificationId::from("dbus:4294967296")).unwrap_err();
    assert_eq!(
        error.to_text(),
        "notification source error: id `dbus:4294967296` does not belong to the Linux source"
    );
}

#[test]
fn calls_get_fresh_ids_or_replace() {
    assert_eq!(assign_id(0, 5), (5, 6));
    assert_eq!(assign_id(3, 5), (3, 5));
    assert_eq!(assign_id(0, u32::MAX), (u32::MAX, 0));
}

#[test]
fn a_run_of_calls_gets_different_ids() {
    let mut next: u32 = 1;
    let mut given: Vec<u32> = Vec::new();
    for replaces in [0, 0, 1, 0, 7, 2, 0] {
        let (id, after) = assign_id(replaces, next);
        if replaces == 0 {
            assert_ne!(id, 0);
            assert!(!given.contains(&id));
            given.push(id);
        } else {
            assert_eq!((id, after), (replaces, next));
        }
        next = after;
    }
    assert_eq!(given, vec![1, 2, 3, 4]);
    assert_eq!(next, 5);
}

#[test]
fn closing_and_acting_emit_signals() {
    let id = NotificationId::from("dbus:4");
    assert_eq!(
        emit_closed(&id, ClosedReason::Expired).unwrap(),
        vec![Signal::NotificationClosed {
            id: 4,
            reason: ClosedReason::Expired
        }]
    );
    assert_eq!(
        emit_action(&id, "reply").unwrap(),
        vec![
            Signal::ActionInvoked {
                id: 4,
                key: "reply".to_string()
            },
            Signal::NotificationClosed {
                id: 4,
                reason: ClosedReason::Dismissed
            },
        ]
    );
    assert_eq!(
        dismiss_signal(&id).unwrap(),
        vec![Signal::NotificationClosed {
            id: 4,
            reason: ClosedReason::ByRequest
        }]
    );
    assert!(emit_action(&NotificationId::from("winrt:4"), "reply").is_err());
    assert_eq!(ClosedReason::Expired.code(), 1);
    assert_eq!(ClosedReason::Dismissed.code(), 2);
    assert_eq!(ClosedReason::ByRequest.code(), 3);
    assert_eq!(ClosedReason::Other.code(), 4);
}

#[test]
fn the_daemon_introduces_itself() {
    assert_eq!(
        server_capabilities(),
        vec!["actions", "body", "body-markup", "icon-static"]
    );
    assert_eq!(
        server_information("1.0.0"),
        ("tpt-focus", "TPT Solutions", "1.0.0".to_string(), "1.2")
    );
    let capabilities = dbus_capabilities();
    assert!(capabilities.can_dismiss && capabilities.supports_actions);
    assert!(capabilities.supports_replace && capabilities.observes_user_dismiss);
}

#[test]
fn daemon_failures_name_the_cause() {
    assert_eq!(
        claim_error(true, "ignored").to_text(),
        "notification source error: another notification daemon already owns \
         org.freedesktop.Notifications (GNOME Shell, dunst, mako, …); disable it to use tpt-focus"
    );
    assert_eq!(
        claim_error(false, "no bus").to_text(),
        "notification source error: failed to claim org.freedesktop.Notifications: no bus"
    );
    assert!(check_stop(true).is_ok());
    assert!(check_stop(false).unwrap_err().to_text().contains("dbus"));
}

#[test]
fn x11_answers_become_the_foreground() {
    let seen = x11_state(true, &Some(vec![7, 9]), 9, &Some(b"code\0Code\0".to_vec()));
    assert!(seen.fullscreen);
    assert_eq!(seen.foreground_app.expect("app").app_id, "Code");
    let seen = x11_state(true, &Some(vec![7]), 9, &None);
    assert!(!seen.fullscreen && seen.foreground_app.is_none());
    let seen = x11_state(true, &None, 9, &None);
    assert!(!seen.fullscreen);
    let seen = x11_state(false, &Some(vec![9]), 9, &Some(b"a\0B\0".to_vec()));
    assert!(!seen.fullscreen && seen.foreground_app.is_none());
    assert!(ToplevelCache::default().foreground_app.is_none());
}

#[test]
fn the_x11_poller_keeps_trying() {
    assert_eq!(x11_step(false, X11Outcome::Started), X11Step::Connect { wait_ms: 0 });
    assert_eq!(x11_step(false, X11Outcome::Refused), X11Step::Connect { wait_ms: 2000 });
    assert_eq!(x11_step(false, X11Outcome::Connected), X11Step::Look { wait_ms: 0 });
    assert_eq!(x11_step(false, X11Outcome::Looked), X11Step::Look { wait_ms: 500 });
    assert_eq!(x11_step(false, X11Outcome::NoScreen), X11Step::Finish);
    assert_eq!(x11_step(true, X11Outcome::Looked), X11Step::Finish);
}

#[test]
fn the_wlroots_poller_naps_after_each_look() {
    assert_eq!(toplevel_step(false, false), PollStep::Look);
    assert_eq!(toplevel_step(false, true), PollStep::Nap { ms: 100 });
    assert_eq!(toplevel_step(true, true), PollStep::Nap { ms: 100 });
    assert_eq!(toplevel_step(true, false), PollStep::Finish);
}

#[test]
fn sessions_choose_their_backend() {
    assert_eq!(backends(true, true), vec![Backend::Wayland, Backend::X11, Backend::Static]);
    assert_eq!(backends(false, true), vec![Backend::X11, Backend::Static]);
    assert_eq!(backends(false, false), vec![Backend::Static]);
    assert_eq!(Backend::Wayland.name(), "linux-wayland");
    assert_eq!(Backend::X11.name(), "linux-x11");
    assert_eq!(Backend::Static.name(), "linux-static");
    assert_eq!(toplevel_version(1), 1);
    assert_eq!(toplevel_version(9), 3);
}

#[test]
fn wire_states_are_read_in_either_byte_order() {
    assert_eq!(words_of(&vec![2, 0, 0, 0, 3, 0, 0, 0, 9], true), vec![2, 3]);
    assert_eq!(words_of(&vec![0, 0, 0, 2, 1, 2, 3, 4], false), vec![2, 0x0102_0304]);
    assert_eq!(words_of(&vec![255, 255, 255, 255], true), vec![u32::MAX]);
    assert!(words_of(&vec![1, 2, 3], true).is_empty());
}

#[test]
fn windows_come_and_go() {
    let mut table = ToplevelTable::new();
    assert!(!table.apply(5, ToplevelEvent::Title("ghost".into()), true));
    assert!(table.publish().foreground_app.is_none());

    table.announce(5);
    table.announce(6);
    table.announce(5);
    assert!(!table.apply(5, ToplevelEvent::AppId("slack".into()), true));
    assert!(!table.apply(5, ToplevelEvent::Title("Slack".into()), true));
    assert!(!table.apply(6, ToplevelEvent::AppId("code".into()), true));
    assert!(table.publish().foreground_app.is_none());

    let active = STATE_ACTIVATED.to_le_bytes().to_vec();
    assert!(!table.apply(5, ToplevelEvent::State(active), true));
    let seen = table.publish();
    assert_eq!(seen.foreground_app.expect("app").display_name.as_deref(), Some("Slack"));
    assert!(!seen.fullscreen);

    assert!(table.apply(5, ToplevelEvent::Closed, true));
    assert!(!table.apply(5, ToplevelEvent::Closed, true));
    assert!(table.publish().foreground_app.is_none());

    let mut both = STATE_FULLSCREEN.to_le_bytes().to_vec();
    both.extend(STATE_ACTIVATED.to_le_bytes());
    table.apply(6, ToplevelEvent::State(both), true);
    let seen = table.publish();
    assert_eq!(seen.foreground_app.expect("app").app_id, "code");
    assert!(seen.fullscreen);
}

#[test]
fn the_first_active_window_is_the_foreground() {
    let idle = Toplevel {
        app_id: "idle".into(),
        title: String::new(),
        states: vec![STATE_FULLSCREEN],
    };
    let first = Toplevel {
        app_id: "first".into(),
        title: String::new(),
        states: vec![STATE_ACTIVATED],
    };
    let second = Toplevel {
        app_id: "second".into(),
        title: String::new(),
        states: vec![STATE_ACTIVATED, STATE_FULLSCREEN],
    };
    let seen = focused_state(&vec![idle, first, second]);
    assert_eq!(seen.foreground_app.expect("app").app_id, "first");
    assert!(!seen.fullscreen);
    assert!(!focused_state(&Vec::new()).fullscreen);
}
