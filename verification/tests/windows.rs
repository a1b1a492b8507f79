use chrono::{DateTime, Datelike, Local, Timelike};
use tpt_focus::clock::{LocalTime, Timestamp, Weekday};
use tpt_focus::platform::session::PollStep;
use tpt_focus::platform::windows::{
    app_id_from_image_path, check_start, check_stop, covers_monitor, delivery_mode,
    dismiss_target, event_target, extract_texts, fresh_ids, from_user_notification,
    notification_id, parse_notification_id, poll_step, poll_wait, process_name, rect_center,
    texts_to_title_body, to_core, winrt_capabilities, winrt_time_to_utc, Delivery,
    ListenerReading, ListenerStatus, Rect, UserNotificationReading, WindowReading,
    WindowsContextProvider, SOURCE_ID,
};
use tpt_focus::{ActiveProfile, NotificationId};

fn rect(left: i32, top: i32, right: i32, bottom: i32) -> Rect {
    Rect {
        left,
        top,
        right,
        bottom,
    }
}

fn shown_by_chrono(at: Timestamp) -> (Weekday, u32, u32) {
    let shown = DateTime::from_timestamp_nanos(at.nanos() as i64)
        .with_timezone(&Local)
        .naive_local();
    let weekday = match shown.weekday().num_days_from_monday() {
        0 => Weekday::Mon,
        1 => Weekday::Tue,
        2 => Weekday::Wed,
        3 => Weekday::Thu,
        4 => Weekday::Fri,
        5 => Weekday::Sat,
        _ => Weekday::Sun,
    };
    (weekday, shown.num_seconds_from_midnight(), shown.nanosecond())
}

fn shown(local: LocalTime) -> (Weekday, u32, u32) {
    let nanos = local.time.nanos() % 1_000_000_000;
    (local.weekday, local.time.seconds(), nanos as u32)
}

#[test]
fn title_and_body_come_from_text_elements() {
    let texts = vec![
        "Standup in 5 minutes".to_string(),
        "Daily sync starting soon".to_string(),
    ];
    let (title, body) = texts_to_title_body(&texts);
    assert_eq!(title, "Standup in 5 minutes");
    assert_eq!(body, "Daily sync starting soon");

    let (title, body) = texts_to_title_body(&[]);
    assert_eq!(title, "Notification");
    assert!(body.is_empty());

    let (title, body) = texts_to_title_body(&["   ".to_string(), "Actual title".to_string()]);
    assert_eq!(title, "Actual title");
    assert!(body.is_empty());
}

#[test]
fn listener_ids_round_trip_through_the_namespace() {
    assert_eq!(
        parse_notification_id(&notification_id(42)),
        Some(42),
        "winrt ids must round trip for dismiss-through"
    );
    assert_eq!(
        parse_notification_id(&NotificationId::from("other:1")),
        None
    );
    assert_eq!(parse_notification_id(&NotificationId::from("nope")), None);
}

#[test]
fn winrt_timestamps_convert_to_utc() {
    // 1601-01-01T00:00:00Z → 1970-01-01T00:00:00Z
    assert_eq!(
        winrt_time_to_utc(116_444_736_000_000_000),
        Some(Timestamp::from_millis(0).unwrap())
    );

    // 2026-09-25T00:00:00Z
    let unix_seconds: i64 = 1_790_000_000;
    let winrt = unix_seconds * 10_000_000 + 116_444_736_000_000_000;
    assert_eq!(
        winrt_time_to_utc(winrt),
        Some(Timestamp::from_millis(unix_seconds * 1000).unwrap())
    );

    assert_eq!(winrt_time_to_utc(i64::MIN), None);
}

#[test]
fn mapping_builds_a_core_notification() {
    let notification = to_core(
        7,
        Some(Timestamp::from_millis(1_790_000_000_000).unwrap()),
        "slack".to_string(),
        Some("Slack".to_string()),
        vec!["Ping".to_string(), "New message".to_string()],
    );

    assert_eq!(notification.id, notification_id(7));
    assert_eq!(notification.source.app_id, "slack");
    assert_eq!(notification.source.display_name.as_deref(), Some("Slack"));
    assert_eq!(notification.title, "Ping");
    assert_eq!(notification.body, "New message");
    assert_eq!(notification.timestamp.millis(), 1_790_000_000_000);
}

#[test]
fn fresh_ids_are_the_diff_against_the_baseline() {
    let baseline: Vec<u32> = vec![1, 2, 3];
    let current: Vec<u32> = vec![2, 3, 4, 9];

    assert_eq!(fresh_ids(&baseline, &current), vec![4, 9]);
}

#[test]
fn polls_deliver_each_notification_once() {
    let mut known: Vec<u32> = vec![1, 2];
    assert_eq!(poll_step(&mut known, &vec![2, 3]), vec![3]);
    assert!(poll_step(&mut known, &vec![2, 3]).is_empty());
    assert!(poll_step(&mut known, &vec![1, 3]).is_empty());
    assert_eq!(poll_step(&mut known, &vec![4]), vec![4]);
}

#[test]
fn source_reports_its_capabilities() {
    assert_eq!(SOURCE_ID, "winrt");
    let capabilities = winrt_capabilities();
    assert!(capabilities.can_dismiss);
    assert!(capabilities.observes_user_dismiss);
    assert!(!capabilities.supports_actions);
}

#[test]
fn starting_takes_identity_and_consent() {
    assert!(check_start(false, &ListenerReading::Status(ListenerStatus::Allowed)).is_ok());
    let again = check_start(true, &ListenerReading::Status(ListenerStatus::Allowed));
    assert!(again.unwrap_err().to_text().contains("already running"));
    let bare = check_start(false, &ListenerReading::NoIdentity("0x1".into()));
    assert!(bare.unwrap_err().to_text().contains("no package identity: 0x1"));
    let mute = check_start(false, &ListenerReading::NoStatus("0x2".into()));
    assert!(mute.unwrap_err().to_text().contains("access status unavailable: 0x2"));
    let denied = check_start(false, &ListenerReading::Status(ListenerStatus::Denied));
    assert!(denied.unwrap_err().to_text().contains("access not granted"));
    assert!(check_stop(true).is_ok());
    assert!(check_stop(false).unwrap_err().to_text().contains("is not running"));
}

#[test]
fn delivery_falls_back_to_polling() {
    assert_eq!(delivery_mode(true), Delivery::Events);
    assert_eq!(delivery_mode(false), Delivery::Polling);
    assert_eq!(event_target(Some(true), Some(5), true), Some(5));
    assert_eq!(event_target(Some(true), None, true), None);
    assert_eq!(event_target(Some(false), Some(5), true), None);
    assert_eq!(event_target(None, Some(5), true), None);
    assert_eq!(event_target(Some(true), Some(5), false), None);
}

#[test]
fn dismissing_takes_an_own_id() {
    assert_eq!(dismiss_target(&notification_id(3)).unwrap(), 3);
    let error = dismiss_target(&NotificationId::from("dbus:3")).unwrap_err();
    assert!(error.to_text().contains("does not belong to the Windows source"));
}

#[test]
fn toasts_become_notifications() {
    let n = from_user_notification(UserNotificationReading {
        id: 9,
        app_user_model_id: Some("Slack.App".into()),
        display_name: Some("Slack".into()),
        creation_time: Some(116_444_736_000_000_000 + 15_000),
        bindings: vec![vec!["Hi".into(), " ".into()], vec!["there".into()]],
    });
    assert_eq!(n.id.as_str(), "winrt:9");
    assert_eq!(n.source.app_id, "Slack.App");
    assert_eq!(n.title, "Hi");
    assert_eq!(n.timestamp.millis(), 1);
    assert_eq!(
        extract_texts(&vec![
            vec![" ".into()],
            vec!["a".into(), String::new(), "b".into()],
            vec!["c".into()]
        ]),
        vec!["a".to_string(), "b".to_string()]
    );
    assert!(extract_texts(&Vec::new()).is_empty());
}

#[test]
fn fullscreen_requires_edge_to_edge_coverage() {
    let monitor = rect(0, 0, 1920, 1080);

    assert!(covers_monitor(&rect(0, 0, 1920, 1080), &monitor, 2));
    assert!(covers_monitor(&rect(-1, 0, 1920, 1081), &monitor, 2));

    // Maximized window: work area excludes the taskbar.
    assert!(!covers_monitor(&rect(0, 0, 1920, 1040), &monitor, 2));
    // Ordinary window.
    assert!(!covers_monitor(&rect(100, 100, 900, 700), &monitor, 2));
    // Off-by-one beyond tolerance.
    assert!(!covers_monitor(&rect(20, 20, 1920, 1080), &monitor, 2));
}

#[test]
fn app_ids_come_from_image_paths() {
    assert_eq!(
        app_id_from_image_path(r"C:\Users\me\AppData\Roaming\slack\slack.exe"),
        "slack"
    );
    assert_eq!(
        app_id_from_image_path("/usr/bin/code-insiders"),
        "code-insiders"
    );
    assert_eq!(
        app_id_from_image_path("C:\\Program Files\\Discord\\Discord.exe"),
        "discord"
    );
    assert_eq!(app_id_from_image_path("noextension"), "noextension");
    assert_eq!(app_id_from_image_path("trailing\\"), "trailing");
}

#[test]
fn rect_centre_is_midpoint() {
    let center = rect_center(&rect(0, 0, 100, 50));
    assert_eq!((center.x, center.y), (50, 25));
}

#[test]
fn extreme_rectangles_do_not_overflow() {
    let all = rect(i32::MIN, i32::MIN, i32::MAX, i32::MAX);
    assert!(covers_monitor(&all, &all, i32::MAX));
    assert!(covers_monitor(&all, &rect(0, 0, 10, 10), 0));
    let center = rect_center(&all);
    assert!((-1..=0).contains(&center.x) && (-1..=0).contains(&center.y));
}

#[test]
fn active_profile_is_visible_to_rules() {
    let mut profile = ActiveProfile::new();
    profile.activate("deep-work");

    let provider = WindowsContextProvider::new(profile);
    assert_eq!(
        provider.snapshot(&None).active_profile.as_deref(),
        Some("deep-work")
    );
}

#[test]
fn snapshot_is_structurally_sound_headless() {
    let provider = WindowsContextProvider::new(ActiveProfile::new());

    // No interactive desktop: the snapshot is still usable.
    let snapshot = provider.snapshot(&None);
    assert_eq!(provider.name(), "windows");
    assert!(snapshot.captured_at.nanos() <= Timestamp::now().nanos());
    assert_eq!(shown(snapshot.local_time), shown_by_chrono(snapshot.captured_at));
    assert!(snapshot.foreground_app.is_none());
    assert!(!snapshot.fullscreen);
}

#[test]
fn the_foreground_window_is_read() {
    let provider = WindowsContextProvider::new(ActiveProfile::new());
    let reading = WindowReading {
        window: Some(rect(0, 0, 800, 600)),
        monitor: Some(rect(0, 0, 800, 600)),
        image_path: Some("C:\\x\\Game.exe".into()),
    };
    let (app, fullscreen) = provider.window_state(&Some(reading));
    assert_eq!(app.expect("app").app_id, "game");
    assert!(fullscreen);
    assert_eq!(process_name(&Some("/usr/bin/Foo.EXE".into())).as_deref(), Some("foo"));
    assert_eq!(process_name(&None), None);
}

#[test]
fn the_poller_waits_in_naps() {
    assert_eq!(poll_wait(false, 0), PollStep::Nap { ms: 100 });
    assert_eq!(poll_wait(false, 1_999), PollStep::Nap { ms: 100 });
    assert_eq!(poll_wait(false, 2_000), PollStep::Look);
    assert_eq!(poll_wait(true, 0), PollStep::Finish);
    assert_eq!(poll_wait(true, 9_000), PollStep::Finish);
}
