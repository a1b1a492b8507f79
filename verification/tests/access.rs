use tpt_focus::platform::access::PACKAGE_IDENTITY_DOC;
use tpt_focus::platform::windows::{
    listener_access_state, request_listener_access, ListenerStatus, Platform, WinRtAccess,
};
use tpt_focus::{AccessState, BannerAction, BannerLevel, MockAccess, NotificationAccess};

#[test]
fn only_granted_allows_listening() {
    assert!(AccessState::Granted.can_listen());
    assert!(!AccessState::Unknown.can_listen());
    assert!(!AccessState::Denied.can_listen());
    assert!(!AccessState::Unavailable.can_listen());
    assert!(!AccessState::Requesting.can_listen());
}

#[test]
fn state_round_trips_through_settings() {
    for state in [
        AccessState::Unknown,
        AccessState::Requesting,
        AccessState::Granted,
        AccessState::Denied,
        AccessState::Unavailable,
    ] {
        assert_eq!(AccessState::parse(state.as_str()), state);
    }
    assert_eq!(AccessState::from_setting(None), AccessState::Unknown);
    assert_eq!(
        AccessState::from_setting(Some("Allowed")),
        AccessState::Granted
    );
    assert_eq!(
        AccessState::from_setting(Some("garbage")),
        AccessState::Unknown
    );
}

#[test]
fn unavailable_and_denied_states_produce_banners() {
    let banner = AccessState::Unavailable.banner().expect("banner");
    assert_eq!(banner.level, BannerLevel::Warning);
    assert_eq!(banner.action, Some(BannerAction::OpenDocs));
    assert!(banner.message.contains("package identity"));

    let banner = AccessState::Denied.banner().expect("banner");
    assert_eq!(banner.level, BannerLevel::Warning);
    assert_eq!(banner.action, Some(BannerAction::RequestAgain));
    assert!(banner.message.contains("permission"));

    assert!(AccessState::Granted.banner().is_none());
    assert!(AccessState::Unknown.banner().is_none());
}

#[test]
fn mock_access_flows_through_the_consent_states() {
    let mut access = MockAccess::new();
    assert_eq!(access.state(), AccessState::Unknown);
    assert_eq!(access.request(), AccessState::Granted);
    assert_eq!(access.request_count(), 1);

    access.set_next_state(AccessState::Denied);
    assert_eq!(access.request(), AccessState::Denied);
    assert!(!access.state().can_listen());
    assert_eq!(access.request_count(), 2);

    access.set_state(AccessState::Granted);
    assert!(access.state().can_listen());
    assert_eq!(access.request_count(), 2);
}

#[test]
fn denied_and_unavailable_mocks_never_grant() {
    let mut denied = MockAccess::denied();
    assert!(!denied.request().can_listen());

    let mut unavailable = MockAccess::unavailable();
    assert!(!unavailable.request().can_listen());
    assert_eq!(unavailable.help_url(), Some(PACKAGE_IDENTITY_DOC));
}

#[test]
fn consent_request_degrades_gracefully_without_package_identity() {
    let mut access = WinRtAccess::new(AccessState::Unknown);
    let state = access.request(None);

    assert!(
        matches!(state, AccessState::Denied | AccessState::Unavailable),
        "unexpected state without package identity: {state:?}"
    );
    assert!(!state.can_listen());
    assert_eq!(access.help_url(), Some(PACKAGE_IDENTITY_DOC));
}

#[test]
fn state_and_request_stay_within_the_state_machine() {
    for initial in [
        AccessState::Unknown,
        AccessState::Requesting,
        AccessState::Granted,
        AccessState::Denied,
        AccessState::Unavailable,
    ] {
        let access = WinRtAccess::new(initial);
        let state = access.state(None);
        assert!(matches!(
            state,
            AccessState::Unknown
                | AccessState::Requesting
                | AccessState::Granted
                | AccessState::Denied
                | AccessState::Unavailable
        ));
        assert_eq!(state, initial);
        assert_eq!(
            access.state(Some(ListenerStatus::Allowed)),
            AccessState::Granted
        );
    }
}

#[test]
fn consent_answers_become_states() {
    let mut access = WinRtAccess::new(AccessState::Unknown);
    access.begin_request();
    assert_eq!(access.state(None), AccessState::Requesting);
    assert_eq!(
        access.request(Some(ListenerStatus::Allowed)),
        AccessState::Granted
    );
    assert_eq!(access.state(None), AccessState::Granted);
    assert_eq!(
        access.request(Some(ListenerStatus::Denied)),
        AccessState::Denied
    );
    assert_eq!(
        access.request(Some(ListenerStatus::Unspecified)),
        AccessState::Unknown
    );
    assert_eq!(access.request(None), AccessState::Unavailable);
}

#[test]
fn platforms_differ_in_consent() {
    assert_eq!(
        listener_access_state(Platform::Linux, None),
        AccessState::Granted
    );
    assert_eq!(
        listener_access_state(Platform::Windows, None),
        AccessState::Unknown
    );
    assert_eq!(
        listener_access_state(Platform::Windows, Some(ListenerStatus::Allowed)),
        AccessState::Granted
    );
    assert_eq!(
        listener_access_state(Platform::Other, None),
        AccessState::Unavailable
    );
    assert_eq!(
        request_listener_access(Platform::Linux, None),
        AccessState::Granted
    );
    assert_eq!(
        request_listener_access(Platform::Windows, Some(ListenerStatus::Denied)),
        AccessState::Denied
    );
    assert_eq!(
        request_listener_access(Platform::Other, None),
        AccessState::Unavailable
    );
}

#[test]
fn stored_states_are_read_forgivingly() {
    assert_eq!(AccessState::parse("  GRANTED\n"), AccessState::Granted);
    assert_eq!(AccessState::parse("Denied"), AccessState::Denied);
    assert_eq!(AccessState::parse(""), AccessState::Unknown);
    assert_eq!(AccessState::default(), AccessState::Unknown);
}
