//! Consent/access boundary between the engine and the OS notification sink.
//!
//! Windows requires package identity plus an explicit consent before its
//! listener will hand out notifications. The state machine below is
//! platform-independent so tests can exercise it through [`MockAccess`]
//! without any package identity.
use vstd::prelude::*;
use crate::text;
use crate::text::{same_text, to_ascii_lower, trim};

verus! {

broadcast use vstd::string::group_string_axioms;

/// Settings key persisting the last known access state across restarts.
pub const ACCESS_SETTING_KEY: &'static str = "windows.listener_access";

/// Documentation shown when access cannot be granted.
pub const PACKAGE_IDENTITY_DOC: &'static str = "https://github.com/tpt-solutions/tpt-focus/blob/master/docs/windows-package-identity.md";

/// Outcome of the OS consent flow.
#[derive(Clone, Copy, Debug, PartialEq, Eq, Structural)]
pub enum AccessState {
    /// Consent has not been determined yet this session.
    Unknown,
    /// The consent prompt is showing / a request is in flight.
    Requesting,
    /// Consent granted: the listener may start.
    Granted,
    /// The user declined.
    Denied,
    /// The API cannot be used at all (no package identity, OS too old, ...).
    Unavailable,
}

impl Default for AccessState {
    fn default() -> (r: AccessState)
        ensures
            r == AccessState::Unknown,
    {
        AccessState::Unknown
    }
}

/// The word for an access state.
pub open spec fn access_word(state: AccessState) -> Seq<char> {
    match state {
        AccessState::Unknown => "unknown"@,
        AccessState::Requesting => "requesting"@,
        AccessState::Granted => "granted"@,
        AccessState::Denied => "denied"@,
        AccessState::Unavailable => "unavailable"@,
    }
}

/// The access state that a lower-case word stands for.
pub open spec fn access_named(word: Seq<char>) -> AccessState {
    if word == "granted"@ || word == "allowed"@ {
        AccessState::Granted
    } else if word == "denied"@ {
        AccessState::Denied
    } else if word == "unavailable"@ {
        AccessState::Unavailable
    } else if word == "requesting"@ {
        AccessState::Requesting
    } else {
        AccessState::Unknown
    }
}

/// The access state that a stored word stands for: white space around it and
/// the case of its letters do not matter.
pub open spec fn access_read(raw: Seq<char>) -> AccessState {
    access_named(text::ascii_lower(text::trimmed(raw)))
}

/// The banner for an access state, if it needs one.
pub open spec fn banner_for(state: AccessState) -> Option<BannerModel> {
    match state {
        AccessState::Denied => Some(
            BannerModel {
                level: BannerLevel::Warning,
                message: "Windows has not granted tpt-focus permission to read notifications, so live history is paused."@,
                action: Some(BannerAction::RequestAgain),
            },
        ),
        AccessState::Unavailable => Some(
            BannerModel {
                level: BannerLevel::Warning,
                message: "tpt-focus has no Windows package identity, so it cannot read system notifications. Rules, profiles and history search still work."@,
                action: Some(BannerAction::OpenDocs),
            },
        ),
        _ => None,
    }
}

impl AccessState {
    /// May the notification listener be started?
    pub fn can_listen(&self) -> (r: bool)
        ensures
            r == (*self == AccessState::Granted),
    {
        *self == AccessState::Granted
    }

    /// Stable string used in settings and logs.
    pub fn as_str(&self) -> (r: &'static str)
        ensures
            r@ == access_word(*self),
    {
        match self {
            AccessState::Unknown => "unknown",
            AccessState::Requesting => "requesting",
            AccessState::Granted => "granted",
            AccessState::Denied => "denied",
            AccessState::Unavailable => "unavailable",
        }
    }

    /// Parse the value written by [`AccessState::as_str`].
    pub fn parse(raw: &str) -> (r: AccessState)
        ensures
            r == access_read(raw@),
    {
        let value = to_ascii_lower(trim(raw).as_str());
        let v = value.as_str();
        if same_text(v, "granted") || same_text(v, "allowed") {
            AccessState::Granted
        } else if same_text(v, "denied") {
            AccessState::Denied
        } else if same_text(v, "unavailable") {
            AccessState::Unavailable
        } else if same_text(v, "requesting") {
            AccessState::Requesting
        } else {
            AccessState::Unknown
        }
    }

    /// Restore from a persisted settings value (`None` = never asked).
    pub fn from_setting(raw: Option<&str>) -> (r: AccessState)
        ensures
            r == (match raw {
                Some(t) => access_read(t@),
                None => AccessState::Unknown,
            }),
    {
        match raw {
            Some(t) => AccessState::parse(t),
            None => AccessState::Unknown,
        }
    }

    /// Banner shown by the tray/settings UI, if this state needs one.
    ///
    /// Both degraded modes keep rules, profiles, history search and the tray
    /// fully functional; only live ingestion is off.
    pub fn banner(&self) -> (r: Option<Banner>)
        ensures
            banner_if_any(r) == banner_for(*self),
    {
        match self {
            AccessState::Denied => Some(
                Banner {
                    level: BannerLevel::Warning,
                    message: "Windows has not granted tpt-focus permission to read notifications, so live history is paused.".to_string(),
                    action: Some(BannerAction::RequestAgain),
                },
            ),
            AccessState::Unavailable => Some(
                Banner {
                    level: BannerLevel::Warning,
                    message: "tpt-focus has no Windows package identity, so it cannot read system notifications. Rules, profiles and history search still work.".to_string(),
                    action: Some(BannerAction::OpenDocs),
                },
            ),
            _ => None,
        }
    }
}

proof fn lemma_plain_word(s: Seq<char>)
    requires
        s.len() > 0,
        forall|i: int| 0 <= i < s.len() ==> 'a' <= #[trigger] s[i] && s[i] <= 'z',
    ensures
        text::ascii_lower(text::trimmed(s)) == s,
{
    assert('a' <= s[0] && s[s.len() - 1] <= 'z' && 'a' <= s[s.len() - 1]);
    assert(!text::white(s.first()) && !text::white(s.last()));
    assert(text::trimmed(s) == s);
    assert(text::ascii_lower(s) =~= s) by {
        assert forall|i: int| 0 <= i < s.len() implies text::ascii_lower_char(s[i]) == s[i] by {
            assert('a' <= s[i]);
        }
    }
}

/// An access state is read back from its word as it was.
pub proof fn access_words_read_back(state: AccessState)
    ensures
        access_read(access_word(state)) == state,
{
    reveal_strlit("unknown");
    reveal_strlit("requesting");
    reveal_strlit("granted");
    reveal_strlit("allowed");
    reveal_strlit("denied");
    reveal_strlit("unavailable");
    lemma_plain_word(access_word(state));
    assert("unknown"@.len() == 7 && "requesting"@.len() == 10 && "granted"@.len() == 7
        && "allowed"@.len() == 7 && "denied"@.len() == 6 && "unavailable"@.len() == 11);
    assert("unknown"@[0] == 'u' && "granted"@[0] == 'g' && "allowed"@[0] == 'a');
}

/// Severity of a user-facing banner.
#[derive(Clone, Copy, Debug, PartialEq, Eq, Structural)]
pub enum BannerLevel {
    Info,
    Warning,
    Error,
}

/// What the user can do about a banner.
#[derive(Clone, Copy, Debug, PartialEq, Eq, Structural)]
pub enum BannerAction {
    /// Re-run the consent prompt.
    RequestAgain,
    /// Open the setup documentation.
    OpenDocs,
}

/// User-facing notice attached to a particular [`AccessState`].
#[derive(Debug, PartialEq, Eq)]
pub struct Banner {
    pub level: BannerLevel,
    pub message: String,
    pub action: Option<BannerAction>,
}

/// What a [`Banner`] says.
pub struct BannerModel {
    pub level: BannerLevel,
    pub message: Seq<char>,
    pub action: Option<BannerAction>,
}

impl View for Banner {
    type V = BannerModel;

    open spec fn view(&self) -> BannerModel {
        BannerModel { level: self.level, message: self.message@, action: self.action }
    }
}

/// What a banner that may be absent says.
pub open spec fn banner_if_any(banner: Option<Banner>) -> Option<BannerModel> {
    match banner {
        Some(b) => Some(b@),
        None => None,
    }
}

/// Platform boundary for obtaining notification access.
pub trait NotificationAccess {
    /// Last known state without prompting the user.
    fn state(&self) -> AccessState;

    /// Show the OS consent prompt if needed and return the resulting state.
    ///
    /// Implementations must never panic when the underlying API is missing.
    fn request(&mut self) -> AccessState;

    /// Where to send the user when access cannot be granted.
    fn help_url(&self) -> (r: Option<&'static str>)
        default_ensures
            r is None,
    {
        None
    }
}

/// Test double for the consent flow (no package identity required).
#[derive(Debug)]
pub struct MockAccess {
    pub current: AccessState,
    pub next_state: AccessState,
    pub requests: usize,
}

impl MockAccess {
    /// Nothing is decided yet, and the first request is granted.
    pub fn new() -> (r: MockAccess)
        ensures
            r.current == AccessState::Unknown,
            r.next_state == AccessState::Granted,
            r.requests == 0,
    {
        MockAccess {
            current: AccessState::Unknown,
            next_state: AccessState::Granted,
            requests: 0,
        }
    }

    /// Mock that reports granted access after the first request.
    pub fn granted() -> (r: MockAccess)
        ensures
            r.current == AccessState::Unknown,
            r.next_state == AccessState::Granted,
            r.requests == 0,
    {
        MockAccess::new()
    }

    /// Mock where the user always declines.
    pub fn denied() -> (r: MockAccess)
        ensures
            r.current == AccessState::Denied,
            r.next_state == AccessState::Denied,
            r.requests == 0,
    {
        MockAccess { current: AccessState::Denied, next_state: AccessState::Denied, requests: 0 }
    }

    /// Mock where the API is entirely unavailable.
    pub fn unavailable() -> (r: MockAccess)
        ensures
            r.current == AccessState::Unavailable,
            r.next_state == AccessState::Unavailable,
            r.requests == 0,
    {
        MockAccess {
            current: AccessState::Unavailable,
            next_state: AccessState::Unavailable,
            requests: 0,
        }
    }

    /// What the next `request()` call should resolve to.
    pub fn set_next_state(&mut self, state: AccessState)
        ensures
            *final(self) == (MockAccess { next_state: state, ..*old(self) }),
    {
        self.next_state = state;
    }

    /// Force the reported state (simulates a persisted value).
    pub fn set_state(&mut self, state: AccessState)
        ensures
            *final(self) == (MockAccess { current: state, ..*old(self) }),
    {
        self.current = state;
    }

    /// How many times consent has been requested.
    pub fn request_count(&self) -> (r: usize)
        ensures
            r == self.requests,
    {
        self.requests
    }
}

impl Default for MockAccess {
    fn default() -> (r: MockAccess)
        ensures
            r.current == AccessState::Unknown,
            r.next_state == AccessState::Granted,
            r.requests == 0,
    {
        MockAccess::new()
    }
}

impl NotificationAccess for MockAccess {
    fn state(&self) -> (r: AccessState)
        ensures
            r == self.current,
    {
        self.current
    }

    fn request(&mut self) -> (r: AccessState)
        ensures
            r == old(self).next_state,
            *final(self) == (MockAccess {
                current: old(self).next_state,
                requests: old(self).requests.wrapping_add(1),
                ..*old(self)
            }),
    {
        self.requests = self.requests.wrapping_add(1);
        self.current = self.next_state;
        self.next_state
    }

    fn help_url(&self) -> (r: Option<&'static str>)
        ensures
            r is Some,
            r->0@ == PACKAGE_IDENTITY_DOC@,
    {
        Some(PACKAGE_IDENTITY_DOC)
    }
}

/// Each access state has the word it is stored under.
pub proof fn states_have_their_words(state: AccessState)
    ensures
        state == AccessState::Unknown ==> access_word(state) == "unknown"@,
        state == AccessState::Requesting ==> access_word(state) == "requesting"@,
        state == AccessState::Granted ==> access_word(state) == "granted"@,
        state == AccessState::Denied ==> access_word(state) == "denied"@,
        state == AccessState::Unavailable ==> access_word(state) == "unavailable"@,
{
}

/// A stored word stands for access only where it says so, in whatever case and
/// with whatever white space around it; words that say nothing leave the state
/// unknown.
pub proof fn only_words_of_consent_grant(raw: Seq<char>)
    ensures
        ({
            let word = text::ascii_lower(text::trimmed(raw));
            &&& access_read(raw) == AccessState::Granted <==> word == "granted"@ || word
                == "allowed"@
            &&& word == "denied"@ ==> access_read(raw) == AccessState::Denied
            &&& word == "unavailable"@ ==> access_read(raw) == AccessState::Unavailable
            &&& word == "requesting"@ ==> access_read(raw) == AccessState::Requesting
            &&& access_read(raw) == AccessState::Denied ==> word == "denied"@
            &&& text::blank(raw) ==> access_read(raw) == AccessState::Unknown
        }),
{
    reveal_strlit("granted");
    reveal_strlit("allowed");
    reveal_strlit("denied");
    reveal_strlit("unavailable");
    reveal_strlit("requesting");
    assert("granted"@.len() == 7 && "allowed"@.len() == 7 && "denied"@.len() == 6
        && "unavailable"@.len() == 11 && "requesting"@.len() == 10);
    text::blank_trims_to_nothing(raw);
}

/// A banner warns exactly where access was denied or cannot be had, and offers to
/// ask again in the one case and the documentation in the other.
pub proof fn banners_warn_of_missing_access(state: AccessState)
    ensures
        banner_for(state) is Some <==> state == AccessState::Denied || state
            == AccessState::Unavailable,
        banner_for(state) matches Some(banner) ==> banner.level == BannerLevel::Warning
            && banner.message.len() > 0,
        state == AccessState::Denied ==> banner_for(state)->0.action == Some(
            BannerAction::RequestAgain,
        ),
        state == AccessState::Unavailable ==> banner_for(state)->0.action == Some(
            BannerAction::OpenDocs,
        ),
{
    reveal_strlit(
        "Windows has not granted tpt-focus permission to read notifications, so live history is paused.",
    );
    reveal_strlit(
        "tpt-focus has no Windows package identity, so it cannot read system notifications. Rules, profiles and history search still work.",
    );
}

} // verus!
