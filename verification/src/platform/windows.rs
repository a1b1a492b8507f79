//! Windows backend: consent, the mapping of listener notifications to the
//! notification model, and what the window manager tells about the foreground.
//!
//! The native calls are made elsewhere; here stands what is made of their
//! answers.
use vstd::prelude::*;
use crate::clock;
use crate::clock::{now_with_local, Timestamp};
use crate::context;
use crate::context::ContextSnapshot;
use crate::error::{Error, ErrorModel};
use crate::model;
use crate::model::{AppIdentity, AppModel, Notification, NotificationId};
use crate::number;
use crate::number::{decimal, read_unsigned};
use crate::platform::access::{AccessState, PACKAGE_IDENTITY_DOC};
use crate::platform::linux;
use crate::platform::linux::after_prefix;
use crate::platform::session::{PollStep, NAP_MS};
use crate::profile::ActiveProfile;
use crate::source;
use crate::source::{already_running_error, SourceCapabilities};
use crate::text;
use crate::text::{chars_of, is_blank, join, text_range, to_lowercase, trim};

verus! {

broadcast use vstd::string::group_string_axioms;

/// Source id reported to logs and the CLI.
pub const SOURCE_ID: &'static str = "winrt";

/// Prefix used for [`NotificationId`]s produced by this source.
pub const ID_PREFIX: &'static str = "winrt:";

/// Tolerance (pixels) when comparing window and monitor bounds.
pub const FULLSCREEN_TOLERANCE: i32 = 2;

/// What the listener reports about consent.
#[derive(Clone, Copy, Debug, PartialEq, Eq, Structural)]
pub enum ListenerStatus {
    Allowed,
    Denied,
    Unspecified,
}

/// Where a consent request leads, given the listener's answer, or none where
/// the request failed.
pub open spec fn consent_outcome(answer: Option<ListenerStatus>) -> AccessState {
    match answer {
        Some(ListenerStatus::Allowed) => AccessState::Granted,
        Some(ListenerStatus::Denied) => AccessState::Denied,
        Some(ListenerStatus::Unspecified) => AccessState::Unknown,
        None => AccessState::Unavailable,
    }
}

/// Consent on Windows: what was last decided, brought up to date by what the
/// listener answers.
#[derive(Debug)]
pub struct WinRtAccess {
    pub persisted: AccessState,
}

impl WinRtAccess {
    /// Start from a previously persisted state (usually
    /// [`AccessState::Unknown`] on a fresh install).
    pub fn new(initial: AccessState) -> (r: WinRtAccess)
        ensures
            r.persisted == initial,
    {
        WinRtAccess { persisted: initial }
    }

    /// The state without prompting. A previously granted session is visible in
    /// the live status of the listener.
    pub fn state(&self, live: Option<ListenerStatus>) -> (r: AccessState)
        ensures
            r == (if live == Some(ListenerStatus::Allowed) {
                AccessState::Granted
            } else {
                self.persisted
            }),
    {
        match live {
            Some(ListenerStatus::Allowed) => AccessState::Granted,
            _ => self.persisted,
        }
    }

    /// Marks that the consent prompt is showing.
    pub fn begin_request(&mut self)
        ensures
            final(self).persisted == AccessState::Requesting,
    {
        self.persisted = AccessState::Requesting;
    }

    /// Takes the answer to a consent request, or none where it failed.
    pub fn request(&mut self, answer: Option<ListenerStatus>) -> (r: AccessState)
        ensures
            r == consent_outcome(answer),
            final(self).persisted == r,
    {
        let outcome = match answer {
            Some(ListenerStatus::Allowed) => AccessState::Granted,
            Some(ListenerStatus::Denied) => AccessState::Denied,
            Some(ListenerStatus::Unspecified) => AccessState::Unknown,
            None => AccessState::Unavailable,
        };
        self.persisted = outcome;
        outcome
    }

    /// Where to send the user when access cannot be granted.
    pub fn help_url(&self) -> (r: Option<&'static str>)
        ensures
            r is Some,
            r->0@ == PACKAGE_IDENTITY_DOC@,
    {
        Some(PACKAGE_IDENTITY_DOC)
    }
}

/// The listener may start only after the user has allowed it.
pub proof fn only_consent_lets_the_listener_start(answer: Option<ListenerStatus>)
    ensures
        consent_outcome(answer) == AccessState::Granted <==> answer == Some(
            ListenerStatus::Allowed,
        ),
{
}

/// The platform that the engine runs on.
#[derive(Clone, Copy, Debug, PartialEq, Eq, Structural)]
pub enum Platform {
    Windows,
    Linux,
    Other,
}

/// Current notification-access state without prompting. Linux has no consent
/// gate; elsewhere there is nothing to gain access to.
pub fn listener_access_state(platform: Platform, live: Option<ListenerStatus>) -> (r: AccessState)
    ensures
        r == (match platform {
            Platform::Windows => if live == Some(ListenerStatus::Allowed) {
                AccessState::Granted
            } else {
                AccessState::Unknown
            },
            Platform::Linux => AccessState::Granted,
            Platform::Other => AccessState::Unavailable,
        }),
{
    match platform {
        Platform::Windows => WinRtAccess::new(AccessState::Unknown).state(live),
        Platform::Linux => AccessState::Granted,
        Platform::Other => AccessState::Unavailable,
    }
}

/// The access state after the consent prompt, given the listener's answer to
/// it, or none where it failed.
pub fn request_listener_access(platform: Platform, answer: Option<ListenerStatus>) -> (r:
    AccessState)
    ensures
        r == (match platform {
            Platform::Windows => consent_outcome(answer),
            Platform::Linux => AccessState::Granted,
            Platform::Other => AccessState::Unavailable,
        }),
{
    match platform {
        Platform::Windows => {
            let mut access = WinRtAccess::new(AccessState::Unknown);
            access.begin_request();
            access.request(answer)
        },
        Platform::Linux => AccessState::Granted,
        Platform::Other => AccessState::Unavailable,
    }
}

/// What the Windows listener is able to do.
pub fn winrt_capabilities() -> (r: SourceCapabilities)
    ensures
        r == (SourceCapabilities {
            can_dismiss: true,
            observes_user_dismiss: true,
            supports_actions: false,
            supports_replace: true,
        }),
{
    SourceCapabilities {
        can_dismiss: true,
        observes_user_dismiss: true,
        supports_actions: false,
        supports_replace: true,
    }
}

/// What asking for the listener brought.
#[derive(Debug)]
pub enum ListenerReading {
    /// There is no listener, for lack of package identity.
    NoIdentity(String),
    /// The listener does not tell its status.
    NoStatus(String),
    /// The status of the listener.
    Status(ListenerStatus),
}

/// Why the listener cannot start, if it cannot.
pub open spec fn start_fault(running: bool, reading: ListenerReading) -> Option<ErrorModel> {
    if running {
        Some(source::already_running(SOURCE_ID@))
    } else {
        match reading {
            ListenerReading::NoIdentity(e) => Some(
                ErrorModel::Source("no package identity: "@ + e@),
            ),
            ListenerReading::NoStatus(e) => Some(
                ErrorModel::Source("access status unavailable: "@ + e@),
            ),
            ListenerReading::Status(ListenerStatus::Allowed) => None,
            ListenerReading::Status(_) => Some(
                ErrorModel::Source(
                    "notification access not granted; run the consent flow first"@,
                ),
            ),
        }
    }
}

/// Whether the listener may start.
pub fn check_start(running: bool, reading: &ListenerReading) -> (r: Result<(), Error>)
    ensures
        match start_fault(running, *reading) {
            Some(error) => r is Err && r->Err_0@ == error,
            None => r is Ok,
        },
{
    if running {
        return Err(already_running_error(SOURCE_ID));
    }
    match reading {
        ListenerReading::NoIdentity(e) => {
            let mut message = "no package identity: ".to_string();
            message.append(e.as_str());
            Err(Error::Source(message))
        },
        ListenerReading::NoStatus(e) => {
            let mut message = "access status unavailable: ".to_string();
            message.append(e.as_str());
            Err(Error::Source(message))
        },
        ListenerReading::Status(status) => match status {
            ListenerStatus::Allowed => Ok(()),
            _ => Err(
                Error::Source(
                    "notification access not granted; run the consent flow first".to_string(),
                ),
            ),
        },
    }
}

/// The lines of a notification: its texts without the white space at both ends,
/// those that are blank left out.
pub open spec fn lines(texts: Seq<Seq<char>>) -> Seq<Seq<char>>
    decreases texts.len(),
{
    if texts.len() == 0 {
        Seq::empty()
    } else {
        let line = text::trimmed(texts.last());
        if line.len() > 0 {
            lines(texts.drop_last()).push(line)
        } else {
            lines(texts.drop_last())
        }
    }
}

/// The title that a notification's texts give it.
pub open spec fn title_of(texts: Seq<Seq<char>>) -> Seq<char> {
    if lines(texts).len() > 0 {
        lines(texts)[0]
    } else {
        "Notification"@
    }
}

/// The body that a notification's texts give it.
pub open spec fn body_of(texts: Seq<Seq<char>>) -> Seq<char> {
    if lines(texts).len() > 0 {
        text::joined(lines(texts).drop_first(), "\n"@)
    } else {
        Seq::empty()
    }
}

/// First non-empty line becomes the title, the rest the body.
pub fn texts_to_title_body(texts: &[String]) -> (r: (String, String))
    ensures
        r.0@ == title_of(texts@.map_values(|t: String| t@)),
        r.1@ == body_of(texts@.map_values(|t: String| t@)),
{
    let ghost all = texts@.map_values(|t: String| t@);
    let mut title: Option<String> = None;
    let mut rest: Vec<String> = Vec::new();
    let mut i: usize = 0;
    assert(lines(all.take(0)) =~= Seq::empty());
    while i < texts.len()
        invariant
            i <= texts@.len(),
            all == texts@.map_values(|t: String| t@),
            title is None <==> lines(all.take(i as int)).len() == 0,
            title is None ==> rest@.len() == 0,
            title matches Some(t) ==> lines(all.take(i as int)) == seq![t@] + rest@.map_values(
                |t: String| t@,
            ),
        decreases texts@.len() - i,
    {
        assert(all.take(i + 1).drop_last() =~= all.take(i as int));
        assert(all.take(i + 1).last() == texts@[i as int]@);
        let line = trim(texts[i].as_str());
        if !line.as_str().is_empty() {
            let ghost before = rest@;
            let ghost added = line@;
            if title.is_none() {
                title = Some(line);
                assert(lines(all.take(i + 1)) =~= seq![added] + rest@.map_values(|t: String| t@));
            } else {
                rest.push(line);
                assert(rest@.map_values(|t: String| t@) =~= before.map_values(
                    |t: String| t@,
                ).push(added));
                assert(lines(all.take(i + 1)) =~= seq![title->0@] + rest@.map_values(
                    |t: String| t@,
                ));
            }
        }
        i += 1;
    }
    assert(all.take(all.len() as int) =~= all);
    let body = join(&rest, "\n");
    match title {
        Some(t) => {
            assert(lines(all).drop_first() =~= rest@.map_values(|t: String| t@));
            (t, body)
        },
        None => {
            assert(rest@.map_values(|t: String| t@) =~= Seq::empty());
            ("Notification".to_string(), body)
        },
    }
}

/// The id of a listener notification.
pub open spec fn winrt_id(id: nat) -> Seq<char> {
    ID_PREFIX@ + number::digits(id)
}

/// The listener notification that an id stands for, if it is one of this
/// source.
pub open spec fn winrt_id_read(id: Seq<char>) -> Option<u32> {
    if ID_PREFIX@.is_prefix_of(id) {
        match number::unsigned_value(id.skip(ID_PREFIX@.len() as int)) {
            Some(n) => if n <= u32::MAX {
                Some(n as u32)
            } else {
                None
            },
            None => None,
        }
    } else {
        None
    }
}

/// Namespaced id so ids from other sources can never collide.
pub fn notification_id(id: u32) -> (r: NotificationId)
    ensures
        r@ == winrt_id(id as nat),
{
    let mut s = ID_PREFIX.to_string();
    s.append(decimal(id as u64).as_str());
    NotificationId::from(s)
}

/// Inverse of [`notification_id`].
pub fn parse_notification_id(id: &NotificationId) -> (r: Option<u32>)
    ensures
        r == winrt_id_read(id@),
{
    match after_prefix(id.as_str(), ID_PREFIX) {
        Some(raw) => read_unsigned(raw.as_str(), u32::MAX),
        None => None,
    }
}

/// The listener notification to dismiss, or the error for an id of another
/// source.
pub fn dismiss_target(id: &NotificationId) -> (r: Result<u32, Error>)
    ensures
        match winrt_id_read(id@) {
            Some(n) => r is Ok && r->Ok_0 == n,
            None => r is Err && r->Err_0@ == ErrorModel::Source(
                "id `"@ + id@ + "` does not belong to the Windows source"@,
            ),
        },
{
    match parse_notification_id(id) {
        Some(n) => Ok(n),
        None => {
            let mut message = "id `".to_string();
            message.append(id.as_str());
            message.append("` does not belong to the Windows source");
            Err(Error::Source(message))
        },
    }
}

/// Ids round trip through the namespace: the id of a listener notification
/// stands for that notification.
pub proof fn winrt_ids_read_back(id: u32)
    ensures
        winrt_id_read(winrt_id(id as nat)) == Some(id),
{
    number::reading_gives_back_digits(id as nat);
    assert(winrt_id(id as nat).skip(ID_PREFIX@.len() as int) =~= number::digits(id as nat));
    assert(ID_PREFIX@ =~= winrt_id(id as nat).subrange(0, ID_PREFIX@.len() as int));
}

/// Ids of different sources never collide, and ids of one source are as
/// different as the numbers in them.
pub proof fn ids_never_collide(a: nat, b: nat)
    ensures
        winrt_id(a) != linux::dbus_id(b),
        winrt_id(a) == winrt_id(b) ==> a == b,
        linux::dbus_id(a) == linux::dbus_id(b) ==> a == b,
{
    reveal_strlit("winrt:");
    reveal_strlit("dbus:");
    assert(winrt_id(a)[0] == 'w');
    assert(linux::dbus_id(b)[0] == 'd');
    number::digits_tell_numbers_apart(a, b);
    let w = ID_PREFIX@.len() as int;
    let d = linux::ID_PREFIX@.len() as int;
    assert(winrt_id(a).skip(w) =~= number::digits(a));
    assert(winrt_id(b).skip(w) =~= number::digits(b));
    assert(linux::dbus_id(a).skip(d) =~= number::digits(a));
    assert(linux::dbus_id(b).skip(d) =~= number::digits(b));
}

/// Ticks of 100 nanoseconds between 1601-01-01, where Windows starts counting,
/// and the Unix epoch.
pub const EPOCH_DIFFERENCE: i64 = 116_444_736_000_000_000;

/// Milliseconds since the Unix epoch for a Windows instant, cut towards the
/// epoch.
pub open spec fn winrt_millis(universal_time: int) -> int {
    let ticks = universal_time - EPOCH_DIFFERENCE;
    if ticks >= 0 {
        ticks / 10_000
    } else {
        -((-ticks) / 10_000)
    }
}

/// The instant, in nanoseconds since the Unix epoch, that a number of Windows
/// ticks stands for, where the calendar reaches it.
pub open spec fn winrt_instant(universal_time: int) -> Option<int> {
    if universal_time - EPOCH_DIFFERENCE >= i64::MIN && clock::reachable_millis(
        winrt_millis(universal_time),
    ) {
        Some(winrt_millis(universal_time) * 1_000_000)
    } else {
        None
    }
}

/// Convert a Windows instant (100ns ticks since 1601-01-01) to UTC, where
/// there is such an instant.
pub fn winrt_time_to_utc(universal_time: i64) -> (r: Option<Timestamp>)
    ensures
        match winrt_instant(universal_time as int) {
            Some(at) => r is Some && r->0@ == at,
            None => r is None,
        },
{
    match universal_time.checked_sub(EPOCH_DIFFERENCE) {
        Some(ticks) => {
            let millis: i64 = if ticks >= 0 {
                ticks / 10_000
            } else {
                -((-(ticks as i128)) / 10_000) as i64
            };
            Timestamp::from_millis(millis)
        },
        None => None,
    }
}

/// The human-readable lines of a notification, given the text elements of its
/// bindings: those that are not blank, of the first binding that has any.
pub open spec fn texts_of(bindings: Seq<Seq<Seq<char>>>) -> Seq<Seq<char>>
    decreases bindings.len(),
{
    if bindings.len() == 0 {
        Seq::empty()
    } else {
        let here = bindings.first().filter(|t: Seq<char>| !text::blank(t));
        if here.len() > 0 {
            here
        } else {
            texts_of(bindings.drop_first())
        }
    }
}

/// The texts of each binding.
pub open spec fn binding_texts(bindings: Seq<Vec<String>>) -> Seq<Seq<Seq<char>>> {
    bindings.map_values(|b: Vec<String>| model::texts(b@))
}

fn readable_texts(binding: &Vec<String>) -> (r: Vec<String>)
    ensures
        model::texts(r@) == model::texts(binding@).filter(|t: Seq<char>| !text::blank(t)),
{
    let ghost all = model::texts(binding@);
    let ghost keep = |t: Seq<char>| !text::blank(t);
    let mut out: Vec<String> = Vec::new();
    let mut i: usize = 0;
    proof {
        reveal(Seq::filter);
        assert(model::texts(out@) =~= all.take(0).filter(keep));
    }
    while i < binding.len()
        invariant
            i <= binding@.len(),
            all == model::texts(binding@),
            keep == (|t: Seq<char>| !text::blank(t)),
            model::texts(out@) == all.take(i as int).filter(keep),
        decreases binding@.len() - i,
    {
        proof {
            reveal(Seq::filter);
            assert(all.take(i + 1).drop_last() =~= all.take(i as int));
            assert(all.take(i + 1).last() == binding@[i as int]@);
        }
        if !is_blank(binding[i].as_str()) {
            let ghost before = out@;
            out.push(binding[i].clone());
            assert(model::texts(out@) =~= model::texts(before).push(binding@[i as int]@));
        }
        i += 1;
    }
    assert(all.take(all.len() as int) =~= all);
    out
}

/// Pull the human-readable lines out of a notification's bindings.
pub fn extract_texts(bindings: &Vec<Vec<String>>) -> (r: Vec<String>)
    ensures
        model::texts(r@) == texts_of(binding_texts(bindings@)),
{
    let ghost all = binding_texts(bindings@);
    let mut i: usize = 0;
    assert(all.skip(0) =~= all);
    while i < bindings.len()
        invariant
            i <= bindings@.len(),
            all == binding_texts(bindings@),
            texts_of(all) == texts_of(all.skip(i as int)),
        decreases bindings@.len() - i,
    {
        assert(all.skip(i as int).first() == model::texts(bindings@[i as int]@));
        assert(all.skip(i as int).drop_first() =~= all.skip(i + 1));
        let here = readable_texts(&bindings[i]);
        assert(model::texts(here@).len() == here@.len());
        if here.len() > 0 {
            return here;
        }
        i += 1;
    }
    let none: Vec<String> = Vec::new();
    assert(model::texts(none@) =~= Seq::empty());
    none
}

/// Convert one listener notification, reduced to plain data, into the core
/// model.
pub fn to_core(
    id: u32,
    created: Option<Timestamp>,
    app_id: String,
    display_name: Option<String>,
    texts: Vec<String>,
) -> (r: Notification)
    ensures
        r@.id == winrt_id(id as nat),
        r.source.app_id == app_id,
        r.source.display_name == display_name,
        r@.title == title_of(model::texts(texts@)),
        r@.body == body_of(model::texts(texts@)),
        r@.urgency == model::Urgency::Normal,
        created matches Some(t) ==> r.timestamp == t,
        created is None ==> r@.timestamp >= 0,
        r@.actions.len() == 0,
        r@.icon is None,
{
    let (title, body) = texts_to_title_body(texts.as_slice());
    assert(texts@.map_values(|t: String| t@) == model::texts(texts@));
    let mut notification = Notification::new(
        AppIdentity { app_id, display_name },
        title.as_str(),
        body.as_str(),
    );
    notification.id = notification_id(id);
    if let Some(t) = created {
        notification.timestamp = t;
    }
    notification
}

/// What the listener tells about one notification; what could not be read is
/// left out.
#[derive(Debug)]
pub struct UserNotificationReading {
    pub id: u32,
    pub app_user_model_id: Option<String>,
    pub display_name: Option<String>,
    pub creation_time: Option<i64>,
    pub bindings: Vec<Vec<String>>,
}

/// A text that may be absent, an empty one taken for absent.
pub open spec fn not_empty(t: Option<Seq<char>>) -> Option<Seq<char>> {
    match t {
        Some(s) => if s.len() > 0 {
            Some(s)
        } else {
            None
        },
        None => None,
    }
}

fn keep_if_not_empty(t: Option<String>) -> (r: Option<String>)
    ensures
        model::text_if_any(r) == not_empty(model::text_if_any(t)),
{
    match t {
        Some(s) => {
            if s.as_str().is_empty() {
                None
            } else {
                Some(s)
            }
        },
        None => None,
    }
}

/// The instant at which a notification was created, where it is known.
pub open spec fn created_at(creation_time: Option<i64>) -> Option<int> {
    match creation_time {
        Some(t) => winrt_instant(t as int),
        None => None,
    }
}

/// Convert what the listener tells about a notification into the core model.
pub fn from_user_notification(user: UserNotificationReading) -> (r: Notification)
    ensures
        r@.id == winrt_id(user.id as nat),
        r@.source == (AppModel {
            app_id: match not_empty(model::text_if_any(user.app_user_model_id)) {
                Some(id) => id,
                None => "windows.unknown"@,
            },
            display_name: not_empty(model::text_if_any(user.display_name)),
        }),
        r@.title == title_of(texts_of(binding_texts(user.bindings@))),
        r@.body == body_of(texts_of(binding_texts(user.bindings@))),
        r@.urgency == model::Urgency::Normal,
        match created_at(user.creation_time) {
            Some(at) => r@.timestamp == at,
            None => r@.timestamp >= 0,
        },
        r@.actions.len() == 0,
        r@.icon is None,
{
    let app_id = match keep_if_not_empty(user.app_user_model_id) {
        Some(id) => id,
        None => "windows.unknown".to_string(),
    };
    let display_name = keep_if_not_empty(user.display_name);
    let created = match user.creation_time {
        Some(t) => winrt_time_to_utc(t),
        None => None,
    };
    let texts = extract_texts(&user.bindings);
    to_core(user.id, created, app_id, display_name, texts)
}

fn holds_id(ids: &Vec<u32>, id: u32) -> (r: bool)
    ensures
        r == ids@.contains(id),
{
    let mut i: usize = 0;
    while i < ids.len()
        invariant
            i <= ids@.len(),
            forall|k: int| 0 <= k < i ==> #[trigger] ids@[k] != id,
        decreases ids@.len() - i,
    {
        if ids[i] == id {
            return true;
        }
        i += 1;
    }
    false
}

/// How new notifications reach the source.
#[derive(Clone, Copy, Debug, PartialEq, Eq, Structural)]
pub enum Delivery {
    /// The system reports each change.
    Events,
    /// The source looks for changes itself.
    Polling,
}

/// How new notifications reach the source: by looking for them where the
/// subscription to changes failed.
pub fn delivery_mode(subscribed: bool) -> (r: Delivery)
    ensures
        r == (if subscribed {
            Delivery::Events
        } else {
            Delivery::Polling
        }),
{
    if subscribed {
        Delivery::Events
    } else {
        Delivery::Polling
    }
}

/// The notification to deliver after a change was reported: only one that was
/// added, and only while the source listens. What the system did not say is
/// absent.
pub fn event_target(added: Option<bool>, id: Option<u32>, listening: bool) -> (r: Option<u32>)
    ensures
        r == (if listening && added == Some(true) {
            id
        } else {
            None
        }),
{
    match added {
        Some(true) => if listening {
            id
        } else {
            None
        },
        _ => None,
    }
}

/// Whether the listener may stop: only once it runs.
pub fn check_stop(running: bool) -> (r: Result<(), Error>)
    ensures
        r is Ok <==> running,
        r matches Err(error) ==> error@ == ErrorModel::Source(
            "notification source `"@ + SOURCE_ID@ + "` is not running"@,
        ),
{
    if running {
        return Ok(());
    }
    let mut message = "notification source `".to_string();
    message.append(SOURCE_ID);
    message.append("` is not running");
    Err(Error::Source(message))
}

/// The ids that are not among the known ones, in order.
pub open spec fn unseen(known: Seq<u32>, current: Seq<u32>) -> Seq<u32> {
    current.filter(|id: u32| !known.contains(id))
}

/// The ids that appeared since the last poll.
pub fn fresh_ids(known: &Vec<u32>, current: &Vec<u32>) -> (r: Vec<u32>)
    ensures
        r@ == unseen(known@, current@),
{
    let ghost keep = |id: u32| !known@.contains(id);
    let mut out: Vec<u32> = Vec::new();
    let mut i: usize = 0;
    proof {
        reveal(Seq::filter);
        assert(out@ =~= current@.take(0).filter(keep));
    }
    while i < current.len()
        invariant
            i <= current@.len(),
            keep == (|id: u32| !known@.contains(id)),
            out@ == current@.take(i as int).filter(keep),
        decreases current@.len() - i,
    {
        proof {
            reveal(Seq::filter);
            assert(current@.take(i + 1).drop_last() =~= current@.take(i as int));
        }
        if !holds_id(known, current[i]) {
            out.push(current[i]);
        }
        i += 1;
    }
    assert(current@.take(current@.len() as int) =~= current@);
    out
}

/// How long the poller waits between two looks, in milliseconds.
pub const POLL_INTERVAL_MS: u64 = 2_000;

/// The next step of the poller, `waited_ms` milliseconds after its last look. It
/// waits in short naps, so that stopping it does not take long.
pub fn poll_wait(stop: bool, waited_ms: u64) -> (r: PollStep)
    ensures
        r == (if stop {
            PollStep::Finish
        } else if waited_ms >= POLL_INTERVAL_MS {
            PollStep::Look
        } else {
            PollStep::Nap { ms: NAP_MS }
        }),
{
    if stop {
        PollStep::Finish
    } else if waited_ms >= POLL_INTERVAL_MS {
        PollStep::Look
    } else {
        PollStep::Nap { ms: NAP_MS }
    }
}

/// One poll: the ids that appeared since the last one, which from now on are
/// known.
pub fn poll_step(known: &mut Vec<u32>, current: &Vec<u32>) -> (r: Vec<u32>)
    ensures
        r@ == unseen(old(known)@, current@),
        final(known)@ == old(known)@ + unseen(old(known)@, current@),
{
    let fresh = fresh_ids(known, current);
    let ghost before = known@;
    let mut i: usize = 0;
    assert(before + fresh@.take(0) =~= before);
    while i < fresh.len()
        invariant
            i <= fresh@.len(),
            known@ == before + fresh@.take(i as int),
        decreases fresh@.len() - i,
    {
        known.push(fresh[i]);
        assert(before + fresh@.take(i + 1) =~= (before + fresh@.take(i as int)).push(
            fresh@[i as int],
        ));
        i += 1;
    }
    assert(fresh@.take(fresh@.len() as int) =~= fresh@);
    fresh
}

/// What one poll delivers no later poll delivers again: once known, an id never
/// counts as new, and polling the same ids again brings nothing.
pub proof fn polls_deliver_once(known: Seq<u32>, current: Seq<u32>)
    ensures
        unseen(known + unseen(known, current), current).len() == 0,
        forall|i: int|
            0 <= i < unseen(known, current).len() ==> !known.contains(
                #[trigger] unseen(known, current)[i],
            ),
{
    let fresh = unseen(known, current);
    let later = known + fresh;
    let keep = |id: u32| !known.contains(id);
    assert forall|i: int| 0 <= i < current.len() implies later.contains(#[trigger] current[i]) by {
        let id = current[i];
        if known.contains(id) {
            let k = choose|k: int| 0 <= k < known.len() && known[k] == id;
            assert(later[k] == id);
        } else {
            lemma_filter_has(current, keep, i);
            let k = choose|k: int| 0 <= k < fresh.len() && fresh[k] == id;
            assert(later[known.len() + k] == id);
        }
    }
    lemma_filter_none(current, later);
    lemma_filter_only(current, known);
}

proof fn lemma_filter_has(s: Seq<u32>, keep: spec_fn(u32) -> bool, i: int)
    requires
        0 <= i < s.len(),
        keep(s[i]),
    ensures
        s.filter(keep).contains(s[i]),
    decreases s.len(),
{
    reveal(Seq::filter);
    if i < s.len() - 1 {
        lemma_filter_has(s.drop_last(), keep, i);
        let rest = s.drop_last().filter(keep);
        let k = choose|k: int| 0 <= k < rest.len() && rest[k] == s[i];
        assert(s.filter(keep)[k] == s[i]);
    } else {
        assert(s.filter(keep).last() == s[i]);
    }
}

proof fn lemma_filter_none(s: Seq<u32>, known: Seq<u32>)
    requires
        forall|i: int| 0 <= i < s.len() ==> known.contains(#[trigger] s[i]),
    ensures
        unseen(known, s).len() == 0,
    decreases s.len(),
{
    reveal(Seq::filter);
    if s.len() > 0 {
        assert forall|i: int| 0 <= i < s.drop_last().len() implies known.contains(
            #[trigger] s.drop_last()[i],
        ) by {
            assert(s.drop_last()[i] == s[i]);
        }
        lemma_filter_none(s.drop_last(), known);
        assert(known.contains(s[s.len() - 1]));
    }
}

proof fn lemma_filter_only(s: Seq<u32>, known: Seq<u32>)
    ensures
        forall|i: int|
            0 <= i < unseen(known, s).len() ==> !known.contains(#[trigger] unseen(known, s)[i]),
    decreases s.len(),
{
    reveal(Seq::filter);
    if s.len() > 0 {
        lemma_filter_only(s.drop_last(), known);
    }
}

/// A rectangle in screen coordinates.
#[derive(Clone, Copy, Debug, PartialEq, Eq, Structural)]
pub struct Rect {
    pub left: i32,
    pub top: i32,
    pub right: i32,
    pub bottom: i32,
}

/// A point in screen coordinates.
#[derive(Clone, Copy, Debug, PartialEq, Eq, Structural)]
pub struct Point {
    pub x: i32,
    pub y: i32,
}

/// Whether `window` covers `monitor` edge-to-edge, give or take a tolerance.
pub open spec fn covers(window: Rect, monitor: Rect, tolerance: int) -> bool {
    &&& window.left <= monitor.left + tolerance
    &&& window.top <= monitor.top + tolerance
    &&& window.right >= monitor.right - tolerance
    &&& window.bottom >= monitor.bottom - tolerance
}

/// True when `window` covers `monitor` edge-to-edge.
pub fn covers_monitor(window: &Rect, monitor: &Rect, tolerance: i32) -> (r: bool)
    ensures
        r == covers(*window, *monitor, tolerance as int),
{
    window.left as i64 <= monitor.left as i64 + tolerance as i64 && window.top as i64
        <= monitor.top as i64 + tolerance as i64 && window.right as i64 >= monitor.right as i64
        - tolerance as i64 && window.bottom as i64 >= monitor.bottom as i64 - tolerance as i64
}

/// The middle of two coordinates, cut towards zero.
pub open spec fn middle(a: int, b: int) -> int {
    if a + b >= 0 {
        (a + b) / 2
    } else {
        -((-(a + b)) / 2)
    }
}

fn middle_of(a: i32, b: i32) -> (r: i32)
    ensures
        r == middle(a as int, b as int),
{
    let sum: i64 = a as i64 + b as i64;
    if sum >= 0 {
        (sum / 2) as i32
    } else {
        (-((-sum) / 2)) as i32
    }
}

/// Centre-point helper used by tests and future click-through logic.
pub fn rect_center(rect: &Rect) -> (r: Point)
    ensures
        r.x == middle(rect.left as int, rect.right as int),
        r.y == middle(rect.top as int, rect.bottom as int),
{
    Point { x: middle_of(rect.left, rect.right), y: middle_of(rect.top, rect.bottom) }
}

/// A character that separates the parts of a path.
pub open spec fn slash(c: char) -> bool {
    c == '/' || c == '\\'
}

/// A path without the slashes at its end.
pub open spec fn without_trailing_slashes(s: Seq<char>) -> Seq<char>
    decreases s.len(),
{
    if s.len() > 0 && slash(s.last()) {
        without_trailing_slashes(s.drop_last())
    } else {
        s
    }
}

/// What follows the last slash.
pub open spec fn file_name(s: Seq<char>) -> Seq<char>
    decreases s.len(),
{
    if s.len() == 0 || slash(s.last()) {
        Seq::empty()
    } else {
        file_name(s.drop_last()).push(s.last())
    }
}

/// What stands before the last dot, where there is a dot.
pub open spec fn before_last_dot(s: Seq<char>) -> Option<Seq<char>>
    decreases s.len(),
{
    if s.len() == 0 {
        None
    } else if s.last() == '.' {
        Some(s.drop_last())
    } else {
        before_last_dot(s.drop_last())
    }
}

/// The stem of a file name: what stands before its last dot, else all of it.
pub open spec fn stem(name: Seq<char>) -> Seq<char> {
    match before_last_dot(name) {
        Some(s) => s,
        None => name,
    }
}

/// The app id for the path of an executable.
pub open spec fn image_app_id(path: Seq<char>) -> Seq<char> {
    let name = file_name(without_trailing_slashes(path));
    if stem(name).len() == 0 {
        name
    } else {
        text::lowered(stem(name))
    }
}

proof fn lemma_file_name(s: Seq<char>, from: int)
    requires
        0 <= from <= s.len(),
        from > 0 ==> slash(s[from - 1]),
        forall|k: int| from <= k < s.len() ==> !slash(#[trigger] s[k]),
    ensures
        file_name(s) == s.skip(from),
    decreases s.len(),
{
    if from < s.len() {
        let rest = s.drop_last();
        assert forall|k: int| from <= k < rest.len() implies !slash(#[trigger] rest[k]) by {
            assert(rest[k] == s[k]);
        }
        assert(!slash(s[s.len() - 1]));
        lemma_file_name(rest, from);
        assert(rest.skip(from).push(s.last()) =~= s.skip(from));
    } else {
        assert(s.skip(from) =~= Seq::empty());
    }
}

/// The file stem of a path, and the file name.
fn split_image_path(path: &str) -> (r: (String, String))
    ensures
        r.1@ == file_name(without_trailing_slashes(path@)),
        r.0@ == stem(r.1@),
{
    let chars = chars_of(path);
    let mut to: usize = chars.len();
    assert(chars@.take(chars@.len() as int) =~= chars@);
    while to > 0 && (chars[to - 1] == '/' || chars[to - 1] == '\\')
        invariant
            to <= chars@.len(),
            chars@ == path@,
            without_trailing_slashes(path@) == without_trailing_slashes(chars@.take(to as int)),
        decreases to,
    {
        assert(chars@.take(to as int).drop_last() =~= chars@.take(to - 1));
        to -= 1;
    }
    let ghost trimmed = chars@.take(to as int);
    assert(without_trailing_slashes(path@) == trimmed);
    let mut from: usize = to;
    while from > 0 && !(chars[from - 1] == '/' || chars[from - 1] == '\\')
        invariant
            from <= to <= chars@.len(),
            trimmed == chars@.take(to as int),
            forall|k: int| from <= k < to ==> !slash(#[trigger] trimmed[k]),
        decreases from,
    {
        assert(trimmed[from - 1] == chars@[from - 1]);
        from -= 1;
    }
    proof {
        if from > 0 {
            assert(trimmed[from - 1] == chars@[from - 1]);
        }
        lemma_file_name(trimmed, from as int);
        assert(trimmed.skip(from as int) =~= chars@.subrange(from as int, to as int));
    }
    let name = text_range(&chars, from, to);
    let ghost whole = name@;
    let mut dot: usize = to;
    assert(whole.take(whole.len() as int) =~= whole);
    while dot > from
        invariant
            from <= dot <= to <= chars@.len(),
            whole == chars@.subrange(from as int, to as int),
            name@ == whole,
            whole == file_name(without_trailing_slashes(path@)),
            before_last_dot(whole) == before_last_dot(whole.take(dot - from)),
        decreases dot - from,
    {
        assert(whole.take(dot - from).last() == chars@[dot - 1]);
        assert(whole.take(dot - from).drop_last() =~= whole.take(dot - from - 1));
        if chars[dot - 1] == '.' {
            let head = text_range(&chars, from, dot - 1);
            assert(head@ =~= whole.take(dot - from - 1));
            return (head, name);
        }
        dot -= 1;
    }
    assert(whole.take(0) =~= Seq::empty());
    (name.clone(), name)
}

/// Reduce an absolute executable path to a stable app id.
///
/// `C:\Users\x\AppData\Roaming\slack\slack.exe` gives `slack`.
pub fn app_id_from_image_path(path: &str) -> (r: String)
    ensures
        r@ == image_app_id(path@),
        text::ascii_only(stem(file_name(without_trailing_slashes(path@)))) && stem(
            file_name(without_trailing_slashes(path@)),
        ).len() > 0 ==> r@ == text::ascii_lower(
            stem(file_name(without_trailing_slashes(path@))),
        ),
{
    let (head, name) = split_image_path(path);
    if head.as_str().is_empty() {
        name
    } else {
        to_lowercase(head.as_str())
    }
}

/// Executable file stem (e.g. `"slack"`) of a process, given its path where it
/// could be read.
pub fn process_name(image_path: &Option<String>) -> (r: Option<String>)
    ensures
        model::text_if_any(r) == (match *image_path {
            Some(path) => Some(image_app_id(path@)),
            None => None,
        }),
{
    match image_path {
        Some(path) => Some(app_id_from_image_path(path.as_str())),
        None => None,
    }
}

/// What the window manager tells about the window in the foreground; what could
/// not be read is left out.
#[derive(Debug)]
pub struct WindowReading {
    pub window: Option<Rect>,
    pub monitor: Option<Rect>,
    pub image_path: Option<String>,
}

/// The application in the foreground.
pub open spec fn foreground_app(reading: Option<WindowReading>) -> Option<AppModel> {
    match reading {
        Some(w) => match w.image_path {
            Some(path) => Some(AppModel { app_id: image_app_id(path@), display_name: None }),
            None => None,
        },
        None => None,
    }
}

/// Whether the window in the foreground covers its monitor.
pub open spec fn foreground_covers(reading: Option<WindowReading>) -> bool {
    match reading {
        Some(w) => w.window is Some && w.monitor is Some && covers(
            w.window->0,
            w.monitor->0,
            FULLSCREEN_TOLERANCE as int,
        ),
        None => false,
    }
}

/// Captures the environment rules evaluate against on Windows.
pub struct WindowsContextProvider {
    pub active_profile: ActiveProfile,
}

impl WindowsContextProvider {
    /// A provider that reads the active profile from the manual toggle.
    pub fn new(active_profile: ActiveProfile) -> (r: WindowsContextProvider)
        ensures
            r.active_profile == active_profile,
    {
        WindowsContextProvider { active_profile }
    }

    /// Foreground window identity plus whether it covers its monitor, given
    /// what was read of the foreground window, if there is one.
    pub fn window_state(&self, reading: &Option<WindowReading>) -> (r: (Option<AppIdentity>, bool))
        ensures
            context::app_if_any(r.0) == foreground_app(*reading),
            r.1 == foreground_covers(*reading),
    {
        match reading {
            Some(w) => {
                let fullscreen = match (&w.window, &w.monitor) {
                    (Some(window), Some(monitor)) => covers_monitor(
                        window,
                        monitor,
                        FULLSCREEN_TOLERANCE,
                    ),
                    _ => false,
                };
                let app = match process_name(&w.image_path) {
                    Some(name) => Some(AppIdentity::new(name.as_str())),
                    None => None,
                };
                (app, fullscreen)
            },
            None => (None, false),
        }
    }

    /// Capture the current environment, given what was read of the foreground
    /// window, if there is one.
    pub fn snapshot(&self, reading: &Option<WindowReading>) -> (r: ContextSnapshot)
        ensures
            r@.foreground_app == foreground_app(*reading),
            r@.fullscreen == foreground_covers(*reading),
            r@.active_profile == self.active_profile@,
            r@.captured_at >= 0,
            clock::shown_somewhere(r.local_time, r.captured_at@),
    {
        let (captured_at, local_time) = now_with_local();
        let (foreground_app, fullscreen) = self.window_state(reading);
        ContextSnapshot {
            foreground_app,
            fullscreen,
            active_profile: self.active_profile.active(),
            captured_at,
            local_time,
        }
    }

    /// Provider name for diagnostics.
    pub fn name(&self) -> (r: &'static str)
        ensures
            r@ == "windows"@,
    {
        "windows"
    }
}

/// Each answer to the consent prompt leads to its own state, and a prompt that
/// failed to another.
pub proof fn answers_lead_to_their_states(answer: Option<ListenerStatus>)
    ensures
        answer == Some(ListenerStatus::Allowed) <==> consent_outcome(answer)
            == AccessState::Granted,
        answer == Some(ListenerStatus::Denied) <==> consent_outcome(answer) == AccessState::Denied,
        answer == Some(ListenerStatus::Unspecified) <==> consent_outcome(answer)
            == AccessState::Unknown,
        answer is None <==> consent_outcome(answer) == AccessState::Unavailable,
{
}

/// The listener starts only while it does not run and only once it is allowed.
pub proof fn the_listener_starts_once_and_with_consent(running: bool, reading: ListenerReading)
    ensures
        start_fault(running, reading) is None <==> !running && reading is Status
            && reading->Status_0 == ListenerStatus::Allowed,
        start_fault(running, reading) is Some ==> start_fault(running, reading)->0 is Source,
{
}

/// Every text that is not blank is a line, in order and without the white space
/// around it; a blank one is none.
pub proof fn texts_that_are_seen_are_lines(a: Seq<Seq<char>>, b: Seq<Seq<char>>, t: Seq<char>)
    ensures
        lines(a + b) == lines(a) + lines(b),
        text::blank(t) ==> lines(seq![t]).len() == 0,
        !text::blank(t) ==> lines(seq![t]) == seq![text::trimmed(t)],
    decreases b.len(),
{
    text::blank_trims_to_nothing(t);
    assert(seq![t].drop_last() =~= Seq::<Seq<char>>::empty());
    assert(lines(Seq::empty()) =~= Seq::<Seq<char>>::empty());
    if !text::blank(t) {
        assert(lines(seq![t]) =~= seq![text::trimmed(t)]);
    }
    if b.len() == 0 {
        assert(a + b =~= a);
        assert(lines(a) + lines(b) =~= lines(a));
    } else {
        texts_that_are_seen_are_lines(a, b.drop_last(), t);
        assert((a + b).drop_last() =~= a + b.drop_last());
        assert((a + b).last() == b.last());
        assert(lines(a + b) =~= lines(a) + lines(b));
    }
}

/// The first text that is not blank is the title; what follows it is the body,
/// line by line. Without such a text there is a stock title and no body.
pub proof fn the_first_line_is_the_title(
    front: Seq<Seq<char>>,
    t: Seq<char>,
    back: Seq<Seq<char>>,
)
    requires
        forall|i: int| 0 <= i < front.len() ==> text::blank(#[trigger] front[i]),
    ensures
        !text::blank(t) ==> title_of(front.push(t) + back) == text::trimmed(t) && body_of(
            front.push(t) + back,
        ) == text::joined(lines(back), "\n"@),
        title_of(front) == "Notification"@ && body_of(front).len() == 0,
{
    lemma_blank_texts(front);
    let one = seq![t];
    texts_that_are_seen_are_lines(front, one, t);
    texts_that_are_seen_are_lines(front + one, back, t);
    assert(front.push(t) =~= front + one);
    if !text::blank(t) {
        assert(lines(front + one) =~= seq![text::trimmed(t)]);
        let all = lines(front.push(t) + back);
        assert(all =~= seq![text::trimmed(t)] + lines(back));
        assert(all.drop_first() =~= lines(back));
    }
}

proof fn lemma_blank_texts(texts: Seq<Seq<char>>)
    requires
        forall|i: int| 0 <= i < texts.len() ==> text::blank(#[trigger] texts[i]),
    ensures
        lines(texts).len() == 0,
    decreases texts.len(),
{
    if texts.len() > 0 {
        assert(text::blank(texts[texts.len() - 1]));
        text::blank_trims_to_nothing(texts.last());
        assert forall|i: int| 0 <= i < texts.drop_last().len() implies text::blank(
            #[trigger] texts.drop_last()[i],
        ) by {
            assert(texts.drop_last()[i] == texts[i]);
        }
        lemma_blank_texts(texts.drop_last());
    }
}

/// The texts of a notification all come from the first binding that has one that
/// is not blank: all of those, in order, and no blank one.
pub proof fn the_first_binding_that_speaks_counts(
    front: Seq<Seq<Seq<char>>>,
    binding: Seq<Seq<char>>,
    back: Seq<Seq<Seq<char>>>,
    some: int,
)
    requires
        forall|i: int, k: int|
            0 <= i < front.len() && 0 <= k < front[i].len() ==> text::blank(
                #[trigger] front[i][k],
            ),
        0 <= some < binding.len(),
        !text::blank(binding[some]),
    ensures
        texts_of(front) == Seq::<Seq<char>>::empty(),
        texts_of(front.push(binding) + back) == binding.filter(|t: Seq<char>| !text::blank(t)),
        forall|t: Seq<char>|
            texts_of(front.push(binding) + back).contains(t) <==> binding.contains(t)
                && !text::blank(t),
    decreases front.len(),
{
    let keep = |t: Seq<char>| !text::blank(t);
    let all = front.push(binding) + back;
    lemma_kept_texts(binding, keep);
    if front.len() == 0 {
        assert(all.first() == binding);
        assert(binding.contains(binding[some]));
        assert(binding.filter(keep).contains(binding[some]));
    } else {
        let rest = front.drop_first();
        assert forall|i: int, k: int| 0 <= i < rest.len() && 0 <= k < rest[i].len() implies
            text::blank(#[trigger] rest[i][k]) by {
            assert(rest[i] == front[i + 1]);
            assert(text::blank(front[i + 1][k]));
        }
        the_first_binding_that_speaks_counts(rest, binding, back, some);
        assert(all.drop_first() =~= rest.push(binding) + back);
        let first = front.first();
        lemma_kept_texts(first, keep);
        if first.filter(keep).len() > 0 {
            let t = first.filter(keep)[0];
            assert(first.filter(keep).contains(t));
            let k = choose|k: int| 0 <= k < first.len() && first[k] == t;
            assert(text::blank(front[0][k]));
        }
        assert(all.first() == first);
    }
}

proof fn lemma_kept_texts(list: Seq<Seq<char>>, keep: spec_fn(Seq<char>) -> bool)
    ensures
        forall|t: Seq<char>| #[trigger]
            list.filter(keep).contains(t) <==> list.contains(t) && keep(t),
    decreases list.len(),
{
    reveal(Seq::filter);
    if list.len() > 0 {
        let rest = list.drop_last();
        let kept = rest.filter(keep);
        lemma_kept_texts(rest, keep);
        assert forall|t: Seq<char>| #[trigger]
            list.filter(keep).contains(t) <==> list.contains(t) && keep(t) by {
            assert(list.contains(t) <==> rest.contains(t) || t == list.last()) by {
                if rest.contains(t) {
                    let k = choose|k: int| 0 <= k < rest.len() && rest[k] == t;
                    assert(list[k] == t);
                }
                if list.contains(t) {
                    let k = choose|k: int| 0 <= k < list.len() && list[k] == t;
                    if k < rest.len() {
                        assert(rest[k] == t);
                    }
                }
                assert(list[list.len() - 1] == list.last());
            }
            if keep(list.last()) {
                let after = kept.push(list.last());
                assert(after.contains(t) <==> kept.contains(t) || t == list.last()) by {
                    if kept.contains(t) {
                        let k = choose|k: int| 0 <= k < kept.len() && kept[k] == t;
                        assert(after[k] == t);
                    }
                    assert(after[kept.len() as int] == list.last());
                    if after.contains(t) {
                        let k = choose|k: int| 0 <= k < after.len() && after[k] == t;
                        if k < kept.len() {
                            assert(kept[k] == t);
                        }
                    }
                }
            }
        }
    }
}

/// Windows counts ticks of a ten-millionth of a second from the year 1601; the
/// instant is cut to whole milliseconds on the side of the Unix epoch.
pub proof fn ticks_are_cut_to_milliseconds(universal_time: int)
    ensures
        ({
            let ticks = universal_time - 116_444_736_000_000_000;
            let millis = winrt_millis(universal_time);
            &&& ticks >= 0 ==> millis * 10_000 <= ticks && ticks < millis * 10_000 + 10_000
            &&& ticks <= 0 ==> millis * 10_000 - 10_000 < ticks && ticks <= millis * 10_000
            &&& winrt_instant(universal_time) matches Some(at) ==> at == millis * 1_000_000
        }),
{
}

/// What a poll brings is what is there and was not known, in the order it is
/// there.
pub proof fn polls_bring_what_was_not_known(known: Seq<u32>, current: Seq<u32>, id: u32)
    ensures
        unseen(known, Seq::empty()).len() == 0,
        known.contains(id) ==> unseen(known, current.push(id)) == unseen(known, current),
        !known.contains(id) ==> unseen(known, current.push(id)) == unseen(known, current).push(id),
{
    reveal(Seq::filter);
    assert(current.push(id).drop_last() =~= current);
}

/// A point lies in a rectangle that is wider by a margin on every side.
pub open spec fn within(r: Rect, margin: int, x: int, y: int) -> bool {
    &&& r.left - margin <= x <= r.right + margin
    &&& r.top - margin <= y <= r.bottom + margin
}

/// A window covers a monitor where every point of the monitor lies in it, give
/// or take the tolerance on every side.
pub proof fn covering_leaves_no_point_out(window: Rect, monitor: Rect, tolerance: int)
    requires
        monitor.left <= monitor.right,
        monitor.top <= monitor.bottom,
    ensures
        covers(window, monitor, tolerance) ==> forall|x: int, y: int|
            within(monitor, 0, x, y) ==> #[trigger] within(window, tolerance, x, y),
        !covers(window, monitor, tolerance) ==> exists|x: int, y: int|
            within(monitor, 0, x, y) && !#[trigger] within(window, tolerance, x, y),
{
    if !covers(window, monitor, tolerance) {
        if within(window, tolerance, monitor.left as int, monitor.top as int) {
            assert(!within(window, tolerance, monitor.right as int, monitor.bottom as int));
        }
    }
}

/// The middle lies halfway between, off by no more than a half on the side of
/// zero, and is mirrored with its ends.
pub proof fn the_middle_lies_halfway(a: int, b: int)
    ensures
        a + b >= 0 ==> a + b - 1 <= 2 * middle(a, b) <= a + b,
        a + b <= 0 ==> a + b <= 2 * middle(a, b) <= a + b + 1,
        middle(-a, -b) == -middle(a, b),
        middle(a, b) == middle(b, a),
{
}

/// An executable is known by its file name in lower case, without the folders
/// before the last slash and without the ending behind the last dot.
pub proof fn executables_are_known_by_their_stem(
    folder: Seq<char>,
    sep: char,
    name: Seq<char>,
    ending: Seq<char>,
)
    requires
        sep == '/' || sep == '\\',
        name.len() > 0,
        forall|i: int| 0 <= i < name.len() ==> #[trigger] name[i] != '/' && name[i] != '\\',
        forall|i: int|
            0 <= i < ending.len() ==> #[trigger] ending[i] != '/' && ending[i] != '\\' && ending[i]
                != '.',
    ensures
        image_app_id(folder.push(sep) + name.push('.') + ending) == text::lowered(name),
        image_app_id(name.push('.') + ending) == text::lowered(name),
        !name.contains('.') ==> image_app_id(folder.push(sep) + name) == text::lowered(name),
{
    let file = name.push('.') + ending;
    let path = folder.push(sep) + name.push('.') + ending;
    assert(path =~= folder.push(sep) + file);
    let from = folder.len() + 1;
    assert forall|k: int| from <= k < path.len() implies !slash(#[trigger] path[k]) by {
        let m = k - from;
        assert(path[k] == file[m]);
        if m < name.len() {
            assert(file[m] == name[m]);
        } else if m > name.len() {
            assert(file[m] == ending[m - name.len() - 1]);
        }
    }
    assert(path[from - 1] == sep);
    lemma_file_name(path, from as int);
    assert(!slash(path[path.len() - 1]));
    assert(path.skip(from as int) =~= file);
    assert forall|k: int| 0 <= k < file.len() implies !slash(#[trigger] file[k]) by {
        assert(file[k] == path[from + k]);
    }
    lemma_file_name(file, 0);
    assert(!slash(file[file.len() - 1]));
    assert(file.skip(0) =~= file);
    lemma_last_dot(name, ending);
    if !name.contains('.') {
        let short = folder.push(sep) + name;
        assert forall|k: int| from <= k < short.len() implies !slash(#[trigger] short[k]) by {
            assert(short[k] == name[k - from]);
        }
        assert(short[from - 1] == sep);
        lemma_file_name(short, from as int);
        assert(!slash(short[short.len() - 1]));
        assert(short.skip(from as int) =~= name);
        lemma_no_dot(name);
    }
}

proof fn lemma_last_dot(name: Seq<char>, ending: Seq<char>)
    requires
        forall|i: int| 0 <= i < ending.len() ==> #[trigger] ending[i] != '.',
    ensures
        before_last_dot(name.push('.') + ending) == Some(name),
    decreases ending.len(),
{
    let file = name.push('.') + ending;
    if ending.len() == 0 {
        assert(file.drop_last() =~= name);
        assert(file.last() == '.');
    } else {
        let less = ending.drop_last();
        assert(ending[ending.len() - 1] != '.');
        assert forall|i: int| 0 <= i < less.len() implies #[trigger] less[i] != '.' by {
            assert(less[i] == ending[i]);
        }
        lemma_last_dot(name, less);
        assert(file.drop_last() =~= name.push('.') + less);
        assert(file.last() == ending.last());
    }
}

proof fn lemma_no_dot(name: Seq<char>)
    requires
        !name.contains('.'),
    ensures
        before_last_dot(name) is None,
    decreases name.len(),
{
    if name.len() > 0 {
        assert(name[name.len() - 1] == name.last());
        let rest = name.drop_last();
        assert(!rest.contains('.')) by {
            if rest.contains('.') {
                let i = choose|i: int| 0 <= i < rest.len() && rest[i] == '.';
                assert(name[i] == '.');
            }
        }
        lemma_no_dot(rest);
    }
}

/// The foreground is known as far as it could be read: fullscreen only where both
/// the window and its monitor are known and the one covers the other within two
/// pixels, and its app only where its executable is.
pub proof fn the_foreground_is_what_was_read(reading: Option<WindowReading>)
    ensures
        reading is None ==> !foreground_covers(reading) && foreground_app(reading) is None,
        reading matches Some(w) ==> {
            &&& foreground_covers(reading) ==> w.window is Some && w.monitor is Some
            &&& w.window is Some && w.monitor is Some ==> (foreground_covers(reading) <==> covers(
                w.window->0,
                w.monitor->0,
                2,
            ))
            &&& foreground_app(reading) is Some <==> w.image_path is Some
            &&& w.image_path matches Some(path) ==> foreground_app(reading)->0.app_id
                == image_app_id(path@)
        },
{
}

/// An empty text counts as none.
pub proof fn empty_texts_count_as_none(t: Option<Seq<char>>)
    ensures
        not_empty(t) is Some <==> t is Some && t->0.len() > 0,
        not_empty(t) is Some ==> not_empty(t) == t,
{
}

/// A number is read back from its id where it is one that the listener can have,
/// and an id of another source is no number.
pub proof fn listener_ids_read_back(n: nat, id: Seq<char>)
    ensures
        winrt_id_read(winrt_id(n)) is Some <==> n <= u32::MAX,
        !ID_PREFIX@.is_prefix_of(id) ==> winrt_id_read(id) is None,
{
    number::reading_gives_back_digits(n);
    assert(winrt_id(n).skip(ID_PREFIX@.len() as int) =~= number::digits(n));
    assert(ID_PREFIX@ =~= winrt_id(n).subrange(0, ID_PREFIX@.len() as int));
}

/// There is an instant for every number of ticks that the calendar reaches and
/// that does not fall below what 64 bits hold, counted from the Unix epoch.
pub proof fn ticks_within_reach_are_instants(universal_time: int)
    ensures
        winrt_instant(universal_time) is Some <==> -9_223_372_036_854_775_808 <= universal_time
            - 116_444_736_000_000_000 && clock::reachable(winrt_millis(universal_time) * 1_000_000),
{
    clock::instants_lie_in_their_millisecond(0, winrt_millis(universal_time));
}

/// Slashes at the end of a path do not matter, and nothing else of it is lost.
pub proof fn trailing_slashes_do_not_matter(path: Seq<char>, c: char)
    ensures
        c == '/' || c == '\\' ==> without_trailing_slashes(path.push(c))
            == without_trailing_slashes(path) && image_app_id(path.push(c)) == image_app_id(path),
        c != '/' && c != '\\' ==> without_trailing_slashes(path.push(c)) == path.push(c),
        without_trailing_slashes(Seq::empty()).len() == 0,
{
    assert(path.push(c).drop_last() =~= path);
}

/// A window that misses an edge of the monitor by up to two pixels still counts as
/// fullscreen, and one that misses it by more does not.
pub proof fn two_pixels_are_tolerated(monitor: Rect, window: Rect, gap: int)
    requires
        window.top == monitor.top && window.right == monitor.right && window.bottom
            == monitor.bottom,
        window.left == monitor.left + gap,
    ensures
        covers(window, monitor, FULLSCREEN_TOLERANCE as int) <==> gap <= 2,
{
}

} // verus!
