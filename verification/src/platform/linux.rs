//! Linux backend: the mapping of `org.freedesktop.Notifications` calls to the
//! notification model, and what X11 and Wayland tell about the foreground.
//!
//! There is no consent prompt on Linux: the daemon either claims the
//! well-known bus name or reports a conflict with the one that owns it.
use vstd::prelude::*;
use crate::clock;
use crate::clock::now_with_local;
use crate::context;
use crate::context::{ContextProvider, ContextSnapshot};
use crate::error::{Error, ErrorModel};
use crate::model;
use crate::model::{
    ActionModel,
    AppIdentity,
    AppModel,
    IconModel,
    IconRef,
    Notification,
    NotificationAction,
    NotificationId,
    Urgency,
};
use crate::number;
use crate::number::{decimal, read_unsigned};
use crate::profile::ActiveProfile;
use crate::source::SourceCapabilities;
use crate::text;
use crate::text::{chars_of, same_text, text_range, trim};

verus! {

broadcast use vstd::string::group_string_axioms;

/// Well-known bus name of the freedesktop notification service.
pub const NOTIFICATIONS_BUS_NAME: &'static str = "org.freedesktop.Notifications";

/// Object path implementing the notification interface.
pub const NOTIFICATIONS_OBJECT_PATH: &'static str = "/org/freedesktop/Notifications";

/// D-Bus interface implemented by the daemon.
pub const NOTIFICATIONS_INTERFACE: &'static str = "org.freedesktop.Notifications";

/// Source id reported to logs and the CLI.
pub const SOURCE_ID: &'static str = "dbus";

/// Prefix used for [`NotificationId`]s produced by this source.
pub const ID_PREFIX: &'static str = "dbus:";

/// Why a notification was closed.
#[derive(Clone, Copy, Debug, PartialEq, Eq, Structural)]
pub enum ClosedReason {
    /// The notification timed out.
    Expired,
    /// The user dismissed it.
    Dismissed,
    /// `CloseNotification` was called.
    ByRequest,
    /// Undefined / implementation-specific.
    Other,
}

impl ClosedReason {
    /// `NotificationClosed` reason codes mandated by the specification.
    pub fn code(&self) -> (r: u32)
        ensures
            r == (match *self {
                ClosedReason::Expired => 1u32,
                ClosedReason::Dismissed => 2u32,
                ClosedReason::ByRequest => 3u32,
                ClosedReason::Other => 4u32,
            }),
    {
        match self {
            ClosedReason::Expired => 1,
            ClosedReason::Dismissed => 2,
            ClosedReason::ByRequest => 3,
            ClosedReason::Other => 4,
        }
    }
}

/// What the D-Bus daemon is able to do.
pub fn dbus_capabilities() -> (r: SourceCapabilities)
    ensures
        r == (SourceCapabilities {
            can_dismiss: true,
            observes_user_dismiss: true,
            supports_actions: true,
            supports_replace: true,
        }),
{
    SourceCapabilities {
        can_dismiss: true,
        observes_user_dismiss: true,
        supports_actions: true,
        supports_replace: true,
    }
}

/// The id of a bus notification.
pub open spec fn dbus_id(id: nat) -> Seq<char> {
    ID_PREFIX@ + number::digits(id)
}

/// The bus notification that an id stands for, if it is one of this source.
pub open spec fn dbus_id_read(id: Seq<char>) -> Option<u32> {
    if ID_PREFIX@.is_prefix_of(id) {
        match number::unsigned_value(id.skip(ID_PREFIX@.len() as int)) {
            Some(n) => if n <= u32::MAX {
                Some(n as u32)
            } else {
                None
            },
            None => None,
        }
    } else {
        None
    }
}

/// The id of a bus notification.
pub fn notification_id(id: u32) -> (r: NotificationId)
    ensures
        r@ == dbus_id(id as nat),
{
    let mut s = ID_PREFIX.to_string();
    s.append(decimal(id as u64).as_str());
    NotificationId::from(s)
}

/// What follows a prefix in a text, if the text begins with it.
pub(crate) fn after_prefix(s: &str, prefix: &str) -> (r: Option<String>)
    ensures
        r is Some <==> prefix@.is_prefix_of(s@),
        r matches Some(t) ==> t@ == s@.skip(prefix@.len() as int),
{
    let chars = chars_of(s);
    let head = chars_of(prefix);
    if head.len() > chars.len() {
        return None;
    }
    let mut i: usize = 0;
    while i < head.len()
        invariant
            i <= head@.len() <= chars@.len(),
            head@ == prefix@,
            chars@ == s@,
            forall|k: int| 0 <= k < i ==> head@[k] == chars@[k],
        decreases head@.len() - i,
    {
        if head[i] != chars[i] {
            assert(prefix@[i as int] != s@[i as int]);
            return None;
        }
        i += 1;
    }
    assert(prefix@ =~= s@.subrange(0, prefix@.len() as int));
    let rest = text_range(&chars, head.len(), chars.len());
    assert(rest@ =~= s@.skip(prefix@.len() as int));
    Some(rest)
}

/// The bus notification that an id stands for.
pub fn parse_id(id: &NotificationId) -> (r: Result<u32, Error>)
    ensures
        match dbus_id_read(id@) {
            Some(n) => r is Ok && r->Ok_0 == n,
            None => r is Err && r->Err_0@ == ErrorModel::Source(
                "id `"@ + id@ + "` does not belong to the Linux source"@,
            ),
        },
{
    if let Some(raw) = after_prefix(id.as_str(), ID_PREFIX) {
        if let Some(n) = read_unsigned(raw.as_str(), u32::MAX) {
            return Ok(n);
        }
    }
    let mut message = "id `".to_string();
    message.append(id.as_str());
    message.append("` does not belong to the Linux source");
    Err(Error::Source(message))
}

/// Ids round trip through the namespace: the id of a bus notification stands
/// for that notification.
pub proof fn dbus_ids_read_back(id: u32)
    ensures
        dbus_id_read(dbus_id(id as nat)) == Some(id),
{
    number::reading_gives_back_digits(id as nat);
    assert(dbus_id(id as nat).skip(ID_PREFIX@.len() as int) =~= number::digits(id as nat));
    assert(ID_PREFIX@ =~= dbus_id(id as nat).subrange(0, ID_PREFIX@.len() as int));
}

/// A signal on the bus.
#[derive(Debug, PartialEq, Eq)]
pub enum Signal {
    /// `ActionInvoked`: the user activated an action.
    ActionInvoked { id: u32, key: String },
    /// `NotificationClosed`: a notification went away.
    NotificationClosed { id: u32, reason: ClosedReason },
}

/// What a [`Signal`] says.
pub enum SignalModel {
    ActionInvoked { id: u32, key: Seq<char> },
    NotificationClosed { id: u32, reason: ClosedReason },
}

impl View for Signal {
    type V = SignalModel;

    open spec fn view(&self) -> SignalModel {
        match self {
            Signal::ActionInvoked { id, key } => SignalModel::ActionInvoked { id: *id, key: key@ },
            Signal::NotificationClosed { id, reason } => SignalModel::NotificationClosed {
                id: *id,
                reason: *reason,
            },
        }
    }
}

/// What each signal in a list says.
pub open spec fn signal_models(signals: Seq<Signal>) -> Seq<SignalModel> {
    signals.map_values(|s: Signal| s@)
}

/// What the signals say, or the error in their place.
pub open spec fn signals_of(r: Result<Vec<Signal>, Error>) -> Result<Seq<SignalModel>, ErrorModel> {
    match r {
        Ok(signals) => Ok(signal_models(signals@)),
        Err(error) => Err(error@),
    }
}

/// The error that an id is not one of this source.
pub open spec fn foreign_id(id: Seq<char>) -> ErrorModel {
    ErrorModel::Source("id `"@ + id + "` does not belong to the Linux source"@)
}

/// The signal that a notification went away.
pub open spec fn closed_signals(id: Seq<char>, reason: ClosedReason) -> Result<
    Seq<SignalModel>,
    ErrorModel,
> {
    match dbus_id_read(id) {
        Some(n) => Ok(seq![SignalModel::NotificationClosed { id: n, reason }]),
        None => Err(foreign_id(id)),
    }
}

/// The signals that the user activated an action, which closes the
/// notification.
pub open spec fn action_signals(id: Seq<char>, key: Seq<char>) -> Result<
    Seq<SignalModel>,
    ErrorModel,
> {
    match dbus_id_read(id) {
        Some(n) => Ok(
            seq![
                SignalModel::ActionInvoked { id: n, key },
                SignalModel::NotificationClosed { id: n, reason: ClosedReason::Dismissed },
            ],
        ),
        None => Err(foreign_id(id)),
    }
}

/// The signal that a notification went away.
pub fn emit_closed(id: &NotificationId, reason: ClosedReason) -> (r: Result<Vec<Signal>, Error>)
    ensures
        signals_of(r) == closed_signals(id@, reason),
{
    match parse_id(id) {
        Ok(n) => {
            let signals = vec![Signal::NotificationClosed { id: n, reason }];
            assert(signal_models(signals@) =~= seq![
                SignalModel::NotificationClosed { id: n, reason },
            ]);
            Ok(signals)
        },
        Err(error) => Err(error),
    }
}

/// The signals that the user activated an action: `ActionInvoked`, followed by
/// the `NotificationClosed` that is mandated after it.
pub fn emit_action(id: &NotificationId, action_key: &str) -> (r: Result<Vec<Signal>, Error>)
    ensures
        signals_of(r) == action_signals(id@, action_key@),
{
    match parse_id(id) {
        Ok(n) => {
            let signals = vec![
                Signal::ActionInvoked { id: n, key: action_key.to_string() },
                Signal::NotificationClosed { id: n, reason: ClosedReason::Dismissed },
            ];
            assert(signal_models(signals@) =~= seq![
                SignalModel::ActionInvoked { id: n, key: action_key@ },
                SignalModel::NotificationClosed { id: n, reason: ClosedReason::Dismissed },
            ]);
            Ok(signals)
        },
        Err(error) => Err(error),
    }
}

/// The signal for a notification that is dismissed from this side.
pub fn dismiss_signal(id: &NotificationId) -> (r: Result<Vec<Signal>, Error>)
    ensures
        signals_of(r) == closed_signals(id@, ClosedReason::ByRequest),
{
    emit_closed(id, ClosedReason::ByRequest)
}

/// The id for a `Notify` call, and the counter after it: a call that replaces a
/// notification keeps that one's id, any other takes the next number.
pub open spec fn assigned(replaces_id: u32, next_id: u32) -> (u32, u32) {
    if replaces_id != 0 {
        (replaces_id, next_id)
    } else {
        (next_id, next_id.wrapping_add(1))
    }
}

/// The counter after a run of `Notify` calls, given the id that each replaces.
/// It starts at one.
pub open spec fn counter_after(calls: Seq<u32>) -> u32
    decreases calls.len(),
{
    if calls.len() == 0 {
        1
    } else {
        assigned(calls.last(), counter_after(calls.drop_last())).1
    }
}

/// The id for the call at a place in a run of `Notify` calls.
pub open spec fn id_of_call(calls: Seq<u32>, k: int) -> u32 {
    assigned(calls[k], counter_after(calls.take(k))).0
}

/// The number of calls that replace nothing.
pub open spec fn fresh_calls(calls: Seq<u32>) -> nat
    decreases calls.len(),
{
    if calls.len() == 0 {
        0
    } else {
        fresh_calls(calls.drop_last()) + if calls.last() == 0 {
            1nat
        } else {
            0nat
        }
    }
}

/// In a run of `Notify` calls, one that replaces a notification keeps that one's
/// id. As long as the ids do not run out, every other call gets one that is not
/// zero and that no such call before it got.
pub proof fn fresh_ids_differ(calls: Seq<u32>, k: int)
    requires
        0 <= k < calls.len(),
        fresh_calls(calls.take(k)) < u32::MAX,
    ensures
        calls[k] != 0 ==> id_of_call(calls, k) == calls[k],
        calls[k] == 0 ==> id_of_call(calls, k) != 0,
        calls[k] == 0 ==> forall|i: int|
            0 <= i < k && calls[i] == 0 ==> #[trigger] id_of_call(calls, i) != id_of_call(calls, k),
{
    lemma_counter(calls.take(k));
    assert forall|i: int| 0 <= i < k && calls[i] == 0 && calls[k] == 0 implies #[trigger] id_of_call(
        calls,
        i,
    ) != id_of_call(calls, k) by {
        lemma_fresh_calls_grow(calls.take(k), i + 1);
        assert(calls.take(k).take(i + 1) =~= calls.take(i + 1));
        assert(calls.take(i + 1).drop_last() =~= calls.take(i));
        lemma_counter(calls.take(i));
    }
}

/// A call that replaces a notification uses up no fresh id.
pub proof fn replacing_uses_no_id(calls: Seq<u32>, replaces_id: u32)
    requires
        replaces_id != 0,
    ensures
        counter_after(calls.push(replaces_id)) == counter_after(calls),
{
    assert(calls.push(replaces_id).drop_last() =~= calls);
}

proof fn lemma_counter(calls: Seq<u32>)
    requires
        fresh_calls(calls) < u32::MAX,
    ensures
        counter_after(calls) == fresh_calls(calls) + 1,
    decreases calls.len(),
{
    if calls.len() > 0 {
        lemma_counter(calls.drop_last());
    }
}

proof fn lemma_fresh_calls_grow(calls: Seq<u32>, n: int)
    requires
        0 <= n <= calls.len(),
    ensures
        fresh_calls(calls.take(n)) <= fresh_calls(calls),
    decreases calls.len(),
{
    if n < calls.len() {
        lemma_fresh_calls_grow(calls.drop_last(), n);
        assert(calls.drop_last().take(n) =~= calls.take(n));
    } else {
        assert(calls.take(n) =~= calls);
    }
}

/// The id for a `Notify` call, and the counter after it.
pub fn assign_id(replaces_id: u32, next_id: u32) -> (r: (u32, u32))
    ensures
        r == assigned(replaces_id, next_id),
{
    if replaces_id != 0 {
        (replaces_id, next_id)
    } else {
        (next_id, next_id.wrapping_add(1))
    }
}

/// What the daemon answers to `GetCapabilities`.
pub fn server_capabilities() -> (r: Vec<&'static str>)
    ensures
        r@.map_values(|s: &'static str| s@) == seq![
            "actions"@,
            "body"@,
            "body-markup"@,
            "icon-static"@,
        ],
{
    let mut out: Vec<&'static str> = Vec::new();
    out.push("actions");
    out.push("body");
    out.push("body-markup");
    out.push("icon-static");
    assert(out@.map_values(|s: &'static str| s@) =~= seq![
        "actions"@,
        "body"@,
        "body-markup"@,
        "icon-static"@,
    ]);
    out
}

/// What the daemon answers to `GetServerInformation`: name, vendor, version and
/// the version of the specification.
pub fn server_information(version: &str) -> (r: (&'static str, &'static str, String, &'static str))
    ensures
        r.0@ == "tpt-focus"@,
        r.1@ == "TPT Solutions"@,
        r.2@ == version@,
        r.3@ == "1.2"@,
{
    ("tpt-focus", "TPT Solutions", version.to_string(), "1.2")
}

/// The value of a hint, as far as the mapping reads it.
#[derive(Debug, PartialEq, Eq)]
pub enum HintValue {
    Text(String),
    Byte(u8),
    Other,
}

/// One hint of a `Notify` call.
#[derive(Debug, PartialEq, Eq)]
pub struct Hint {
    pub key: String,
    pub value: HintValue,
}

/// What a hint says, if it is a text.
pub open spec fn text_of_hint(value: HintValue) -> Option<Seq<char>> {
    match value {
        HintValue::Text(t) => Some(t@),
        _ => None,
    }
}

/// The position of the hint with this key, or the number of hints.
pub open spec fn hint_position(hints: Seq<Hint>, key: Seq<char>) -> int
    decreases hints.len(),
{
    if hints.len() == 0 || hints.first().key@ == key {
        0
    } else {
        1 + hint_position(hints.drop_first(), key)
    }
}

/// The value of a hint.
pub open spec fn hint_value(hints: Seq<Hint>, key: Seq<char>) -> Option<HintValue> {
    let at = hint_position(hints, key);
    if at < hints.len() {
        Some(hints[at].value)
    } else {
        None
    }
}

/// The text of a hint that holds one which is not empty.
pub open spec fn hint_text(hints: Seq<Hint>, key: Seq<char>) -> Option<Seq<char>> {
    match hint_value(hints, key) {
        Some(value) => match text_of_hint(value) {
            Some(t) => if t.len() > 0 {
                Some(t)
            } else {
                None
            },
            None => None,
        },
        None => None,
    }
}

proof fn lemma_hint_position(hints: Seq<Hint>, key: Seq<char>, at: int)
    requires
        0 <= at <= hints.len(),
        at < hints.len() ==> hints[at].key@ == key,
        forall|k: int| 0 <= k < at ==> (#[trigger] hints[k]).key@ != key,
    ensures
        hint_position(hints, key) == at,
    decreases hints.len(),
{
    if at > 0 {
        assert(hints[0].key@ != key);
        let rest = hints.drop_first();
        assert forall|k: int| 0 <= k < at - 1 implies (#[trigger] rest[k]).key@ != key by {
            assert(rest[k] == hints[k + 1]);
        }
        lemma_hint_position(rest, key, at - 1);
    }
}

fn find_hint<'a>(hints: &'a Vec<Hint>, key: &str) -> (r: Option<&'a HintValue>)
    ensures
        match r {
            Some(value) => hint_value(hints@, key@) == Some(*value),
            None => hint_value(hints@, key@) is None,
        },
{
    let mut i: usize = 0;
    while i < hints.len()
        invariant
            i <= hints@.len(),
            forall|k: int| 0 <= k < i ==> (#[trigger] hints@[k]).key@ != key@,
        decreases hints@.len() - i,
    {
        if same_text(hints[i].key.as_str(), key) {
            proof {
                lemma_hint_position(hints@, key@, i as int);
            }
            return Some(&hints[i].value);
        }
        i += 1;
    }
    proof {
        lemma_hint_position(hints@, key@, i as int);
    }
    None
}

fn find_hint_text(hints: &Vec<Hint>, key: &str) -> (r: Option<String>)
    ensures
        model::text_if_any(r) == hint_text(hints@, key@),
{
    match find_hint(hints, key) {
        Some(HintValue::Text(t)) => {
            if t.as_str().is_empty() {
                None
            } else {
                Some(t.clone())
            }
        },
        _ => None,
    }
}

/// The urgency that the hints ask for.
pub open spec fn hinted_urgency(hints: Seq<Hint>) -> Urgency {
    match hint_value(hints, "urgency"@) {
        Some(HintValue::Byte(b)) => if b == 0 {
            Urgency::Low
        } else if b == 2 {
            Urgency::Critical
        } else {
            Urgency::Normal
        },
        _ => Urgency::Normal,
    }
}

/// The image that the hints name.
pub open spec fn hinted_image(hints: Seq<Hint>) -> Option<IconModel> {
    match hint_text(hints, "image-path"@) {
        Some(path) => Some(IconModel::Path(path)),
        None => match hint_text(hints, "image_path"@) {
            Some(path) => Some(IconModel::Path(path)),
            None => None,
        },
    }
}

/// The image that the hints name.
pub fn image_hint(hints: &Vec<Hint>) -> (r: Option<IconRef>)
    ensures
        model::icon_if_any(r) == hinted_image(hints@),
{
    if let Some(path) = find_hint_text(hints, "image-path") {
        return Some(IconRef::Path(path));
    }
    if let Some(path) = find_hint_text(hints, "image_path") {
        return Some(IconRef::Path(path));
    }
    None
}

/// The icon of a call: the image of its hints, else the icon it names, by path
/// where it begins with a slash.
pub open spec fn call_icon(app_icon: Seq<char>, hints: Seq<Hint>) -> Option<IconModel> {
    match hinted_image(hints) {
        Some(image) => Some(image),
        None => if app_icon.len() == 0 {
            None
        } else if app_icon[0] == '/' {
            Some(IconModel::Path(app_icon))
        } else {
            Some(IconModel::Name(app_icon))
        },
    }
}

/// The buttons of a call. `actions` alternates key and label; the `default`
/// pseudo-action is the body click, not a button, and a key without a label is
/// left out.
pub open spec fn buttons(actions: Seq<Seq<char>>) -> Seq<ActionModel>
    decreases actions.len(),
{
    if actions.len() < 2 {
        Seq::empty()
    } else {
        let rest = buttons(actions.take(actions.len() - 2));
        if actions.len() % 2 == 1 {
            buttons(actions.drop_last())
        } else if actions[actions.len() - 2] == "default"@ {
            rest
        } else {
            rest.push(
                ActionModel { id: actions[actions.len() - 2], label: actions[actions.len() - 1] },
            )
        }
    }
}

/// The texts of a list of string slices.
pub open spec fn slices(list: Seq<&str>) -> Seq<Seq<char>> {
    list.map_values(|s: &str| s@)
}

fn button_list(actions: &[&str]) -> (r: Vec<NotificationAction>)
    ensures
        model::action_models(r@) == buttons(slices(actions@)),
{
    let ghost all = slices(actions@);
    let mut out: Vec<NotificationAction> = Vec::new();
    let mut i: usize = 0;
    assert(model::action_models(out@) =~= buttons(all.take(0)));
    let n: usize = actions.len();
    while n - i >= 2
        invariant
            n == actions@.len(),
            i <= n,
            i % 2 == 0,
            all == slices(actions@),
            model::action_models(out@) == buttons(all.take(i as int)),
        decreases actions@.len() - i,
    {
        let ghost before = out@;
        let ghost pair = all.take(i + 2);
        proof {
            assert(pair.take(pair.len() - 2) =~= all.take(i as int));
            assert(pair[pair.len() - 2] == all[i as int] && all[i as int] == actions@[i as int]@);
            assert(pair[pair.len() - 1] == all[i + 1] && all[i + 1] == actions@[i + 1]@);
        }
        if !same_text(actions[i], "default") {
            out.push(NotificationAction::new(actions[i], actions[i + 1]));
            assert(model::action_models(out@) =~= model::action_models(before).push(
                ActionModel { id: all[i as int], label: all[i + 1] },
            ));
        }
        i += 2;
    }
    proof {
        if i < all.len() {
            assert(all.drop_last() =~= all.take(i as int));
            assert(all.len() % 2 == 1);
            if all.len() < 2 {
                assert(buttons(all.take(i as int)) =~= buttons(all));
            }
        } else {
            assert(all.take(i as int) =~= all);
        }
    }
    out
}

/// The application that a call comes from: its desktop entry, else its name,
/// else `unknown`.
pub open spec fn call_source(app_name: Seq<char>, hints: Seq<Hint>) -> AppModel {
    AppModel {
        app_id: match hint_text(hints, "desktop-entry"@) {
            Some(entry) => entry,
            None => if app_name.len() > 0 {
                app_name
            } else {
                "unknown"@
            },
        },
        display_name: if app_name.len() > 0 {
            Some(app_name)
        } else {
            None
        },
    }
}

/// Normalise one `Notify` call into the core model.
pub fn map_notify(
    id: u32,
    app_name: &str,
    app_icon: &str,
    summary: &str,
    body: &str,
    actions: &[&str],
    hints: &Vec<Hint>,
) -> (r: Notification)
    ensures
        r@.id == dbus_id(id as nat),
        r@.source == call_source(app_name@, hints@),
        r@.title == (if summary@.len() > 0 {
            summary@
        } else {
            "Notification"@
        }),
        r@.body == body@,
        r@.urgency == hinted_urgency(hints@),
        r@.timestamp >= 0,
        r@.actions == buttons(slices(actions@)),
        r@.icon == call_icon(app_icon@, hints@),
{
    let display_name: Option<String> = if app_name.is_empty() {
        None
    } else {
        Some(app_name.to_string())
    };
    let app_id = match find_hint_text(hints, "desktop-entry") {
        Some(entry) => entry,
        None => {
            if app_name.is_empty() {
                "unknown".to_string()
            } else {
                app_name.to_string()
            }
        },
    };
    let urgency = match find_hint(hints, "urgency") {
        Some(HintValue::Byte(b)) => {
            if *b == 0 {
                Urgency::Low
            } else if *b == 2 {
                Urgency::Critical
            } else {
                Urgency::Normal
            }
        },
        _ => Urgency::Normal,
    };
    let icon = match image_hint(hints) {
        Some(image) => Some(image),
        None => {
            if app_icon.is_empty() {
                None
            } else if app_icon.get_char(0) == '/' {
                Some(IconRef::Path(app_icon.to_string()))
            } else {
                Some(IconRef::Name(app_icon.to_string()))
            }
        },
    };
    let title = if summary.is_empty() {
        "Notification"
    } else {
        summary
    };
    let mut notification = Notification::new(
        AppIdentity { app_id, display_name },
        title,
        body,
    ).with_urgency(urgency).with_actions(button_list(actions));
    notification.id = notification_id(id);
    notification.icon = icon;
    notification
}

/// What a poller last saw of the foreground.
#[derive(Debug)]
pub struct ToplevelCache {
    pub foreground_app: Option<AppIdentity>,
    pub fullscreen: bool,
}

impl Default for ToplevelCache {
    fn default() -> (r: ToplevelCache)
        ensures
            r.foreground_app is None,
            !r.fullscreen,
    {
        ToplevelCache { foreground_app: None, fullscreen: false }
    }
}

impl Clone for ToplevelCache {
    fn clone(&self) -> (r: ToplevelCache)
        ensures
            r == *self,
    {
        ToplevelCache {
            foreground_app: match &self.foreground_app {
                Some(app) => Some(app.clone()),
                None => None,
            },
            fullscreen: self.fullscreen,
        }
    }
}

/// Assemble a snapshot from the poller cache and the profile toggle.
pub fn build_snapshot(active_profile: &ActiveProfile, cached: ToplevelCache) -> (r: ContextSnapshot)
    ensures
        r.foreground_app == cached.foreground_app,
        r.fullscreen == cached.fullscreen,
        r@.active_profile == active_profile@,
        r@.captured_at >= 0,
        clock::shown_somewhere(r.local_time, r.captured_at@),
{
    let (captured_at, local_time) = now_with_local();
    ContextSnapshot {
        foreground_app: cached.foreground_app,
        fullscreen: cached.fullscreen,
        active_profile: active_profile.active(),
        captured_at,
        local_time,
    }
}

/// Degraded provider for sessions that expose no window state
/// (GNOME/KDE Wayland). Rules still see profiles and schedules.
pub struct StaticContextProvider {
    pub active_profile: ActiveProfile,
}

impl StaticContextProvider {
    /// A provider that reports only the active profile.
    pub fn new(active_profile: ActiveProfile) -> (r: StaticContextProvider)
        ensures
            r.active_profile == active_profile,
    {
        StaticContextProvider { active_profile }
    }
}

impl ContextProvider for StaticContextProvider {
    open spec fn may_capture(&self, snapshot: ContextSnapshot) -> bool {
        &&& snapshot@.foreground_app is None
        &&& !snapshot@.fullscreen
        &&& snapshot@.active_profile == self.active_profile@
        &&& snapshot@.captured_at >= 0
        &&& clock::shown_somewhere(snapshot.local_time, snapshot.captured_at@)
    }

    fn snapshot(&self) -> (r: ContextSnapshot) {
        build_snapshot(&self.active_profile, ToplevelCache { foreground_app: None, fullscreen: false })
    }

    fn name(&self) -> (r: &str)
        ensures
            r@ == "linux-static"@,
    {
        "linux-static"
    }
}

/// What `String::from_utf8_lossy` makes of bytes.
pub uninterp spec fn utf8_lossy(bytes: Seq<u8>) -> Seq<char>;

/// `String::from_utf8_lossy`. The text is a function of the bytes, and for
/// bytes that are valid UTF-8 it is the text that they encode.
#[verifier::external_body]
fn from_utf8_lossy(bytes: &Vec<u8>) -> (r: String)
    ensures
        r@ == utf8_lossy(bytes@),
        vstd::utf8::valid_utf8(bytes@) ==> r@ == vstd::utf8::decode_utf8(bytes@),
{
    String::from_utf8_lossy(bytes).into_owned()
}

/// The parts of a list of bytes between NUL bytes, seen from the left: those
/// that are complete and not empty, and the one that is still open.
pub open spec fn parts_so_far(bytes: Seq<u8>) -> (Seq<Seq<u8>>, Seq<u8>)
    decreases bytes.len(),
{
    if bytes.len() == 0 {
        (Seq::empty(), Seq::empty())
    } else {
        let (done, open) = parts_so_far(bytes.drop_last());
        if bytes.last() != 0 {
            (done, open.push(bytes.last()))
        } else if open.len() > 0 {
            (done.push(open), Seq::empty())
        } else {
            (done, open)
        }
    }
}

/// The parts of a list of bytes between NUL bytes that are not empty.
pub open spec fn nul_parts(bytes: Seq<u8>) -> Seq<Seq<u8>> {
    let (done, open) = parts_so_far(bytes);
    if open.len() > 0 {
        done.push(open)
    } else {
        done
    }
}

/// What each list of bytes holds.
pub open spec fn byte_lists(list: Seq<Vec<u8>>) -> Seq<Seq<u8>> {
    list.map_values(|v: Vec<u8>| v@)
}

fn split_nul(bytes: &[u8]) -> (r: Vec<Vec<u8>>)
    ensures
        byte_lists(r@) == nul_parts(bytes@),
{
    let mut done: Vec<Vec<u8>> = Vec::new();
    let mut open: Vec<u8> = Vec::new();
    let mut i: usize = 0;
    assert(byte_lists(done@) =~= parts_so_far(bytes@.take(0)).0);
    while i < bytes.len()
        invariant
            i <= bytes@.len(),
            byte_lists(done@) == parts_so_far(bytes@.take(i as int)).0,
            open@ == parts_so_far(bytes@.take(i as int)).1,
        decreases bytes@.len() - i,
    {
        assert(bytes@.take(i + 1).drop_last() =~= bytes@.take(i as int));
        let ghost before = done@;
        if bytes[i] != 0 {
            open.push(bytes[i]);
        } else if open.len() > 0 {
            let ghost part = open@;
            done.push(open);
            assert(byte_lists(done@) =~= byte_lists(before).push(part));
            open = Vec::new();
        }
        i += 1;
    }
    assert(bytes@.take(bytes@.len() as int) =~= bytes@);
    if open.len() > 0 {
        let ghost before = done@;
        let ghost part = open@;
        done.push(open);
        assert(byte_lists(done@) =~= byte_lists(before).push(part));
    }
    done
}

/// The application that an instance name and a class name stand for: the class
/// is the stable id, the instance its display name where it says something
/// else.
pub open spec fn class_identity(instance: Seq<char>, class: Seq<char>) -> Option<AppModel> {
    let id = text::trimmed(class);
    let name = text::trimmed(instance);
    if id.len() == 0 {
        None
    } else {
        Some(
            AppModel {
                app_id: id,
                display_name: if name.len() > 0 && name != id {
                    Some(name)
                } else {
                    None
                },
            },
        )
    }
}

/// The application that an instance name and a class name stand for.
pub fn identity_from_class(instance: &str, class: &str) -> (r: Option<AppIdentity>)
    ensures
        context::app_if_any(r) == class_identity(instance@, class@),
{
    let app_id = trim(class);
    if app_id.as_str().is_empty() {
        return None;
    }
    let name = trim(instance);
    let display_name: Option<String> = if name.as_str().is_empty() || same_text(
        name.as_str(),
        app_id.as_str(),
    ) {
        None
    } else {
        Some(name)
    };
    Some(AppIdentity { app_id, display_name })
}

/// The application that a `WM_CLASS` value stands for, given the reading of its
/// parts as text.
pub open spec fn wm_class_identity(value: Seq<u8>) -> Option<AppModel> {
    let parts = nul_parts(value);
    if parts.len() == 0 {
        None
    } else {
        class_identity(
            utf8_lossy(parts[0]),
            utf8_lossy(
                if parts.len() > 1 {
                    parts[1]
                } else {
                    parts[0]
                },
            ),
        )
    }
}

/// `WM_CLASS` holds two NUL-terminated strings, instance then class; the class
/// name is the stable id.
pub fn parse_wm_class(value: &[u8]) -> (r: Option<AppIdentity>)
    ensures
        context::app_if_any(r) == wm_class_identity(value@),
{
    let parts = split_nul(value);
    let ghost all = nul_parts(value@);
    assert(byte_lists(parts@).len() == parts@.len());
    if parts.len() == 0 {
        return None;
    }
    assert(all[0] == parts@[0]@);
    let instance = from_utf8_lossy(&parts[0]);
    let class = if parts.len() > 1 {
        assert(all[1] == parts@[1]@);
        from_utf8_lossy(&parts[1])
    } else {
        from_utf8_lossy(&parts[0])
    };
    identity_from_class(instance.as_str(), class.as_str())
}

fn holds_number(list: &Vec<u32>, n: u32) -> (r: bool)
    ensures
        r == list@.contains(n),
{
    let mut i: usize = 0;
    while i < list.len()
        invariant
            i <= list@.len(),
            forall|k: int| 0 <= k < i ==> #[trigger] list@[k] != n,
        decreases list@.len() - i,
    {
        if list[i] == n {
            return true;
        }
        i += 1;
    }
    false
}

/// What X11 tells about the foreground, given what the server answered about
/// the active window: its state atoms and its class.
pub fn x11_state(
    window: bool,
    atoms: &Option<Vec<u32>>,
    fullscreen_atom: u32,
    class: &Option<Vec<u8>>,
) -> (r: ToplevelCache)
    ensures
        r.fullscreen == (window && atoms is Some && atoms->0@.contains(fullscreen_atom)),
        context::app_if_any(r.foreground_app) == (if window && class is Some {
            wm_class_identity(class->0@)
        } else {
            None
        }),
{
    if !window {
        return ToplevelCache { foreground_app: None, fullscreen: false };
    }
    let fullscreen = match atoms {
        Some(list) => holds_number(list, fullscreen_atom),
        None => false,
    };
    let foreground_app = match class {
        Some(bytes) => parse_wm_class(bytes.as_slice()),
        None => None,
    };
    ToplevelCache { foreground_app, fullscreen }
}

/// Wire value of the state of a window that is minimised, maximised, active or
/// fullscreen.
pub const STATE_MAXIMIZED: u32 = 0;

pub const STATE_MINIMIZED: u32 = 1;

pub const STATE_ACTIVATED: u32 = 2;

pub const STATE_FULLSCREEN: u32 = 3;

/// A window as a wlroots compositor describes it.
#[derive(Debug)]
pub struct Toplevel {
    pub app_id: String,
    pub title: String,
    pub states: Vec<u32>,
}

impl Default for Toplevel {
    fn default() -> (r: Toplevel)
        ensures
            r.app_id@.len() == 0,
            r.title@.len() == 0,
            r.states@.len() == 0,
    {
        Toplevel { app_id: String::new(), title: String::new(), states: Vec::new() }
    }
}

/// The application that a window belongs to: it needs an id, and its title is
/// the display name where it has one.
pub open spec fn window_identity(app_id: Seq<char>, title: Seq<char>) -> Option<AppModel> {
    let id = text::trimmed(app_id);
    if id.len() == 0 {
        None
    } else {
        Some(
            AppModel {
                app_id: id,
                display_name: if title.len() > 0 {
                    Some(title)
                } else {
                    None
                },
            },
        )
    }
}

impl Toplevel {
    /// Whether the window has the focus.
    pub fn activated(&self) -> (r: bool)
        ensures
            r == self.states@.contains(STATE_ACTIVATED),
    {
        holds_number(&self.states, STATE_ACTIVATED)
    }

    /// Whether the window fills a monitor.
    pub fn fullscreen(&self) -> (r: bool)
        ensures
            r == self.states@.contains(STATE_FULLSCREEN),
    {
        holds_number(&self.states, STATE_FULLSCREEN)
    }

    /// The application that the window belongs to.
    pub fn identity(&self) -> (r: Option<AppIdentity>)
        ensures
            context::app_if_any(r) == window_identity(self.app_id@, self.title@),
    {
        let app_id = trim(self.app_id.as_str());
        if app_id.as_str().is_empty() {
            return None;
        }
        let display_name: Option<String> = if self.title.as_str().is_empty() {
            None
        } else {
            Some(self.title.clone())
        };
        Some(AppIdentity { app_id, display_name })
    }
}

/// Whether a list of states says that a window is active, and that it is
/// fullscreen.
pub fn probe_states(states: &Vec<u32>) -> (r: (bool, bool))
    ensures
        r.0 == states@.contains(STATE_ACTIVATED),
        r.1 == states@.contains(STATE_FULLSCREEN),
{
    (holds_number(states, STATE_ACTIVATED), holds_number(states, STATE_FULLSCREEN))
}

/// The first window that has the focus, at `i`.
pub open spec fn first_active(windows: Seq<Toplevel>, i: int) -> bool {
    &&& 0 <= i < windows.len()
    &&& windows[i].states@.contains(STATE_ACTIVATED)
    &&& forall|k: int|
        0 <= k < i ==> !(#[trigger] windows[k]).states@.contains(STATE_ACTIVATED)
}

/// What a compositor's windows tell about the foreground.
pub fn focused_state(windows: &Vec<Toplevel>) -> (r: ToplevelCache)
    ensures
        forall|i: int|
            #[trigger] first_active(windows@, i) ==> r.fullscreen
                == windows@[i].states@.contains(STATE_FULLSCREEN) && context::app_if_any(
                r.foreground_app,
            ) == window_identity(windows@[i].app_id@, windows@[i].title@),
        (forall|i: int|
            0 <= i < windows@.len() ==> !(#[trigger] windows@[i]).states@.contains(STATE_ACTIVATED))
            ==> r.foreground_app is None && !r.fullscreen,
{
    let mut i: usize = 0;
    while i < windows.len()
        invariant
            i <= windows@.len(),
            forall|k: int|
                0 <= k < i ==> !(#[trigger] windows@[k]).states@.contains(STATE_ACTIVATED),
        decreases windows@.len() - i,
    {
        if windows[i].activated() {
            assert forall|m: int| #[trigger] first_active(windows@, m) implies m == i by {
                if m < i {
                    assert(!windows@[m].states@.contains(STATE_ACTIVATED));
                }
            }
            return ToplevelCache {
                foreground_app: windows[i].identity(),
                fullscreen: windows[i].fullscreen(),
            };
        }
        i += 1;
    }
    ToplevelCache { foreground_app: None, fullscreen: false }
}

/// The value of a hint is that of the first one under its key; there is none
/// only where no hint has the key.
pub proof fn the_first_hint_counts(hints: Seq<Hint>, key: Seq<char>, at: int)
    ensures
        0 <= at < hints.len() && hints[at].key@ == key && (forall|k: int|
            0 <= k < at ==> (#[trigger] hints[k]).key@ != key) ==> hint_value(hints, key) == Some(
            hints[at].value,
        ),
        (forall|k: int| 0 <= k < hints.len() ==> (#[trigger] hints[k]).key@ != key) <==> hint_value(
            hints,
            key,
        ) is None,
{
    if 0 <= at < hints.len() && hints[at].key@ == key && (forall|k: int|
        0 <= k < at ==> (#[trigger] hints[k]).key@ != key) {
        lemma_hint_position(hints, key, at);
    }
    lemma_position_found(hints, key);
    if forall|k: int| 0 <= k < hints.len() ==> (#[trigger] hints[k]).key@ != key {
        lemma_hint_position(hints, key, hints.len() as int);
    }
}

proof fn lemma_position_found(hints: Seq<Hint>, key: Seq<char>)
    ensures
        0 <= hint_position(hints, key) <= hints.len(),
        hint_position(hints, key) < hints.len() ==> hints[hint_position(hints, key)].key@ == key,
        forall|k: int|
            0 <= k < hint_position(hints, key) ==> (#[trigger] hints[k]).key@ != key,
    decreases hints.len(),
{
    if hints.len() > 0 && hints.first().key@ != key {
        let rest = hints.drop_first();
        lemma_position_found(rest, key);
        assert forall|k: int| 0 <= k < hint_position(hints, key) implies (
        #[trigger] hints[k]).key@ != key by {
            if k > 0 {
                assert(hints[k] == rest[k - 1]);
            }
        }
    }
}

/// Where the urgency is hinted by a byte, nought is low, two is critical and
/// every other byte is normal; without such a byte it is normal.
pub proof fn urgency_goes_by_its_byte(hints: Seq<Hint>, b: u8)
    ensures
        hint_value(hints, "urgency"@) == Some(HintValue::Byte(b)) ==> {
            &&& b == 0 <==> hinted_urgency(hints) == Urgency::Low
            &&& b == 2 <==> hinted_urgency(hints) == Urgency::Critical
            &&& b == 1 || b >= 3 <==> hinted_urgency(hints) == Urgency::Normal
        },
        hint_value(hints, "urgency"@) is None ==> hinted_urgency(hints) == Urgency::Normal,
        hint_value(hints, "urgency"@) is Some && !(hint_value(hints, "urgency"@)->0 is Byte)
            ==> hinted_urgency(hints) == Urgency::Normal,
{
}

/// A notification shows the image that its hints name, the newer key before the
/// older one, and only without an image the icon of the call: by path where it
/// begins with a slash, else by name.
pub proof fn images_come_before_icons(app_icon: Seq<char>, hints: Seq<Hint>)
    ensures
        hint_text(hints, "image-path"@) matches Some(path) ==> call_icon(app_icon, hints) == Some(
            IconModel::Path(path),
        ),
        hint_text(hints, "image-path"@) is None ==> (hint_text(hints, "image_path"@) matches Some(
            path,
        ) ==> call_icon(app_icon, hints) == Some(IconModel::Path(path))),
        hint_text(hints, "image-path"@) is None && hint_text(hints, "image_path"@) is None ==> {
            &&& app_icon.len() == 0 <==> call_icon(app_icon, hints) is None
            &&& app_icon.len() > 0 && app_icon[0] == '/' ==> call_icon(app_icon, hints) == Some(
                IconModel::Path(app_icon),
            )
            &&& app_icon.len() > 0 && app_icon[0] != '/' ==> call_icon(app_icon, hints) == Some(
                IconModel::Name(app_icon),
            )
        },
{
}

/// A hint that counts as text is a text that is not empty.
pub proof fn hinted_texts_say_something(hints: Seq<Hint>, key: Seq<char>)
    ensures
        hint_text(hints, key) matches Some(t) ==> t.len() > 0 && hint_value(hints, key) is Some
            && hint_value(hints, key)->0 is Text && hint_value(hints, key)->0->Text_0@ == t,
        hint_text(hints, key) is None ==> (hint_value(hints, key) matches Some(HintValue::Text(t))
            ==> t@.len() == 0),
{
}

/// A call comes from the app of its desktop entry, else from the app it is named
/// after, else from an unknown one; its name is shown where it has one.
pub proof fn calls_come_from_their_entry(app_name: Seq<char>, hints: Seq<Hint>)
    ensures
        hint_text(hints, "desktop-entry"@) matches Some(entry) ==> call_source(
            app_name,
            hints,
        ).app_id == entry,
        hint_text(hints, "desktop-entry"@) is None && app_name.len() > 0 ==> call_source(
            app_name,
            hints,
        ).app_id == app_name,
        hint_text(hints, "desktop-entry"@) is None && app_name.len() == 0 ==> call_source(
            app_name,
            hints,
        ).app_id == "unknown"@,
        app_name.len() > 0 <==> call_source(app_name, hints).display_name == Some(app_name),
        app_name.len() == 0 <==> call_source(app_name, hints).display_name is None,
{
}

/// Each key with its label is a button, in order, but for the one that stands
/// for a click on the body; a key without a label adds nothing.
pub proof fn keys_and_labels_make_buttons(
    actions: Seq<Seq<char>>,
    key: Seq<char>,
    label: Seq<char>,
)
    requires
        actions.len() % 2 == 0,
    ensures
        buttons(Seq::empty()).len() == 0,
        buttons(actions.push(key)) == buttons(actions),
        key == "default"@ ==> buttons(actions.push(key).push(label)) == buttons(actions),
        key != "default"@ ==> buttons(actions.push(key).push(label)) == buttons(actions).push(
            ActionModel { id: key, label },
        ),
{
    let one = actions.push(key);
    let two = one.push(label);
    assert(one.drop_last() =~= actions);
    assert(two.take(two.len() - 2) =~= actions);
    assert(two[two.len() - 2] == key && two[two.len() - 1] == label);
    if one.len() < 2 {
        assert(buttons(one) =~= buttons(actions));
    }
}

proof fn lemma_parts_behind(a: Seq<u8>, b: Seq<u8>)
    ensures
        parts_so_far(a.push(0) + b) == (nul_parts(a) + parts_so_far(b).0, parts_so_far(b).1),
    decreases b.len(),
{
    let whole = a.push(0) + b;
    if b.len() == 0 {
        assert(whole =~= a.push(0));
        assert(whole.drop_last() =~= a);
        assert(nul_parts(a) + Seq::<Seq<u8>>::empty() =~= nul_parts(a));
        let (done, open) = parts_so_far(a);
        if open.len() == 0 {
            assert(open =~= Seq::empty());
        }
    } else {
        lemma_parts_behind(a, b.drop_last());
        assert(whole.drop_last() =~= a.push(0) + b.drop_last());
        assert(whole.last() == b.last());
        let (done, open) = parts_so_far(b.drop_last());
        if b.last() == 0 && open.len() > 0 {
            assert((nul_parts(a) + done).push(open) =~= nul_parts(a) + done.push(open));
        }
    }
}

proof fn lemma_one_part(s: Seq<u8>)
    requires
        !s.contains(0),
    ensures
        parts_so_far(s) == (Seq::<Seq<u8>>::empty(), s),
    decreases s.len(),
{
    if s.len() > 0 {
        let rest = s.drop_last();
        assert(s[s.len() - 1] == s.last());
        assert(!rest.contains(0)) by {
            if rest.contains(0) {
                let i = choose|i: int| 0 <= i < rest.len() && rest[i] == 0;
                assert(s[i] == 0);
            }
        }
        lemma_one_part(rest);
        assert(rest.push(s.last()) =~= s);
    } else {
        assert(s =~= Seq::empty());
    }
}

/// A window class of two texts, each ended by a nought byte, stands for the app
/// of the second, shown by the first; one text alone stands for both.
pub proof fn window_classes_hold_instance_and_class(instance: Seq<u8>, class: Seq<u8>)
    requires
        instance.len() > 0 && !instance.contains(0),
        class.len() > 0 && !class.contains(0),
    ensures
        wm_class_identity(instance.push(0) + class.push(0)) == class_identity(
            utf8_lossy(instance),
            utf8_lossy(class),
        ),
        wm_class_identity(class) == class_identity(utf8_lossy(class), utf8_lossy(class)),
        wm_class_identity(Seq::empty()) is None,
{
    lemma_one_part(instance);
    lemma_one_part(class);
    lemma_parts_behind(instance, class.push(0));
    assert(class.push(0).drop_last() =~= class);
    let both = instance.push(0) + class.push(0);
    assert(nul_parts(instance) =~= seq![instance]);
    assert(nul_parts(class) =~= seq![class]);
    assert(nul_parts(both) =~= seq![instance, class]);
}

/// An app is known by its class without the white space around it, and shown by
/// its instance where that says something else; without a class there is none.
pub proof fn classes_name_their_app(instance: Seq<char>, class: Seq<char>)
    ensures
        class_identity(instance, class) is None <==> text::blank(class),
        class_identity(instance, class) matches Some(app) ==> {
            &&& app.app_id == text::trimmed(class)
            &&& app.display_name is None <==> text::blank(instance) || text::trimmed(instance)
                == text::trimmed(class)
            &&& app.display_name is Some ==> app.display_name->0 == text::trimmed(instance)
        },
{
    text::blank_trims_to_nothing(class);
    text::blank_trims_to_nothing(instance);
}

/// A window belongs to the app of its id without the white space around it, and
/// shows its title where it has one; without an id it belongs to none.
pub proof fn windows_belong_by_their_id(app_id: Seq<char>, title: Seq<char>)
    ensures
        window_identity(app_id, title) is None <==> text::blank(app_id),
        window_identity(app_id, title) matches Some(app) ==> {
            &&& app.app_id == text::trimmed(app_id)
            &&& title.len() == 0 <==> app.display_name is None
            &&& title.len() > 0 ==> app.display_name == Some(title)
        },
{
    text::blank_trims_to_nothing(app_id);
}

/// An id of this source is read back from the text it is given, and every text
/// that is read as an id is of this source. Its signals name the id; an action
/// is told before the notification is closed, and a foreign id is refused.
pub proof fn signals_name_their_notification(id: u32, key: Seq<char>, reason: ClosedReason)
    ensures
        closed_signals(dbus_id(id as nat), reason) == Ok::<Seq<SignalModel>, ErrorModel>(
            seq![SignalModel::NotificationClosed { id, reason }],
        ),
        action_signals(dbus_id(id as nat), key) == Ok::<Seq<SignalModel>, ErrorModel>(
            seq![
                SignalModel::ActionInvoked { id, key },
                SignalModel::NotificationClosed { id, reason: ClosedReason::Dismissed },
            ],
        ),
{
    dbus_ids_read_back(id);
}

/// A number is read back from its id where it is one that the bus can have, and an
/// id of another source is no number.
pub proof fn bus_ids_read_back(n: nat, id: Seq<char>)
    ensures
        dbus_id_read(dbus_id(n)) is Some <==> n <= u32::MAX,
        n <= u32::MAX ==> dbus_id_read(dbus_id(n)) == Some(n as u32),
        !ID_PREFIX@.is_prefix_of(id) ==> dbus_id_read(id) is None,
{
    number::reading_gives_back_digits(n);
    assert(dbus_id(n).skip(ID_PREFIX@.len() as int) =~= number::digits(n));
    assert(ID_PREFIX@ =~= dbus_id(n).subrange(0, ID_PREFIX@.len() as int));
}

/// There is one first window with the focus where any has it, and none before it
/// has.
pub proof fn one_window_is_in_front(windows: Seq<Toplevel>, some: int)
    requires
        0 <= some < windows.len(),
        windows[some].states@.contains(STATE_ACTIVATED),
    ensures
        exists|i: int| #[trigger] first_active(windows, i) && i <= some,
        forall|i: int, j: int| #[trigger]
            first_active(windows, i) && #[trigger] first_active(windows, j) ==> i == j,
        forall|i: int| #[trigger]
            first_active(windows, i) ==> i <= some && windows[i].states@.contains(STATE_ACTIVATED),
    decreases some,
{
    if forall|k: int| 0 <= k < some ==> !(#[trigger] windows[k]).states@.contains(STATE_ACTIVATED) {
        assert(first_active(windows, some));
    } else {
        let k = choose|k: int|
            0 <= k < some && (#[trigger] windows[k]).states@.contains(STATE_ACTIVATED);
        one_window_is_in_front(windows, k);
    }
    assert forall|i: int, j: int| #[trigger]
        first_active(windows, i) && #[trigger] first_active(windows, j) implies i == j by {
        if i < j {
            assert(!windows[i].states@.contains(STATE_ACTIVATED));
        } else if j < i {
            assert(!windows[j].states@.contains(STATE_ACTIVATED));
        }
    }
    assert forall|i: int| #[trigger] first_active(windows, i) implies i <= some
        && windows[i].states@.contains(STATE_ACTIVATED) by {
        if some < i {
            assert(!windows[some].states@.contains(STATE_ACTIVATED));
        }
    }
}

} // verus!
