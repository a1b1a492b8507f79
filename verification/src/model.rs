//! Notification data model shared by every platform backend.
use vstd::prelude::*;
use crate::clock::Timestamp;

verus! {

broadcast use vstd::string::group_string_axioms;

/// The characters of a text that may be absent.
pub open spec fn text_if_any(text: Option<String>) -> Option<Seq<char>> {
    match text {
        Some(t) => Some(t@),
        None => None,
    }
}

/// The characters of each text in a list.
pub open spec fn texts(list: Seq<String>) -> Seq<Seq<char>> {
    list.map_values(|t: String| t@)
}

/// A copy of a text that may be absent.
pub fn copy_text_if_any(text: &Option<String>) -> (r: Option<String>)
    ensures
        r == *text,
{
    match text {
        Some(t) => Some(t.clone()),
        None => None,
    }
}

/// Stable identifier for a single notification.
///
/// Platform backends map their native handles (WinRT tag/group, D-Bus
/// notification id) into this string.
#[derive(Debug, PartialEq, Eq, Hash)]
pub struct NotificationId(String);

impl View for NotificationId {
    type V = Seq<char>;

    closed spec fn view(&self) -> Seq<char> {
        self.0@
    }
}

/// The shape of a random UUID in its hyphenated form: 36 characters, hyphens
/// after the 8th, 12th, 16th and 20th of the 32 hexadecimal digits, the version
/// digit `4`, and one of the four variant digits.
pub open spec fn uuid_shape(s: Seq<char>) -> bool {
    &&& s.len() == 36
    &&& forall|i: int|
        0 <= i < 36 ==> if i == 8 || i == 13 || i == 18 || i == 23 {
            #[trigger] s[i] == '-'
        } else {
            ('0' <= s[i] && s[i] <= '9') || ('a' <= s[i] && s[i] <= 'f')
        }
    &&& s[14] == '4'
    &&& s[19] == '8' || s[19] == '9' || s[19] == 'a' || s[19] == 'b'
}

/// `uuid::Uuid::new_v4` and its `Display`: a fresh random identifier in the
/// hyphenated lower-case form. Which one it is depends on chance.
#[verifier::external_body]
fn random_uuid() -> (r: String)
    ensures
        uuid_shape(r@),
{
    uuid::Uuid::new_v4().to_string()
}

impl NotificationId {
    /// Generate a fresh random identifier.
    pub fn new() -> (r: NotificationId)
        ensures
            uuid_shape(r@),
    {
        NotificationId(random_uuid())
    }

    /// The identifier as text.
    pub fn as_str(&self) -> (r: &str)
        ensures
            r@ == self@,
    {
        self.0.as_str()
    }

    /// The identifier as text of its own.
    pub fn to_text(&self) -> (r: String)
        ensures
            r@ == self@,
    {
        self.0.clone()
    }

    /// Whether two identifiers are the same.
    pub fn same(&self, other: &NotificationId) -> (r: bool)
        ensures
            r == (self@ == other@),
    {
        self.0 == other.0
    }
}

impl From<String> for NotificationId {
    fn from(value: String) -> (r: NotificationId)
        ensures
            r@ == value@,
    {
        NotificationId(value)
    }
}

impl vstd::std_specs::convert::FromSpecImpl<String> for NotificationId {
    open spec fn obeys_from_spec() -> bool {
        false
    }

    open spec fn from_spec(value: String) -> NotificationId {
        arbitrary()
    }
}

impl From<&str> for NotificationId {
    fn from(value: &str) -> (r: NotificationId)
        ensures
            r@ == value@,
    {
        NotificationId(value.to_string())
    }
}

impl vstd::std_specs::convert::FromSpecImpl<&str> for NotificationId {
    open spec fn obeys_from_spec() -> bool {
        false
    }

    open spec fn from_spec(value: &str) -> NotificationId {
        arbitrary()
    }
}

impl Clone for NotificationId {
    fn clone(&self) -> (r: NotificationId)
        ensures
            r == *self,
    {
        NotificationId(self.0.clone())
    }
}

impl Default for NotificationId {
    fn default() -> (r: NotificationId)
        ensures
            uuid_shape(r@),
    {
        NotificationId::new()
    }
}

/// Identity of the application that produced a notification.
///
/// `app_id` is the stable, platform-native key: the AUMID on Windows, the
/// `.desktop` id on Linux. Rules match against this value.
#[derive(Debug, PartialEq, Eq, Hash)]
pub struct AppIdentity {
    pub app_id: String,
    pub display_name: Option<String>,
}

/// What an [`AppIdentity`] says.
pub struct AppModel {
    pub app_id: Seq<char>,
    pub display_name: Option<Seq<char>>,
}

impl View for AppIdentity {
    type V = AppModel;

    open spec fn view(&self) -> AppModel {
        AppModel { app_id: self.app_id@, display_name: text_if_any(self.display_name) }
    }
}

impl AppModel {
    /// The identity as shown to the user.
    pub open spec fn shown(self) -> Seq<char> {
        match self.display_name {
            Some(name) => name + " ("@ + self.app_id + ")"@,
            None => self.app_id,
        }
    }
}

impl AppIdentity {
    /// An identity without a display name.
    pub fn new(app_id: &str) -> (r: AppIdentity)
        ensures
            r@ == (AppModel { app_id: app_id@, display_name: None }),
    {
        AppIdentity { app_id: app_id.to_string(), display_name: None }
    }

    /// The identity under a display name.
    pub fn with_display_name(self, name: &str) -> (r: AppIdentity)
        ensures
            r.app_id == self.app_id,
            r@ == (AppModel { app_id: self@.app_id, display_name: Some(name@) }),
    {
        AppIdentity { app_id: self.app_id, display_name: Some(name.to_string()) }
    }

    /// The identity as shown to the user: the name with the id in brackets, or
    /// the id alone.
    pub fn to_text(&self) -> (r: String)
        ensures
            r@ == self@.shown(),
    {
        match &self.display_name {
            Some(name) => {
                let mut s = name.clone();
                s.append(" (");
                s.append(self.app_id.as_str());
                s.append(")");
                s
            },
            None => self.app_id.clone(),
        }
    }
}

impl Clone for AppIdentity {
    fn clone(&self) -> (r: AppIdentity)
        ensures
            r == *self,
    {
        AppIdentity {
            app_id: self.app_id.clone(),
            display_name: copy_text_if_any(&self.display_name),
        }
    }
}

/// How urgent the operating system considers a notification.
///
/// Mirrors the freedesktop.org `urgency` hint so Linux notifications map 1:1.
#[derive(Clone, Copy, Debug, PartialEq, Eq, Hash, Structural)]
pub enum Urgency {
    Low,
    Normal,
    Critical,
}

impl Default for Urgency {
    fn default() -> (r: Urgency)
        ensures
            r == Urgency::Normal,
    {
        Urgency::Normal
    }
}

/// A single button/inline action attached to a notification.
#[derive(Debug, PartialEq, Eq)]
pub struct NotificationAction {
    /// Platform action key, passed back to the source on invocation.
    pub id: String,
    /// Human-readable label shown on the button.
    pub label: String,
}

/// What a [`NotificationAction`] says.
pub struct ActionModel {
    pub id: Seq<char>,
    pub label: Seq<char>,
}

impl View for NotificationAction {
    type V = ActionModel;

    open spec fn view(&self) -> ActionModel {
        ActionModel { id: self.id@, label: self.label@ }
    }
}

impl NotificationAction {
    /// An action with a key and a label.
    pub fn new(id: &str, label: &str) -> (r: NotificationAction)
        ensures
            r@ == (ActionModel { id: id@, label: label@ }),
    {
        NotificationAction { id: id.to_string(), label: label.to_string() }
    }
}

impl Clone for NotificationAction {
    fn clone(&self) -> (r: NotificationAction)
        ensures
            r == *self,
    {
        NotificationAction { id: self.id.clone(), label: self.label.clone() }
    }
}

/// Reference to a notification icon.
#[derive(Debug, PartialEq, Eq)]
pub enum IconRef {
    /// Theme icon name, e.g. `"slack"` or `"dialog-information"`.
    Name(String),
    /// Absolute path to an image file on disk.
    Path(String),
    /// Raw image bytes carried with the notification.
    Data { mime_type: String, bytes: Vec<u8> },
}

/// What an [`IconRef`] says.
pub enum IconModel {
    Name(Seq<char>),
    Path(Seq<char>),
    Data { mime_type: Seq<char>, bytes: Seq<u8> },
}

impl View for IconRef {
    type V = IconModel;

    open spec fn view(&self) -> IconModel {
        match self {
            IconRef::Name(name) => IconModel::Name(name@),
            IconRef::Path(path) => IconModel::Path(path@),
            IconRef::Data { mime_type, bytes } => IconModel::Data {
                mime_type: mime_type@,
                bytes: bytes@,
            },
        }
    }
}

impl Clone for IconRef {
    fn clone(&self) -> (r: IconRef)
        ensures
            r@ == self@,
    {
        match self {
            IconRef::Name(name) => IconRef::Name(name.clone()),
            IconRef::Path(path) => IconRef::Path(path.clone()),
            IconRef::Data { mime_type, bytes } => {
                let copy = bytes.clone();
                assert(copy@ =~= bytes@);
                IconRef::Data { mime_type: mime_type.clone(), bytes: copy }
            },
        }
    }
}

/// What an icon that may be absent says.
pub open spec fn icon_if_any(icon: Option<IconRef>) -> Option<IconModel> {
    match icon {
        Some(i) => Some(i@),
        None => None,
    }
}

/// What each action in a list says.
pub open spec fn action_models(actions: Seq<NotificationAction>) -> Seq<ActionModel> {
    actions.map_values(|a: NotificationAction| a@)
}

/// A notification as normalised by the core engine.
#[derive(Debug, PartialEq)]
pub struct Notification {
    pub id: NotificationId,
    pub source: AppIdentity,
    pub title: String,
    pub body: String,
    pub urgency: Urgency,
    pub timestamp: Timestamp,
    pub actions: Vec<NotificationAction>,
    pub icon: Option<IconRef>,
}

/// What a [`Notification`] says.
#[verifier::ext_equal]
pub struct NotificationModel {
    pub id: Seq<char>,
    pub source: AppModel,
    pub title: Seq<char>,
    pub body: Seq<char>,
    pub urgency: Urgency,
    pub timestamp: int,
    pub actions: Seq<ActionModel>,
    pub icon: Option<IconModel>,
}

impl View for Notification {
    type V = NotificationModel;

    open spec fn view(&self) -> NotificationModel {
        NotificationModel {
            id: self.id@,
            source: self.source@,
            title: self.title@,
            body: self.body@,
            urgency: self.urgency,
            timestamp: self.timestamp@,
            actions: action_models(self.actions@),
            icon: icon_if_any(self.icon),
        }
    }
}

/// A copy of a list of actions.
pub fn copy_actions(actions: &Vec<NotificationAction>) -> (r: Vec<NotificationAction>)
    ensures
        r@ == actions@,
{
    let mut out: Vec<NotificationAction> = Vec::new();
    let mut i: usize = 0;
    while i < actions.len()
        invariant
            i <= actions@.len(),
            out@ == actions@.take(i as int),
        decreases actions@.len() - i,
    {
        out.push(actions[i].clone());
        assert(actions@.take(i as int).push(actions@[i as int]) =~= actions@.take(i + 1));
        i += 1;
    }
    assert(actions@.take(actions@.len() as int) =~= actions@);
    out
}

impl Clone for Notification {
    fn clone(&self) -> (r: Notification)
        ensures
            r@ == self@,
    {
        Notification {
            id: self.id.clone(),
            source: self.source.clone(),
            title: self.title.clone(),
            body: self.body.clone(),
            urgency: self.urgency,
            timestamp: self.timestamp,
            actions: copy_actions(&self.actions),
            icon: match &self.icon {
                Some(icon) => Some(icon.clone()),
                None => None,
            },
        }
    }
}

impl Notification {
    /// Build a notification with sensible defaults (normal urgency, now,
    /// random id, no actions or icon).
    pub fn new(source: AppIdentity, title: &str, body: &str) -> (r: Notification)
        ensures
            uuid_shape(r.id@),
            r.source == source,
            r.title@ == title@,
            r.body@ == body@,
            r.urgency == Urgency::Normal,
            r.timestamp@ >= 0,
            r.actions@.len() == 0,
            r.icon is None,
    {
        Notification {
            id: NotificationId::new(),
            source,
            title: title.to_string(),
            body: body.to_string(),
            urgency: Urgency::Normal,
            timestamp: Timestamp::now(),
            actions: Vec::new(),
            icon: None,
        }
    }

    /// The notification with another urgency.
    pub fn with_urgency(self, urgency: Urgency) -> (r: Notification)
        ensures
            r == (Notification { urgency, ..self }),
    {
        Notification { urgency, ..self }
    }

    /// The notification at another instant.
    pub fn with_timestamp(self, timestamp: Timestamp) -> (r: Notification)
        ensures
            r == (Notification { timestamp, ..self }),
    {
        Notification { timestamp, ..self }
    }

    /// The notification with other actions.
    pub fn with_actions(self, actions: Vec<NotificationAction>) -> (r: Notification)
        ensures
            r == (Notification { actions, ..self }),
    {
        Notification { actions, ..self }
    }

    /// The notification with an icon.
    pub fn with_icon(self, icon: IconRef) -> (r: Notification)
        ensures
            r == (Notification { icon: Some(icon), ..self }),
    {
        Notification { icon: Some(icon), ..self }
    }
}

} // verus!
