//! Rows of the history database: what a value is stored as, and what a stored
//! row is read as.
use vstd::prelude::*;
use crate::clock;
use crate::clock::{Timestamp, WallTime, Weekday};
use crate::error::{Error, ErrorModel};
use crate::model;
use crate::model::{
    copy_text_if_any,
    ActionModel,
    AppIdentity,
    AppModel,
    IconModel,
    IconRef,
    Notification,
    NotificationAction,
    NotificationId,
    NotificationModel,
    Urgency,
};
use crate::profile::{FocusProfile, ProfileModel};
use crate::rules;
use crate::rules::Decision;
use crate::schedule;
use crate::schedule::{weekday_names, Schedule, ScheduleModel};
use crate::storage::{HistoryEntry, HistoryModel};
use crate::text;
use crate::text::same_text;

verus! {

broadcast use vstd::string::group_string_axioms;

/// The word for an urgency.
pub open spec fn urgency_word(urgency: Urgency) -> Seq<char> {
    match urgency {
        Urgency::Low => "low"@,
        Urgency::Normal => "normal"@,
        Urgency::Critical => "critical"@,
    }
}

/// The word for an urgency.
pub fn urgency_str(urgency: Urgency) -> (r: &'static str)
    ensures
        r@ == urgency_word(urgency),
{
    match urgency {
        Urgency::Low => "low",
        Urgency::Normal => "normal",
        Urgency::Critical => "critical",
    }
}

/// The urgency that a stored word stands for. Words that stand for none are
/// taken for normal urgency.
pub open spec fn urgency_read(raw: Seq<char>) -> Urgency {
    if raw == "low"@ {
        Urgency::Low
    } else if raw == "critical"@ {
        Urgency::Critical
    } else {
        Urgency::Normal
    }
}

/// The urgency that a stored word stands for.
pub fn parse_urgency(raw: &str) -> (r: Option<Urgency>)
    ensures
        r == Some(urgency_read(raw@)),
{
    if same_text(raw, "low") {
        Some(Urgency::Low)
    } else if same_text(raw, "critical") {
        Some(Urgency::Critical)
    } else {
        Some(Urgency::Normal)
    }
}

/// The decision that a word stands for.
pub open spec fn decision_read(raw: Seq<char>) -> Option<Decision> {
    if raw == "allow"@ {
        Some(Decision::Allow)
    } else if raw == "mute"@ {
        Some(Decision::Mute)
    } else if raw == "batch"@ {
        Some(Decision::Batch)
    } else {
        None
    }
}

/// The decision that a word stands for.
pub fn parse_decision(raw: &str) -> (r: Option<Decision>)
    ensures
        r == decision_read(raw@),
{
    if same_text(raw, "allow") {
        Some(Decision::Allow)
    } else if same_text(raw, "mute") {
        Some(Decision::Mute)
    } else if same_text(raw, "batch") {
        Some(Decision::Batch)
    } else {
        None
    }
}

/// Reading the word for an urgency gives the urgency back.
pub proof fn urgency_words_read_back(urgency: Urgency)
    ensures
        urgency_read(urgency_word(urgency)) == urgency,
{
    reveal_strlit("low");
    reveal_strlit("normal");
    reveal_strlit("critical");
    assert("low"@.len() == 3 && "normal"@.len() == 6 && "critical"@.len() == 8);
}

/// Reading the word for a decision gives the decision back.
pub proof fn decision_words_read_back(decision: Decision)
    ensures
        decision_read(rules::decision_word(decision)) == Some(decision),
{
    reveal_strlit("allow");
    reveal_strlit("mute");
    reveal_strlit("batch");
    assert("allow"@.len() == 5 && "mute"@.len() == 4 && "batch"@.len() == 5);
    assert("allow"@[0] == 'a' && "batch"@[0] == 'b');
}

/// The instant of a stored number of milliseconds. A number that the calendar
/// does not reach is taken for the present.
pub fn millis_to_datetime(millis: i64) -> (r: Timestamp)
    ensures
        clock::reachable_millis(millis as int) ==> r@ == millis * 1_000_000,
        !clock::reachable_millis(millis as int) ==> r@ >= 0,
{
    match Timestamp::from_millis(millis) {
        Some(t) => t,
        None => Timestamp::now(),
    }
}

/// An instant cut to whole milliseconds.
pub open spec fn to_whole_millis(t: int) -> int {
    clock::millis_of(t) * 1_000_000
}

/// A stored notification.
#[derive(Debug, PartialEq, Eq)]
pub struct NotificationRow {
    pub id: String,
    pub app_id: String,
    pub app_display_name: Option<String>,
    pub title: String,
    pub body: String,
    pub urgency: String,
    pub timestamp_millis: i64,
    pub actions_json: String,
    pub icon_json: Option<String>,
}

/// What a [`NotificationRow`] says.
pub struct NotificationRowModel {
    pub id: Seq<char>,
    pub app_id: Seq<char>,
    pub app_display_name: Option<Seq<char>>,
    pub title: Seq<char>,
    pub body: Seq<char>,
    pub urgency: Seq<char>,
    pub timestamp_millis: int,
    pub actions_json: Seq<char>,
    pub icon_json: Option<Seq<char>>,
}

impl View for NotificationRow {
    type V = NotificationRowModel;

    open spec fn view(&self) -> NotificationRowModel {
        NotificationRowModel {
            id: self.id@,
            app_id: self.app_id@,
            app_display_name: model::text_if_any(self.app_display_name),
            title: self.title@,
            body: self.body@,
            urgency: self.urgency@,
            timestamp_millis: self.timestamp_millis as int,
            actions_json: self.actions_json@,
            icon_json: model::text_if_any(self.icon_json),
        }
    }
}

/// A stored decision.
#[derive(Debug, PartialEq, Eq)]
pub struct DecisionRow {
    pub notification_id: String,
    pub decision: String,
    pub rule_id: Option<String>,
    pub reason: String,
    pub decided_millis: i64,
}

/// What a [`DecisionRow`] says.
pub struct DecisionRowModel {
    pub notification_id: Seq<char>,
    pub decision: Seq<char>,
    pub rule_id: Option<Seq<char>>,
    pub reason: Seq<char>,
    pub decided_millis: int,
}

impl View for DecisionRow {
    type V = DecisionRowModel;

    open spec fn view(&self) -> DecisionRowModel {
        DecisionRowModel {
            notification_id: self.notification_id@,
            decision: self.decision@,
            rule_id: model::text_if_any(self.rule_id),
            reason: self.reason@,
            decided_millis: self.decided_millis as int,
        }
    }
}

/// The row of an entry's decision.
pub open spec fn decision_row(e: HistoryModel) -> DecisionRowModel {
    DecisionRowModel {
        notification_id: e.notification.id,
        decision: rules::decision_word(e.decision),
        rule_id: e.rule_id,
        reason: e.reason,
        decided_millis: clock::millis_of(e.decided_at),
    }
}

/// The row of a notification, given its actions and its icon as JSON.
pub open spec fn notification_row(
    n: NotificationModel,
    actions_json: Seq<char>,
    icon_json: Option<Seq<char>>,
) -> NotificationRowModel {
    NotificationRowModel {
        id: n.id,
        app_id: n.source.app_id,
        app_display_name: n.source.display_name,
        title: n.title,
        body: n.body,
        urgency: urgency_word(n.urgency),
        timestamp_millis: clock::millis_of(n.timestamp),
        actions_json,
        icon_json,
    }
}

/// The row of a notification, given its actions and its icon as JSON.
pub fn encode_notification(
    n: &Notification,
    actions_json: String,
    icon_json: Option<String>,
) -> (r: NotificationRow)
    ensures
        r@ == notification_row(n@, actions_json@, model::text_if_any(icon_json)),
{
    NotificationRow {
        id: n.id.to_text(),
        app_id: n.source.app_id.clone(),
        app_display_name: copy_text_if_any(&n.source.display_name),
        title: n.title.clone(),
        body: n.body.clone(),
        urgency: urgency_str(n.urgency).to_string(),
        timestamp_millis: n.timestamp.millis(),
        actions_json,
        icon_json,
    }
}

/// The row of an entry's decision.
pub fn encode_decision(entry: &HistoryEntry) -> (r: DecisionRow)
    ensures
        r@ == decision_row(entry@),
{
    DecisionRow {
        notification_id: entry.notification.id.to_text(),
        decision: entry.decision.as_str().to_string(),
        rule_id: copy_text_if_any(&entry.rule_id),
        reason: entry.reason.clone(),
        decided_millis: entry.decided_at.millis(),
    }
}

/// The notification that a row is read as, given its actions and its icon.
pub open spec fn row_notification(
    row: NotificationRowModel,
    actions: Seq<ActionModel>,
    icon: Option<IconModel>,
    timestamp: int,
) -> NotificationModel {
    NotificationModel {
        id: row.id,
        source: AppModel { app_id: row.app_id, display_name: row.app_display_name },
        title: row.title,
        body: row.body,
        urgency: urgency_read(row.urgency),
        timestamp,
        actions,
        icon,
    }
}

/// The instant of a stored number of milliseconds, where the calendar reaches
/// it.
pub open spec fn stored_instant(millis: int, t: int) -> bool {
    if clock::reachable_millis(millis) {
        t == millis * 1_000_000
    } else {
        t >= 0
    }
}

/// The notification that a row is read as, given its actions and its icon.
pub fn decode_notification(
    raw: NotificationRow,
    actions: Vec<NotificationAction>,
    icon: Option<IconRef>,
) -> (r: Notification)
    ensures
        r@ == row_notification(
            raw@,
            model::action_models(actions@),
            model::icon_if_any(icon),
            r.timestamp@,
        ),
        stored_instant(raw@.timestamp_millis, r.timestamp@),
{
    let urgency = match parse_urgency(raw.urgency.as_str()) {
        Some(u) => u,
        None => Urgency::Normal,
    };
    Notification {
        id: NotificationId::from(raw.id),
        source: AppIdentity { app_id: raw.app_id, display_name: raw.app_display_name },
        title: raw.title,
        body: raw.body,
        urgency,
        timestamp: millis_to_datetime(raw.timestamp_millis),
        actions,
        icon,
    }
}

/// A stored notification with its read mark and its latest decision.
#[derive(Debug, PartialEq, Eq)]
pub struct EntryRow {
    pub notification: NotificationRow,
    pub read: i64,
    pub decision: Option<String>,
    pub rule_id: Option<String>,
    pub reason: Option<String>,
    pub decided_millis: Option<i64>,
}

/// The decision that a stored word stands for; a word that stands for none, or
/// no word at all, is taken for `allow`.
pub open spec fn stored_decision(word: Option<Seq<char>>) -> Decision {
    match word {
        Some(w) => match decision_read(w) {
            Some(d) => d,
            None => Decision::Allow,
        },
        None => Decision::Allow,
    }
}

/// The history entry that a row is read as, given its actions and its icon. A
/// notification without a decision counts as allowed when it arrived.
pub fn decode_entry(
    raw: EntryRow,
    actions: Vec<NotificationAction>,
    icon: Option<IconRef>,
) -> (r: HistoryEntry)
    ensures
        reads_as(
            raw.notification@,
            model::action_models(actions@),
            model::icon_if_any(icon),
            raw.read as int,
            model::text_if_any(raw.decision),
            model::text_if_any(raw.rule_id),
            model::text_if_any(raw.reason),
            millis_if_any(raw.decided_millis),
            r@,
        ),
{
    let notification = decode_notification(raw.notification, actions, icon);
    let decided_at = match raw.decided_millis {
        Some(millis) => millis_to_datetime(millis),
        None => notification.timestamp,
    };
    let decision = match &raw.decision {
        Some(word) => match parse_decision(word.as_str()) {
            Some(d) => d,
            None => Decision::Allow,
        },
        None => Decision::Allow,
    };
    let reason = match raw.reason {
        Some(t) => t,
        None => String::new(),
    };
    HistoryEntry {
        notification,
        decision,
        rule_id: raw.rule_id,
        reason,
        read: raw.read != 0,
        decided_at,
    }
}

/// What the history gives back of an entry that was stored: all of it, its
/// instants cut to whole milliseconds.
pub open spec fn kept_entry(e: HistoryModel) -> HistoryModel {
    HistoryModel {
        notification: NotificationModel {
            timestamp: to_whole_millis(e.notification.timestamp),
            ..e.notification
        },
        decided_at: to_whole_millis(e.decided_at),
        ..e
    }
}

/// A number of milliseconds that may be absent.
pub open spec fn millis_if_any(millis: Option<i64>) -> Option<int> {
    match millis {
        Some(n) => Some(n as int),
        None => None,
    }
}

/// `r` is what a row is read as. A notification without a decision counts as
/// allowed when it arrived.
pub open spec fn reads_as(
    row: NotificationRowModel,
    actions: Seq<ActionModel>,
    icon: Option<IconModel>,
    read: int,
    decision: Option<Seq<char>>,
    rule_id: Option<Seq<char>>,
    reason: Option<Seq<char>>,
    decided_millis: Option<int>,
    r: HistoryModel,
) -> bool {
    &&& r.notification == row_notification(row, actions, icon, r.notification.timestamp)
    &&& stored_instant(row.timestamp_millis, r.notification.timestamp)
    &&& r.decision == stored_decision(decision)
    &&& r.rule_id == rule_id
    &&& r.reason == (match reason {
        Some(t) => t,
        None => Seq::empty(),
    })
    &&& r.read == (read != 0)
    &&& match decided_millis {
        Some(millis) => stored_instant(millis, r.decided_at),
        None => r.decided_at == r.notification.timestamp,
    }
}

/// An entry that was stored is read back as it was, its instants cut to whole
/// milliseconds: whatever is read from the row of the notification, its actions
/// and icon, its read mark and the row of its decision is that entry.
pub proof fn stored_entries_read_back(
    e: HistoryModel,
    actions_json: Seq<char>,
    icon_json: Option<Seq<char>>,
    r: HistoryModel,
)
    requires
        clock::reachable(e.notification.timestamp),
        clock::reachable(e.decided_at),
        reads_as(
            notification_row(e.notification, actions_json, icon_json),
            e.notification.actions,
            e.notification.icon,
            if e.read {
                1
            } else {
                0
            },
            Some(rules::decision_word(e.decision)),
            e.rule_id,
            Some(e.reason),
            Some(clock::millis_of(e.decided_at)),
            r,
        ),
    ensures
        r == kept_entry(e),
{
    urgency_words_read_back(e.notification.urgency);
    decision_words_read_back(e.decision);
    assert(clock::reachable_millis(clock::millis_of(e.notification.timestamp)));
    assert(clock::reachable_millis(clock::millis_of(e.decided_at)));
    assert(r.notification == kept_entry(e).notification);
}

/// A stored focus profile.
#[derive(Debug, PartialEq, Eq)]
pub struct ProfileRow {
    pub name: String,
    pub description: Option<String>,
    pub default_decision: Option<String>,
}

/// The word for a decision that may be absent.
pub open spec fn word_if_any(decision: Option<Decision>) -> Option<Seq<char>> {
    match decision {
        Some(d) => Some(rules::decision_word(d)),
        None => None,
    }
}

/// The decision for a word that may be absent or unknown.
pub open spec fn decision_if_any(word: Option<Seq<char>>) -> Option<Decision> {
    match word {
        Some(w) => decision_read(w),
        None => None,
    }
}

/// The row of a profile.
pub fn encode_profile(profile: &FocusProfile) -> (r: ProfileRow)
    ensures
        r.name@ == profile@.name,
        model::text_if_any(r.description) == profile@.description,
        model::text_if_any(r.default_decision) == word_if_any(profile@.default_decision),
{
    ProfileRow {
        name: profile.name.clone(),
        description: copy_text_if_any(&profile.description),
        default_decision: match profile.default_decision {
            Some(d) => Some(d.as_str().to_string()),
            None => None,
        },
    }
}

/// The profile that a row is read as. A default that stands for no decision is
/// left out.
pub fn decode_profile(raw: ProfileRow) -> (r: FocusProfile)
    ensures
        r@ == (ProfileModel {
            name: raw.name@,
            description: model::text_if_any(raw.description),
            default_decision: decision_if_any(model::text_if_any(raw.default_decision)),
        }),
{
    let default_decision = match &raw.default_decision {
        Some(word) => parse_decision(word.as_str()),
        None => None,
    };
    FocusProfile { name: raw.name, description: raw.description, default_decision }
}

/// The default decision of a profile is read back as it was stored.
pub proof fn stored_defaults_read_back(decision: Option<Decision>)
    ensures
        decision_if_any(word_if_any(decision)) == decision,
{
    if let Some(d) = decision {
        decision_words_read_back(d);
    }
}

/// What `serde_json::from_str` reads from a text as a list of texts: the list,
/// or the message of the error.
pub uninterp spec fn json_list_read(raw: Seq<char>) -> Result<Seq<Seq<char>>, Seq<char>>;

/// What `serde_json::to_string` writes for a list of texts.
pub uninterp spec fn json_list_text(list: Seq<Seq<char>>) -> Seq<char>;

/// A list that was read.
pub open spec fn readable_list(list: Seq<Seq<char>>) -> Result<Seq<Seq<char>>, Seq<char>> {
    Ok(list)
}

/// A list of texts, or a message.
pub open spec fn list_or_message(r: Result<Vec<String>, String>) -> Result<
    Seq<Seq<char>>,
    Seq<char>,
> {
    match r {
        Ok(list) => Ok(model::texts(list@)),
        Err(message) => Err(message@),
    }
}

/// `serde_json::from_str` for a list of texts, with the error as its message.
/// Success, the list and the message are functions of the text.
#[verifier::external_body]
fn read_json_list(raw: &str) -> (r: Result<Vec<String>, String>)
    ensures
        json_list_read(raw@) == list_or_message(r),
{
    serde_json::from_str::<Vec<String>>(raw).map_err(|e| e.to_string())
}

/// A text that JSON shows as it is: no quote, no backslash and no control
/// character.
pub open spec fn plain_in_json(t: Seq<char>) -> bool {
    forall|i: int|
        0 <= i < t.len() ==> #[trigger] t[i] >= ' ' && t[i] != '"' && t[i] != '\\'
}

/// Texts in quotes, with commas between them and brackets around them.
pub open spec fn quoted_list(list: Seq<Seq<char>>) -> Seq<char> {
    seq!['['] + text::joined(
        list.map_values(|t: Seq<char>| seq!['"'] + t + seq!['"']),
        seq![','],
    ) + seq![']']
}

/// `serde_json::to_string` for a list of texts, which does not fail. The text
/// is a function of the list, and reading it gives the list back. Texts that
/// need no escapes stand in it as they are, quoted and between commas.
#[verifier::external_body]
fn write_json_list(list: &Vec<String>) -> (r: String)
    ensures
        r@ == json_list_text(model::texts(list@)),
        (forall|i: int| 0 <= i < list@.len() ==> plain_in_json((#[trigger] list@[i])@)) ==> r@
            == quoted_list(model::texts(list@)),
        json_list_read(r@) == readable_list(model::texts(list@)),
{
    serde_json::to_string(list).unwrap()
}

/// A stored schedule.
#[derive(Debug, PartialEq, Eq)]
pub struct ScheduleRow {
    pub id: String,
    pub name: String,
    pub weekdays: String,
    pub start_time: String,
    pub end_time: String,
    pub profile: Option<String>,
    pub enabled: i64,
}

/// What a [`ScheduleRow`] says.
pub struct ScheduleRowModel {
    pub id: Seq<char>,
    pub name: Seq<char>,
    pub weekdays: Seq<char>,
    pub start_time: Seq<char>,
    pub end_time: Seq<char>,
    pub profile: Option<Seq<char>>,
    pub enabled: int,
}

impl View for ScheduleRow {
    type V = ScheduleRowModel;

    open spec fn view(&self) -> ScheduleRowModel {
        ScheduleRowModel {
            id: self.id@,
            name: self.name@,
            weekdays: self.weekdays@,
            start_time: self.start_time@,
            end_time: self.end_time@,
            profile: model::text_if_any(self.profile),
            enabled: self.enabled as int,
        }
    }
}

/// The short names of a list of days.
pub open spec fn day_names(days: Seq<Weekday>) -> Seq<Seq<char>> {
    days.map_values(|d: Weekday| schedule::name_of_day(d))
}

/// `row` is what a schedule is stored as: its days as a JSON list of their short
/// names, its times as a clock shows them.
pub open spec fn stores_schedule(row: ScheduleRowModel, s: ScheduleModel) -> bool {
    &&& row.id == s.id
    &&& row.name == s.name
    &&& row.weekdays == quoted_list(day_names(s.weekdays))
    &&& json_list_read(row.weekdays) == Ok::<Seq<Seq<char>>, Seq<char>>(day_names(s.weekdays))
    &&& row.start_time == clock::shown_time(s.start_time)
    &&& clock::time_read_nanos(row.start_time) == Some(s.start_time)
    &&& row.end_time == clock::shown_time(s.end_time)
    &&& clock::time_read_nanos(row.end_time) == Some(s.end_time)
    &&& row.profile == s.profile
    &&& row.enabled == if s.enabled {
        1int
    } else {
        0int
    }
}

proof fn lemma_day_names_are_plain(day: Weekday)
    ensures
        plain_in_json(schedule::name_of_day(day)),
{
    reveal_strlit("mon");
    reveal_strlit("tue");
    reveal_strlit("wed");
    reveal_strlit("thu");
    reveal_strlit("fri");
    reveal_strlit("sat");
    reveal_strlit("sun");
}

/// The row of a schedule, or why it cannot be stored.
pub fn encode_schedule(s: &Schedule) -> (r: Result<ScheduleRow, Error>)
    ensures
        match s@.fault() {
            Some(message) => r is Err && r->Err_0@ == ErrorModel::ConfigValidation(message),
            None => r is Ok && stores_schedule(r->Ok_0@, s@),
        },
{
    match s.validate() {
        Ok(()) => {},
        Err(error) => {
            return Err(error);
        },
    }
    let names = weekday_names(s.weekdays.as_slice());
    proof {
        let list = day_names(s.weekdays@);
        assert(model::texts(names@) =~= list);
        assert forall|i: int| 0 <= i < names@.len() implies plain_in_json(
            (#[trigger] names@[i])@,
        ) by {
            assert(model::texts(names@)[i] == names@[i]@);
            lemma_day_names_are_plain(s.weekdays@[i]);
        }
    }
    Ok(
        ScheduleRow {
            id: s.id.clone(),
            name: s.name.clone(),
            weekdays: write_json_list(&names),
            start_time: s.start_time.to_text(),
            end_time: s.end_time.to_text(),
            profile: copy_text_if_any(&s.profile),
            enabled: if s.enabled {
                1
            } else {
                0
            },
        },
    )
}

/// The day that a short name stands for; no other spelling counts.
pub open spec fn stored_day(name: Seq<char>) -> Option<Weekday> {
    if name == "mon"@ {
        Some(Weekday::Mon)
    } else if name == "tue"@ {
        Some(Weekday::Tue)
    } else if name == "wed"@ {
        Some(Weekday::Wed)
    } else if name == "thu"@ {
        Some(Weekday::Thu)
    } else if name == "fri"@ {
        Some(Weekday::Fri)
    } else if name == "sat"@ {
        Some(Weekday::Sat)
    } else if name == "sun"@ {
        Some(Weekday::Sun)
    } else {
        None
    }
}

fn parse_stored_day(name: &str) -> (r: Option<Weekday>)
    ensures
        r == stored_day(name@),
{
    if same_text(name, "mon") {
        Some(Weekday::Mon)
    } else if same_text(name, "tue") {
        Some(Weekday::Tue)
    } else if same_text(name, "wed") {
        Some(Weekday::Wed)
    } else if same_text(name, "thu") {
        Some(Weekday::Thu)
    } else if same_text(name, "fri") {
        Some(Weekday::Fri)
    } else if same_text(name, "sat") {
        Some(Weekday::Sat)
    } else if same_text(name, "sun") {
        Some(Weekday::Sun)
    } else {
        None
    }
}

/// The days of the first `n` names, or the first name that stands for none.
pub open spec fn stored_days(names: Seq<Seq<char>>, n: nat) -> Result<Seq<Weekday>, Seq<char>>
    decreases n,
{
    if n == 0 {
        Ok(Seq::empty())
    } else {
        match stored_days(names, (n - 1) as nat) {
            Ok(days) => match stored_day(names[n - 1]) {
                Some(day) => Ok(days.push(day)),
                None => Err(names[n - 1]),
            },
            Err(name) => Err(name),
        }
    }
}

/// What the stored form of a schedule with the list of names already read is
/// read as.
pub open spec fn row_schedule(row: ScheduleRowModel, names: Seq<Seq<char>>) -> Result<
    ScheduleModel,
    Seq<char>,
> {
    match stored_days(names, names.len()) {
        Err(name) => Err(
            "stored schedule `"@ + row.id + "` has unknown weekday `"@ + name + "`"@,
        ),
        Ok(days) => match clock::time_read_nanos(row.start_time) {
            None => Err("schedule `"@ + row.id + "` has invalid start_time"@),
            Some(start) => match clock::time_read_nanos(row.end_time) {
                None => Err("schedule `"@ + row.id + "` has invalid end_time"@),
                Some(end) => Ok(
                    ScheduleModel {
                        id: row.id,
                        name: row.name,
                        weekdays: days,
                        start_time: start,
                        end_time: end,
                        profile: row.profile,
                        enabled: row.enabled != 0,
                    },
                ),
            },
        },
    }
}

proof fn lemma_unknown_day_stays(names: Seq<Seq<char>>, k: nat, n: nat)
    requires
        k <= n,
        stored_days(names, k) is Err,
    ensures
        stored_days(names, n) == stored_days(names, k),
    decreases n,
{
    if k < n {
        lemma_unknown_day_stays(names, k, (n - 1) as nat);
    }
}

/// A message about a stored schedule.
fn about_schedule(before: &str, id: &str, after: &str) -> (r: String)
    ensures
        r@ == before@ + id@ + after@,
{
    let mut message = before.to_string();
    message.append(id);
    message.append(after);
    message
}

/// The schedule that a row is read as, given the names of its days.
pub fn decode_schedule_with(raw: ScheduleRow, names: &Vec<String>) -> (r: Result<Schedule, Error>)
    ensures
        match row_schedule(raw@, model::texts(names@)) {
            Ok(s) => r is Ok && r->Ok_0@ == s,
            Err(message) => r is Err && r->Err_0@ == ErrorModel::ConfigValidation(message),
        },
{
    let ghost all = model::texts(names@);
    let mut weekdays: Vec<Weekday> = Vec::new();
    let mut i: usize = 0;
    while i < names.len()
        invariant
            i <= names@.len(),
            all == model::texts(names@),
            stored_days(all, i as nat) == Ok::<Seq<Weekday>, Seq<char>>(weekdays@),
        decreases names@.len() - i,
    {
        assert(all[i as int] == names@[i as int]@);
        match parse_stored_day(names[i].as_str()) {
            Some(day) => {
                weekdays.push(day);
            },
            None => {
                proof {
                    assert(stored_days(all, (i + 1) as nat) is Err);
                    lemma_unknown_day_stays(all, (i + 1) as nat, all.len());
                }
                let mut message = about_schedule(
                    "stored schedule `",
                    raw.id.as_str(),
                    "` has unknown weekday `",
                );
                message.append(names[i].as_str());
                message.append("`");
                return Err(Error::validation(message));
            },
        }
        i += 1;
    }
    let start_time = match WallTime::read(raw.start_time.as_str()) {
        Some(t) => t,
        None => {
            return Err(
                Error::validation(
                    about_schedule("schedule `", raw.id.as_str(), "` has invalid start_time"),
                ),
            );
        },
    };
    let end_time = match WallTime::read(raw.end_time.as_str()) {
        Some(t) => t,
        None => {
            return Err(
                Error::validation(
                    about_schedule("schedule `", raw.id.as_str(), "` has invalid end_time"),
                ),
            );
        },
    };
    Ok(
        Schedule {
            id: raw.id,
            name: raw.name,
            weekdays,
            start_time,
            end_time,
            profile: raw.profile,
            enabled: raw.enabled != 0,
        },
    )
}

/// The schedule that a row is read as.
pub fn decode_schedule(raw: ScheduleRow) -> (r: Result<Schedule, Error>)
    ensures
        match json_list_read(raw@.weekdays) {
            Err(message) => r is Err && r->Err_0@ == ErrorModel::Json(message),
            Ok(names) => match row_schedule(raw@, names) {
                Ok(s) => r is Ok && r->Ok_0@ == s,
                Err(message) => r is Err && r->Err_0@ == ErrorModel::ConfigValidation(message),
            },
        },
{
    match read_json_list(raw.weekdays.as_str()) {
        Ok(names) => decode_schedule_with(raw, &names),
        Err(message) => Err(Error::Json(message)),
    }
}

proof fn lemma_stored_days_read_back(days: Seq<Weekday>, n: nat)
    requires
        n <= days.len(),
    ensures
        stored_days(day_names(days), n) == Ok::<Seq<Weekday>, Seq<char>>(days.take(n as int)),
    decreases n,
{
    if n == 0 {
        assert(days.take(0) =~= Seq::empty());
    } else {
        lemma_stored_days_read_back(days, (n - 1) as nat);
        schedule::short_names_stand_for_their_days(days[n - 1]);
        assert(day_names(days)[n - 1] == schedule::name_of_day(days[n - 1]));
        assert(days.take(n - 1).push(days[n - 1]) =~= days.take(n as int));
    }
}

/// A schedule that was stored is read back as it was.
pub proof fn stored_schedules_read_back(row: ScheduleRowModel, s: ScheduleModel)
    requires
        stores_schedule(row, s),
    ensures
        json_list_read(row.weekdays) == Ok::<Seq<Seq<char>>, Seq<char>>(day_names(s.weekdays)),
        row_schedule(row, day_names(s.weekdays)) == Ok::<ScheduleModel, Seq<char>>(s),
{
    lemma_stored_days_read_back(s.weekdays, s.weekdays.len());
    assert(s.weekdays.take(s.weekdays.len() as int) =~= s.weekdays);
    assert(day_names(s.weekdays).len() == s.weekdays.len());
}

/// Each urgency is stored under its own word, and a word that is none of them
/// counts as normal.
pub proof fn urgencies_have_their_words(urgency: Urgency, raw: Seq<char>)
    ensures
        urgency == Urgency::Low <==> urgency_word(urgency) == "low"@,
        urgency == Urgency::Normal <==> urgency_word(urgency) == "normal"@,
        urgency == Urgency::Critical <==> urgency_word(urgency) == "critical"@,
        urgency_read(raw) == Urgency::Low <==> raw == "low"@,
        urgency_read(raw) == Urgency::Critical <==> raw == "critical"@,
        decision_read(raw) == Some(Decision::Allow) <==> raw == "allow"@,
        decision_read(raw) == Some(Decision::Mute) <==> raw == "mute"@,
        decision_read(raw) == Some(Decision::Batch) <==> raw == "batch"@,
{
    reveal_strlit("low");
    reveal_strlit("normal");
    reveal_strlit("critical");
    reveal_strlit("allow");
    reveal_strlit("mute");
    reveal_strlit("batch");
    assert("low"@.len() == 3 && "normal"@.len() == 6 && "critical"@.len() == 8);
    assert("allow"@.len() == 5 && "mute"@.len() == 4 && "batch"@.len() == 5);
    assert("allow"@[0] == 'a' && "batch"@[0] == 'b');
}

/// An instant is cut to the millisecond it lies in.
pub proof fn instants_are_cut_to_their_millisecond(t: int)
    ensures
        to_whole_millis(t) <= t < to_whole_millis(t) + 1_000_000,
        to_whole_millis(t) % 1_000_000 == 0,
{
}

/// The rows of an entry hold its fields: the notification's under its id, and
/// what was decided about it under the same.
pub proof fn rows_hold_their_fields(
    e: HistoryModel,
    actions_json: Seq<char>,
    icon_json: Option<Seq<char>>,
)
    ensures
        ({
            let row = notification_row(e.notification, actions_json, icon_json);
            &&& row.id == e.notification.id
            &&& row.app_id == e.notification.source.app_id
            &&& row.app_display_name == e.notification.source.display_name
            &&& row.title == e.notification.title && row.body == e.notification.body
            &&& urgency_read(row.urgency) == e.notification.urgency
            &&& row.timestamp_millis * 1_000_000 <= e.notification.timestamp
                < (row.timestamp_millis + 1) * 1_000_000
            &&& row.actions_json == actions_json && row.icon_json == icon_json
        }),
        ({
            let row = decision_row(e);
            &&& row.notification_id == e.notification.id
            &&& decision_read(row.decision) == Some(e.decision)
            &&& row.rule_id == e.rule_id && row.reason == e.reason
            &&& row.decided_millis * 1_000_000 <= e.decided_at < (row.decided_millis + 1)
                * 1_000_000
        }),
{
    urgency_words_read_back(e.notification.urgency);
    decision_words_read_back(e.decision);
}

/// A stored word that is no decision, or none at all, counts as allowed; any other
/// is what it says.
pub proof fn undecided_entries_count_as_allowed(word: Seq<char>)
    ensures
        stored_decision(None) == Decision::Allow,
        stored_decision(Some(word)) == Decision::Mute <==> word == "mute"@,
        stored_decision(Some(word)) == Decision::Batch <==> word == "batch"@,
        decision_if_any(None) is None,
        decision_if_any(Some(word)) == Some(Decision::Allow) <==> word == "allow"@,
        decision_if_any(Some(word)) == Some(Decision::Mute) <==> word == "mute"@,
        decision_if_any(Some(word)) == Some(Decision::Batch) <==> word == "batch"@,
{
    urgencies_have_their_words(Urgency::Low, word);
}

/// What is read from a row is what stands in it: an entry is read where its mark is
/// not nought, one without a decision was allowed when it arrived, and without a
/// reason the reason is empty.
pub proof fn entries_say_what_their_row_says(
    row: NotificationRowModel,
    actions: Seq<ActionModel>,
    icon: Option<IconModel>,
    read: int,
    decision: Option<Seq<char>>,
    rule_id: Option<Seq<char>>,
    reason: Option<Seq<char>>,
    decided_millis: Option<int>,
    r: HistoryModel,
)
    requires
        reads_as(row, actions, icon, read, decision, rule_id, reason, decided_millis, r),
    ensures
        r.notification.id == row.id,
        r.notification.source.app_id == row.app_id,
        r.notification.source.display_name == row.app_display_name,
        r.notification.title == row.title && r.notification.body == row.body,
        r.notification.urgency == urgency_read(row.urgency),
        r.notification.actions == actions && r.notification.icon == icon,
        clock::reachable_millis(row.timestamp_millis) ==> r.notification.timestamp
            == row.timestamp_millis * 1_000_000,
        r.read <==> read != 0,
        decision is None ==> r.decision == Decision::Allow,
        decided_millis is None ==> r.decided_at == r.notification.timestamp,
        decided_millis matches Some(m) ==> clock::reachable_millis(m) ==> r.decided_at == m
            * 1_000_000,
        reason is None ==> r.reason.len() == 0,
        reason matches Some(t) ==> r.reason == t,
        r.rule_id == rule_id,
{
}

/// A schedule's row holds its fields: its days by their short names, in order, and
/// one or nought for whether it is on.
pub proof fn schedule_rows_hold_their_fields(row: ScheduleRowModel, s: ScheduleModel, k: int)
    requires
        stores_schedule(row, s),
    ensures
        row.id == s.id && row.name == s.name && row.profile == s.profile,
        row.enabled == 1 <==> s.enabled,
        row.enabled == 0 <==> !s.enabled,
        row.start_time == clock::shown_time(s.start_time),
        row.end_time == clock::shown_time(s.end_time),
        clock::time_read_nanos(row.start_time) == Some(s.start_time),
        clock::time_read_nanos(row.end_time) == Some(s.end_time),
        row.weekdays == quoted_list(day_names(s.weekdays)),
        day_names(s.weekdays).len() == s.weekdays.len(),
        0 <= k < s.weekdays.len() ==> day_names(s.weekdays)[k] == schedule::name_of_day(
            s.weekdays[k],
        ),
{
}

/// A stored day is read from its short name and from nothing else.
pub proof fn stored_days_go_by_short_names(name: Seq<char>, day: Weekday)
    ensures
        stored_day(name) == Some(day) <==> name == schedule::name_of_day(day),
{
    schedule::short_names_stand_for_their_days(day);
    if let Some(d) = stored_day(name) {
        schedule::short_names_stand_for_their_days(d);
    }
}

/// Stored days are read one by one, in order; the first that is none stops it.
pub proof fn stored_days_are_read_in_order(names: Seq<Seq<char>>, n: nat, k: int)
    requires
        n <= names.len(),
        0 <= k < n,
    ensures
        stored_days(names, n) matches Ok(days) ==> days.len() == n && stored_day(names[k]) == Some(
            days[k],
        ),
        stored_day(names[k]) is None && (forall|i: int|
            0 <= i < k ==> stored_day(#[trigger] names[i]) is Some) ==> stored_days(names, n)
            == Err::<Seq<Weekday>, Seq<char>>(names[k]),
        (forall|i: int| 0 <= i < n ==> stored_day(#[trigger] names[i]) is Some) ==> stored_days(
            names,
            n,
        ) is Ok,
    decreases n,
{
    if n > 1 {
        if k < n - 1 {
            stored_days_are_read_in_order(names, (n - 1) as nat, k);
        } else {
            stored_days_are_read_in_order(names, (n - 1) as nat, 0);
        }
    } else {
        assert(stored_days(names, 0) == Ok::<Seq<Weekday>, Seq<char>>(Seq::empty()));
    }
}

/// A schedule is read from its row where its days and both times are, and is what
/// stands there.
pub proof fn schedules_are_read_from_their_row(row: ScheduleRowModel, names: Seq<Seq<char>>)
    ensures
        row_schedule(row, names) is Ok <==> stored_days(names, names.len()) is Ok
            && clock::time_read_nanos(row.start_time) is Some && clock::time_read_nanos(
            row.end_time,
        ) is Some,
        row_schedule(row, names) matches Ok(s) ==> {
            &&& s.id == row.id && s.name == row.name && s.profile == row.profile
            &&& s.weekdays == stored_days(names, names.len())->Ok_0
            &&& Some(s.start_time) == clock::time_read_nanos(row.start_time)
            &&& Some(s.end_time) == clock::time_read_nanos(row.end_time)
            &&& s.enabled <==> row.enabled != 0
        },
{
}

} // verus!
