//! `tpt-focus history`: query and maintain the local notification history.
use vstd::prelude::*;
use crate::cli::effect::{around, one_line, Effect, EffectModel};
use crate::cli::print;
use crate::cli::print::{digest_line, history_header, history_line};
use crate::clock;
use crate::clock::{Span, Timestamp};
use crate::digest;
use crate::digest::{DigestGroup, GroupModel};
use crate::model;
use crate::model::NotificationId;
use crate::number;
use crate::number::decimal;
use crate::rules::Decision;
use crate::storage;
use crate::storage::{HistoryEntry, HistoryQuery, PruneReport, QueryModel, Retention};
use crate::text;
use crate::text::{same_text, to_ascii_lower, trim};

verus! {

broadcast use vstd::string::group_string_axioms;

/// What is asked of the history.
#[derive(Debug)]
pub enum HistoryArgs {
    /// Show recent notifications, newest first.
    List { filter: HistoryFilter, json: bool },
    /// Full-text search over notification titles and bodies.
    Search { query: String, filter: HistoryFilter, json: bool },
    /// Mark one notification read (or unread with `undo`).
    Read { id: String, undo: bool },
    /// Delete history older than / beyond the retention limits.
    Prune { max_age_days: Option<u64>, max_count: Option<u64> },
    /// Export the whole history (with decisions) as JSON.
    Export { file: String },
    /// Import a previously exported JSON file.
    Import { file: String },
    /// Delete every notification from history.
    Clear { yes: bool },
    /// Show a per-app digest of suppressed notifications.
    Digest { minutes: u64, json: bool },
}

/// Shared filter flags for listing and searching.
#[derive(Debug)]
pub struct HistoryFilter {
    /// Only notifications from this app (case-insensitive).
    pub app: Option<String>,
    /// Only notifications with this decision.
    pub decision: Option<String>,
    /// Only unread notifications.
    pub unread: bool,
    /// Maximum rows to print.
    pub limit: u32,
}

/// The decision that a typed word stands for.
pub open spec fn decision_typed(raw: Seq<char>) -> Option<Decision> {
    let word = text::ascii_lower(text::trimmed(raw));
    if word == "allow"@ || word == "show"@ {
        Some(Decision::Allow)
    } else if word == "mute"@ || word == "muted"@ {
        Some(Decision::Mute)
    } else if word == "batch"@ || word == "batched"@ {
        Some(Decision::Batch)
    } else {
        None
    }
}

/// The message that a typed word stands for no decision.
pub open spec fn unknown_decision(raw: Seq<char>) -> Seq<char> {
    "unknown decision `"@ + raw + "` (use allow, mute or batch)"@
}

/// The decision that a typed word stands for.
pub fn parse_decision(raw: &str) -> (r: Result<Decision, String>)
    ensures
        match decision_typed(raw@) {
            Some(d) => r is Ok && r->Ok_0 == d,
            None => r is Err && r->Err_0@ == unknown_decision(raw@),
        },
{
    let value = to_ascii_lower(trim(raw).as_str());
    let v = value.as_str();
    if same_text(v, "allow") || same_text(v, "show") {
        Ok(Decision::Allow)
    } else if same_text(v, "mute") || same_text(v, "muted") {
        Ok(Decision::Mute)
    } else if same_text(v, "batch") || same_text(v, "batched") {
        Ok(Decision::Batch)
    } else {
        Err(around("unknown decision `", raw, "` (use allow, mute or batch)"))
    }
}

/// The query that filter flags make, given the decision they name.
pub open spec fn query_typed(filter: HistoryFilter, decision: Option<Decision>) -> QueryModel {
    QueryModel {
        app: model::text_if_any(filter.app),
        decision,
        unread_only: filter.unread,
        limit: Some(filter.limit),
        ..storage::everything()
    }
}

/// The query that filter flags make.
pub fn build_query(filter: &HistoryFilter) -> (r: Result<HistoryQuery, String>)
    ensures
        match filter.decision {
            Some(raw) => match decision_typed(raw@) {
                Some(d) => r is Ok && r->Ok_0@ == query_typed(*filter, Some(d)),
                None => r is Err && r->Err_0@ == unknown_decision(raw@),
            },
            None => r is Ok && r->Ok_0@ == query_typed(*filter, None),
        },
{
    let mut query = HistoryQuery::new();
    if let Some(app) = &filter.app {
        query = query.with_app(app.as_str());
    }
    if let Some(raw) = &filter.decision {
        match parse_decision(raw.as_str()) {
            Ok(d) => {
                query = query.with_decision(d);
            },
            Err(message) => {
                return Err(message);
            },
        }
    }
    if filter.unread {
        query = query.unread_only();
    }
    Ok(query.with_limit(filter.limit))
}

/// The retention policy that a prune command asks for. One that sets no limit
/// is refused.
pub fn prune_retention(max_age_days: Option<u64>, max_count: Option<u64>) -> (r: Result<
    Retention,
    String,
>)
    ensures
        r is Ok <==> max_age_days is Some || max_count is Some,
        r matches Ok(retention) ==> retention.max_count == max_count && (
        retention.max_age is Some <==> max_age_days is Some) && (max_age_days is Some
            ==> retention.max_age->0@ == max_age_days->0 * 86_400 * clock::SECOND),
        r matches Err(message) ==> message@ == "pass --max-age-days and/or --max-count"@,
{
    if max_age_days.is_none() && max_count.is_none() {
        return Err("pass --max-age-days and/or --max-count".to_string());
    }
    let max_age = match max_age_days {
        Some(days) => Some(Span::from_days(days)),
        None => None,
    };
    Ok(Retention { max_age, max_count })
}

/// What is said after a prune run.
pub fn prune_line(report: &PruneReport) -> (r: String)
    requires
        report.removed_by_age + report.removed_by_count <= u64::MAX,
    ensures
        r@ == "pruned "@ + number::digits(
            (report.removed_by_age + report.removed_by_count) as nat,
        ) + " notifications ("@ + number::digits(report.removed_by_age as nat) + " by age, "@
            + number::digits(report.removed_by_count as nat) + " by count)"@,
{
    let mut out = "pruned ".to_string();
    out.append(decimal(report.total()).as_str());
    out.append(" notifications (");
    out.append(decimal(report.removed_by_age).as_str());
    out.append(" by age, ");
    out.append(decimal(report.removed_by_count).as_str());
    out.append(" by count)");
    out
}

/// `line` shows an entry: when the notification came in, on a calendar and clock
/// at some offset, and the rest of it.
pub open spec fn shows_entry(line: Seq<char>, entry: storage::HistoryModel) -> bool {
    exists|time: Seq<char>|
        clock::local_second(time, entry.notification.timestamp / clock::SECOND as int) && line
            == #[trigger] print::history_text(entry, time)
}

fn entry_lines(entries: &Vec<HistoryEntry>) -> (r: Vec<String>)
    ensures
        r@.len() == entries@.len(),
        forall|k: int| 0 <= k < r@.len() ==> shows_entry((#[trigger] r@[k])@, entries@[k]@),
{
    let mut lines: Vec<String> = Vec::new();
    let mut i: usize = 0;
    while i < entries.len()
        invariant
            i <= entries@.len(),
            lines@.len() == i,
            forall|k: int| 0 <= k < i ==> shows_entry((#[trigger] lines@[k])@, entries@[k]@),
        decreases entries@.len() - i,
    {
        lines.push(history_line(&entries[i]));
        i += 1;
    }
    lines
}

/// The lines of a history list: a header and one line for each entry, or that
/// nothing matched.
pub fn list_lines(entries: &Vec<HistoryEntry>) -> (r: Vec<String>)
    ensures
        entries@.len() == 0 ==> model::texts(r@) == seq!["no notifications matched"@],
        entries@.len() > 0 ==> r@.len() == entries@.len() + 1,
        entries@.len() > 0 ==> r@[0]@ == "   "@ + text::padded_right("TIME"@, 19) + "  "@
            + text::padded_right("OUT"@, 5) + "  "@ + text::padded_right("APP"@, 20) + "  "@
            + text::padded_right("TITLE"@, 40) + "  ID"@,
        entries@.len() > 0 ==> forall|k: int|
            1 <= k < r@.len() ==> shows_entry((#[trigger] r@[k])@, entries@[k - 1]@),
{
    if entries.len() == 0 {
        return one_line("no notifications matched".to_string());
    }
    let mut lines = entry_lines(entries);
    let ghost shown = lines@;
    lines.insert(0, history_header());
    assert forall|k: int| 1 <= k < lines@.len() implies shows_entry(
        (#[trigger] lines@[k])@,
        entries@[k - 1]@,
    ) by {
        assert(lines@[k] == shown[k - 1]);
    }
    lines
}

/// The lines of a search: one for each entry, or that nothing matched.
pub fn search_lines(query: &str, entries: &Vec<HistoryEntry>) -> (r: Vec<String>)
    ensures
        entries@.len() == 0 ==> model::texts(r@) == seq![
            "`"@ + query@ + "` did not match any notifications"@,
        ],
        entries@.len() > 0 ==> r@.len() == entries@.len(),
        entries@.len() > 0 ==> forall|k: int|
            0 <= k < r@.len() ==> shows_entry((#[trigger] r@[k])@, entries@[k]@),
{
    if entries.len() == 0 {
        return one_line(around("`", query, "` did not match any notifications"));
    }
    entry_lines(entries)
}

/// The instant from which a digest over the last minutes starts, at `now`.
pub fn digest_since(now: Timestamp, minutes: u64) -> (r: Timestamp)
    ensures
        clock::reachable(now@ - minutes * 60 * clock::SECOND) ==> r@ == now@ - minutes * 60
            * clock::SECOND,
        !clock::reachable(now@ - minutes * 60 * clock::SECOND) ==> r@ == clock::FIRST_SECOND
            * clock::SECOND,
{
    now.earlier_by(Span::from_minutes(minutes))
}

/// The lines of a digest over the last minutes.
pub open spec fn digest_text(groups: Seq<GroupModel>, minutes: u64) -> Seq<Seq<char>> {
    if groups.len() == 0 {
        seq![
            "nothing was suppressed in the last "@ + number::digits(minutes as nat) + " minutes"@,
        ]
    } else {
        groups.map_values(|g: GroupModel| print::group_text(g))
    }
}

/// The lines of a digest over the last minutes.
pub fn digest_lines(groups: &Vec<DigestGroup>, minutes: u64) -> (r: Vec<String>)
    ensures
        model::texts(r@) == digest_text(digest::group_models(groups@), minutes),
{
    if groups.len() == 0 {
        return one_line(
            around(
                "nothing was suppressed in the last ",
                decimal(minutes).as_str(),
                " minutes",
            ),
        );
    }
    let mut lines: Vec<String> = Vec::new();
    let mut i: usize = 0;
    while i < groups.len()
        invariant
            i <= groups@.len(),
            lines@.len() == i,
            forall|k: int|
                0 <= k < i ==> (#[trigger] lines@[k])@ == print::group_text(groups@[k]@),
        decreases groups@.len() - i,
    {
        lines.push(digest_line(&groups[i]));
        i += 1;
    }
    assert(model::texts(lines@) =~= digest_text(digest::group_models(groups@), minutes));
    lines
}

/// What is said after a notification was to be marked, given whether there was
/// one.
pub fn read_line(changed: bool) -> (r: Result<String, String>)
    ensures
        r is Ok <==> changed,
        r matches Ok(line) ==> line@ == "notification updated"@,
        r matches Err(message) ==> message@ == "no notification with that id"@,
{
    if changed {
        Ok("notification updated".to_string())
    } else {
        Err("no notification with that id".to_string())
    }
}

/// Whether the history may be cleared: only after it was confirmed.
pub fn check_clear(yes: bool) -> (r: Result<(), String>)
    ensures
        r is Ok <==> yes,
        r matches Err(message) ==> message@ == "refusing to clear history without --yes"@,
{
    if yes {
        Ok(())
    } else {
        Err("refusing to clear history without --yes".to_string())
    }
}

/// What is to be done with the stored history.
#[derive(Debug)]
pub enum HistoryStep {
    /// Read the entries that a query selects.
    Query(HistoryQuery),
    /// Read the entries that hold the terms of a search, among those that a
    /// query selects.
    Search(String, HistoryQuery),
    /// Mark a notification read or unread.
    SetRead(NotificationId, bool),
    /// Delete what a retention policy does not keep.
    Prune(Retention),
    /// Write everything to a file.
    Export(String),
    /// Take over what a file holds.
    Import(String),
    /// Delete everything.
    Clear,
    /// Read what was suppressed since an instant.
    Digest(Timestamp),
}

/// What a [`HistoryStep`] says.
pub enum StepModel {
    Query(QueryModel),
    Search(Seq<char>, QueryModel),
    SetRead(Seq<char>, bool),
    Prune { max_age: Option<int>, max_count: Option<u64> },
    Export(Seq<char>),
    Import(Seq<char>),
    Clear,
    Digest(int),
}

/// The length of a span that may be absent.
pub open spec fn span_if_any(span: Option<Span>) -> Option<int> {
    match span {
        Some(s) => Some(s@),
        None => None,
    }
}

impl View for HistoryStep {
    type V = StepModel;

    open spec fn view(&self) -> StepModel {
        match self {
            HistoryStep::Query(query) => StepModel::Query(query@),
            HistoryStep::Search(terms, query) => StepModel::Search(terms@, query@),
            HistoryStep::SetRead(id, read) => StepModel::SetRead(id@, *read),
            HistoryStep::Prune(retention) => StepModel::Prune {
                max_age: span_if_any(retention.max_age),
                max_count: retention.max_count,
            },
            HistoryStep::Export(file) => StepModel::Export(file@),
            HistoryStep::Import(file) => StepModel::Import(file@),
            HistoryStep::Clear => StepModel::Clear,
            HistoryStep::Digest(since) => StepModel::Digest(since@),
        }
    }
}

/// What a step, or the message in its place, says.
pub open spec fn step_of(r: Result<HistoryStep, String>) -> Result<StepModel, Seq<char>> {
    match r {
        Ok(step) => Ok(step@),
        Err(message) => Err(message@),
    }
}

/// The query that filter flags make, or what is wrong with them.
pub open spec fn filtered(filter: HistoryFilter) -> Result<QueryModel, Seq<char>> {
    match filter.decision {
        Some(raw) => match decision_typed(raw@) {
            Some(d) => Ok(query_typed(filter, Some(d))),
            None => Err(unknown_decision(raw@)),
        },
        None => Ok(query_typed(filter, None)),
    }
}

/// The instant from which a digest over the last minutes starts.
pub open spec fn digest_start(now: int, minutes: u64) -> int {
    if clock::reachable(now - minutes * 60 * clock::SECOND) {
        now - minutes * 60 * clock::SECOND
    } else {
        clock::FIRST_SECOND * clock::SECOND
    }
}

/// What a command does with the stored history, or why it is refused.
pub open spec fn planned(args: HistoryArgs, now: int) -> Result<StepModel, Seq<char>> {
    match args {
        HistoryArgs::List { filter, json } => match filtered(filter) {
            Ok(query) => Ok(StepModel::Query(query)),
            Err(message) => Err(message),
        },
        HistoryArgs::Search { query, filter, json } => match filtered(filter) {
            Ok(selected) => Ok(StepModel::Search(query@, selected)),
            Err(message) => Err(message),
        },
        HistoryArgs::Read { id, undo } => Ok(StepModel::SetRead(id@, !undo)),
        HistoryArgs::Prune { max_age_days, max_count } => if max_age_days is None && max_count
            is None {
            Err("pass --max-age-days and/or --max-count"@)
        } else {
            Ok(
                StepModel::Prune {
                    max_age: match max_age_days {
                        Some(days) => Some(days * 86_400 * clock::SECOND),
                        None => None,
                    },
                    max_count,
                },
            )
        },
        HistoryArgs::Export { file } => Ok(StepModel::Export(file@)),
        HistoryArgs::Import { file } => Ok(StepModel::Import(file@)),
        HistoryArgs::Clear { yes } => if yes {
            Ok(StepModel::Clear)
        } else {
            Err("refusing to clear history without --yes"@)
        },
        HistoryArgs::Digest { minutes, json } => Ok(StepModel::Digest(digest_start(now, minutes))),
    }
}

/// What a command does with the stored history at an instant, or why it is
/// refused.
pub fn plan(args: &HistoryArgs, now: Timestamp) -> (r: Result<HistoryStep, String>)
    ensures
        step_of(r) == planned(*args, now@),
{
    match args {
        HistoryArgs::List { filter, json: _ } => match build_query(filter) {
            Ok(query) => Ok(HistoryStep::Query(query)),
            Err(message) => Err(message),
        },
        HistoryArgs::Search { query, filter, json: _ } => match build_query(filter) {
            Ok(selected) => Ok(HistoryStep::Search(query.clone(), selected)),
            Err(message) => Err(message),
        },
        HistoryArgs::Read { id, undo } => Ok(
            HistoryStep::SetRead(NotificationId::from(id.clone()), !*undo),
        ),
        HistoryArgs::Prune { max_age_days, max_count } => match prune_retention(
            *max_age_days,
            *max_count,
        ) {
            Ok(retention) => Ok(HistoryStep::Prune(retention)),
            Err(message) => Err(message),
        },
        HistoryArgs::Export { file } => Ok(HistoryStep::Export(file.clone())),
        HistoryArgs::Import { file } => Ok(HistoryStep::Import(file.clone())),
        HistoryArgs::Clear { yes } => match check_clear(*yes) {
            Ok(()) => Ok(HistoryStep::Clear),
            Err(message) => Err(message),
        },
        HistoryArgs::Digest { minutes, json: _ } => Ok(
            HistoryStep::Digest(digest_since(now, *minutes)),
        ),
    }
}

/// What the stored history answered.
#[derive(Debug)]
pub enum HistoryReply {
    /// These entries were selected.
    Entries(Vec<HistoryEntry>),
    /// Whether there was such a notification.
    Marked(bool),
    /// So many were deleted.
    Pruned(PruneReport),
    /// Everything was written.
    Exported,
    /// So many were taken over.
    Imported(u64),
    /// So many were deleted.
    Cleared(u64),
    /// This was suppressed.
    Groups(Vec<DigestGroup>),
}

/// A reply is one to what a command asked for.
pub open spec fn answers(args: HistoryArgs, reply: HistoryReply) -> bool {
    match args {
        HistoryArgs::List { .. } => reply is Entries,
        HistoryArgs::Search { .. } => reply is Entries,
        HistoryArgs::Read { .. } => reply is Marked,
        HistoryArgs::Prune { .. } => match reply {
            HistoryReply::Pruned(report) => report.removed_by_age + report.removed_by_count
                <= u64::MAX,
            _ => false,
        },
        HistoryArgs::Export { .. } => reply is Exported,
        HistoryArgs::Import { .. } => reply is Imported,
        HistoryArgs::Clear { .. } => reply is Cleared,
        HistoryArgs::Digest { .. } => reply is Groups,
    }
}

/// These lines list history entries.
pub open spec fn lists(lines: Seq<Seq<char>>, entries: Seq<storage::HistoryModel>) -> bool {
    if entries.len() == 0 {
        lines == seq!["no notifications matched"@]
    } else {
        &&& lines.len() == entries.len() + 1
        &&& lines[0] == "   "@ + text::padded_right("TIME"@, 19) + "  "@ + text::padded_right(
            "OUT"@,
            5,
        ) + "  "@ + text::padded_right("APP"@, 20) + "  "@ + text::padded_right("TITLE"@, 40)
            + "  ID"@
        &&& forall|k: int|
            1 <= k < lines.len() ==> shows_entry(#[trigger] lines[k], entries[k - 1])
    }
}

/// These lines show what a search found.
pub open spec fn finds(
    lines: Seq<Seq<char>>,
    query: Seq<char>,
    entries: Seq<storage::HistoryModel>,
) -> bool {
    if entries.len() == 0 {
        lines == seq!["`"@ + query + "` did not match any notifications"@]
    } else {
        &&& lines.len() == entries.len()
        &&& forall|k: int| 0 <= k < lines.len() ==> shows_entry(#[trigger] lines[k], entries[k])
    }
}

/// What is said after a prune run.
pub open spec fn prune_text(report: PruneReport) -> Seq<char> {
    "pruned "@ + number::digits((report.removed_by_age + report.removed_by_count) as nat)
        + " notifications ("@ + number::digits(report.removed_by_age as nat) + " by age, "@
        + number::digits(report.removed_by_count as nat) + " by count)"@
}

/// `said` is what a command says after a reply.
pub open spec fn reported(
    args: HistoryArgs,
    reply: HistoryReply,
    said: Result<EffectModel, Seq<char>>,
) -> bool {
    match (args, reply) {
        (HistoryArgs::List { filter, json }, HistoryReply::Entries(entries)) => if json {
            said == Ok::<EffectModel, Seq<char>>(EffectModel::PrintJson)
        } else {
            match said {
                Ok(EffectModel::Print(lines)) => lists(lines, storage::history_models(entries@)),
                _ => false,
            }
        },
        (HistoryArgs::Search { query, filter, json }, HistoryReply::Entries(entries)) => if json {
            said == Ok::<EffectModel, Seq<char>>(EffectModel::PrintJson)
        } else {
            match said {
                Ok(EffectModel::Print(lines)) => finds(
                    lines,
                    query@,
                    storage::history_models(entries@),
                ),
                _ => false,
            }
        },
        (HistoryArgs::Read { .. }, HistoryReply::Marked(found)) => said == (if found {
            Ok::<EffectModel, Seq<char>>(EffectModel::Print(seq!["notification updated"@]))
        } else {
            Err::<EffectModel, Seq<char>>("no notification with that id"@)
        }),
        (HistoryArgs::Prune { .. }, HistoryReply::Pruned(report)) => said == Ok::<
            EffectModel,
            Seq<char>,
        >(EffectModel::Print(seq![prune_text(report)])),
        (HistoryArgs::Export { file }, HistoryReply::Exported) => said == Ok::<
            EffectModel,
            Seq<char>,
        >(EffectModel::Print(seq!["history exported to "@ + file@])),
        (HistoryArgs::Import { .. }, HistoryReply::Imported(n)) => said == Ok::<
            EffectModel,
            Seq<char>,
        >(
            EffectModel::Print(
                seq!["imported "@ + number::digits(n as nat) + " notifications"@],
            ),
        ),
        (HistoryArgs::Clear { .. }, HistoryReply::Cleared(n)) => said == Ok::<
            EffectModel,
            Seq<char>,
        >(EffectModel::Print(seq!["deleted "@ + number::digits(n as nat) + " notifications"@])),
        (HistoryArgs::Digest { minutes, json }, HistoryReply::Groups(groups)) => said == Ok::<
            EffectModel,
            Seq<char>,
        >(
            if json {
                EffectModel::PrintJson
            } else {
                EffectModel::Print(digest_text(digest::group_models(groups@), minutes))
            },
        ),
        _ => false,
    }
}

/// What a command that may have failed says.
pub open spec fn said_of(r: Result<Effect, String>) -> Result<EffectModel, Seq<char>> {
    match r {
        Ok(effect) => Ok(effect@),
        Err(message) => Err(message@),
    }
}

/// What a command says after the stored history answered.
pub fn report(args: &HistoryArgs, reply: &HistoryReply) -> (r: Result<Effect, String>)
    requires
        answers(*args, *reply),
    ensures
        reported(*args, *reply, said_of(r)),
{
    match (args, reply) {
        (HistoryArgs::List { filter: _, json }, HistoryReply::Entries(entries)) => {
            if *json {
                return Ok(Effect::PrintJson);
            }
            let lines = list_lines(entries);
            proof {
                let shown = model::texts(lines@);
                let models = storage::history_models(entries@);
                if models.len() > 0 {
                    assert forall|k: int| 1 <= k < shown.len() implies shows_entry(
                        #[trigger] shown[k],
                        models[k - 1],
                    ) by {
                        assert(shown[k] == lines@[k]@);
                    }
                }
                assert(lists(shown, models));
            }
            Ok(Effect::Print(lines))
        },
        (HistoryArgs::Search { query, filter: _, json }, HistoryReply::Entries(entries)) => {
            if *json {
                return Ok(Effect::PrintJson);
            }
            let lines = search_lines(query.as_str(), entries);
            proof {
                let shown = model::texts(lines@);
                let models = storage::history_models(entries@);
                if models.len() > 0 {
                    assert forall|k: int| 0 <= k < shown.len() implies shows_entry(
                        #[trigger] shown[k],
                        models[k],
                    ) by {
                        assert(shown[k] == lines@[k]@);
                    }
                }
                assert(finds(shown, query@, models));
            }
            Ok(Effect::Print(lines))
        },
        (HistoryArgs::Read { .. }, HistoryReply::Marked(found)) => match read_line(*found) {
            Ok(line) => Ok(Effect::Print(one_line(line))),
            Err(message) => Err(message),
        },
        (HistoryArgs::Prune { .. }, HistoryReply::Pruned(report)) => Ok(
            Effect::Print(one_line(prune_line(report))),
        ),
        (HistoryArgs::Export { file }, HistoryReply::Exported) => {
            let mut line = "history exported to ".to_string();
            line.append(file.as_str());
            Ok(Effect::Print(one_line(line)))
        },
        (HistoryArgs::Import { .. }, HistoryReply::Imported(n)) => Ok(
            Effect::Print(
                one_line(around("imported ", decimal(*n).as_str(), " notifications")),
            ),
        ),
        (HistoryArgs::Clear { .. }, HistoryReply::Cleared(n)) => Ok(
            Effect::Print(one_line(around("deleted ", decimal(*n).as_str(), " notifications"))),
        ),
        (HistoryArgs::Digest { minutes, json }, HistoryReply::Groups(groups)) => if *json {
            Ok(Effect::PrintJson)
        } else {
            Ok(Effect::Print(digest_lines(groups, *minutes)))
        },
        _ => {
            assert(false);
            Ok(Effect::PrintJson)
        },
    }
}

/// Nothing is deleted or changed unless the command says so: listing, searching
/// and the digest only read, pruning takes a limit, and clearing takes a
/// confirmation.
pub proof fn reading_commands_only_read(args: HistoryArgs, now: int)
    requires
        planned(args, now) is Ok,
    ensures
        (args is List || args is Search || args is Digest) ==> (planned(args, now)->Ok_0 is Query
            || planned(args, now)->Ok_0 is Search || planned(args, now)->Ok_0 is Digest),
        planned(args, now)->Ok_0 is Clear ==> (args matches HistoryArgs::Clear { yes } && yes),
        planned(args, now)->Ok_0 is Prune ==> (args matches HistoryArgs::Prune {
            max_age_days,
            max_count,
        } && (max_age_days is Some || max_count is Some)),
{
}

/// A typed decision is read from its word or from the word that the list shows,
/// in any case and with white space around it, and from nothing else.
pub proof fn decisions_are_read_from_their_words(raw: Seq<char>)
    ensures
        ({
            let word = text::ascii_lower(text::trimmed(raw));
            &&& decision_typed(raw) == Some(Decision::Allow) <==> (word == "allow"@ || word
                == "show"@)
            &&& decision_typed(raw) == Some(Decision::Mute) <==> (word == "mute"@ || word
                == "muted"@)
            &&& decision_typed(raw) == Some(Decision::Batch) <==> (word == "batch"@ || word
                == "batched"@)
        }),
{
    reveal_strlit("allow");
    reveal_strlit("show");
    reveal_strlit("mute");
    reveal_strlit("muted");
    reveal_strlit("batch");
    reveal_strlit("batched");
    assert("allow"@[0] == 'a' && "show"@[0] == 's' && "mute"@[0] == 'm' && "muted"@[0] == 'm');
    assert("batch"@[0] == 'b' && "batched"@[0] == 'b');
}

/// The filter flags ask for what they say, and for nothing that was not asked:
/// no instant bounds the query, and it is refused only for a decision that is
/// none.
pub proof fn filters_ask_for_what_they_say(filter: HistoryFilter)
    ensures
        filtered(filter) is Err <==> filter.decision is Some && decision_typed(filter.decision->0@)
            is None,
        filtered(filter) matches Ok(q) ==> {
            &&& filter.app is None <==> q.app is None
            &&& filter.app matches Some(app) ==> q.app == Some(app@)
            &&& filter.decision is None <==> q.decision is None
            &&& filter.decision matches Some(raw) ==> q.decision == decision_typed(raw@)
            &&& q.unread_only == filter.unread
            &&& q.limit == Some(filter.limit)
            &&& q.since is None && q.until is None
        },
{
}

/// A digest over some minutes starts that long ago, as far as the calendar goes
/// back.
pub proof fn digests_start_minutes_ago(now: int, minutes: u64)
    requires
        clock::reachable(now),
    ensures
        clock::reachable(digest_start(now, minutes)),
        digest_start(now, minutes) <= now,
        digest_start(now, minutes) >= now - minutes * 60_000_000_000,
        clock::reachable(now - minutes * 60_000_000_000) ==> digest_start(now, minutes) == now
            - minutes * 60_000_000_000,
{
    assert(minutes * 60 * clock::SECOND == minutes * 60_000_000_000) by (nonlinear_arith)
        requires
            clock::SECOND == 1_000_000_000,
    ;
    assert(minutes * 60_000_000_000 >= 0) by (nonlinear_arith);
}

/// Commands do what they say: marking sets the read mark and `undo` takes it
/// away, pruning goes by the given limits in days and in number, clearing is
/// refused without a confirmation, and every command is about what was named.
pub proof fn commands_do_what_they_say(
    id: String,
    file: String,
    days: Option<u64>,
    count: Option<u64>,
    now: int,
)
    ensures
        planned(HistoryArgs::Read { id, undo: false }, now) == Ok::<StepModel, Seq<char>>(
            StepModel::SetRead(id@, true),
        ),
        planned(HistoryArgs::Read { id, undo: true }, now) == Ok::<StepModel, Seq<char>>(
            StepModel::SetRead(id@, false),
        ),
        planned(HistoryArgs::Clear { yes: true }, now) == Ok::<StepModel, Seq<char>>(
            StepModel::Clear,
        ),
        planned(HistoryArgs::Clear { yes: false }, now) is Err,
        planned(HistoryArgs::Export { file }, now) == Ok::<StepModel, Seq<char>>(
            StepModel::Export(file@),
        ),
        planned(HistoryArgs::Import { file }, now) == Ok::<StepModel, Seq<char>>(
            StepModel::Import(file@),
        ),
        planned(HistoryArgs::Prune { max_age_days: days, max_count: count }, now) is Err <==> days
            is None && count is None,
        planned(HistoryArgs::Prune { max_age_days: days, max_count: count }, now) matches Ok(step)
            ==> {
            &&& step is Prune
            &&& step->max_count == count
            &&& days is None <==> step->max_age is None
            &&& days matches Some(d) ==> step->max_age == Some(d * 86_400_000_000_000)
        },
{
    if let Some(d) = days {
        assert(d * 86_400 * clock::SECOND == d * 86_400_000_000_000) by (nonlinear_arith)
            requires
                clock::SECOND == 1_000_000_000,
        ;
    }
}

/// Listing and searching ask for what their filter asks; a search carries its
/// words along, and a filter that is refused stops both.
pub proof fn lists_and_searches_use_their_filter(
    query: String,
    filter: HistoryFilter,
    json: bool,
    now: int,
)
    ensures
        filtered(filter) matches Ok(q) ==> {
            &&& planned(HistoryArgs::List { filter, json }, now) == Ok::<StepModel, Seq<char>>(
                StepModel::Query(q),
            )
            &&& planned(HistoryArgs::Search { query, filter, json }, now) == Ok::<
                StepModel,
                Seq<char>,
            >(StepModel::Search(query@, q))
        },
        filtered(filter) is Err ==> planned(HistoryArgs::List { filter, json }, now) is Err
            && planned(HistoryArgs::Search { query, filter, json }, now) is Err,
{
}

/// What a digest over some minutes says: a line for each group, in order, or that
/// nothing was suppressed.
pub proof fn digests_show_every_group(groups: Seq<GroupModel>, minutes: u64, k: int)
    ensures
        groups.len() == 0 ==> digest_text(groups, minutes) == seq![
            "nothing was suppressed in the last "@ + number::digits(minutes as nat) + " minutes"@,
        ],
        groups.len() > 0 ==> digest_text(groups, minutes).len() == groups.len(),
        0 <= k < groups.len() ==> digest_text(groups, minutes)[k] == print::group_text(groups[k]),
{
}

/// A line that shows an entry carries a star exactly where it is unread, and ends
/// with the id.
pub proof fn shown_entries_can_be_told_apart(line: Seq<char>, entry: storage::HistoryModel)
    requires
        shows_entry(line, entry),
    ensures
        line[0] == '*' <==> !entry.read,
        line.skip(line.len() - entry.notification.id.len()) == entry.notification.id,
        exists|time: Seq<char>|
            #[trigger] clock::local_second(time, entry.notification.timestamp / 1_000_000_000)
                && line.subrange(2, 2 + time.len() as int) == time,
{
    let time = choose|time: Seq<char>|
        clock::local_second(time, entry.notification.timestamp / clock::SECOND as int) && line
            == #[trigger] print::history_text(entry, time);
    print::unread_entries_have_a_star(entry, time);
    assert(clock::local_second(time, entry.notification.timestamp / 1_000_000_000));
}

/// A list shows every entry below its header and a search every entry it found, in
/// order; where there is none one line says so.
pub proof fn lists_show_every_entry(
    lines: Seq<Seq<char>>,
    query: Seq<char>,
    entries: Seq<storage::HistoryModel>,
    k: int,
)
    ensures
        lists(lines, entries) && entries.len() > 0 ==> lines.len() == entries.len() + 1 && (0 <= k
            < entries.len() ==> shows_entry(lines[k + 1], entries[k])),
        lists(lines, entries) && entries.len() == 0 ==> lines == seq!["no notifications matched"@],
        finds(lines, query, entries) && entries.len() > 0 ==> lines.len() == entries.len() && (0
            <= k < entries.len() ==> shows_entry(lines[k], entries[k])),
        finds(lines, query, entries) && entries.len() == 0 ==> lines == seq![
            "`"@ + query + "` did not match any notifications"@,
        ],
{
    if lists(lines, entries) && 0 <= k < entries.len() {
        assert(shows_entry(lines[k + 1], entries[k + 1 - 1]));
    }
}

/// What is said after a reply goes by the reply: a notification that was not there
/// is an error, and what was removed, taken over or deleted is counted.
pub proof fn replies_are_reported(
    args: HistoryArgs,
    reply: HistoryReply,
    said: Result<EffectModel, Seq<char>>,
)
    requires
        reported(args, reply, said),
    ensures
        reply matches HistoryReply::Marked(found) ==> (said is Ok <==> found),
        !(reply is Marked) ==> said is Ok,
        reply matches HistoryReply::Imported(n) ==> said->Ok_0 == EffectModel::Print(
            seq!["imported "@ + number::digits(n as nat) + " notifications"@],
        ),
        reply matches HistoryReply::Cleared(n) ==> said->Ok_0 == EffectModel::Print(
            seq!["deleted "@ + number::digits(n as nat) + " notifications"@],
        ),
        reply matches HistoryReply::Pruned(report) ==> said->Ok_0 == EffectModel::Print(
            seq![
                "pruned "@ + number::digits(
                    (report.removed_by_age + report.removed_by_count) as nat,
                ) + " notifications ("@ + number::digits(report.removed_by_age as nat)
                    + " by age, "@ + number::digits(report.removed_by_count as nat)
                    + " by count)"@,
            ],
        ),
        args matches HistoryArgs::List { filter, json } ==> (json <==> said->Ok_0 is PrintJson),
        args matches HistoryArgs::Search { query, filter, json } ==> (json <==> said->Ok_0
            is PrintJson),
        args matches HistoryArgs::Digest { minutes, json } ==> (json <==> said->Ok_0 is PrintJson),
        args matches HistoryArgs::Export { file } ==> said->Ok_0 == EffectModel::Print(
            seq!["history exported to "@ + file@],
        ),
{
}

} // verus!
