//! Lines of output shared by the commands.
use vstd::prelude::*;
use crate::clock;
use crate::clock::{Timestamp, Weekday};
use crate::digest::{DigestGroup, GroupModel};
use crate::model;
use crate::model::Urgency;
use crate::number;
use crate::number::{decimal, signed_decimal};
use crate::profile::{FocusProfile, ProfileModel};
use crate::rules;
use crate::rules::{Condition, ConditionModel, Decision, MatchMode, Rule, RuleModel};
use crate::schedule::{Schedule, ScheduleModel};
use crate::storage::{HistoryEntry, HistoryModel};
use crate::text;
use crate::text::{chars_of, join, pad_left, pad_right, text_range, truncate};
use chrono::{DateTime, Local};

verus! {

broadcast use vstd::string::group_string_axioms;

/// The label of a day.
pub open spec fn day_label(day: Weekday) -> Seq<char> {
    match day {
        Weekday::Mon => "Mon"@,
        Weekday::Tue => "Tue"@,
        Weekday::Wed => "Wed"@,
        Weekday::Thu => "Thu"@,
        Weekday::Fri => "Fri"@,
        Weekday::Sat => "Sat"@,
        Weekday::Sun => "Sun"@,
    }
}

/// The label of a day.
pub fn weekday_label(day: Weekday) -> (r: &'static str)
    ensures
        r@ == day_label(day),
{
    match day {
        Weekday::Mon => "Mon",
        Weekday::Tue => "Tue",
        Weekday::Wed => "Wed",
        Weekday::Thu => "Thu",
        Weekday::Fri => "Fri",
        Weekday::Sat => "Sat",
        Weekday::Sun => "Sun",
    }
}

/// The label of an urgency.
pub open spec fn level_label(urgency: Urgency) -> Seq<char> {
    match urgency {
        Urgency::Low => "Low"@,
        Urgency::Normal => "Normal"@,
        Urgency::Critical => "Critical"@,
    }
}

/// The label of an urgency.
pub fn urgency_label(urgency: Urgency) -> (r: &'static str)
    ensures
        r@ == level_label(urgency),
{
    match urgency {
        Urgency::Low => "Low",
        Urgency::Normal => "Normal",
        Urgency::Critical => "Critical",
    }
}

/// The labels of a list of days, or that it is every day.
pub open spec fn days_text(days: Seq<Weekday>) -> Seq<char> {
    if days.len() == 0 {
        "every day"@
    } else {
        text::joined(days.map_values(|d: Weekday| day_label(d)), ","@)
    }
}

/// The labels of a list of days, or that it is every day.
pub fn days_label(days: &Vec<Weekday>) -> (r: String)
    ensures
        r@ == days_text(days@),
{
    if days.len() == 0 {
        return "every day".to_string();
    }
    let mut parts: Vec<String> = Vec::new();
    let mut i: usize = 0;
    while i < days.len()
        invariant
            i <= days@.len(),
            parts@.len() == i,
            forall|k: int| 0 <= k < i ==> (#[trigger] parts@[k])@ == day_label(days@[k]),
        decreases days@.len() - i,
    {
        parts.push(weekday_label(days[i]).to_string());
        i += 1;
    }
    assert(parts@.map_values(|t: String| t@) =~= days@.map_values(|d: Weekday| day_label(d)));
    join(&parts, ",")
}

/// A condition as shown.
pub open spec fn condition_text(condition: ConditionModel) -> Seq<char> {
    match condition {
        ConditionModel::App { apps } => "app in ["@ + text::joined(apps, ", "@) + "]"@,
        ConditionModel::Fullscreen { equals } => if equals {
            "fullscreen"@
        } else {
            "not fullscreen"@
        },
        ConditionModel::Profile { profiles } => "profile in ["@ + text::joined(profiles, ", "@)
            + "]"@,
        ConditionModel::TimeOfDay { start, end, weekdays } => "time "@ + clock::shown_time(start) + "-"@
            + clock::shown_time(end) + " "@ + days_text(weekdays),
        ConditionModel::Urgency { urgencies } => "urgency in ["@ + text::joined(
            urgencies.map_values(|u: Urgency| level_label(u)),
            ","@,
        ) + "]"@,
    }
}

fn listed(before: &str, list: &Vec<String>, sep: &str) -> (r: String)
    ensures
        r@ == before@ + text::joined(model::texts(list@), sep@) + "]"@,
{
    let mut out = before.to_string();
    out.append(join(list, sep).as_str());
    out.append("]");
    out
}

/// A condition as shown.
pub fn condition_label(condition: &Condition) -> (r: String)
    ensures
        r@ == condition_text(condition@),
{
    match condition {
        Condition::App { apps } => listed("app in [", apps, ", "),
        Condition::Fullscreen { equals } => {
            if *equals {
                "fullscreen".to_string()
            } else {
                "not fullscreen".to_string()
            }
        },
        Condition::Profile { profiles } => listed("profile in [", profiles, ", "),
        Condition::TimeOfDay { start, end, weekdays } => {
            let mut out = "time ".to_string();
            out.append(start.to_text().as_str());
            out.append("-");
            out.append(end.to_text().as_str());
            out.append(" ");
            out.append(days_label(weekdays).as_str());
            out
        },
        Condition::Urgency { urgencies } => {
            let mut parts: Vec<String> = Vec::new();
            let mut i: usize = 0;
            while i < urgencies.len()
                invariant
                    i <= urgencies@.len(),
                    parts@.len() == i,
                    forall|k: int|
                        0 <= k < i ==> (#[trigger] parts@[k])@ == level_label(urgencies@[k]),
                decreases urgencies@.len() - i,
            {
                parts.push(urgency_label(urgencies[i]).to_string());
                i += 1;
            }
            assert(model::texts(parts@) =~= urgencies@.map_values(|u: Urgency| level_label(u)));
            listed("urgency in [", &parts, ",")
        },
    }
}

/// The conditions of a rule as shown.
pub open spec fn conditions_text(rule: RuleModel) -> Seq<char> {
    if rule.conditions.len() == 0 {
        "always"@
    } else {
        text::joined(
            rule.conditions.map_values(|c: ConditionModel| condition_text(c)),
            if rule.match_mode == MatchMode::Any {
                " OR "@
            } else {
                " AND "@
            },
        )
    }
}

/// What is said behind a thing that is switched off.
pub open spec fn status_text(enabled: bool) -> Seq<char> {
    if enabled {
        ""@
    } else {
        " [disabled]"@
    }
}

fn status_label(enabled: bool) -> (r: &'static str)
    ensures
        r@ == status_text(enabled),
{
    if enabled {
        ""
    } else {
        " [disabled]"
    }
}

/// The line for a rule.
pub open spec fn rule_text(rule: RuleModel) -> Seq<char> {
    text::padded_right(rule.id, 28) + " "@ + text::padded_right(
        rules::decision_word(rule.action),
        6,
    ) + " "@ + text::padded_left(number::signed_digits(rule.priority), 3) + "  "@
        + text::padded_right(conditions_text(rule), 45) + " "@ + rule.name + status_text(
        rule.enabled,
    )
}

/// The line for a rule.
pub fn rule_line(rule: &Rule) -> (r: String)
    ensures
        r@ == rule_text(rule@),
{
    let conditions = if rule.conditions.len() == 0 {
        "always".to_string()
    } else {
        let mut parts: Vec<String> = Vec::new();
        let mut i: usize = 0;
        while i < rule.conditions.len()
            invariant
                i <= rule.conditions@.len(),
                parts@.len() == i,
                forall|k: int|
                    0 <= k < i ==> (#[trigger] parts@[k])@ == condition_text(rule.conditions@[k]@),
            decreases rule.conditions@.len() - i,
        {
            parts.push(condition_label(&rule.conditions[i]));
            i += 1;
        }
        assert(parts@.map_values(|t: String| t@) =~= rule@.conditions.map_values(
            |c: ConditionModel| condition_text(c),
        ));
        let sep = match rule.match_mode {
            MatchMode::Any => " OR ",
            MatchMode::All => " AND ",
        };
        join(&parts, sep)
    };
    assert(conditions@ == conditions_text(rule@));
    let mut out = pad_right(rule.id.as_str(), 28);
    out.append(" ");
    out.append(pad_right(rule.action.as_str(), 6).as_str());
    out.append(" ");
    out.append(pad_left(signed_decimal(rule.priority as i64).as_str(), 3).as_str());
    out.append("  ");
    out.append(pad_right(conditions.as_str(), 45).as_str());
    out.append(" ");
    out.append(rule.name.as_str());
    out.append(status_label(rule.enabled));
    out
}

/// The line above a list of rules.
pub fn rule_header() -> (r: String)
    ensures
        r@ == text::padded_right("ID"@, 28) + " "@ + text::padded_right("ACTION"@, 6) + " "@
            + text::padded_left("PRI"@, 3) + "  "@ + text::padded_right("CONDITIONS"@, 45)
            + "  NAME"@,
{
    let mut out = pad_right("ID", 28);
    out.append(" ");
    out.append(pad_right("ACTION", 6).as_str());
    out.append(" ");
    out.append(pad_left("PRI", 3).as_str());
    out.append("  ");
    out.append(pad_right("CONDITIONS", 45).as_str());
    out.append("  NAME");
    out
}

/// The line for a profile.
pub open spec fn profile_text(profile: ProfileModel) -> Seq<char> {
    "  "@ + text::padded_right(profile.name, 24) + " default: "@ + text::padded_right(
        match profile.default_decision {
            Some(d) => rules::decision_word(d),
            None => "global default"@,
        },
        16,
    ) + " "@ + (match profile.description {
        Some(d) => d,
        None => ""@,
    })
}

/// The line for a profile.
pub fn profile_line(profile: &FocusProfile) -> (r: String)
    ensures
        r@ == profile_text(profile@),
{
    let default = match profile.default_decision {
        Some(d) => d.as_str(),
        None => "global default",
    };
    let mut out = "  ".to_string();
    out.append(pad_right(profile.name.as_str(), 24).as_str());
    out.append(" default: ");
    out.append(pad_right(default, 16).as_str());
    out.append(" ");
    match &profile.description {
        Some(d) => {
            out.append(d.as_str());
        },
        None => {
            out.append("");
        },
    }
    out
}

/// The line for a schedule.
pub open spec fn schedule_text(schedule: ScheduleModel) -> Seq<char> {
    text::padded_right(schedule.id, 20) + " "@ + clock::shown_time(schedule.start_time) + "-"@
        + clock::shown_time(schedule.end_time) + " "@ + text::padded_right(
        days_text(schedule.weekdays),
        45,
    ) + " profile: "@ + (match schedule.profile {
        Some(p) => p,
        None => ""@,
    }) + status_text(schedule.enabled)
}

/// The line for a schedule.
pub fn schedule_line(schedule: &Schedule) -> (r: String)
    ensures
        r@ == schedule_text(schedule@),
{
    let mut out = pad_right(schedule.id.as_str(), 20);
    out.append(" ");
    out.append(schedule.start_time.to_text().as_str());
    out.append("-");
    out.append(schedule.end_time.to_text().as_str());
    out.append(" ");
    out.append(pad_right(days_label(&schedule.weekdays).as_str(), 45).as_str());
    out.append(" profile: ");
    match &schedule.profile {
        Some(p) => {
            out.append(p.as_str());
        },
        None => {
            out.append("");
        },
    }
    out.append(status_label(schedule.enabled));
    out
}

/// The word for what became of a notification.
pub open spec fn mark_text(decision: Decision) -> Seq<char> {
    match decision {
        Decision::Allow => "show"@,
        Decision::Mute => "muted"@,
        Decision::Batch => "batch"@,
    }
}

/// The word for what became of a notification.
pub fn decision_mark(decision: Decision) -> (r: &'static str)
    ensures
        r@ == mark_text(decision),
{
    match decision {
        Decision::Allow => "show",
        Decision::Mute => "muted",
        Decision::Batch => "batch",
    }
}

/// A title as the history shows it: one of more than 40 characters is cut to 37
/// and three dots.
pub open spec fn title_shown(title: Seq<char>) -> Seq<char> {
    if title.len() > 40 {
        title.take(37) + "..."@
    } else {
        title
    }
}

fn shown_title(title: &str) -> (r: String)
    ensures
        r@ == title_shown(title@),
{
    let chars = chars_of(title);
    if chars.len() > 40 {
        let mut out = text_range(&chars, 0, 37);
        assert(out@ =~= title@.take(37));
        out.append("...");
        out
    } else {
        title.to_string()
    }
}

/// The line for a history entry, given its instant as shown.
pub open spec fn history_text(entry: HistoryModel, time: Seq<char>) -> Seq<char> {
    let source = entry.notification.source;
    (if entry.read {
        " "@
    } else {
        "*"@
    }) + " "@ + time + "  "@ + text::padded_right(mark_text(entry.decision), 5) + "  "@
        + text::padded_right(
        text::shortened(
            match source.display_name {
                Some(name) => name,
                None => source.app_id,
            },
            20,
        ),
        20,
    ) + "  "@ + text::padded_right(
        text::shortened(title_shown(entry.notification.title), 40),
        40,
    ) + "  "@ + entry.notification.id
}

/// The line for a history entry, given its instant as shown.
pub fn history_line_at(entry: &HistoryEntry, time: &str) -> (r: String)
    ensures
        r@ == history_text(entry@, time@),
{
    let notification = &entry.notification;
    let app = match &notification.source.display_name {
        Some(name) => name.as_str(),
        None => notification.source.app_id.as_str(),
    };
    let title = shown_title(notification.title.as_str());
    let mut out = (if entry.read {
        " "
    } else {
        "*"
    }).to_string();
    out.append(" ");
    out.append(time);
    out.append("  ");
    out.append(pad_right(decision_mark(entry.decision), 5).as_str());
    out.append("  ");
    out.append(pad_right(truncate(app, 20).as_str(), 20).as_str());
    out.append("  ");
    out.append(pad_right(truncate(title.as_str(), 40).as_str(), 40).as_str());
    out.append("  ");
    out.append(notification.id.as_str());
    out
}

/// `chrono`'s `DateTime::format` in `chrono::Local`, for two patterns that it
/// takes: the date and the time to the second, or the month to the minute, of the
/// instant at one offset from universal time. Which offset depends on the
/// machine's time zone and is left open.
#[verifier::external_body]
fn format_local(secs: i64, nanos: u32, pattern: &str) -> (r: String)
    requires
        clock::FIRST_SECOND <= secs <= clock::LAST_SECOND,
        nanos < 1_000_000_000,
        pattern@ == "%Y-%m-%d %H:%M:%S"@ || pattern@ == "%m-%d %H:%M"@,
    ensures
        pattern@ == "%Y-%m-%d %H:%M:%S"@ ==> clock::local_second(r@, secs as int),
        pattern@ == "%m-%d %H:%M"@ ==> clock::local_minute(r@, secs as int),
{
    DateTime::from_timestamp(secs, nanos).unwrap().with_timezone(&Local).format(pattern).to_string()
}

/// An instant on this machine's calendar and clock, to the second.
pub fn local_stamp(at: Timestamp) -> (r: String)
    ensures
        clock::local_second(r@, at@ / clock::SECOND as int),
{
    format_local(at.seconds(), at.subsecond_nanos(), "%Y-%m-%d %H:%M:%S")
}

/// An instant on this machine's calendar and clock, month to minute.
pub fn short_local_stamp(at: Timestamp) -> (r: String)
    ensures
        clock::local_minute(r@, at@ / clock::SECOND as int),
{
    format_local(at.seconds(), at.subsecond_nanos(), "%m-%d %H:%M")
}

/// The line for a history entry, its instant shown on this machine's calendar
/// and clock.
pub fn history_line(entry: &HistoryEntry) -> (r: String)
    ensures
        exists|time: Seq<char>|
            clock::local_second(time, entry@.notification.timestamp / clock::SECOND as int) && r@
                == #[trigger] history_text(entry@, time),
{
    let time = local_stamp(entry.notification.timestamp);
    let line = history_line_at(entry, time.as_str());
    assert(line@ == history_text(entry@, time@));
    line
}

/// The line above a list of history entries.
pub fn history_header() -> (r: String)
    ensures
        r@ == "   "@ + text::padded_right("TIME"@, 19) + "  "@ + text::padded_right("OUT"@, 5)
            + "  "@ + text::padded_right("APP"@, 20) + "  "@ + text::padded_right("TITLE"@, 40)
            + "  ID"@,
{
    let mut out = "   ".to_string();
    out.append(pad_right("TIME", 19).as_str());
    out.append("  ");
    out.append(pad_right("OUT", 5).as_str());
    out.append("  ");
    out.append(pad_right("APP", 20).as_str());
    out.append("  ");
    out.append(pad_right("TITLE", 40).as_str());
    out.append("  ID");
    out
}

/// The line for a digest group.
pub open spec fn group_text(group: GroupModel) -> Seq<char> {
    text::padded_right(text::shortened(group.app_id, 22), 22) + " "@ + text::padded_left(
        number::digits(group.entries.len()),
        3,
    ) + " held   latest: "@ + (if group.entries.len() > 0 {
        group.entries.last().notification.title
    } else {
        ""@
    })
}

/// The line for a digest group.
pub fn digest_line(group: &DigestGroup) -> (r: String)
    ensures
        r@ == group_text(group@),
{
    let mut out = pad_right(truncate(group.app_id.as_str(), 22).as_str(), 22);
    out.append(" ");
    out.append(pad_left(decimal(group.entries.len() as u64).as_str(), 3).as_str());
    out.append(" held   latest: ");
    out.append(group.headline());
    out
}

/// Days are shown by their labels, one after the other, and every day where none
/// is named.
pub proof fn days_are_shown_one_by_one(days: Seq<Weekday>, day: Weekday)
    ensures
        days_text(Seq::empty()) == "every day"@,
        days_text(seq![day]) == day_label(day),
        days.len() > 0 ==> days_text(days.push(day)) == days_text(days) + ","@ + day_label(day),
        day == Weekday::Mon ==> day_label(day) == "Mon"@,
        day == Weekday::Tue ==> day_label(day) == "Tue"@,
        day == Weekday::Wed ==> day_label(day) == "Wed"@,
        day == Weekday::Thu ==> day_label(day) == "Thu"@,
        day == Weekday::Fri ==> day_label(day) == "Fri"@,
        day == Weekday::Sat ==> day_label(day) == "Sat"@,
        day == Weekday::Sun ==> day_label(day) == "Sun"@,
{
    let label = |d: Weekday| day_label(d);
    assert(seq![day].map_values(label) =~= seq![day_label(day)]);
    text::joining_adds_up(seq![day_label(day)], Seq::empty(), ","@);
    if days.len() > 0 {
        text::joining_adds_up(days.map_values(label), seq![day_label(day)], ","@);
        assert(days.push(day).map_values(label) =~= days.map_values(label) + seq![day_label(day)]);
        assert(days.map_values(label).len() > 0);
    }
}

/// The conditions of a rule are shown one after the other, joined as they
/// combine, and a rule without any always holds.
pub proof fn conditions_are_shown_one_by_one(rule: RuleModel, more: ConditionModel)
    ensures
        ({
            let longer = RuleModel { conditions: rule.conditions.push(more), ..rule };
            &&& rule.conditions.len() == 0 ==> conditions_text(rule) == "always"@
            &&& rule.conditions.len() == 0 ==> conditions_text(longer) == condition_text(more)
            &&& rule.conditions.len() > 0 && rule.match_mode == MatchMode::All ==> conditions_text(
                longer,
            ) == conditions_text(rule) + " AND "@ + condition_text(more)
            &&& rule.conditions.len() > 0 && rule.match_mode == MatchMode::Any ==> conditions_text(
                longer,
            ) == conditions_text(rule) + " OR "@ + condition_text(more)
        }),
        condition_text(ConditionModel::Fullscreen { equals: true }) == "fullscreen"@,
        condition_text(ConditionModel::Fullscreen { equals: false }) == "not fullscreen"@,
{
    let shown = |c: ConditionModel| condition_text(c);
    let sep = if rule.match_mode == MatchMode::Any {
        " OR "@
    } else {
        " AND "@
    };
    let longer = rule.conditions.push(more);
    text::joining_adds_up(rule.conditions.map_values(shown), seq![condition_text(more)], sep);
    text::joining_adds_up(seq![condition_text(more)], Seq::empty(), sep);
    assert(longer.map_values(shown) =~= rule.conditions.map_values(shown)
        + seq![condition_text(more)]);
    if rule.conditions.len() == 0 {
        assert(longer.map_values(shown) =~= seq![condition_text(more)]);
    }
}

/// The line for a history entry starts with a star exactly where it is unread,
/// shows the instant behind that and ends with the id.
pub proof fn unread_entries_have_a_star(entry: HistoryModel, time: Seq<char>)
    ensures
        ({
            let line = history_text(entry, time);
            &&& line[0] == '*' <==> !entry.read
            &&& line.subrange(2, 2 + time.len() as int) == time
            &&& line.skip(line.len() - entry.notification.id.len()) == entry.notification.id
        }),
        entry.decision == Decision::Allow ==> mark_text(entry.decision) == "show"@,
        entry.decision == Decision::Mute ==> mark_text(entry.decision) == "muted"@,
        entry.decision == Decision::Batch ==> mark_text(entry.decision) == "batch"@,
{
    reveal_strlit(" ");
    reveal_strlit("*");
    let line = history_text(entry, time);
    assert(line.subrange(2, 2 + time.len() as int) =~= time);
    assert(line.skip(line.len() - entry.notification.id.len()) =~= entry.notification.id);
}

/// A title is shown in at most 40 characters, and as it is where it has no more.
pub proof fn long_titles_are_cut(title: Seq<char>)
    ensures
        title_shown(title).len() <= 40,
        title.len() <= 40 ==> title_shown(title) == title,
        title.len() > 40 ==> title_shown(title).take(37) == title.take(37) && title_shown(
            title,
        ).skip(37) == "..."@,
{
    reveal_strlit("...");
    if title.len() > 40 {
        assert(title_shown(title).take(37) =~= title.take(37));
        assert(title_shown(title).skip(37) =~= "..."@);
    }
}

/// The line for a rule starts with its id and ends with its name, and with a note
/// behind it where the rule is switched off.
pub proof fn rule_lines_show_their_rule(rule: RuleModel)
    ensures
        ({
            let line = rule_text(rule);
            &&& line.take(rule.id.len() as int) == rule.id
            &&& rule.enabled ==> line.skip(line.len() - rule.name.len()) == rule.name
            &&& !rule.enabled ==> line.skip(line.len() - rule.name.len() - 11) == rule.name
                + " [disabled]"@
        }),
{
    reveal_strlit("");
    reveal_strlit(" [disabled]");
    text::padding_fills_to_the_width(rule.id, 28, 0);
    let line = rule_text(rule);
    let padded = text::padded_right(rule.id, 28);
    assert(line.take(rule.id.len() as int) =~= padded.take(rule.id.len() as int));
    if rule.enabled {
        assert(line.skip(line.len() - rule.name.len()) =~= rule.name);
    } else {
        assert(line.skip(line.len() - rule.name.len() - 11) =~= rule.name + " [disabled]"@);
    }
}

/// The line for a digest group says how many are held and ends with the newest
/// title.
pub proof fn group_lines_end_with_the_newest(group: GroupModel)
    requires
        group.entries.len() > 0,
    ensures
        ({
            let line = group_text(group);
            let newest = group.entries.last().notification.title;
            &&& line.skip(line.len() - newest.len()) == newest
            &&& line.take(line.len() - newest.len()) == text::padded_right(
                text::shortened(group.app_id, 22),
                22,
            ) + " "@ + text::padded_left(number::digits(group.entries.len()), 3)
                + " held   latest: "@
        }),
{
    let line = group_text(group);
    let newest = group.entries.last().notification.title;
    assert(line.skip(line.len() - newest.len()) =~= newest);
    assert(line.take(line.len() - newest.len()) =~= text::padded_right(
        text::shortened(group.app_id, 22),
        22,
    ) + " "@ + text::padded_left(number::digits(group.entries.len()), 3) + " held   latest: "@);
}

/// The lines of a list of rules are set in columns: the action stands behind 28
/// characters and a blank, the priority 7 further on, and the conditions behind
/// that.
pub proof fn rule_lines_are_set_in_columns(rule: RuleModel)
    requires
        rule.id.len() <= 28,
        number::signed_digits(rule.priority).len() <= 3,
        conditions_text(rule).len() <= 45,
    ensures
        ({
            let line = rule_text(rule);
            let word = rules::decision_word(rule.action);
            let priority = number::signed_digits(rule.priority);
            let conditions = conditions_text(rule);
            &&& line.subrange(29, 29 + word.len() as int) == word
            &&& line.subrange(39 - priority.len(), 39) == priority
            &&& line.subrange(41, 41 + conditions.len() as int) == conditions
            &&& line.skip(87) == rule.name + status_text(rule.enabled)
        }),
{
    reveal_strlit(" ");
    reveal_strlit("  ");
    reveal_strlit("allow");
    reveal_strlit("mute");
    reveal_strlit("batch");
    let word = rules::decision_word(rule.action);
    let priority = number::signed_digits(rule.priority);
    let conditions = conditions_text(rule);
    text::padding_fills_to_the_width(rule.id, 28, 0);
    text::padding_fills_to_the_width(word, 6, 0);
    text::padding_fills_to_the_width(priority, 3, 0);
    text::padding_fills_to_the_width(conditions, 45, 0);
    let line = rule_text(rule);
    assert(line.subrange(29, 29 + word.len() as int) =~= text::padded_right(word, 6).take(
        word.len() as int,
    ));
    assert(line.subrange(39 - priority.len(), 39) =~= text::padded_left(priority, 3).skip(
        3 - priority.len(),
    ));
    assert(line.subrange(41, 41 + conditions.len() as int) =~= text::padded_right(
        conditions,
        45,
    ).take(conditions.len() as int));
    assert(line.skip(87) =~= rule.name + status_text(rule.enabled));
}

/// The lines of a list of profiles are set in columns: the name, the default
/// decision or that it is the global one, and the description at the end.
pub proof fn profile_lines_are_set_in_columns(profile: ProfileModel)
    requires
        profile.name.len() <= 24,
    ensures
        ({
            let line = profile_text(profile);
            let word = match profile.default_decision {
                Some(d) => rules::decision_word(d),
                None => "global default"@,
            };
            &&& line.subrange(2, 2 + profile.name.len() as int) == profile.name
            &&& line.subrange(26, 36) == " default: "@
            &&& line.subrange(36, 36 + word.len() as int) == word
            &&& profile.description is None ==> line.len() == 53
            &&& profile.description matches Some(d) ==> line.skip(53) == d
        }),
{
    reveal_strlit("");
    reveal_strlit(" ");
    reveal_strlit("  ");
    reveal_strlit(" default: ");
    reveal_strlit("global default");
    reveal_strlit("allow");
    reveal_strlit("mute");
    reveal_strlit("batch");
    let word = match profile.default_decision {
        Some(d) => rules::decision_word(d),
        None => "global default"@,
    };
    text::padding_fills_to_the_width(profile.name, 24, 0);
    text::padding_fills_to_the_width(word, 16, 0);
    let line = profile_text(profile);
    assert(line.subrange(2, 2 + profile.name.len() as int) =~= text::padded_right(
        profile.name,
        24,
    ).take(profile.name.len() as int));
    assert(line.subrange(26, 36) =~= " default: "@);
    assert(line.subrange(36, 36 + word.len() as int) =~= text::padded_right(word, 16).take(
        word.len() as int,
    ));
    if let Some(d) = profile.description {
        assert(line.skip(53) =~= d);
    }
}

/// The lines of a list of schedules are set in columns: the id, the window, the
/// days, and the profile at the end, with a note where the schedule is off.
pub proof fn schedule_lines_are_set_in_columns(schedule: ScheduleModel)
    requires
        schedule.id.len() <= 20,
        days_text(schedule.weekdays).len() <= 45,
    ensures
        ({
            let line = schedule_text(schedule);
            let start = clock::shown_time(schedule.start_time);
            let end = clock::shown_time(schedule.end_time);
            let days = days_text(schedule.weekdays);
            let behind = 23 + start.len() as int + end.len();
            &&& line.take(schedule.id.len() as int) == schedule.id
            &&& line.subrange(21, 21 + start.len() as int) == start
            &&& line.subrange(22 + start.len() as int, 22 + start.len() + end.len() as int) == end
            &&& line.subrange(behind, behind + days.len()) == days
            &&& schedule.profile is None ==> line.skip(behind + 45) == " profile: "@ + status_text(
                schedule.enabled,
            )
            &&& schedule.profile matches Some(p) ==> line.skip(behind + 45) == " profile: "@ + p
                + status_text(schedule.enabled)
        }),
{
    reveal_strlit(" ");
    reveal_strlit("-");
    let start = clock::shown_time(schedule.start_time);
    let end = clock::shown_time(schedule.end_time);
    let days = days_text(schedule.weekdays);
    let id = text::padded_right(schedule.id, 20);
    let padded = text::padded_right(days, 45);
    let named = match schedule.profile {
        Some(p) => p,
        None => ""@,
    };
    let tail = " profile: "@ + named + status_text(schedule.enabled);
    let line = schedule_text(schedule);
    text::padding_fills_to_the_width(schedule.id, 20, 0);
    text::padding_fills_to_the_width(days, 45, 0);
    let front = id + " "@;
    let window = front + start + "-"@ + end + " "@;
    assert(line =~= window + padded + tail);
    lemma_parts(window, padded, tail);
    assert(line =~= front + start + ("-"@ + end + " "@ + padded + tail));
    lemma_parts(front, start, "-"@ + end + " "@ + padded + tail);
    assert(line =~= (front + start + "-"@) + end + (" "@ + padded + tail));
    lemma_parts(front + start + "-"@, end, " "@ + padded + tail);
    let behind = 23 + start.len() as int + end.len();
    assert(line.take(schedule.id.len() as int) =~= id.take(schedule.id.len() as int));
    assert(line.subrange(behind, behind + days.len()) =~= padded.take(days.len() as int)) by {
        assert(line.subrange(behind, behind + 45) == padded);
    }
    if schedule.profile is None {
        reveal_strlit("");
        assert(tail =~= " profile: "@ + status_text(schedule.enabled));
    }
}

proof fn lemma_parts(a: Seq<char>, b: Seq<char>, c: Seq<char>)
    ensures
        (a + b + c).subrange(a.len() as int, a.len() + b.len() as int) == b,
        (a + b + c).skip(a.len() + b.len() as int) == c,
{
    assert((a + b + c).subrange(a.len() as int, a.len() + b.len() as int) =~= b);
    assert((a + b + c).skip(a.len() + b.len() as int) =~= c);
}

/// The lines of a history list are set in columns behind the instant: what became
/// of the notification, who it is from and its title, each cut to fit.
pub proof fn history_lines_are_set_in_columns(entry: HistoryModel, time: Seq<char>)
    ensures
        ({
            let line = history_text(entry, time);
            let at = time.len() as int;
            let mark = mark_text(entry.decision);
            let app = text::shortened(
                match entry.notification.source.display_name {
                    Some(name) => name,
                    None => entry.notification.source.app_id,
                },
                20,
            );
            let title = text::shortened(title_shown(entry.notification.title), 40);
            &&& line.subrange(at + 4, at + 4 + mark.len()) == mark
            &&& line.subrange(at + 11, at + 11 + app.len()) == app
            &&& line.subrange(at + 33, at + 33 + title.len()) == title
            &&& line.skip(at + 75) == entry.notification.id
        }),
{
    reveal_strlit(" ");
    reveal_strlit("*");
    reveal_strlit("  ");
    reveal_strlit("show");
    reveal_strlit("muted");
    reveal_strlit("batch");
    let line = history_text(entry, time);
    let at = time.len() as int;
    let mark = mark_text(entry.decision);
    let name = match entry.notification.source.display_name {
        Some(name) => name,
        None => entry.notification.source.app_id,
    };
    let app = text::shortened(name, 20);
    let title = text::shortened(title_shown(entry.notification.title), 40);
    text::shortening_cuts_to_fit(name, 20);
    text::shortening_cuts_to_fit(title_shown(entry.notification.title), 40);
    text::padding_fills_to_the_width(mark, 5, 0);
    text::padding_fills_to_the_width(app, 20, 0);
    text::padding_fills_to_the_width(title, 40, 0);
    assert(line.subrange(at + 4, at + 4 + mark.len()) =~= text::padded_right(mark, 5).take(
        mark.len() as int,
    ));
    assert(line.subrange(at + 11, at + 11 + app.len()) =~= text::padded_right(app, 20).take(
        app.len() as int,
    ));
    assert(line.subrange(at + 33, at + 33 + title.len()) =~= text::padded_right(title, 40).take(
        title.len() as int,
    ));
    assert(line.skip(at + 75) =~= entry.notification.id);
}

} // verus!
