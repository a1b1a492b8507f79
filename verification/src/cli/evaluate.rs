//! `tpt-focus evaluate`: run a synthetic notification through the rules and
//! say what is decided. Handy for testing a rule before saving it.
use vstd::prelude::*;
use crate::cli::rules;
use crate::cli::rules::UrgencyArg;
use crate::cli::times;
use crate::cli::times::parse_hm;
use crate::clock::{LocalTime, Weekday};
use crate::config::Config;
use crate::context::{ContextModel, ContextSnapshot};
use crate::engine::decide;
use crate::model;
use crate::model::{AppIdentity, AppModel, Notification, NotificationModel};
use crate::rules::{Decision, EvaluationModel, RuleEvaluation};
use crate::text;

verus! {

broadcast use vstd::string::group_string_axioms;

/// What is to be evaluated.
#[derive(Debug)]
pub struct EvaluateArgs {
    /// Source app id.
    pub app: String,
    /// Notification title.
    pub title: String,
    /// Notification body.
    pub body: String,
    /// Urgency level of the synthetic notification.
    pub urgency: UrgencyArg,
    /// Pretend that a window is fullscreen, whatever the platform says.
    pub fullscreen: bool,
    /// Pretend this focus profile is active.
    pub profile: Option<String>,
    /// Evaluate as if it were this wall-clock time, `HH:MM`.
    pub time: Option<String>,
}

/// The context to evaluate in: what the platform sees, with what was asked for
/// put over it. A given time is taken on a Saturday.
pub open spec fn composed(seen: ContextModel, args: EvaluateArgs, local: LocalTime) -> ContextModel {
    ContextModel {
        fullscreen: seen.fullscreen || args.fullscreen,
        active_profile: model::text_if_any(args.profile),
        local_time: local,
        ..seen
    }
}

/// The context to evaluate in.
pub fn compose_context(seen: ContextSnapshot, args: &EvaluateArgs) -> (r: Result<
    ContextSnapshot,
    String,
>)
    ensures
        match time_fault(*args) {
            Some(message) => r is Err && r->Err_0@ == message,
            None => r is Ok && clock_asked(*args, seen.local_time, r->Ok_0.local_time) && r->Ok_0@
                == composed(seen@, *args, r->Ok_0.local_time),
        },
{
    let local_time = match &args.time {
        Some(raw) => match parse_hm(raw.as_str()) {
            Ok(time) => LocalTime { weekday: Weekday::Sat, time },
            Err(message) => {
                return Err(message);
            },
        },
        None => seen.local_time,
    };
    Ok(
        ContextSnapshot {
            foreground_app: seen.foreground_app,
            fullscreen: seen.fullscreen || args.fullscreen,
            active_profile: model::copy_text_if_any(&args.profile),
            captured_at: seen.captured_at,
            local_time,
        },
    )
}

/// The notification to evaluate.
pub fn synthetic_notification(args: &EvaluateArgs) -> (r: Notification)
    ensures
        r@.source == (AppModel { app_id: args.app@, display_name: None }),
        r@.title == args.title@,
        r@.body == args.body@,
        r@.urgency == rules::urgency_typed(args.urgency),
        model::uuid_shape(r@.id),
        r@.timestamp >= 0,
        r@.actions.len() == 0,
        r@.icon is None,
{
    Notification::new(
        AppIdentity::new(args.app.as_str()),
        args.title.as_str(),
        args.body.as_str(),
    ).with_urgency(args.urgency.urgency())
}

/// The word for a decision, in capitals.
pub open spec fn loud_word(decision: Decision) -> Seq<char> {
    match decision {
        Decision::Allow => "ALLOW"@,
        Decision::Mute => "MUTE"@,
        Decision::Batch => "BATCH"@,
    }
}

/// What is said about an evaluation.
pub open spec fn evaluation_text(evaluation: EvaluationModel) -> Seq<Seq<char>> {
    seq!["decision: "@ + loud_word(evaluation.decision)] + (match evaluation.matched_rule {
        Some(rule) => seq!["matched rule: "@ + rule],
        None => Seq::empty(),
    }) + seq!["reason: "@ + evaluation.reason]
}

fn labelled(label: &str, value: &str) -> (r: String)
    ensures
        r@ == label@ + value@,
{
    let mut s = label.to_string();
    s.append(value);
    s
}

/// What is said about an evaluation.
pub fn evaluation_lines(evaluation: &RuleEvaluation) -> (r: Vec<String>)
    ensures
        model::texts(r@) == evaluation_text(evaluation@),
{
    let word = match evaluation.decision {
        Decision::Allow => "ALLOW",
        Decision::Mute => "MUTE",
        Decision::Batch => "BATCH",
    };
    let mut lines: Vec<String> = Vec::new();
    lines.push(labelled("decision: ", word));
    if let Some(rule) = &evaluation.matched_rule {
        lines.push(labelled("matched rule: ", rule.as_str()));
    }
    lines.push(labelled("reason: ", evaluation.reason.as_str()));
    assert(model::texts(lines@) =~= evaluation_text(evaluation@));
    lines
}

/// A notification as typed.
pub open spec fn as_typed(n: NotificationModel, args: EvaluateArgs) -> bool {
    &&& n.source == (AppModel { app_id: args.app@, display_name: None })
    &&& n.title == args.title@
    &&& n.body == args.body@
    &&& n.urgency == rules::urgency_typed(args.urgency)
}

/// What is wrong with the time that was typed, if anything is.
pub open spec fn time_fault(args: EvaluateArgs) -> Option<Seq<char>> {
    match args.time {
        Some(raw) => match times::time_or_message(text::trimmed(raw@), raw@) {
            Ok(t) => None,
            Err(message) => Some(message),
        },
        None => None,
    }
}

/// `local` is the wall-clock time to evaluate at: the one that was typed, on a
/// Saturday, else the present.
pub open spec fn clock_asked(args: EvaluateArgs, present: LocalTime, local: LocalTime) -> bool {
    match args.time {
        Some(raw) => local.weekday == Weekday::Sat && times::time_or_message(
            text::trimmed(raw@),
            raw@,
        ) == Ok::<int, Seq<char>>(local.time@),
        None => local == present,
    }
}

/// Evaluates what was typed against a configuration, in what the platform sees:
/// the lines say what the rules decide about the typed notification.
pub fn run(config: &Config, seen: ContextSnapshot, args: &EvaluateArgs) -> (r: Result<
    Vec<String>,
    String,
>)
    ensures
        match time_fault(*args) {
            Some(message) => r is Err && r->Err_0@ == message,
            None => r is Ok && exists|n: NotificationModel, local: LocalTime|
                {
                    &&& as_typed(n, *args)
                    &&& clock_asked(*args, seen.local_time, local)
                    &&& model::texts(r->Ok_0@) == evaluation_text(
                        #[trigger] crate::rules::verdict(
                            config@,
                            n,
                            composed(seen@, *args, local),
                        ),
                    )
                },
        },
{
    let context = match compose_context(seen, args) {
        Ok(context) => context,
        Err(message) => {
            return Err(message);
        },
    };
    let notification = synthetic_notification(args);
    let processed = decide(config, notification, &context);
    let lines = evaluation_lines(&processed.evaluation);
    proof {
        assert(context@ == composed(seen@, *args, context.local_time));
        assert(as_typed(notification@, *args));
        assert(processed.evaluation@ == crate::rules::verdict(
            config@,
            notification@,
            composed(seen@, *args, context.local_time),
        ));
    }
    Ok(lines)
}

/// What was asked for is put over what is seen, and the rest is as it is seen: a
/// window that is fullscreen stays so, and only the profile that was asked for
/// is active.
pub proof fn pretence_comes_over_what_is_seen(
    seen: ContextModel,
    args: EvaluateArgs,
    local: LocalTime,
)
    ensures
        ({
            let c = composed(seen, args, local);
            &&& args.fullscreen ==> c.fullscreen
            &&& seen.fullscreen ==> c.fullscreen
            &&& !args.fullscreen && !seen.fullscreen ==> !c.fullscreen
            &&& args.profile is None <==> c.active_profile is None
            &&& args.profile matches Some(p) ==> c.active_profile == Some(p@)
            &&& c.local_time == local
            &&& c.foreground_app == seen.foreground_app && c.captured_at == seen.captured_at
        }),
{
}

/// A typed time is taken on a Saturday, and the present without one.
pub proof fn typed_times_are_saturdays(args: EvaluateArgs, present: LocalTime, local: LocalTime)
    requires
        clock_asked(args, present, local),
    ensures
        args.time is None ==> local == present,
        args.time is Some ==> local.weekday == Weekday::Sat && time_fault(args) is None
            && times::time_typed(text::trimmed(args.time->0@)) == Ok::<int, times::TimeFaultModel>(
            local.time@,
        ),
        args.time is None ==> time_fault(args) is None,
{
}

/// An evaluation says the decision first and the reason last, and the rule between
/// them exactly where one matched.
pub proof fn evaluations_say_what_decided(evaluation: EvaluationModel)
    ensures
        ({
            let lines = evaluation_text(evaluation);
            &&& evaluation.matched_rule is None <==> lines.len() == 2
            &&& evaluation.matched_rule matches Some(rule) ==> lines.len() == 3 && lines[1]
                == "matched rule: "@ + rule
            &&& evaluation.decision == Decision::Allow ==> lines[0] == "decision: "@ + "ALLOW"@
            &&& evaluation.decision == Decision::Mute ==> lines[0] == "decision: "@ + "MUTE"@
            &&& evaluation.decision == Decision::Batch ==> lines[0] == "decision: "@ + "BATCH"@
            &&& lines.last() == "reason: "@ + evaluation.reason
        }),
{
}

/// What is evaluated is what was typed: the app without a display name, the title,
/// the body and the urgency.
pub proof fn typed_notifications_say_what_was_typed(n: NotificationModel, args: EvaluateArgs)
    requires
        as_typed(n, args),
    ensures
        n.source.app_id == args.app@ && n.source.display_name is None,
        n.title == args.title@ && n.body == args.body@,
        args.urgency == UrgencyArg::Low <==> n.urgency == model::Urgency::Low,
        args.urgency == UrgencyArg::Normal <==> n.urgency == model::Urgency::Normal,
        args.urgency == UrgencyArg::Critical <==> n.urgency == model::Urgency::Critical,
{
}

} // verus!
