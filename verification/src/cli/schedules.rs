//! `tpt-focus schedules`: recurring time windows stored in the history database
//! (they may activate a focus profile while live).
use vstd::prelude::*;
use crate::cli::effect;
use crate::cli::effect::{around, one_line, plain_failure, Failure, FailureModel};
use crate::cli::print;
use crate::cli::print::schedule_line;
use crate::cli::rules;
use crate::cli::rules::enabled_word;
use crate::cli::times;
use crate::cli::times::{parse_schedule_time, parse_weekdays};
use crate::model;
use crate::schedule;
use crate::schedule::{Schedule, ScheduleModel};
use crate::text::same_text;

verus! {

broadcast use vstd::string::group_string_axioms;

/// What is asked of the schedules.
#[derive(Debug)]
pub enum SchedulesArgs {
    /// List stored schedules.
    List {
        /// Machine-readable output.
        json: bool,
    },
    /// Add a schedule.
    Add(NewSchedule),
    /// Remove a schedule by id.
    Remove { id: String },
    /// Enable or disable a schedule without deleting it.
    Toggle {
        /// Schedule id.
        id: String,
        /// Desired state.
        state: ToggleState,
    },
}

/// A schedule as typed.
#[derive(Debug)]
pub struct NewSchedule {
    /// Unique schedule id.
    pub id: String,
    /// Window start, `HH:MM`.
    pub start: String,
    /// Window end, `HH:MM` (may be before the start to cross midnight).
    pub end: String,
    /// Human-readable label.
    pub name: Option<String>,
    /// Focus profile to activate while the schedule is live.
    pub profile: Option<String>,
    /// Days the schedule applies to (none means every day).
    pub weekdays: Vec<String>,
}

/// Whether to switch something on or off.
#[derive(Clone, Copy, Debug, PartialEq, Eq, Structural)]
pub enum ToggleState {
    On,
    Off,
}

/// The word for being switched on or off.
pub fn on_off(on: bool) -> (r: &'static str)
    ensures
        r@ == rules::switch_word(on),
{
    enabled_word(on)
}

/// The schedule that was typed, or what is wrong with it: its times first, then
/// its days, then the whole.
pub open spec fn typed_schedule(new: NewSchedule) -> Result<ScheduleModel, FailureModel> {
    match times::schedule_time(new.start@) {
        Err(failure) => Err(failure),
        Ok(start_time) => match times::schedule_time(new.end@) {
            Err(failure) => Err(failure),
            Ok(end_time) => match times::days_typed(
                model::texts(new.weekdays@),
                new.weekdays@.len(),
            ) {
                Err(message) => Err(effect::plain(message)),
                Ok(weekdays) => {
                    let schedule = ScheduleModel {
                        id: new.id@,
                        name: match new.name {
                            Some(name) => name@,
                            None => Seq::empty(),
                        },
                        weekdays,
                        start_time,
                        end_time,
                        profile: model::text_if_any(new.profile),
                        enabled: true,
                    };
                    match schedule.fault() {
                        Some(message) => Err(effect::plain("invalid configuration: "@ + message)),
                        None => Ok(schedule),
                    }
                },
            },
        },
    }
}

/// The schedule that was typed.
pub fn build_schedule(new: NewSchedule) -> (r: Result<Schedule, Failure>)
    ensures
        match typed_schedule(new) {
            Ok(s) => r is Ok && r->Ok_0@ == s,
            Err(failure) => r is Err && r->Err_0@ == failure,
        },
{
    let start = match parse_schedule_time(new.start.as_str()) {
        Ok(t) => t,
        Err(failure) => {
            return Err(failure);
        },
    };
    let end = match parse_schedule_time(new.end.as_str()) {
        Ok(t) => t,
        Err(failure) => {
            return Err(failure);
        },
    };
    let weekdays = match parse_weekdays(&new.weekdays) {
        Ok(days) => days,
        Err(message) => {
            return Err(plain_failure(message));
        },
    };
    let name = match &new.name {
        Some(name) => name.clone(),
        None => String::new(),
    };
    let schedule = Schedule {
        id: new.id,
        name,
        weekdays,
        start_time: start,
        end_time: end,
        profile: new.profile,
        enabled: true,
    };
    match schedule.validate() {
        Ok(()) => Ok(schedule),
        Err(error) => Err(plain_failure(error.to_text())),
    }
}

/// The lines of a list of schedules stored at `path`.
pub open spec fn list_text(schedules: Seq<ScheduleModel>, path: Seq<char>) -> Seq<Seq<char>> {
    if schedules.len() == 0 {
        seq!["no schedules stored ("@ + path + ")"@]
    } else {
        schedules.map_values(|s: ScheduleModel| print::schedule_text(s))
    }
}

/// The lines of a list of schedules stored at `path`.
pub fn list_lines(schedules: &Vec<Schedule>, path: &str) -> (r: Vec<String>)
    ensures
        model::texts(r@) == list_text(schedule::schedule_models(schedules@), path@),
{
    if schedules.len() == 0 {
        return one_line(around("no schedules stored (", path, ")"));
    }
    let mut lines: Vec<String> = Vec::new();
    let mut i: usize = 0;
    while i < schedules.len()
        invariant
            i <= schedules@.len(),
            lines@.len() == i,
            forall|k: int|
                0 <= k < i ==> (#[trigger] lines@[k])@ == print::schedule_text(schedules@[k]@),
        decreases schedules@.len() - i,
    {
        lines.push(schedule_line(&schedules[i]));
        i += 1;
    }
    assert(model::texts(lines@) =~= list_text(schedule::schedule_models(schedules@), path@));
    lines
}

/// The position of the first schedule with exactly this id, or the number of
/// schedules.
pub open spec fn schedule_position(schedules: Seq<ScheduleModel>, id: Seq<char>) -> int
    decreases schedules.len(),
{
    if schedules.len() == 0 || schedules.first().id == id {
        0
    } else {
        1 + schedule_position(schedules.drop_first(), id)
    }
}

/// The outcome of switching a schedule on or off: the schedule to be stored,
/// where it changes, and the line to be printed.
pub open spec fn switched(schedules: Seq<ScheduleModel>, id: Seq<char>, on: bool) -> Result<
    (Option<ScheduleModel>, Seq<char>),
    Seq<char>,
> {
    let at = schedule_position(schedules, id);
    if at >= schedules.len() {
        Err("no schedule with id `"@ + id + "`"@)
    } else if schedules[at].enabled == on {
        Ok((None, "schedule `"@ + id + "` is already "@ + rules::switch_word(on)))
    } else {
        Ok(
            (
                Some(ScheduleModel { enabled: on, ..schedules[at] }),
                "schedule `"@ + id + "` "@ + rules::switch_word(on),
            ),
        )
    }
}

/// What the outcome of switching a schedule says.
pub open spec fn switch_outcome(r: Result<(Option<Schedule>, String), String>) -> Result<
    (Option<ScheduleModel>, Seq<char>),
    Seq<char>,
> {
    match r {
        Ok((Some(s), line)) => Ok((Some(s@), line@)),
        Ok((None, line)) => Ok((None, line@)),
        Err(message) => Err(message@),
    }
}

/// Switches a schedule on or off.
pub fn toggle(schedules: &Vec<Schedule>, id: &str, state: ToggleState) -> (r: Result<
    (Option<Schedule>, String),
    String,
>)
    ensures
        switch_outcome(r) == switched(
            schedule::schedule_models(schedules@),
            id@,
            state == ToggleState::On,
        ),
{
    let on = state == ToggleState::On;
    let ghost models = schedule::schedule_models(schedules@);
    let mut i: usize = 0;
    assert(models.skip(0) =~= models);
    while i < schedules.len()
        invariant
            i <= schedules@.len(),
            on == (state == ToggleState::On),
            models == schedule::schedule_models(schedules@),
            schedule_position(models, id@) == i + schedule_position(models.skip(i as int), id@),
        decreases schedules@.len() - i,
    {
        assert(models.skip(i as int).first() == schedules@[i as int]@);
        assert(models.skip(i as int).drop_first() =~= models.skip(i + 1));
        if same_text(schedules[i].id.as_str(), id) {
            assert(models[i as int] == schedules@[i as int]@);
            if schedules[i].enabled == on {
                let mut line = around("schedule `", id, "` is already ");
                line.append(on_off(on));
                return Ok((None, line));
            }
            let mut changed = schedules[i].clone();
            changed.enabled = on;
            assert(changed@ =~= (ScheduleModel { enabled: on, ..models[i as int] }));
            let mut line = around("schedule `", id, "` ");
            line.append(on_off(on));
            return Ok((Some(changed), line));
        }
        i += 1;
    }
    Err(around("no schedule with id `", id, "`"))
}

/// What is said after a schedule was stored.
pub fn stored_line(id: &str) -> (r: String)
    ensures
        r@ == "schedule `"@ + id@ + "` stored"@,
{
    around("schedule `", id, "` stored")
}

/// What is said after a schedule was to be removed, given whether there was
/// one.
pub fn removed_line(id: &str, removed: bool) -> (r: Result<String, String>)
    ensures
        r is Ok <==> removed,
        r matches Ok(line) ==> line@ == "schedule `"@ + id@ + "` removed"@,
        r matches Err(message) ==> message@ == "no schedule with id `"@ + id@ + "`"@,
{
    if removed {
        Ok(around("schedule `", id, "` removed"))
    } else {
        Err(around("no schedule with id `", id, "`"))
    }
}

proof fn lemma_schedule_position(schedules: Seq<ScheduleModel>, id: Seq<char>, at: int)
    requires
        0 <= at <= schedules.len(),
        at < schedules.len() ==> schedules[at].id == id,
        forall|k: int| 0 <= k < at ==> (#[trigger] schedules[k]).id != id,
    ensures
        schedule_position(schedules, id) == at,
    decreases schedules.len(),
{
    if at > 0 {
        assert(schedules[0].id != id);
        let rest = schedules.drop_first();
        assert forall|k: int| 0 <= k < at - 1 implies (#[trigger] rest[k]).id != id by {
            assert(rest[k] == schedules[k + 1]);
        }
        lemma_schedule_position(rest, id, at - 1);
    }
}

/// Switching a schedule changes whether it is on, and nothing else of it; one that
/// is so already is not stored again, and one that is not there is named.
pub proof fn switching_changes_one_schedule(
    schedules: Seq<ScheduleModel>,
    id: Seq<char>,
    on: bool,
    at: int,
)
    requires
        0 <= at <= schedules.len(),
        at < schedules.len() ==> schedules[at].id == id,
        forall|k: int| 0 <= k < at ==> (#[trigger] schedules[k]).id != id,
    ensures
        at == schedules.len() ==> switched(schedules, id, on) == Err::<
            (Option<ScheduleModel>, Seq<char>),
            Seq<char>,
        >("no schedule with id `"@ + id + "`"@),
        at < schedules.len() ==> (switched(schedules, id, on) matches Ok((stored, line)) && {
            &&& stored is None <==> schedules[at].enabled == on
            &&& stored matches Some(s) ==> s == (ScheduleModel { enabled: on, ..schedules[at] })
        }),
{
    lemma_schedule_position(schedules, id, at);
}

/// A typed schedule is on and holds what was typed: its times, its days and the
/// profile to activate. There is one exactly where its times and days are read
/// and the whole is valid.
pub proof fn typed_schedules_hold_what_was_typed(new: NewSchedule)
    ensures
        typed_schedule(new) matches Ok(s) ==> {
            &&& s.id == new.id@ && s.enabled
            &&& times::schedule_time(new.start@) == Ok::<int, FailureModel>(s.start_time)
            &&& times::schedule_time(new.end@) == Ok::<int, FailureModel>(s.end_time)
            &&& times::days_typed(model::texts(new.weekdays@), new.weekdays@.len()) == Ok::<
                Seq<crate::clock::Weekday>,
                Seq<char>,
            >(s.weekdays)
            &&& new.profile is None <==> s.profile is None
            &&& new.profile matches Some(p) ==> s.profile == Some(p@)
            &&& new.name is None ==> s.name.len() == 0
            &&& new.name matches Some(name) ==> s.name == name@
            &&& s.fault() is None
        },
        times::schedule_time(new.start@) matches Err(failure) ==> typed_schedule(new) == Err::<
            ScheduleModel,
            FailureModel,
        >(failure),
        times::schedule_time(new.start@) is Ok ==> (times::schedule_time(new.end@) matches Err(
            failure,
        ) ==> typed_schedule(new) == Err::<ScheduleModel, FailureModel>(failure)),
        times::schedule_time(new.start@) is Ok && times::schedule_time(new.end@) is Ok
            && times::schedule_time(new.start@) != times::schedule_time(new.end@)
            && times::days_typed(model::texts(new.weekdays@), new.weekdays@.len()) is Ok
            && !crate::text::blank(new.id@) ==> typed_schedule(new) is Ok,
{
}

/// A list of schedules has one line for each, in order, or says that there is
/// none.
pub proof fn listing_shows_every_schedule(
    schedules: Seq<ScheduleModel>,
    path: Seq<char>,
    k: int,
)
    ensures
        schedules.len() == 0 ==> list_text(schedules, path) == seq![
            "no schedules stored ("@ + path + ")"@,
        ],
        schedules.len() > 0 ==> list_text(schedules, path).len() == schedules.len(),
        0 <= k < schedules.len() ==> list_text(schedules, path)[k] == print::schedule_text(
            schedules[k],
        ),
{
}

} // verus!
