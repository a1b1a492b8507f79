//! Time-of-day and weekday primitives used by schedule rules.
use vstd::prelude::*;
use crate::clock::{same_time, LocalTime, WallTime, Weekday};
use crate::error::{Error, ErrorModel};
use crate::model;
use crate::model::copy_text_if_any;
use crate::text;
use crate::text::{is_blank, same_text, to_ascii_lower, trim};

verus! {

broadcast use vstd::string::group_string_axioms;

/// The short name of a day.
pub open spec fn name_of_day(day: Weekday) -> Seq<char> {
    match day {
        Weekday::Mon => "mon"@,
        Weekday::Tue => "tue"@,
        Weekday::Wed => "wed"@,
        Weekday::Thu => "thu"@,
        Weekday::Fri => "fri"@,
        Weekday::Sat => "sat"@,
        Weekday::Sun => "sun"@,
    }
}

/// The short name of a day, as written to configuration files.
pub fn day_name(day: Weekday) -> (r: &'static str)
    ensures
        r@ == name_of_day(day),
{
    match day {
        Weekday::Mon => "mon",
        Weekday::Tue => "tue",
        Weekday::Wed => "wed",
        Weekday::Thu => "thu",
        Weekday::Fri => "fri",
        Weekday::Sat => "sat",
        Weekday::Sun => "sun",
    }
}

/// The day that a lower-case English name or abbreviation stands for.
pub open spec fn day_named(name: Seq<char>) -> Option<Weekday> {
    if name == "mon"@ || name == "monday"@ {
        Some(Weekday::Mon)
    } else if name == "tue"@ || name == "tues"@ || name == "tuesday"@ {
        Some(Weekday::Tue)
    } else if name == "wed"@ || name == "wednesday"@ {
        Some(Weekday::Wed)
    } else if name == "thu"@ || name == "thur"@ || name == "thurs"@ || name == "thursday"@ {
        Some(Weekday::Thu)
    } else if name == "fri"@ || name == "friday"@ {
        Some(Weekday::Fri)
    } else if name == "sat"@ || name == "saturday"@ {
        Some(Weekday::Sat)
    } else if name == "sun"@ || name == "sunday"@ {
        Some(Weekday::Sun)
    } else {
        None
    }
}

/// The day that a hand-written name stands for: white space around it and the
/// case of its letters do not matter.
pub open spec fn day_read(raw: Seq<char>) -> Option<Weekday> {
    day_named(text::ascii_lower(text::trimmed(raw)))
}

/// Forgiving weekday parsing for hand-written configuration.
pub fn parse_weekday(raw: &str) -> (r: Option<Weekday>)
    ensures
        r == day_read(raw@),
{
    let trimmed = trim(raw);
    let value = to_ascii_lower(trimmed.as_str());
    let v = value.as_str();
    if same_text(v, "mon") || same_text(v, "monday") {
        Some(Weekday::Mon)
    } else if same_text(v, "tue") || same_text(v, "tues") || same_text(v, "tuesday") {
        Some(Weekday::Tue)
    } else if same_text(v, "wed") || same_text(v, "wednesday") {
        Some(Weekday::Wed)
    } else if same_text(v, "thu") || same_text(v, "thur") || same_text(v, "thurs") || same_text(
        v,
        "thursday",
    ) {
        Some(Weekday::Thu)
    } else if same_text(v, "fri") || same_text(v, "friday") {
        Some(Weekday::Fri)
    } else if same_text(v, "sat") || same_text(v, "saturday") {
        Some(Weekday::Sat)
    } else if same_text(v, "sun") || same_text(v, "sunday") {
        Some(Weekday::Sun)
    } else {
        None
    }
}

proof fn reveal_day_names()
    ensures
        forall|d: Weekday| (#[trigger] name_of_day(d)).len() == 3,
        "mon"@ =~= seq!['m', 'o', 'n'],
        "tue"@ =~= seq!['t', 'u', 'e'],
        "wed"@ =~= seq!['w', 'e', 'd'],
        "thu"@ =~= seq!['t', 'h', 'u'],
        "fri"@ =~= seq!['f', 'r', 'i'],
        "sat"@ =~= seq!['s', 'a', 't'],
        "sun"@ =~= seq!['s', 'u', 'n'],
        "monday"@.len() == 6,
        "tues"@.len() == 4,
        "tuesday"@.len() == 7,
        "wednesday"@.len() == 9,
        "thur"@.len() == 4,
        "thurs"@.len() == 5,
        "thursday"@.len() == 8,
        "friday"@.len() == 6,
        "saturday"@.len() == 8,
        "sunday"@.len() == 6,
{
    reveal_strlit("mon");
    reveal_strlit("tue");
    reveal_strlit("wed");
    reveal_strlit("thu");
    reveal_strlit("fri");
    reveal_strlit("sat");
    reveal_strlit("sun");
    reveal_strlit("monday");
    reveal_strlit("tues");
    reveal_strlit("tuesday");
    reveal_strlit("wednesday");
    reveal_strlit("thur");
    reveal_strlit("thurs");
    reveal_strlit("thursday");
    reveal_strlit("friday");
    reveal_strlit("saturday");
    reveal_strlit("sunday");
}

/// No two days have the same short name.
pub proof fn short_names_stand_for_their_days(day: Weekday)
    ensures
        forall|other: Weekday| #[trigger] name_of_day(other) == name_of_day(day) ==> other == day,
        name_of_day(day) == "mon"@ <==> day == Weekday::Mon,
        name_of_day(day) == "tue"@ <==> day == Weekday::Tue,
        name_of_day(day) == "wed"@ <==> day == Weekday::Wed,
        name_of_day(day) == "thu"@ <==> day == Weekday::Thu,
        name_of_day(day) == "fri"@ <==> day == Weekday::Fri,
        name_of_day(day) == "sat"@ <==> day == Weekday::Sat,
        name_of_day(day) == "sun"@ <==> day == Weekday::Sun,
{
    reveal_day_names();
    assert("mon"@[0] == 'm' && "tue"@[0] == 't' && "wed"@[0] == 'w' && "thu"@[0] == 't'
        && "fri"@[0] == 'f' && "sat"@[0] == 's' && "sun"@[0] == 's');
    assert("tue"@[1] == 'u' && "thu"@[1] == 'h' && "sat"@[1] == 'a' && "sun"@[1] == 'u');
}

/// Reading the short name of a day gives the day back.
pub proof fn day_names_read_back(day: Weekday)
    ensures
        day_named(name_of_day(day)) == Some(day),
        day_read(name_of_day(day)) == Some(day),
{
    reveal_day_names();
    let s = name_of_day(day);
    assert(day_named(s) == Some(day)) by {
        match day {
            Weekday::Mon => {},
            Weekday::Tue => {
                assert(s[0] != "mon"@[0]);
            },
            Weekday::Wed => {
                assert(s[0] != "mon"@[0] && s[0] != "tue"@[0]);
            },
            Weekday::Thu => {
                assert(s[0] != "mon"@[0] && s[1] != "tue"@[1] && s[0] != "wed"@[0]);
            },
            Weekday::Fri => {
                assert(s[0] != "mon"@[0] && s[0] != "tue"@[0] && s[0] != "wed"@[0] && s[0]
                    != "thu"@[0]);
            },
            Weekday::Sat => {
                assert(s[0] != "mon"@[0] && s[0] != "tue"@[0] && s[0] != "wed"@[0] && s[0]
                    != "thu"@[0] && s[0] != "fri"@[0]);
            },
            Weekday::Sun => {
                assert(s[0] != "mon"@[0] && s[0] != "tue"@[0] && s[0] != "wed"@[0] && s[0]
                    != "thu"@[0] && s[0] != "fri"@[0] && s[1] != "sat"@[1]);
            },
        }
    }
    assert(!text::white(s.first()) && !text::white(s.last()));
    assert(text::trimmed(s) == s);
    assert(text::ascii_lower(s) =~= s) by {
        assert forall|i: int| 0 <= i < 3 implies text::ascii_lower_char(s[i]) == s[i] by {
            assert('a' <= s[i] && s[i] <= 'z');
        }
    }
}

/// The list of days with every repetition left out.
pub open spec fn distinct_days(days: Seq<Weekday>) -> Seq<Weekday>
    decreases days.len(),
{
    if days.len() == 0 {
        days
    } else {
        let before = distinct_days(days.drop_last());
        if before.contains(days.last()) {
            before
        } else {
            before.push(days.last())
        }
    }
}

/// All names stand for days.
pub open spec fn all_days(names: Seq<Seq<char>>) -> bool {
    forall|i: int| 0 <= i < names.len() ==> day_read(#[trigger] names[i]) is Some
}

/// The days that a list of names stands for, one for each name.
pub open spec fn days_read(names: Seq<Seq<char>>) -> Seq<Weekday> {
    names.map_values(|n: Seq<char>| day_read(n)->0)
}

/// The first name that stands for no day.
pub open spec fn first_unknown(names: Seq<Seq<char>>) -> Seq<char>
    decreases names.len(),
{
    if names.len() == 0 {
        Seq::empty()
    } else if day_read(names.first()) is None {
        names.first()
    } else {
        first_unknown(names.drop_first())
    }
}

/// The short names of a list of days.
pub fn weekday_names(days: &[Weekday]) -> (r: Vec<String>)
    ensures
        model::texts(r@) == days@.map_values(|d: Weekday| name_of_day(d)),
{
    let mut out: Vec<String> = Vec::new();
    let mut i: usize = 0;
    while i < days.len()
        invariant
            i <= days@.len(),
            out@.len() == i,
            forall|k: int| 0 <= k < i ==> (#[trigger] out@[k])@ == name_of_day(days@[k]),
        decreases days@.len() - i,
    {
        out.push(day_name(days[i]).to_string());
        i += 1;
    }
    assert(model::texts(out@) =~= days@.map_values(|d: Weekday| name_of_day(d)));
    out
}

fn holds_day(days: &[Weekday], day: Weekday) -> (r: bool)
    ensures
        r == days@.contains(day),
{
    let mut i: usize = 0;
    while i < days.len()
        invariant
            i <= days@.len(),
            forall|k: int| 0 <= k < i ==> #[trigger] days@[k] != day,
        decreases days@.len() - i,
    {
        if days[i] == day {
            return true;
        }
        i += 1;
    }
    false
}

proof fn lemma_first_unknown(names: Seq<Seq<char>>, k: int)
    requires
        0 <= k < names.len(),
        day_read(names[k]) is None,
        forall|i: int| 0 <= i < k ==> day_read(#[trigger] names[i]) is Some,
    ensures
        first_unknown(names) == names[k],
        !all_days(names),
    decreases k,
{
    if k > 0 {
        assert(day_read(names[0]) is Some);
        assert forall|i: int| 0 <= i < k - 1 implies day_read(
            #[trigger] names.drop_first()[i],
        ) is Some by {
            assert(names.drop_first()[i] == names[i + 1]);
        }
        lemma_first_unknown(names.drop_first(), k - 1);
    }
}

/// Reads a list of hand-written day names. Repeated days count once; a name
/// that stands for no day is refused with a message.
pub fn weekdays_from_names(names: &Vec<String>) -> (r: Result<Vec<Weekday>, String>)
    ensures
        r is Ok <==> all_days(model::texts(names@)),
        r matches Ok(days) ==> days@ == distinct_days(days_read(model::texts(names@))),
        r matches Err(message) ==> message@ == "unknown weekday `"@ + first_unknown(
            model::texts(names@),
        ) + "` (expected e.g. mon, tue, monday, friday)"@,
{
    let ghost all = model::texts(names@);
    let mut days: Vec<Weekday> = Vec::new();
    let mut i: usize = 0;
    while i < names.len()
        invariant
            i <= names@.len(),
            all == model::texts(names@),
            forall|k: int| 0 <= k < i ==> day_read(#[trigger] all[k]) is Some,
            days@ == distinct_days(days_read(all.take(i as int))),
        decreases names@.len() - i,
    {
        assert(all[i as int] == names@[i as int]@);
        match parse_weekday(names[i].as_str()) {
            Some(day) => {
                proof {
                    assert(days_read(all.take(i + 1)).drop_last() =~= days_read(
                        all.take(i as int),
                    ));
                    assert(days_read(all.take(i + 1)).last() == day);
                }
                if !holds_day(days.as_slice(), day) {
                    days.push(day);
                }
            },
            None => {
                proof {
                    lemma_first_unknown(all, i as int);
                }
                let mut message = "unknown weekday `".to_string();
                message.append(names[i].as_str());
                message.append("` (expected e.g. mon, tue, monday, friday)");
                return Err(message);
            },
        }
        i += 1;
    }
    assert(all.take(all.len() as int) =~= all);
    Ok(days)
}

/// True when `day` is selected. An empty list means "every day".
pub open spec fn day_selected(days: Seq<Weekday>, day: Weekday) -> bool {
    days.len() == 0 || days.contains(day)
}

/// True when `day` is selected. An empty list means "every day".
pub fn weekday_selected(days: &[Weekday], day: Weekday) -> (r: bool)
    ensures
        r == day_selected(days@, day),
{
    days.len() == 0 || holds_day(days, day)
}

/// Time-of-day containment. A range whose start lies behind its end wraps past
/// midnight; one that starts where it ends is always open.
pub open spec fn in_window(start: int, end: int, value: int) -> bool {
    if start == end {
        true
    } else if start < end {
        start <= value < end
    } else {
        start <= value || value < end
    }
}

/// Time-of-day containment supporting ranges that wrap past midnight
/// (e.g. `22:00` to `06:00`).
///
/// `start == end` is treated as an always-open range; validation rejects it
/// in configuration instead.
pub fn time_in_range(start: WallTime, end: WallTime, value: WallTime) -> (r: bool)
    ensures
        r == in_window(start@, end@, value@),
{
    let s: u64 = start.nanos();
    let e: u64 = end.nanos();
    let v: u64 = value.nanos();
    if s == e {
        true
    } else if s < e {
        v >= s && v < e
    } else {
        v >= s || v < e
    }
}

/// Two windows that share their ends, one the other way round, split the day:
/// every time lies in exactly one of them.
pub proof fn window_and_its_reverse_split_the_day(start: int, end: int, value: int)
    requires
        start != end,
    ensures
        in_window(start, end, value) <==> !in_window(end, start, value),
{
}

/// A window holds its start and not its end.
pub proof fn window_holds_its_start_alone(start: int, end: int)
    requires
        start != end,
    ensures
        in_window(start, end, start),
        !in_window(start, end, end),
{
}

/// A recurring time window, optionally activating a focus profile.
#[derive(Debug, PartialEq)]
pub struct Schedule {
    /// Unique id.
    pub id: String,
    /// Human-readable label.
    pub name: String,
    /// Days the schedule applies to. Empty means every day.
    pub weekdays: Vec<Weekday>,
    /// Window start (inclusive).
    pub start_time: WallTime,
    /// Window end (exclusive; may wrap past midnight).
    pub end_time: WallTime,
    /// Focus profile to activate while the schedule is live.
    pub profile: Option<String>,
    /// Schedules that are not enabled are never live.
    pub enabled: bool,
}

/// What a [`Schedule`] says.
#[verifier::ext_equal]
pub struct ScheduleModel {
    pub id: Seq<char>,
    pub name: Seq<char>,
    pub weekdays: Seq<Weekday>,
    pub start_time: int,
    pub end_time: int,
    pub profile: Option<Seq<char>>,
    pub enabled: bool,
}

impl View for Schedule {
    type V = ScheduleModel;

    open spec fn view(&self) -> ScheduleModel {
        ScheduleModel {
            id: self.id@,
            name: self.name@,
            weekdays: self.weekdays@,
            start_time: self.start_time@,
            end_time: self.end_time@,
            profile: model::text_if_any(self.profile),
            enabled: self.enabled,
        }
    }
}

impl ScheduleModel {
    /// Whether the schedule is live at a wall-clock time.
    pub open spec fn live(self, local: LocalTime) -> bool {
        &&& self.enabled
        &&& day_selected(self.weekdays, local.weekday)
        &&& in_window(self.start_time, self.end_time, local.time@)
    }

    /// Why the schedule cannot be kept, if it cannot.
    pub open spec fn fault(self) -> Option<Seq<char>> {
        if text::blank(self.id) {
            Some("schedule id must not be empty"@)
        } else if self.start_time == self.end_time {
            Some("schedule `"@ + self.id + "`: start and end must differ"@)
        } else {
            None
        }
    }
}

/// What each schedule in a list says.
pub open spec fn schedule_models(schedules: Seq<Schedule>) -> Seq<ScheduleModel> {
    schedules.map_values(|s: Schedule| s@)
}

/// The schedules of a list that are live at a wall-clock time, in order.
pub open spec fn live_ones(schedules: Seq<ScheduleModel>, local: LocalTime) -> Seq<ScheduleModel> {
    schedules.filter(|s: ScheduleModel| s.live(local))
}

/// Fields that are left out are taken for true.
pub fn default_true() -> (r: bool)
    ensures
        r,
{
    true
}

impl Schedule {
    /// An enabled schedule for every day that activates no profile.
    pub fn new(id: &str, start_time: WallTime, end_time: WallTime) -> (r: Schedule)
        ensures
            r@ == (ScheduleModel {
                id: id@,
                name: Seq::empty(),
                weekdays: Seq::empty(),
                start_time: start_time@,
                end_time: end_time@,
                profile: None,
                enabled: true,
            }),
    {
        Schedule {
            id: id.to_string(),
            name: String::new(),
            weekdays: Vec::new(),
            start_time,
            end_time,
            profile: None,
            enabled: true,
        }
    }

    /// The schedule under a label.
    pub fn named(self, name: &str) -> (r: Schedule)
        ensures
            r@ == (ScheduleModel { name: name@, ..self@ }),
    {
        Schedule { name: name.to_string(), ..self }
    }

    /// The schedule on the given days.
    pub fn with_weekdays(self, weekdays: Vec<Weekday>) -> (r: Schedule)
        ensures
            r == (Schedule { weekdays, ..self }),
    {
        Schedule { weekdays, ..self }
    }

    /// The schedule with a profile to activate.
    pub fn activating_profile(self, profile: &str) -> (r: Schedule)
        ensures
            r@ == (ScheduleModel { profile: Some(profile@), ..self@ }),
    {
        Schedule { profile: Some(profile.to_string()), ..self }
    }

    /// Is this schedule live at `local` (wall-clock)?
    pub fn matches(&self, local: LocalTime) -> (r: bool)
        ensures
            r == self@.live(local),
    {
        self.enabled && weekday_selected(self.weekdays.as_slice(), local.weekday) && time_in_range(
            self.start_time,
            self.end_time,
            local.time,
        )
    }

    /// Structural validation for persistence.
    pub fn validate(&self) -> (r: Result<(), Error>)
        ensures
            match self@.fault() {
                Some(message) => r is Err && r->Err_0@ == ErrorModel::ConfigValidation(message),
                None => r is Ok,
            },
    {
        if is_blank(self.id.as_str()) {
            return Err(Error::validation("schedule id must not be empty".to_string()));
        }
        if same_time(&self.start_time, &self.end_time) {
            let mut message = "schedule `".to_string();
            message.append(self.id.as_str());
            message.append("`: start and end must differ");
            return Err(Error::validation(message));
        }
        Ok(())
    }
}

impl Clone for Schedule {
    fn clone(&self) -> (r: Schedule)
        ensures
            r@ == self@,
    {
        let weekdays = self.weekdays.clone();
        assert(weekdays@ =~= self.weekdays@);
        Schedule {
            id: self.id.clone(),
            name: self.name.clone(),
            weekdays,
            start_time: self.start_time,
            end_time: self.end_time,
            profile: copy_text_if_any(&self.profile),
            enabled: self.enabled,
        }
    }
}

/// Schedules live at `local`, in declaration order.
pub fn active_schedules(schedules: &[Schedule], local: LocalTime) -> (r: Vec<&Schedule>)
    ensures
        r@.map_values(|s: &Schedule| s@) == live_ones(schedule_models(schedules@), local),
{
    let mut out: Vec<&Schedule> = Vec::new();
    let ghost models = schedule_models(schedules@);
    let ghost keep = |s: ScheduleModel| s.live(local);
    let mut i: usize = 0;
    proof {
        reveal(Seq::filter);
        assert(out@.map_values(|s: &Schedule| s@) =~= models.take(0).filter(keep));
    }
    while i < schedules.len()
        invariant
            i <= schedules@.len(),
            models == schedule_models(schedules@),
            keep == (|s: ScheduleModel| s.live(local)),
            out@.map_values(|s: &Schedule| s@) == models.take(i as int).filter(keep),
        decreases schedules@.len() - i,
    {
        proof {
            reveal(Seq::filter);
            assert(models.take(i + 1).drop_last() =~= models.take(i as int));
            assert(models.take(i + 1).last() == schedules@[i as int]@);
        }
        let ghost before = out@;
        if schedules[i].matches(local) {
            out.push(&schedules[i]);
            assert(out@.map_values(|s: &Schedule| s@) =~= before.map_values(
                |s: &Schedule| s@,
            ).push(schedules@[i as int]@));
        }
        i += 1;
    }
    assert(models.take(models.len() as int) =~= models);
    out
}

/// A time lies in a window where, going round the clock from the start, it comes
/// before the end; a window that ends where it starts is always open.
pub proof fn a_window_runs_round_the_clock(start: int, end: int, value: int, day: int)
    requires
        0 <= start < day,
        0 <= end < day,
        0 <= value < day,
    ensures
        start != end ==> (in_window(start, end, value) <==> (value - start + day) % day < (end
            - start + day) % day),
        start == end ==> in_window(start, end, value),
{
    let a = value - start + day;
    let b = end - start + day;
    assert(a >= day ==> a % day == a - day) by (nonlinear_arith)
        requires
            0 <= a < 2 * day,
    ;
    assert(a < day ==> a % day == a) by (nonlinear_arith)
        requires
            0 <= a < 2 * day,
    ;
    assert(b >= day ==> b % day == b - day) by (nonlinear_arith)
        requires
            0 <= b < 2 * day,
    ;
    assert(b < day ==> b % day == b) by (nonlinear_arith)
        requires
            0 <= b < 2 * day,
    ;
}

/// Without days every day is selected; with one more day that day is, and the
/// others as they were.
pub proof fn days_are_selected_one_by_one(days: Seq<Weekday>, extra: Weekday, day: Weekday)
    ensures
        day_selected(Seq::empty(), day),
        day_selected(seq![extra], day) <==> day == extra,
        days.len() > 0 ==> (day_selected(days.push(extra), day) <==> day == extra || day_selected(
            days,
            day,
        )),
{
    assert(seq![extra].contains(day) <==> day == extra) by {
        assert(seq![extra][0] == extra);
    }
    let more = days.push(extra);
    assert(more[days.len() as int] == extra);
    if days.contains(day) {
        let i = choose|i: int| 0 <= i < days.len() && days[i] == day;
        assert(more[i] == day);
    }
    if more.contains(day) && day != extra {
        let i = choose|i: int| 0 <= i < more.len() && more[i] == day;
        assert(days[i] == day);
    }
}

/// A schedule is live when it is switched on, on one of its days or on any where
/// it names none, from its start until its end on either side of midnight. What
/// it is called and what it activates makes no difference.
pub proof fn schedules_are_live_by_the_clock(s: ScheduleModel, local: LocalTime)
    requires
        s.start_time != s.end_time,
    ensures
        !s.enabled ==> !s.live(local),
        s.weekdays.len() > 0 && !s.weekdays.contains(local.weekday) ==> !s.live(local),
        s.enabled && (s.weekdays.len() == 0 || s.weekdays.contains(local.weekday)) ==> {
            &&& s.start_time < s.end_time ==> (s.live(local) <==> s.start_time <= local.time@
                && local.time@ < s.end_time)
            &&& s.end_time < s.start_time ==> (s.live(local) <==> !(s.end_time <= local.time@
                && local.time@ < s.start_time))
        },
{
}

/// The live schedules are those of the list that are live, in its order.
pub proof fn live_schedules_keep_their_order(schedules: Seq<ScheduleModel>, local: LocalTime)
    ensures
        schedules.len() == 0 ==> live_ones(schedules, local).len() == 0,
        schedules.len() > 0 && schedules.last().live(local) ==> live_ones(schedules, local)
            == live_ones(schedules.drop_last(), local).push(schedules.last()),
        schedules.len() > 0 && !schedules.last().live(local) ==> live_ones(schedules, local)
            == live_ones(schedules.drop_last(), local),
{
    reveal(Seq::filter);
}

/// A schedule can be kept exactly where it has an id that is seen and does not
/// end where it starts.
pub proof fn schedules_need_an_id_and_a_span(s: ScheduleModel)
    ensures
        s.fault() is None <==> s.start_time != s.end_time && exists|i: int|
            0 <= i < s.id.len() && !text::white(#[trigger] s.id[i]),
{
}

/// A day is read from its name or a common abbreviation of it, in any case and
/// with white space around it, and from nothing else.
pub proof fn days_are_read_from_their_names(raw: Seq<char>)
    ensures
        ({
            let name = text::ascii_lower(text::trimmed(raw));
            &&& day_read(raw) == Some(Weekday::Mon) <==> (name == "mon"@ || name == "monday"@)
            &&& day_read(raw) == Some(Weekday::Tue) <==> (name == "tue"@ || name == "tues"@ || name == "tuesday"@)
            &&& day_read(raw) == Some(Weekday::Wed) <==> (name == "wed"@ || name == "wednesday"@)
            &&& day_read(raw) == Some(Weekday::Thu) <==> (name == "thu"@ || name == "thur"@ || name == "thurs"@ || name == "thursday"@)
            &&& day_read(raw) == Some(Weekday::Fri) <==> (name == "fri"@ || name == "friday"@)
            &&& day_read(raw) == Some(Weekday::Sat) <==> (name == "sat"@ || name == "saturday"@)
            &&& day_read(raw) == Some(Weekday::Sun) <==> (name == "sun"@ || name == "sunday"@)
        }),
{
    reveal_day_names();
    reveal_strlit("monday");
    reveal_strlit("tues");
    reveal_strlit("tuesday");
    reveal_strlit("wednesday");
    reveal_strlit("thur");
    reveal_strlit("thurs");
    reveal_strlit("thursday");
    reveal_strlit("friday");
    reveal_strlit("saturday");
    reveal_strlit("sunday");
    let name = text::ascii_lower(text::trimmed(raw));
    if name == "mon"@ {
        assert(name[0] == 'm' && name[1] == 'o');
    }
    if name == "monday"@ {
        assert(name[0] == 'm' && name[1] == 'o');
    }
    if name == "tue"@ {
        assert(name[0] == 't' && name[1] == 'u');
    }
    if name == "tues"@ {
        assert(name[0] == 't' && name[1] == 'u');
    }
    if name == "tuesday"@ {
        assert(name[0] == 't' && name[1] == 'u');
    }
    if name == "wed"@ {
        assert(name[0] == 'w' && name[1] == 'e');
    }
    if name == "wednesday"@ {
        assert(name[0] == 'w' && name[1] == 'e');
    }
    if name == "thu"@ {
        assert(name[0] == 't' && name[1] == 'h');
    }
    if name == "thur"@ {
        assert(name[0] == 't' && name[1] == 'h');
    }
    if name == "thurs"@ {
        assert(name[0] == 't' && name[1] == 'h');
    }
    if name == "thursday"@ {
        assert(name[0] == 't' && name[1] == 'h');
    }
    if name == "fri"@ {
        assert(name[0] == 'f' && name[1] == 'r');
    }
    if name == "friday"@ {
        assert(name[0] == 'f' && name[1] == 'r');
    }
    if name == "sat"@ {
        assert(name[0] == 's' && name[1] == 'a');
    }
    if name == "saturday"@ {
        assert(name[0] == 's' && name[1] == 'a');
    }
    if name == "sun"@ {
        assert(name[0] == 's' && name[1] == 'u');
    }
    if name == "sunday"@ {
        assert(name[0] == 's' && name[1] == 'u');
    }
}

/// Leaving out repetitions keeps every day, each once and where it first stood.
pub proof fn days_are_kept_once(days: Seq<Weekday>, day: Weekday)
    ensures
        distinct_days(Seq::empty()).len() == 0,
        days.contains(day) ==> distinct_days(days.push(day)) == distinct_days(days),
        !days.contains(day) ==> distinct_days(days.push(day)) == distinct_days(days).push(day),
        distinct_days(days).contains(day) <==> days.contains(day),
    decreases days.len(),
{
    if days.len() > 0 {
        let rest = days.drop_last();
        days_are_kept_once(rest, day);
        assert(days =~= rest.push(days.last()));
        assert(days.contains(day) <==> rest.contains(day) || day == days.last()) by {
            if rest.contains(day) {
                let k = choose|k: int| 0 <= k < rest.len() && rest[k] == day;
                assert(days[k] == day);
            }
            if days.contains(day) {
                let k = choose|k: int| 0 <= k < days.len() && days[k] == day;
                if k < rest.len() {
                    assert(rest[k] == day);
                }
            }
            assert(days[days.len() - 1] == days.last());
        }
        let before = distinct_days(rest);
        if !before.contains(days.last()) {
            let after = before.push(days.last());
            assert(after[before.len() as int] == days.last());
            if before.contains(day) {
                let k = choose|k: int| 0 <= k < before.len() && before[k] == day;
                assert(after[k] == day);
            }
            if after.contains(day) {
                let k = choose|k: int| 0 <= k < after.len() && after[k] == day;
                if k < before.len() {
                    assert(before[k] == day);
                }
            }
        }
    }
    assert(days.push(day).drop_last() =~= days);
}

/// Names are read one by one: all of them stand for days exactly where each does,
/// the days come in order, and the first name that stands for none is found.
pub proof fn names_are_read_one_by_one(names: Seq<Seq<char>>, name: Seq<char>)
    ensures
        all_days(Seq::empty()),
        all_days(names.push(name)) <==> all_days(names) && day_read(name) is Some,
        days_read(names).len() == names.len(),
        days_read(names.push(name)).drop_last() == days_read(names),
        day_read(name) matches Some(day) ==> days_read(names.push(name)).last() == day,
        all_days(names) && day_read(name) is None ==> first_unknown(names.push(name)) == name,
        !all_days(names) ==> first_unknown(names.push(name)) == first_unknown(names),
{
    let more = names.push(name);
    assert(days_read(more).drop_last() =~= days_read(names));
    if all_days(more) {
        assert(day_read(more[names.len() as int]) is Some);
        assert forall|i: int| 0 <= i < names.len() implies day_read(#[trigger] names[i]) is Some by {
            assert(day_read(more[i]) is Some);
        }
    }
    if all_days(names) && day_read(name) is None {
        assert forall|i: int| 0 <= i < names.len() implies day_read(#[trigger] more[i]) is Some by {
            assert(more[i] == names[i]);
        }
        lemma_first_unknown(more, names.len() as int);
    }
    if !all_days(names) {
        lemma_unknown_before(names, name);
    }
}

proof fn lemma_unknown_before(names: Seq<Seq<char>>, name: Seq<char>)
    requires
        !all_days(names),
    ensures
        first_unknown(names.push(name)) == first_unknown(names),
    decreases names.len(),
{
    let more = names.push(name);
    assert(more.first() == names.first());
    if day_read(names.first()) is Some {
        let rest = names.drop_first();
        let i = choose|i: int| 0 <= i < names.len() && day_read(#[trigger] names[i]) is None;
        assert(rest[i - 1] == names[i]);
        lemma_unknown_before(rest, name);
        assert(more.drop_first() =~= rest.push(name));
    }
}

} // verus!
