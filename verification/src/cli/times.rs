//! Times and days as they are typed on the command line.
use vstd::prelude::*;
use crate::cli::effect;
use crate::cli::effect::{around, caused_failure, plain_failure, Failure, FailureModel};
use crate::clock;
use crate::clock::{WallTime, Weekday};
use crate::model;
use crate::number;
use crate::number::read_u32;
use crate::rules::{Condition, ConditionModel};
use crate::schedule;
use crate::text;
use crate::text::{split_first, trim};

verus! {

broadcast use vstd::string::group_string_axioms;

/// What is wrong with a typed time.
#[derive(Debug, PartialEq, Eq)]
pub enum TimeFault {
    /// The hour is not a number.
    Hour(String),
    /// The minute is not a number.
    Minute(String),
    /// There is no such time of day.
    Range,
}

/// What a [`TimeFault`] says.
pub enum TimeFaultModel {
    Hour(Seq<char>),
    Minute(Seq<char>),
    Range,
}

impl View for TimeFault {
    type V = TimeFaultModel;

    open spec fn view(&self) -> TimeFaultModel {
        match self {
            TimeFault::Hour(m) => TimeFaultModel::Hour(m@),
            TimeFault::Minute(m) => TimeFaultModel::Minute(m@),
            TimeFault::Range => TimeFaultModel::Range,
        }
    }
}

/// The minute part of a typed time, where there is one: what stands between the
/// first and the second colon.
pub open spec fn minute_part(raw: Seq<char>) -> Option<Seq<char>> {
    match text::behind_first(raw, ':') {
        Some(rest) => Some(text::before_first(rest, ':')),
        None => None,
    }
}

/// The number that a part of a typed time stands for.
pub open spec fn part_value(part: Seq<char>) -> int {
    number::unsigned_value(part)->0 as int
}

/// A typed time `HH:MM`, or `HH` for the full hour, as nanoseconds since
/// midnight. What follows a second colon is not looked at.
pub open spec fn time_typed(raw: Seq<char>) -> Result<int, TimeFaultModel> {
    let hour = text::before_first(raw, ':');
    match number::unsigned_fault(hour, u32::MAX as nat) {
        Some(message) => Err(TimeFaultModel::Hour(message)),
        None => match minute_part(raw) {
            Some(minute) => match number::unsigned_fault(minute, u32::MAX as nat) {
                Some(message) => Err(TimeFaultModel::Minute(message)),
                None => if part_value(hour) < 24 && part_value(minute) < 60 {
                    Ok(clock::clock(part_value(hour), part_value(minute), 0))
                } else {
                    Err(TimeFaultModel::Range)
                },
            },
            None => if part_value(hour) < 24 {
                Ok(clock::clock(part_value(hour), 0, 0))
            } else {
                Err(TimeFaultModel::Range)
            },
        },
    }
}

/// Reads a typed time.
pub fn read_time(raw: &str) -> (r: Result<WallTime, TimeFault>)
    ensures
        match time_typed(raw@) {
            Ok(t) => r is Ok && r->Ok_0@ == t,
            Err(fault) => r is Err && r->Err_0@ == fault,
        },
{
    proof {
        number::numbers_have_no_fault(text::before_first(raw@, ':'), u32::MAX as nat);
    }
    let (hour_text, rest) = split_first(raw, ':');
    let hour: u32 = match read_u32(hour_text.as_str()) {
        Ok(n) => n,
        Err(message) => {
            return Err(TimeFault::Hour(message));
        },
    };
    let minute: u32 = match rest {
        Some(rest) => {
            let (minute_text, _) = split_first(rest.as_str(), ':');
            proof {
                number::numbers_have_no_fault(minute_text@, u32::MAX as nat);
            }
            match read_u32(minute_text.as_str()) {
                Ok(n) => n,
                Err(message) => {
                    return Err(TimeFault::Minute(message));
                },
            }
        },
        None => 0,
    };
    match WallTime::from_hms(hour, minute, 0) {
        Some(t) => Ok(t),
        None => Err(TimeFault::Range),
    }
}

/// The message that a typed time is no time.
pub open spec fn bad_time(raw: Seq<char>) -> Seq<char> {
    "bad time `"@ + raw + "`"@
}

/// A typed time, with what is wrong with a part of it as the message.
pub open spec fn time_or_message(typed: Seq<char>, shown: Seq<char>) -> Result<int, Seq<char>> {
    match time_typed(typed) {
        Ok(t) => Ok(t),
        Err(TimeFaultModel::Hour(m)) => Err(m),
        Err(TimeFaultModel::Minute(m)) => Err(m),
        Err(TimeFaultModel::Range) => Err(bad_time(shown)),
    }
}

/// Reads a typed time, with what is wrong with it as a message about `shown`.
pub fn read_time_or_message(typed: &str, shown: &str) -> (r: Result<WallTime, String>)
    ensures
        match time_or_message(typed@, shown@) {
            Ok(t) => r is Ok && r->Ok_0@ == t,
            Err(message) => r is Err && r->Err_0@ == message,
        },
{
    match read_time(typed) {
        Ok(t) => Ok(t),
        Err(TimeFault::Hour(m)) => Err(m),
        Err(TimeFault::Minute(m)) => Err(m),
        Err(TimeFault::Range) => Err(around("bad time `", shown, "`")),
    }
}

/// A time as `tpt-focus evaluate` takes it.
pub fn parse_hm(raw: &str) -> (r: Result<WallTime, String>)
    ensures
        match time_or_message(text::trimmed(raw@), raw@) {
            Ok(t) => r is Ok && r->Ok_0@ == t,
            Err(message) => r is Err && r->Err_0@ == message,
        },
{
    let trimmed = trim(raw);
    read_time_or_message(trimmed.as_str(), raw)
}

/// A time as `tpt-focus schedules` takes it, with what is wrong with a part of it
/// behind the message.
pub open spec fn schedule_time(raw: Seq<char>) -> Result<int, FailureModel> {
    match time_typed(text::trimmed(raw)) {
        Ok(t) => Ok(t),
        Err(TimeFaultModel::Hour(m)) => Err(effect::caused("bad hour"@, m)),
        Err(TimeFaultModel::Minute(m)) => Err(effect::caused("bad minute"@, m)),
        Err(TimeFaultModel::Range) => Err(effect::plain(bad_time(raw))),
    }
}

/// A time as `tpt-focus schedules` takes it.
pub fn parse_schedule_time(raw: &str) -> (r: Result<WallTime, Failure>)
    ensures
        match schedule_time(raw@) {
            Ok(t) => r is Ok && r->Ok_0@ == t,
            Err(failure) => r is Err && r->Err_0@ == failure,
        },
{
    let trimmed = trim(raw);
    match read_time(trimmed.as_str()) {
        Ok(t) => Ok(t),
        Err(TimeFault::Hour(m)) => Err(caused_failure("bad hour", m)),
        Err(TimeFault::Minute(m)) => Err(caused_failure("bad minute", m)),
        Err(TimeFault::Range) => Err(plain_failure(around("bad time `", raw, "`"))),
    }
}

/// The days of the first `n` typed names, or the message about the first that
/// stands for none.
pub open spec fn days_typed(names: Seq<Seq<char>>, n: nat) -> Result<Seq<Weekday>, Seq<char>>
    decreases n,
{
    if n == 0 {
        Ok(Seq::empty())
    } else {
        match days_typed(names, (n - 1) as nat) {
            Ok(days) => match schedule::day_read(names[n - 1]) {
                Some(day) => Ok(days.push(day)),
                None => Err(
                    "unknown weekday `"@ + names[n - 1] + "` (use mon tue wed thu fri sat sun)"@,
                ),
            },
            Err(message) => Err(message),
        }
    }
}

proof fn lemma_unknown_stays(names: Seq<Seq<char>>, k: nat, n: nat)
    requires
        k <= n,
        days_typed(names, k) is Err,
    ensures
        days_typed(names, n) == days_typed(names, k),
    decreases n,
{
    if k < n {
        lemma_unknown_stays(names, k, (n - 1) as nat);
    }
}

/// A day as it is typed.
pub fn parse_weekday(raw: &str) -> (r: Result<Weekday, String>)
    ensures
        match schedule::day_read(raw@) {
            Some(day) => r is Ok && r->Ok_0 == day,
            None => r is Err && r->Err_0@ == "unknown weekday `"@ + raw@
                + "` (use mon tue wed thu fri sat sun)"@,
        },
{
    match schedule::parse_weekday(raw) {
        Some(day) => Ok(day),
        None => Err(
            around("unknown weekday `", raw, "` (use mon tue wed thu fri sat sun)"),
        ),
    }
}

/// Days as they are typed.
pub fn parse_weekdays(names: &Vec<String>) -> (r: Result<Vec<Weekday>, String>)
    ensures
        match days_typed(model::texts(names@), names@.len()) {
            Ok(days) => r is Ok && r->Ok_0@ == days,
            Err(message) => r is Err && r->Err_0@ == message,
        },
{
    let ghost all = model::texts(names@);
    let mut days: Vec<Weekday> = Vec::new();
    let mut i: usize = 0;
    while i < names.len()
        invariant
            i <= names@.len(),
            all == model::texts(names@),
            days_typed(all, i as nat) == Ok::<Seq<Weekday>, Seq<char>>(days@),
        decreases names@.len() - i,
    {
        assert(all[i as int] == names@[i as int]@);
        match parse_weekday(names[i].as_str()) {
            Ok(day) => {
                days.push(day);
            },
            Err(message) => {
                proof {
                    assert(days_typed(all, (i + 1) as nat) is Err);
                    lemma_unknown_stays(all, (i + 1) as nat, names@.len());
                }
                return Err(message);
            },
        }
        i += 1;
    }
    Ok(days)
}

/// The condition that a typed window `HH:MM-HH:MM` and typed days make.
pub open spec fn window_typed(window: Seq<char>, names: Seq<Seq<char>>) -> Result<
    ConditionModel,
    Seq<char>,
> {
    match text::behind_first(window, '-') {
        None => Err("--time expects `HH:MM-HH:MM`, got `"@ + window + "`"@),
        Some(rest) => {
            let start_text = text::trimmed(text::before_first(window, '-'));
            let end_text = text::trimmed(rest);
            match time_or_message(start_text, start_text) {
                Err(message) => Err(message),
                Ok(start) => match time_or_message(end_text, end_text) {
                    Err(message) => Err(message),
                    Ok(end) => match days_typed(names, names.len()) {
                        Err(message) => Err(message),
                        Ok(weekdays) => Ok(ConditionModel::TimeOfDay { start, end, weekdays }),
                    },
                },
            }
        },
    }
}

/// Parse `HH:MM-HH:MM` with optional weekday filters into a condition.
pub fn parse_time_window(window: &str, weekdays: &Vec<String>) -> (r: Result<Condition, String>)
    ensures
        match window_typed(window@, model::texts(weekdays@)) {
            Ok(condition) => r is Ok && r->Ok_0@ == condition,
            Err(message) => r is Err && r->Err_0@ == message,
        },
{
    assert(model::texts(weekdays@).len() == weekdays@.len());
    let (start_raw, rest) = split_first(window, '-');
    let end_raw = match rest {
        Some(rest) => rest,
        None => {
            return Err(around("--time expects `HH:MM-HH:MM`, got `", window, "`"));
        },
    };
    let start_text = trim(start_raw.as_str());
    let end_text = trim(end_raw.as_str());
    let start = match read_time_or_message(start_text.as_str(), start_text.as_str()) {
        Ok(t) => t,
        Err(message) => {
            return Err(message);
        },
    };
    let end = match read_time_or_message(end_text.as_str(), end_text.as_str()) {
        Ok(t) => t,
        Err(message) => {
            return Err(message);
        },
    };
    match parse_weekdays(weekdays) {
        Ok(weekdays) => Ok(Condition::TimeOfDay { start, end, weekdays }),
        Err(message) => Err(message),
    }
}

proof fn lemma_numbers_hold_no(s: Seq<char>, c: char)
    requires
        number::unsigned_value(s) is Some,
        c == ':' || c == '-',
    ensures
        !s.contains(c),
{
    if s.contains(c) {
        let i = choose|i: int| 0 <= i < s.len() && s[i] == c;
        if s[0] == '+' {
            assert(s.drop_first()[i - 1] == c);
        }
    }
}

/// A typed time counts its hours and minutes from midnight, and the full hour
/// where no minutes were typed. There is none from the 24th hour or the 60th
/// minute on.
pub proof fn typed_times_count_from_midnight(
    hour: Seq<char>,
    minute: Seq<char>,
    h: nat,
    m: nat,
)
    requires
        number::unsigned_value(hour) == Some(h),
        number::unsigned_value(minute) == Some(m),
        h <= u32::MAX,
        m <= u32::MAX,
    ensures
        h < 24 && m < 60 ==> time_typed(hour.push(':') + minute) == Ok::<int, TimeFaultModel>(
            (h as int * 60 + m) * 60_000_000_000,
        ),
        h < 24 ==> time_typed(hour) == Ok::<int, TimeFaultModel>(h as int * 3_600_000_000_000),
        h >= 24 || m >= 60 ==> time_typed(hour.push(':') + minute) == Err::<int, TimeFaultModel>(
            TimeFaultModel::Range,
        ),
        h >= 24 ==> time_typed(hour) == Err::<int, TimeFaultModel>(TimeFaultModel::Range),
{
    lemma_numbers_hold_no(hour, ':');
    lemma_numbers_hold_no(minute, ':');
    text::splitting_finds_the_parts(hour, ':', minute);
    text::splitting_finds_the_parts(minute, ':', minute);
    number::numbers_have_no_fault(hour, u32::MAX as nat);
    number::numbers_have_no_fault(minute, u32::MAX as nat);
}

/// What is wrong with a typed time is found in its hour first, then in its
/// minute.
pub proof fn times_are_faulted_part_by_part(hour: Seq<char>, minute: Seq<char>)
    requires
        !hour.contains(':'),
        !minute.contains(':'),
    ensures
        ({
            let hour_fault = number::unsigned_fault(hour, u32::MAX as nat);
            let minute_fault = number::unsigned_fault(minute, u32::MAX as nat);
            let typed = time_typed(hour.push(':') + minute);
            &&& hour_fault is Some ==> typed == Err::<int, TimeFaultModel>(
                TimeFaultModel::Hour(hour_fault->0),
            )
            &&& hour_fault is None && minute_fault is Some ==> typed == Err::<int, TimeFaultModel>(
                TimeFaultModel::Minute(minute_fault->0),
            )
        }),
{
    text::splitting_finds_the_parts(hour, ':', minute);
    text::splitting_finds_the_parts(minute, ':', minute);
}

/// Both ways to take a time agree on what is one; where it is none, each says
/// why in its own words.
pub proof fn schedules_and_rules_agree_on_times(raw: Seq<char>, why: Seq<char>)
    ensures
        schedule_time(raw) is Ok <==> time_or_message(text::trimmed(raw), raw) is Ok,
        schedule_time(raw) matches Ok(t) ==> time_or_message(text::trimmed(raw), raw) == Ok::<
            int,
            Seq<char>,
        >(t),
        time_typed(text::trimmed(raw)) matches Ok(t) ==> schedule_time(raw) == Ok::<
            int,
            FailureModel,
        >(t),
        time_typed(text::trimmed(raw)) == Err::<int, TimeFaultModel>(TimeFaultModel::Range) ==> {
            &&& schedule_time(raw) == Err::<int, FailureModel>(
                effect::plain("bad time `"@ + raw + "`"@),
            )
            &&& time_or_message(text::trimmed(raw), raw) == Err::<int, Seq<char>>(
                "bad time `"@ + raw + "`"@,
            )
        },
        time_typed(text::trimmed(raw)) == Err::<int, TimeFaultModel>(TimeFaultModel::Hour(why))
            ==> schedule_time(raw) == Err::<int, FailureModel>(effect::caused("bad hour"@, why))
            && time_or_message(text::trimmed(raw), raw) == Err::<int, Seq<char>>(why),
        time_typed(text::trimmed(raw)) == Err::<int, TimeFaultModel>(TimeFaultModel::Minute(why))
            ==> schedule_time(raw) == Err::<int, FailureModel>(effect::caused("bad minute"@, why))
            && time_or_message(text::trimmed(raw), raw) == Err::<int, Seq<char>>(why),
{
}

/// Typed days are taken one by one, in order; the first that is none is named.
pub proof fn typed_days_are_taken_in_order(names: Seq<Seq<char>>, n: nat, k: int)
    requires
        n <= names.len(),
        0 <= k < n,
    ensures
        days_typed(names, n) matches Ok(days) ==> days.len() == n && schedule::day_read(names[k])
            == Some(days[k]),
        schedule::day_read(names[k]) is None && (forall|i: int|
            0 <= i < k ==> schedule::day_read(#[trigger] names[i]) is Some) ==> days_typed(names, n)
            == Err::<Seq<Weekday>, Seq<char>>(
            "unknown weekday `"@ + names[k] + "` (use mon tue wed thu fri sat sun)"@,
        ),
        (forall|i: int| 0 <= i < n ==> schedule::day_read(#[trigger] names[i]) is Some)
            ==> days_typed(names, n) is Ok,
    decreases n,
{
    if n > 1 {
        if k < n - 1 {
            typed_days_are_taken_in_order(names, (n - 1) as nat, k);
        } else {
            typed_days_are_taken_in_order(names, (n - 1) as nat, 0);
        }
    } else {
        assert(days_typed(names, 0) == Ok::<Seq<Weekday>, Seq<char>>(Seq::empty()));
    }
}

/// A typed window holds the time before its dash as its start and the one
/// behind as its end, on the days that were typed; there is none without a dash.
pub proof fn typed_windows_run_from_start_to_end(
    start: Seq<char>,
    end: Seq<char>,
    names: Seq<Seq<char>>,
)
    requires
        !start.contains('-'),
    ensures
        window_typed(start, names) is Err,
        window_typed(start.push('-') + end, names) is Ok <==> time_typed(text::trimmed(start)) is Ok
            && time_typed(text::trimmed(end)) is Ok && days_typed(names, names.len()) is Ok,
        window_typed(start.push('-') + end, names) matches Ok(condition) ==> condition == (
        ConditionModel::TimeOfDay {
            start: time_typed(text::trimmed(start))->Ok_0,
            end: time_typed(text::trimmed(end))->Ok_0,
            weekdays: days_typed(names, names.len())->Ok_0,
        }),
{
    text::splitting_finds_the_parts(start, '-', end);
}

} // verus!
