//! Instants, spans, wall-clock times and weekdays.
//!
//! An instant is modelled by the nanoseconds since the Unix epoch, a
//! wall-clock time by the nanoseconds since midnight, a span by its
//! nanoseconds. Leap seconds are not told apart from the last nanosecond of
//! the second before them.
use vstd::prelude::*;
use chrono::{DateTime, Datelike, Local, NaiveTime, Timelike, Utc};
use crate::number;

verus! {

/// Seconds since the epoch of the earliest instant that the calendar reaches.
pub const FIRST_SECOND: i64 = -8_334_601_228_800;

/// Seconds since the epoch of the last full second that the calendar reaches.
pub const LAST_SECOND: i64 = 8_210_266_876_799;

/// Nanoseconds in a second.
pub const SECOND: i128 = 1_000_000_000;

/// A day of the week.
#[derive(Clone, Copy, Debug, PartialEq, Eq, Hash, Structural)]
pub enum Weekday {
    Mon,
    Tue,
    Wed,
    Thu,
    Fri,
    Sat,
    Sun,
}

/// The day that many days after Monday.
pub open spec fn weekday_at(days: int) -> Weekday {
    if days == 0 {
        Weekday::Mon
    } else if days == 1 {
        Weekday::Tue
    } else if days == 2 {
        Weekday::Wed
    } else if days == 3 {
        Weekday::Thu
    } else if days == 4 {
        Weekday::Fri
    } else if days == 5 {
        Weekday::Sat
    } else {
        Weekday::Sun
    }
}

impl Weekday {
    /// The day that many days after Monday.
    pub fn from_monday(days: u32) -> (r: Weekday)
        requires
            days < 7,
        ensures
            r == weekday_at(days as int),
    {
        if days == 0 {
            Weekday::Mon
        } else if days == 1 {
            Weekday::Tue
        } else if days == 2 {
            Weekday::Wed
        } else if days == 3 {
            Weekday::Thu
        } else if days == 4 {
            Weekday::Fri
        } else if days == 5 {
            Weekday::Sat
        } else {
            Weekday::Sun
        }
    }
}

/// A length of time.
#[derive(Clone, Copy, Debug, PartialEq, Eq, Structural)]
pub struct Span {
    /// Nanoseconds.
    pub nanos: u128,
}

impl View for Span {
    type V = int;

    open spec fn view(&self) -> int {
        self.nanos as int
    }
}

impl Span {
    /// A span of whole seconds.
    pub fn from_secs(secs: u64) -> (r: Span)
        ensures
            r@ == secs * SECOND,
    {
        Span { nanos: secs as u128 * 1_000_000_000 }
    }

    /// A span of whole days.
    pub fn from_days(days: u64) -> (r: Span)
        ensures
            r@ == days * 86_400 * SECOND,
    {
        Span { nanos: days as u128 * 86_400_000_000_000 }
    }

    /// A span of whole minutes.
    pub fn from_minutes(minutes: u64) -> (r: Span)
        ensures
            r@ == minutes * 60 * SECOND,
    {
        Span { nanos: minutes as u128 * 60_000_000_000 }
    }

    /// A span of whole milliseconds.
    pub fn from_millis(millis: u64) -> (r: Span)
        ensures
            r@ == millis * 1_000_000,
    {
        Span { nanos: millis as u128 * 1_000_000 }
    }
}

/// A wall-clock time of day.
#[derive(Clone, Copy, Debug, PartialEq, Eq, Hash, Structural)]
pub struct WallTime {
    secs: u32,
    nanos: u32,
}

impl View for WallTime {
    type V = int;

    closed spec fn view(&self) -> int {
        self.secs * SECOND + self.nanos
    }
}

/// Nanoseconds since midnight for an hour, a minute and a second.
pub open spec fn clock(hour: int, minute: int, second: int) -> int {
    (hour * 3600 + minute * 60 + second) * SECOND
}

impl WallTime {
    #[verifier::type_invariant]
    spec fn within_day(self) -> bool {
        self.secs < 86_400 && self.nanos < 1_000_000_000
    }

    /// The time that many seconds and nanoseconds after midnight, where there
    /// is one.
    pub fn new(secs: u32, nanos: u32) -> (r: Option<WallTime>)
        ensures
            r is Some <==> secs < 86_400 && nanos < 1_000_000_000,
            r is Some ==> r->0@ == secs * SECOND + nanos,
    {
        if secs < 86_400 && nanos < 1_000_000_000 {
            Some(WallTime { secs, nanos })
        } else {
            None
        }
    }

    /// The time at an hour, a minute and a second, where there is one.
    pub fn from_hms(hour: u32, minute: u32, second: u32) -> (r: Option<WallTime>)
        ensures
            r is Some <==> hour < 24 && minute < 60 && second < 60,
            r is Some ==> r->0@ == clock(hour as int, minute as int, second as int),
    {
        match naive_time_from_hms(hour, minute, second) {
            Some(secs) => Some(WallTime { secs, nanos: 0 }),
            None => None,
        }
    }

    /// Whole seconds since midnight.
    pub fn seconds(&self) -> (r: u32)
        ensures
            r == self@ / SECOND as int,
            r < 86_400,
    {
        proof {
            use_type_invariant(self);
        }
        self.secs
    }

    /// Nanoseconds since the last full second.
    pub fn subsecond_nanos(&self) -> (r: u32)
        ensures
            r == self@ % SECOND as int,
            r < 1_000_000_000,
    {
        proof {
            use_type_invariant(self);
        }
        self.nanos
    }

    /// Nanoseconds since midnight.
    pub fn nanos(&self) -> (r: u64)
        ensures
            r == self@,
            r < 86_400_000_000_000,
    {
        proof {
            use_type_invariant(self);
        }
        self.secs as u64 * 1_000_000_000 + self.nanos as u64
    }

    /// The time as a clock shows it, `HH:MM:SS` with the fraction where there
    /// is one.
    pub fn to_text(&self) -> (r: String)
        ensures
            r@ == shown_time(self@),
            time_read_nanos(r@) == Some(self@),
    {
        proof {
            use_type_invariant(self);
        }
        naive_time_to_string(self.secs, self.nanos)
    }

    /// Reads a time of day, `HH:MM` or `HH:MM:SS` with an optional fraction.
    pub fn read(text: &str) -> (r: Option<WallTime>)
        ensures
            r is Some <==> time_read_nanos(text@) is Some,
            r is Some ==> r->0@ == time_read_nanos(text@)->0,
    {
        match naive_time_parse(text) {
            Some(parts) => {
                let nanos: u32 = if parts.1 < 1_000_000_000 {
                    parts.1
                } else {
                    999_999_999
                };
                Some(WallTime { secs: parts.0, nanos })
            },
            None => None,
        }
    }
}

/// Two wall-clock times are the same value exactly when they lie the same
/// distance from midnight.
pub fn same_time(a: &WallTime, b: &WallTime) -> (r: bool)
    ensures
        r == (a@ == b@),
{
    proof {
        use_type_invariant(a);
        use_type_invariant(b);
    }
    a.secs == b.secs && a.nanos == b.nanos
}

/// A weekday together with a time of day: the wall clock as schedules read it.
#[derive(Clone, Copy, Debug, PartialEq, Eq, Hash, Structural)]
pub struct LocalTime {
    pub weekday: Weekday,
    pub time: WallTime,
}

/// An instant in universal time.
#[derive(Clone, Copy, Debug, PartialEq, Eq, Hash, Structural)]
pub struct Timestamp {
    secs: i64,
    nanos: u32,
}

impl View for Timestamp {
    type V = int;

    closed spec fn view(&self) -> int {
        self.secs * SECOND + self.nanos
    }
}

/// Milliseconds since the epoch, rounded down.
pub open spec fn millis_of(t: int) -> int {
    t / 1_000_000
}

/// A number of milliseconds since the epoch that the calendar reaches.
pub open spec fn reachable_millis(millis: int) -> bool {
    FIRST_SECOND * 1000 <= millis < (LAST_SECOND + 1) * 1000
}

/// An instant, in nanoseconds, that the calendar reaches.
pub open spec fn reachable(t: int) -> bool {
    FIRST_SECOND * SECOND <= t < (LAST_SECOND + 1) * SECOND
}

impl Timestamp {
    #[verifier::type_invariant]
    spec fn on_calendar(self) -> bool {
        FIRST_SECOND <= self.secs <= LAST_SECOND && self.nanos < 1_000_000_000
    }

    /// The instant that many seconds and nanoseconds after the epoch, where
    /// the calendar reaches it.
    pub fn new(secs: i64, nanos: u32) -> (r: Option<Timestamp>)
        ensures
            r is Some <==> FIRST_SECOND <= secs <= LAST_SECOND && nanos < 1_000_000_000,
            r is Some ==> r->0@ == secs * SECOND + nanos,
    {
        if FIRST_SECOND <= secs && secs <= LAST_SECOND && nanos < 1_000_000_000 {
            Some(Timestamp { secs, nanos })
        } else {
            None
        }
    }

    /// The instant a number of milliseconds after the epoch, where the
    /// calendar reaches it.
    pub fn from_millis(millis: i64) -> (r: Option<Timestamp>)
        ensures
            r is Some <==> reachable_millis(millis as int),
            r is Some ==> r->0@ == millis * 1_000_000,
    {
        match datetime_from_millis(millis) {
            Some(parts) => Some(Timestamp { secs: parts.0, nanos: parts.1 }),
            None => None,
        }
    }

    /// The present instant.
    pub fn now() -> (r: Timestamp)
        ensures
            r@ >= 0,
    {
        let reading = read_clock();
        Timestamp { secs: reading.0, nanos: reading.1 }
    }

    /// Whole seconds since the epoch, rounded down.
    pub fn seconds(&self) -> (r: i64)
        ensures
            r == self@ / SECOND as int,
            FIRST_SECOND <= r <= LAST_SECOND,
    {
        proof {
            use_type_invariant(self);
        }
        self.secs
    }

    /// Nanoseconds since the last full second.
    pub fn subsecond_nanos(&self) -> (r: u32)
        ensures
            r == self@ % SECOND as int,
            r < 1_000_000_000,
    {
        proof {
            use_type_invariant(self);
        }
        self.nanos
    }

    /// Milliseconds since the epoch, rounded down.
    pub fn millis(&self) -> (r: i64)
        ensures
            r == millis_of(self@),
            reachable_millis(r as int),
    {
        proof {
            use_type_invariant(self);
            assert(millis_of(self@) == self.secs * 1000 + self.nanos as int / 1_000_000) by {
                assert(self@ == self.secs * 1_000_000_000 + self.nanos);
            }
        }
        self.secs * 1000 + (self.nanos / 1_000_000) as i64
    }

    /// Nanoseconds since the epoch.
    pub fn nanos(&self) -> (r: i128)
        ensures
            r == self@,
            reachable(r as int),
    {
        proof {
            use_type_invariant(self);
        }
        self.secs as i128 * 1_000_000_000 + self.nanos as i128
    }

    /// The instant a span later, held back to the end of the calendar.
    pub fn later_by(&self, span: Span) -> (r: Timestamp)
        ensures
            reachable(self@ + span@) ==> r@ == self@ + span@,
            !reachable(self@ + span@) ==> r@ == (LAST_SECOND + 1) * SECOND - 1,
    {
        let at: i128 = self.nanos();
        let room: i128 = 8_210_266_876_800 * 1_000_000_000 - 1 - at;
        if span.nanos <= room as u128 {
            let total: i128 = at + span.nanos as i128;
            timestamp_of(total)
        } else {
            Timestamp { secs: LAST_SECOND, nanos: 999_999_999 }
        }
    }

    /// The instant a span earlier, held back to the start of the calendar.
    pub fn earlier_by(&self, span: Span) -> (r: Timestamp)
        ensures
            reachable(self@ - span@) ==> r@ == self@ - span@,
            !reachable(self@ - span@) ==> r@ == FIRST_SECOND * SECOND,
    {
        let at: i128 = self.nanos();
        let room: i128 = at - FIRST_SECOND as i128 * 1_000_000_000;
        if span.nanos <= room as u128 {
            let total: i128 = at - span.nanos as i128;
            timestamp_of(total)
        } else {
            Timestamp { secs: FIRST_SECOND, nanos: 0 }
        }
    }
}

/// Rounds towards negative infinity what Rust's `/` rounds towards zero.
pub fn floor_div(a: i128, b: i128) -> (r: i128)
    requires
        0 < b < 0x1_0000_0000_0000,
        -0x1_0000_0000_0000_0000_0000_0000_0000 <= a <= 0x1_0000_0000_0000_0000_0000_0000_0000,
    ensures
        r == a as int / b as int,
{
    if a >= 0 {
        a / b
    } else {
        let up: i128 = (-a + b - 1) / b;
        proof {
            let x = a as int;
            let d = b as int;
            let q = (-x + d - 1) / d;
            let rest = (-x + d - 1) % d;
            assert(-x + d - 1 == d * q + rest && 0 <= rest < d) by (nonlinear_arith)
                requires
                    d > 0,
                    q == (-x + d - 1) / d,
                    rest == (-x + d - 1) % d,
            ;
            assert(x == d * (-q) + (d - 1 - rest)) by (nonlinear_arith)
                requires
                    -x + d - 1 == d * q + rest,
            ;
            vstd::arithmetic::div_mod::lemma_fundamental_div_mod_converse(x, d, -q, d - 1 - rest);
        }
        -up
    }
}

fn timestamp_of(total: i128) -> (r: Timestamp)
    requires
        reachable(total as int),
    ensures
        r@ == total,
{
    let secs: i128 = floor_div(total, 1_000_000_000);
    let nanos: i128 = total - secs * 1_000_000_000;
    Timestamp { secs: secs as i64, nanos: nanos as u32 }
}

/// The wall clock of this machine, now.
pub fn local_now() -> (r: LocalTime)
    ensures
        0 <= r.time@ < 86_400 * SECOND,
{
    let reading = read_clock();
    LocalTime {
        weekday: Weekday::from_monday(reading.2),
        time: WallTime { secs: reading.3, nanos: reading.4 },
    }
}

/// A difference between local and universal time, in seconds: under a day either
/// way.
pub open spec fn utc_offset(offset: int) -> bool {
    -86_400 < offset < 86_400
}

/// `local` is what a wall clock with an offset shows at an instant. The epoch
/// began on a Thursday.
pub open spec fn clock_shows(local: LocalTime, t: int, offset: int) -> bool {
    let shifted = t + offset * SECOND;
    &&& local.time@ == shifted % (86_400 * SECOND)
    &&& local.weekday == weekday_at((shifted / (86_400 * SECOND) + 3) % 7)
}

/// `local` is what a wall clock shows at an instant, at some offset.
pub open spec fn shown_somewhere(local: LocalTime, t: int) -> bool {
    exists|offset: int| #[trigger] utc_offset(offset) && clock_shows(local, t, offset)
}

/// Days since Monday and seconds since midnight, on a wall clock at some offset,
/// for that many seconds since the epoch.
pub open spec fn read_somewhere(second: int, from_monday: int, from_midnight: int) -> bool {
    exists|offset: int| #[trigger]
        utc_offset(offset) && from_monday == ((second + offset) / 86_400 + 3) % 7 && from_midnight
            == (second + offset) % 86_400
}

/// The present instant and the wall clock of this machine at that instant. Where
/// the machine stands is open; the clock shows the instant at some offset.
pub fn now_with_local() -> (r: (Timestamp, LocalTime))
    ensures
        r.0@ >= 0,
        0 <= r.1.time@ < 86_400 * SECOND,
        shown_somewhere(r.1, r.0@),
{
    let reading = read_clock();
    let now = Timestamp { secs: reading.0, nanos: reading.1 };
    let local = LocalTime {
        weekday: Weekday::from_monday(reading.2),
        time: WallTime { secs: reading.3, nanos: reading.4 },
    };
    proof {
        let offset = choose|offset: int| #[trigger]
            utc_offset(offset) && reading.2 == ((reading.0 + offset) / 86_400 + 3) % 7 && reading.3
                == (reading.0 + offset) % 86_400;
        let days = (reading.0 + offset) / 86_400;
        assert(reading.0 + offset == 86_400 * days + reading.3);
        vstd::arithmetic::div_mod::lemma_fundamental_div_mod_converse(
            now@ + offset * SECOND,
            86_400 * SECOND,
            days,
            local.time@,
        );
        assert(clock_shows(local, now@, offset));
    }
    (now, local)
}

/// `chrono::Utc::now`, and the same instant in `chrono::Local`: seconds and
/// nanoseconds since the epoch, days since Monday, seconds since local
/// midnight and nanoseconds since the last full second. Claimed is that each
/// number lies in its range, and that the last three show the instant at one
/// offset from universal time. Which instant it is and which offset depends on
/// the machine.
#[verifier::external_body]
fn read_clock() -> (r: (i64, u32, u32, u32, u32))
    ensures
        0 <= r.0 <= LAST_SECOND,
        r.1 < 1_000_000_000,
        r.2 < 7,
        r.3 < 86_400,
        r.4 == r.1,
        read_somewhere(r.0 as int, r.2 as int, r.3 as int),
{
    let now = Utc::now();
    let local = now.with_timezone(&Local).naive_local();
    (
        now.timestamp(),
        now.timestamp_subsec_nanos(),
        local.weekday().num_days_from_monday(),
        local.num_seconds_from_midnight(),
        local.nanosecond(),
    )
}

/// `chrono::NaiveTime::from_hms_opt`, as seconds since midnight: there is such
/// a time exactly for hours under 24 and minutes and seconds under 60.
#[verifier::external_body]
fn naive_time_from_hms(hour: u32, minute: u32, second: u32) -> (r: Option<u32>)
    ensures
        r == (if hour < 24 && minute < 60 && second < 60 {
            Some((hour * 3600 + minute * 60 + second) as u32)
        } else {
            None::<u32>
        }),
{
    NaiveTime::from_hms_opt(hour, minute, second).map(|t| t.num_seconds_from_midnight())
}

/// A number in decimal notation, filled up with zeros on its left.
pub open spec fn zero_filled(n: int, width: int) -> Seq<char> {
    let digits = number::digits(n as nat);
    Seq::new((width - digits.len()) as nat, |i: int| '0') + digits
}

/// A fraction of a second, in nanoseconds, behind its point: three, six or nine
/// digits, as few as it takes, and nothing for a full second.
pub open spec fn shown_fraction(nanos: int) -> Seq<char> {
    if nanos == 0 {
        Seq::empty()
    } else if nanos % 1_000_000 == 0 {
        seq!['.'] + zero_filled(nanos / 1_000_000, 3)
    } else if nanos % 1_000 == 0 {
        seq!['.'] + zero_filled(nanos / 1_000, 6)
    } else {
        seq!['.'] + zero_filled(nanos, 9)
    }
}

/// A time of day, in nanoseconds since midnight, as a clock shows it:
/// `HH:MM:SS` with the fraction where there is one.
pub open spec fn shown_time(t: int) -> Seq<char> {
    let secs = t / SECOND as int;
    zero_filled(secs / 3600, 2) + seq![':'] + zero_filled(secs / 60 % 60, 2) + seq![':']
        + zero_filled(secs % 60, 2) + shown_fraction(t % SECOND as int)
}

/// What `chrono::NaiveTime` reads from a text: seconds since midnight and
/// nanoseconds since the last full second, which reach a second and more only
/// within a leap second.
pub uninterp spec fn time_read(text: Seq<char>) -> Option<(u32, u32)>;

/// A year with a 29th of February.
pub open spec fn leap_year(year: int) -> bool {
    year % 4 == 0 && (year % 100 != 0 || year % 400 == 0)
}

/// The number of days in a month.
pub open spec fn month_days(year: int, month: int) -> int {
    if month == 2 {
        if leap_year(year) {
            29
        } else {
            28
        }
    } else if month == 4 || month == 6 || month == 9 || month == 11 {
        30
    } else {
        31
    }
}

/// The number of days in a year before a month.
pub open spec fn days_before_month(year: int, month: int) -> int
    decreases month,
{
    if month <= 1 {
        0
    } else {
        days_before_month(year, month - 1) + month_days(year, month - 1)
    }
}

/// The number of days from the first day of the year 1 to a year.
pub open spec fn days_before_year(year: int) -> int {
    365 * (year - 1) + (year - 1) / 4 - (year - 1) / 100 + (year - 1) / 400
}

/// A date is that many days after the first of January 1970.
pub open spec fn dated(days: int, year: int, month: int, day: int) -> bool {
    &&& 1 <= month <= 12
    &&& 1 <= day <= month_days(year, month)
    &&& days == days_before_year(year) - days_before_year(1970) + days_before_month(year, month)
        + day - 1
}

/// A year in four digits; one that they do not reach has a sign and the digits
/// it takes.
pub open spec fn shown_year(year: int) -> Seq<char> {
    if 0 <= year < 10_000 {
        zero_filled(year, 4)
    } else if -10_000 < year < 0 {
        seq!['-'] + zero_filled(-year, 4)
    } else if year < 0 {
        seq!['-'] + number::digits((-year) as nat)
    } else {
        seq!['+'] + number::digits(year as nat)
    }
}

/// A month and a day, `MM-DD`.
pub open spec fn shown_day(month: int, day: int) -> Seq<char> {
    zero_filled(month, 2) + seq!['-'] + zero_filled(day, 2)
}

/// `s` is `YYYY-MM-DD HH:MM:SS` for that many seconds on a local calendar and
/// clock.
pub open spec fn stamps_second(s: Seq<char>, second: int) -> bool {
    exists|year: int, month: int, day: int| #[trigger]
        dated(second / 86_400, year, month, day) && s == shown_year(year) + seq!['-'] + shown_day(
            month,
            day,
        ) + seq![' '] + shown_time((second % 86_400) * SECOND)
}

/// `s` is `MM-DD HH:MM` for that many seconds on a local calendar and clock.
pub open spec fn stamps_minute(s: Seq<char>, second: int) -> bool {
    exists|year: int, month: int, day: int| #[trigger]
        dated(second / 86_400, year, month, day) && s == shown_day(month, day) + seq![' ']
            + zero_filled(second % 86_400 / 3600, 2) + seq![':'] + zero_filled(
            second % 86_400 / 60 % 60,
            2,
        )
}

/// `s` is `YYYY-MM-DD HH:MM:SS` for that many seconds since the epoch, on a
/// calendar and clock at some offset.
pub open spec fn local_second(s: Seq<char>, second: int) -> bool {
    exists|offset: int| #[trigger] utc_offset(offset) && stamps_second(s, second + offset)
}

/// `s` is `MM-DD HH:MM` for that many seconds since the epoch, on a calendar and
/// clock at some offset.
pub open spec fn local_minute(s: Seq<char>, second: int) -> bool {
    exists|offset: int| #[trigger] utc_offset(offset) && stamps_minute(s, second + offset)
}

/// `chrono::NaiveTime`'s `Display`, for seconds since midnight and nanoseconds
/// since the last full second: two digits each for hour, minute and second, then
/// the fraction. Reading the text gives the time back.
#[verifier::external_body]
fn naive_time_to_string(secs: u32, nanos: u32) -> (r: String)
    requires
        secs < 86_400,
        nanos < 1_000_000_000,
    ensures
        r@ == shown_time(secs * SECOND + nanos),
        time_read(r@) == Some((secs, nanos)),
{
    NaiveTime::from_num_seconds_from_midnight_opt(secs, nanos).unwrap().to_string()
}

/// `chrono::NaiveTime`'s `FromStr`, as seconds since midnight and nanoseconds
/// since the last full second. Success and the time are functions of the text;
/// the seconds stay within a day, the nanoseconds under two seconds.
#[verifier::external_body]
fn naive_time_parse(text: &str) -> (r: Option<(u32, u32)>)
    ensures
        r == time_read(text@),
        r matches Some(parts) ==> parts.0 < 86_400 && parts.1 < 2_000_000_000,
{
    match text.parse::<NaiveTime>() {
        Ok(t) => Some((t.num_seconds_from_midnight(), t.nanosecond())),
        Err(_) => None,
    }
}

/// The instant, in nanoseconds since midnight, of what was read: a leap second
/// counts as the last nanosecond before it.
pub open spec fn time_read_nanos(text: Seq<char>) -> Option<int> {
    match time_read(text) {
        Some((secs, nanos)) => Some(
            secs * SECOND + if nanos < 1_000_000_000 {
                nanos as int
            } else {
                999_999_999
            },
        ),
        None => None,
    }
}

/// `chrono::DateTime::from_timestamp_millis`, as seconds and nanoseconds since
/// the epoch: the same instant, or nothing where the calendar does not reach
/// it.
#[verifier::external_body]
fn datetime_from_millis(millis: i64) -> (r: Option<(i64, u32)>)
    ensures
        r == (if reachable_millis(millis as int) {
            Some((((millis as int) / 1000) as i64, ((millis as int % 1000) * 1_000_000) as u32))
        } else {
            None::<(i64, u32)>
        }),
{
    DateTime::from_timestamp_millis(millis).map(|t| (t.timestamp(), t.timestamp_subsec_nanos()))
}

/// An instant lies in its millisecond.
pub proof fn instants_lie_in_their_millisecond(t: int, m: int)
    ensures
        millis_of(t) * 1_000_000 <= t < (millis_of(t) + 1) * 1_000_000,
        reachable(m * 1_000_000) <==> reachable_millis(m),
        reachable(t) ==> reachable_millis(millis_of(t)),
{
}

/// A clock counts 3600 seconds to the hour and 60 to the minute, and a day has
/// 86 400 of them.
pub proof fn clocks_count_seconds(h: int, m: int, s: int)
    ensures
        clock(h + 1, m, s) == clock(h, m, s) + 3_600_000_000_000,
        clock(h, m + 1, s) == clock(h, m, s) + 60_000_000_000,
        clock(h, m, s + 1) == clock(h, m, s) + 1_000_000_000,
        clock(0, 0, 0) == 0,
        0 <= h < 24 && 0 <= m < 60 && 0 <= s < 60 ==> 0 <= clock(h, m, s) < 86_400_000_000_000,
{
}

/// A week has seven days, Monday to Sunday, each at its own place.
pub proof fn days_follow_one_another(i: int, j: int)
    requires
        0 <= i < 7,
        0 <= j < 7,
    ensures
        weekday_at(i) == weekday_at(j) <==> i == j,
        weekday_at(0) == Weekday::Mon,
        weekday_at(3) == Weekday::Thu,
        weekday_at(6) == Weekday::Sun,
{
}

/// A wall clock shows the same time a day later, on the next day of the week; an
/// hour of offset moves it by an hour, and it started on a Thursday.
pub proof fn clocks_show_the_next_day(a: LocalTime, b: LocalTime, t: int, offset: int, day: int)
    requires
        clock_shows(a, t, offset),
        clock_shows(b, t + 86_400_000_000_000, offset),
        0 <= day < 7,
        a.weekday == weekday_at(day),
    ensures
        b.time@ == a.time@,
        b.weekday == weekday_at((day + 1) % 7),
        0 <= t + offset * 1_000_000_000 < 86_400_000_000_000 ==> a.weekday == Weekday::Thu
            && a.time@ == t + offset * 1_000_000_000,
        clock_shows(a, t + 3_600_000_000_000, offset - 3600),
{
    let shifted = t + offset * SECOND;
    let d: int = 86_400_000_000_000;
    let whole = shifted / d;
    let rest = shifted % d;
    assert(shifted == d * whole + rest && 0 <= rest < d);
    vstd::arithmetic::div_mod::lemma_fundamental_div_mod_converse(
        shifted + d,
        d,
        whole + 1,
        rest,
    );
    days_follow_one_another((whole + 3) % 7, day);
    assert((whole + 1 + 3) % 7 == ((whole + 3) % 7 + 1) % 7);
    if 0 <= shifted < d {
        vstd::arithmetic::div_mod::lemma_fundamental_div_mod_converse(shifted, d, 0, shifted);
    }
}

/// Every fourth year has a leap day, but of the full centuries only every fourth
/// does; the year is a day longer then.
#[verifier::spinoff_prover]
pub proof fn leap_years_are_a_day_longer(year: int)
    ensures
        year % 4 != 0 ==> !leap_year(year),
        year % 400 == 0 ==> leap_year(year),
        year % 4 == 0 && year % 100 != 0 ==> leap_year(year),
        year % 100 == 0 && year % 400 != 0 ==> !leap_year(year),
        days_before_year(year + 1) == days_before_year(year) + if leap_year(year) {
            366int
        } else {
            365
        },
        days_before_month(year, 13) == if leap_year(year) {
            366int
        } else {
            365
        },
{
    let y = year - 1;
    let every = |n: int|
        if year % n == 0 {
            1int
        } else {
            0int
        };
    assert(year / 4 == y / 4 + every(4));
    assert(year / 100 == y / 100 + every(100));
    assert(year / 400 == y / 400 + every(400));
    assert(year % 400 == 0 ==> year % 100 == 0);
    assert(year % 100 == 0 ==> year % 4 == 0);
    reveal_with_fuel(days_before_month, 14);
}

} // verus!
