//! Focus profiles: named, manually toggled sets of preferences, plus the
//! schedule controller that activates them on a time-of-day window.
use vstd::prelude::*;
use crate::clock::LocalTime;
use crate::error::{Error, ErrorModel};
use crate::model;
use crate::model::copy_text_if_any;
use crate::rules::Decision;
use crate::schedule;
use crate::schedule::{active_schedules, Schedule, ScheduleModel};
use crate::text;
use crate::text::{same_ignoring_ascii_case, same_text, trim};

verus! {

broadcast use vstd::string::group_string_axioms;

/// A named focus profile the user can switch into manually
/// (e.g. "Deep Work", "Meetings", "Away").
#[derive(Debug, PartialEq, Eq)]
pub struct FocusProfile {
    /// Unique profile name, matched case-insensitively by rules.
    pub name: String,
    /// What the profile is for.
    pub description: Option<String>,
    /// Decision applied to notifications while this profile is active when no
    /// rule matches first. Falls back to the global default when `None`.
    pub default_decision: Option<Decision>,
}

/// What a [`FocusProfile`] says.
pub struct ProfileModel {
    pub name: Seq<char>,
    pub description: Option<Seq<char>>,
    pub default_decision: Option<Decision>,
}

impl View for FocusProfile {
    type V = ProfileModel;

    open spec fn view(&self) -> ProfileModel {
        ProfileModel {
            name: self.name@,
            description: model::text_if_any(self.description),
            default_decision: self.default_decision,
        }
    }
}

/// What each profile in a list says.
pub open spec fn profile_models(profiles: Seq<FocusProfile>) -> Seq<ProfileModel> {
    profiles.map_values(|p: FocusProfile| p@)
}

impl FocusProfile {
    /// A profile that says nothing but its name.
    pub fn new(name: &str) -> (r: FocusProfile)
        ensures
            r@ == (ProfileModel { name: name@, description: None, default_decision: None }),
    {
        FocusProfile { name: name.to_string(), description: None, default_decision: None }
    }

    /// The profile with a description.
    pub fn with_description(self, description: &str) -> (r: FocusProfile)
        ensures
            r@ == (ProfileModel { description: Some(description@), ..self@ }),
    {
        FocusProfile { description: Some(description.to_string()), ..self }
    }

    /// The profile with a decision of its own.
    pub fn with_default_decision(self, decision: Decision) -> (r: FocusProfile)
        ensures
            r@ == (ProfileModel { default_decision: Some(decision), ..self@ }),
    {
        FocusProfile { default_decision: Some(decision), ..self }
    }
}

impl Clone for FocusProfile {
    fn clone(&self) -> (r: FocusProfile)
        ensures
            r == *self,
    {
        FocusProfile {
            name: self.name.clone(),
            description: copy_text_if_any(&self.description),
            default_decision: self.default_decision,
        }
    }
}

/// Holder for the currently active profile (the "manual toggle").
///
/// Shared between the tray/CLI entry points and the context provider so the
/// active profile is visible to rule evaluation immediately.
#[derive(Debug)]
pub struct ActiveProfile {
    current: Option<String>,
}

impl View for ActiveProfile {
    type V = Option<Seq<char>>;

    closed spec fn view(&self) -> Option<Seq<char>> {
        model::text_if_any(self.current)
    }
}

/// The active profile after a toggle of `name`.
pub open spec fn toggled(active: Option<Seq<char>>, name: Seq<char>) -> Option<Seq<char>> {
    if active == Some(name) {
        None
    } else {
        Some(name)
    }
}

impl ActiveProfile {
    /// No profile is active.
    pub fn new() -> (r: ActiveProfile)
        ensures
            r@ is None,
    {
        ActiveProfile { current: None }
    }

    /// The named profile is active.
    pub fn with_profile(name: &str) -> (r: ActiveProfile)
        ensures
            r@ == Some(name@),
    {
        ActiveProfile { current: Some(name.to_string()) }
    }

    /// Activate a profile. Returns the previously active name.
    pub fn activate(&mut self, name: &str) -> (r: Option<String>)
        ensures
            final(self)@ == Some(name@),
            model::text_if_any(r) == old(self)@,
    {
        let previous = copy_text_if_any(&self.current);
        self.current = Some(name.to_string());
        previous
    }

    /// Clear the active profile (back to normal). Returns the previous name.
    pub fn clear(&mut self) -> (r: Option<String>)
        ensures
            final(self)@ is None,
            model::text_if_any(r) == old(self)@,
    {
        let previous = copy_text_if_any(&self.current);
        self.current = None;
        previous
    }

    /// Toggle: activate when inactive or a different profile, clear when the
    /// named profile is already active. Returns the previous name.
    pub fn toggle(&mut self, name: &str) -> (r: Option<String>)
        ensures
            final(self)@ == toggled(old(self)@, name@),
            model::text_if_any(r) == old(self)@,
    {
        let already = match &self.current {
            Some(active) => same_text(active.as_str(), name),
            None => false,
        };
        if already {
            self.clear()
        } else {
            self.activate(name)
        }
    }

    /// The active profile's name.
    pub fn active(&self) -> (r: Option<String>)
        ensures
            model::text_if_any(r) == self@,
    {
        copy_text_if_any(&self.current)
    }

    /// Whether the named profile is active; the case of ASCII letters does not
    /// matter.
    pub fn is_active(&self, name: &str) -> (r: bool)
        ensures
            r == (self@ is Some && text::ascii_lower(self@->0) == text::ascii_lower(name@)),
    {
        match &self.current {
            Some(active) => same_ignoring_ascii_case(active.as_str(), name),
            None => false,
        }
    }
}

impl Default for ActiveProfile {
    fn default() -> (r: ActiveProfile)
        ensures
            r@ is None,
    {
        ActiveProfile::new()
    }
}

/// A profile that is toggled twice is where it was, unless another profile was
/// active, which the first toggle replaced.
pub proof fn toggling_twice_clears(active: Option<Seq<char>>, name: Seq<char>)
    ensures
        active is None ==> toggled(toggled(active, name), name) is None,
        active == Some(name) ==> toggled(toggled(active, name), name) == active,
        active is Some && active->0 != name ==> toggled(toggled(active, name), name) is None,
{
}

/// Two names that profile lookups take for the same.
pub open spec fn same_name(a: Seq<char>, b: Seq<char>) -> bool {
    text::ascii_lower(a) == text::ascii_lower(b)
}

/// What is wrong with the name at position `i`, given those before it.
pub open spec fn name_fault(names: Seq<Seq<char>>, i: int) -> Option<Seq<char>> {
    if text::blank(names[i]) {
        Some("focus profile name must not be empty"@)
    } else if exists|j: int|
        0 <= j < i && same_name(text::trimmed(#[trigger] names[j]), text::trimmed(names[i])) {
        Some("duplicate focus profile `"@ + names[i] + "`"@)
    } else {
        None
    }
}

/// The first fault among the first `n` names.
pub open spec fn names_fault(names: Seq<Seq<char>>, n: nat) -> Option<Seq<char>>
    decreases n,
{
    if n == 0 {
        None
    } else {
        match names_fault(names, (n - 1) as nat) {
            Some(message) => Some(message),
            None => name_fault(names, n - 1),
        }
    }
}

/// The names of a list of profiles.
pub open spec fn profile_names(profiles: Seq<ProfileModel>) -> Seq<Seq<char>> {
    profiles.map_values(|p: ProfileModel| p.name)
}

/// Why a list of profiles cannot be kept, if it cannot: a name is missing, or
/// two names are the same but for white space around them and case.
pub open spec fn profiles_fault(profiles: Seq<ProfileModel>) -> Option<Seq<char>> {
    names_fault(profile_names(profiles), profiles.len())
}

/// A list of names without a fault has no blank name and no two that are the
/// same.
pub proof fn faultless_names_are_distinct(names: Seq<Seq<char>>, n: nat)
    requires
        n <= names.len(),
        names_fault(names, n) is None,
    ensures
        forall|i: int| 0 <= i < n ==> !text::blank(#[trigger] names[i]),
        forall|i: int, j: int|
            0 <= j < i < n ==> !same_name(
                text::trimmed(#[trigger] names[j]),
                text::trimmed(#[trigger] names[i]),
            ),
    decreases n,
{
    if n > 0 {
        faultless_names_are_distinct(names, (n - 1) as nat);
        assert(name_fault(names, n - 1) is None);
    }
}

proof fn lemma_fault_stays(names: Seq<Seq<char>>, k: nat, n: nat)
    requires
        k <= n,
        names_fault(names, k) is Some,
    ensures
        names_fault(names, n) == names_fault(names, k),
    decreases n,
{
    if k < n {
        lemma_fault_stays(names, k, (n - 1) as nat);
    }
}

/// Validate that profile names are present and unique.
pub fn validate_profiles(profiles: &[FocusProfile]) -> (r: Result<(), Error>)
    ensures
        match profiles_fault(profile_models(profiles@)) {
            Some(message) => r is Err && r->Err_0@ == ErrorModel::ConfigValidation(message),
            None => r is Ok,
        },
{
    let ghost names = profile_names(profile_models(profiles@));
    let mut seen: Vec<String> = Vec::new();
    let mut i: usize = 0;
    while i < profiles.len()
        invariant
            i <= profiles@.len(),
            names == profile_names(profile_models(profiles@)),
            names_fault(names, i as nat) is None,
            seen@.len() == i,
            forall|k: int| 0 <= k < i ==> (#[trigger] seen@[k])@ == text::trimmed(names[k]),
        decreases profiles@.len() - i,
    {
        assert(names[i as int] == profiles@[i as int].name@);
        let trimmed = trim(profiles[i].name.as_str());
        proof {
            text::blank_trims_to_nothing(names[i as int]);
            if name_fault(names, i as int) is Some {
                assert(names_fault(names, (i + 1) as nat) is Some);
                lemma_fault_stays(names, (i + 1) as nat, names.len());
            }
        }
        if trimmed.as_str().is_empty() {
            return Err(Error::validation("focus profile name must not be empty".to_string()));
        }
        let mut j: usize = 0;
        while j < seen.len()
            invariant
                i < profiles@.len(),
                j <= i,
                seen@.len() == i,
                names == profile_names(profile_models(profiles@)),
                names[i as int] == profiles@[i as int].name@,
                trimmed@ == text::trimmed(names[i as int]),
                !text::blank(names[i as int]),
                forall|k: int| 0 <= k < i ==> (#[trigger] seen@[k])@ == text::trimmed(names[k]),
                forall|k: int|
                    0 <= k < j ==> !same_name(
                        text::trimmed(#[trigger] names[k]),
                        text::trimmed(names[i as int]),
                    ),
                name_fault(names, i as int) is Some ==> profiles_fault(profile_models(profiles@))
                    == name_fault(names, i as int),
            decreases i - j,
        {
            assert(seen@[j as int]@ == text::trimmed(names[j as int]));
            if same_ignoring_ascii_case(seen[j].as_str(), trimmed.as_str()) {
                let mut message = "duplicate focus profile `".to_string();
                message.append(profiles[i].name.as_str());
                message.append("`");
                return Err(Error::validation(message));
            }
            j += 1;
        }
        assert(name_fault(names, i as int) is None);
        seen.push(trimmed);
        i += 1;
    }
    Ok(())
}

/// The first profile whose name is `name` but for the case of ASCII letters.
pub open spec fn profile_named(profiles: Seq<ProfileModel>, name: Seq<char>) -> Option<ProfileModel>
    decreases profiles.len(),
{
    if profiles.len() == 0 {
        None
    } else if same_name(profiles.first().name, name) {
        Some(profiles.first())
    } else {
        profile_named(profiles.drop_first(), name)
    }
}

/// Case-insensitive lookup of a profile by name.
pub fn find_profile<'a>(profiles: &'a [FocusProfile], name: &str) -> (r: Option<&'a FocusProfile>)
    ensures
        match r {
            Some(p) => profile_named(profile_models(profiles@), name@) == Some(p@),
            None => profile_named(profile_models(profiles@), name@) is None,
        },
{
    let ghost models = profile_models(profiles@);
    let mut i: usize = 0;
    assert(models.skip(0) =~= models);
    while i < profiles.len()
        invariant
            i <= profiles@.len(),
            models == profile_models(profiles@),
            profile_named(models, name@) == profile_named(models.skip(i as int), name@),
        decreases profiles@.len() - i,
    {
        assert(models.skip(i as int).first() == profiles@[i as int]@);
        assert(models.skip(i as int).drop_first() =~= models.skip(i + 1));
        if same_ignoring_ascii_case(profiles[i].name.as_str(), name) {
            return Some(&profiles[i]);
        }
        i += 1;
    }
    None
}

/// Outcome of one schedule-controller tick.
#[derive(Debug, PartialEq, Eq)]
pub struct ScheduleTick {
    /// True when the effective profile changed during this tick.
    pub changed: bool,
    /// Profile the controller wants active; `None` means normal mode.
    pub profile: Option<String>,
}

/// Applies schedule-driven profile activation.
///
/// The first live schedule (declaration order) that names a profile wins;
/// when nothing is live the profile is cleared. While a schedule is live it
/// owns the slot: a manual toggle made during the window is overwritten at
/// the next tick. Ticks are idempotent: re-evaluating the same state makes
/// no change and reports `changed: false`.
#[derive(Debug)]
pub struct ScheduleController {
    effective: Option<Option<String>>,
}

impl View for ScheduleController {
    type V = Option<Option<Seq<char>>>;

    closed spec fn view(&self) -> Option<Option<Seq<char>>> {
        match self.effective {
            Some(profile) => Some(model::text_if_any(profile)),
            None => None,
        }
    }
}

/// The profile that the first live schedule with one names.
pub open spec fn wanted(schedules: Seq<ScheduleModel>, now: LocalTime) -> Option<Seq<char>>
    decreases schedules.len(),
{
    if schedules.len() == 0 {
        None
    } else if schedules.first().live(now) && schedules.first().profile is Some {
        schedules.first().profile
    } else {
        wanted(schedules.drop_first(), now)
    }
}

/// Some schedule is live.
pub open spec fn any_live(schedules: Seq<ScheduleModel>, now: LocalTime) -> bool {
    exists|i: int| 0 <= i < schedules.len() && (#[trigger] schedules[i]).live(now)
}

/// Where one tick leads.
pub struct TickModel {
    /// What the controller has decided on, `None` before the first tick.
    pub effective: Option<Option<Seq<char>>>,
    /// The active profile.
    pub active: Option<Seq<char>>,
    /// Whether this tick changed either.
    pub changed: bool,
}

/// What a tick makes of the controller's last decision and the active profile.
///
/// A first tick with nothing live adopts the manual state. A profile that a
/// schedule wants is made the active one. When a profile that the controller
/// activated is wanted no longer, the slot is cleared. Otherwise the manual
/// toggle is left alone.
pub open spec fn tick_outcome(
    effective: Option<Option<Seq<char>>>,
    active: Option<Seq<char>>,
    want: Option<Seq<char>>,
    live: bool,
) -> TickModel {
    if effective is None && want is None && !live {
        TickModel { effective: Some(None), active, changed: false }
    } else if effective == Some(want) {
        TickModel {
            effective,
            active: if want is Some {
                want
            } else {
                active
            },
            changed: want is Some && active != want,
        }
    } else {
        TickModel {
            effective: Some(want),
            active: if want is Some {
                want
            } else if effective is Some && effective->0 is Some {
                None
            } else {
                active
            },
            changed: true,
        }
    }
}

/// A second tick in the same state changes nothing and says so.
pub proof fn ticks_are_idempotent(
    effective: Option<Option<Seq<char>>>,
    active: Option<Seq<char>>,
    want: Option<Seq<char>>,
    live: bool,
)
    ensures
        ({
            let first = tick_outcome(effective, active, want, live);
            tick_outcome(first.effective, first.active, want, live) == (TickModel {
                changed: false,
                ..first
            })
        }),
{
}

/// While a schedule with a profile is live it owns the slot: whatever a manual
/// toggle left there, the next tick makes the wanted profile the active one.
pub proof fn live_schedule_owns_the_slot(
    effective: Option<Option<Seq<char>>>,
    active: Option<Seq<char>>,
    want: Option<Seq<char>>,
    live: bool,
)
    requires
        want is Some,
    ensures
        tick_outcome(effective, active, want, live).active == want,
        active != want ==> tick_outcome(effective, active, want, live).changed,
{
}

/// Once a profile that a schedule activated is wanted no longer, the next tick
/// clears the slot.
pub proof fn expired_profile_is_cleared(
    name: Seq<char>,
    active: Option<Seq<char>>,
    live: bool,
)
    ensures
        tick_outcome(Some(Some(name)), active, None, live).active is None,
        tick_outcome(Some(Some(name)), active, None, live).changed,
{
}

/// With no schedule claiming the slot, ticks never touch the manual toggle.
pub proof fn idle_ticks_leave_the_toggle_alone(
    effective: Option<Option<Seq<char>>>,
    active: Option<Seq<char>>,
    live: bool,
)
    requires
        effective is None || effective->0 is None,
    ensures
        tick_outcome(effective, active, None, live).active == active,
{
}

proof fn lemma_filtered(schedules: Seq<ScheduleModel>, now: LocalTime)
    ensures
        wanted(schedule::live_ones(schedules, now), now) == wanted(schedules, now),
        schedule::live_ones(schedules, now).len() > 0 <==> any_live(schedules, now),
        forall|i: int|
            0 <= i < schedule::live_ones(schedules, now).len() ==> (
            #[trigger] schedule::live_ones(schedules, now)[i]).live(now),
    decreases schedules.len(),
{
    let keep = |s: ScheduleModel| s.live(now);
    let kept = schedules.filter(keep);
    if schedules.len() == 0 {
        reveal(Seq::filter);
    } else {
        let rest = schedules.drop_first();
        lemma_filtered(rest, now);
        assert(schedules =~= seq![schedules.first()] + rest);
        Seq::filter_distributes_over_add(seq![schedules.first()], rest, keep);
        assert(seq![schedules.first()].filter(keep) == if keep(schedules.first()) {
            seq![schedules.first()]
        } else {
            Seq::empty()
        }) by {
            reveal(Seq::filter);
            let one = seq![schedules.first()];
            assert(one.drop_last() =~= Seq::empty());
            assert(one.drop_last().filter(keep) =~= Seq::empty());
        }
        if keep(schedules.first()) {
            assert(kept.first() == schedules.first());
            assert(kept.drop_first() =~= rest.filter(keep));
            assert(schedules[0].live(now));
        } else {
            assert(kept =~= rest.filter(keep));
            if any_live(rest, now) {
                let i = choose|i: int| 0 <= i < rest.len() && (#[trigger] rest[i]).live(now);
                assert(schedules[i + 1].live(now));
            }
            if any_live(schedules, now) {
                let i = choose|i: int|
                    0 <= i < schedules.len() && (#[trigger] schedules[i]).live(now);
                assert(rest[i - 1].live(now));
            }
        }
        assert forall|i: int| 0 <= i < kept.len() implies (#[trigger] kept[i]).live(now) by {
            if keep(schedules.first()) {
                if i > 0 {
                    assert(kept[i] == rest.filter(keep)[i - 1]);
                }
            } else {
                assert(kept[i] == rest.filter(keep)[i]);
            }
        }
    }
}

fn same_choice(a: &Option<String>, b: &Option<String>) -> (r: bool)
    ensures
        r == (model::text_if_any(*a) == model::text_if_any(*b)),
{
    match (a, b) {
        (Some(x), Some(y)) => same_text(x.as_str(), y.as_str()),
        (None, None) => true,
        _ => false,
    }
}

impl ScheduleController {
    /// A controller that has decided nothing yet.
    pub fn new() -> (r: ScheduleController)
        ensures
            r@ is None,
    {
        ScheduleController { effective: None }
    }

    /// Evaluate `schedules` at wall-clock `now` and enforce the winner on
    /// `active`.
    pub fn tick(
        &mut self,
        schedules: &[Schedule],
        active: &mut ActiveProfile,
        now: LocalTime,
    ) -> (r: ScheduleTick)
        ensures
            ({
                let models = schedule::schedule_models(schedules@);
                let want = wanted(models, now);
                let outcome = tick_outcome(old(self)@, old(active)@, want, any_live(models, now));
                &&& final(self)@ == outcome.effective
                &&& final(active)@ == outcome.active
                &&& r.changed == outcome.changed
                &&& model::text_if_any(r.profile) == want
            }),
    {
        let ghost models = schedule::schedule_models(schedules@);
        let live = active_schedules(schedules, now);
        let ghost kept = schedule::live_ones(models, now);
        proof {
            lemma_filtered(models, now);
        }
        let mut want: Option<String> = None;
        let mut i: usize = 0;
        assert(kept.skip(0) =~= kept);
        while i < live.len() && want.is_none()
            invariant
                i <= live@.len(),
                live@.map_values(|s: &Schedule| s@) == kept,
                forall|k: int| 0 <= k < kept.len() ==> (#[trigger] kept[k]).live(now),
                want is None ==> wanted(kept, now) == wanted(kept.skip(i as int), now),
                want is Some ==> model::text_if_any(want) == wanted(kept, now),
            decreases live@.len() - i,
        {
            assert(kept[i as int] == live@.map_values(|s: &Schedule| s@)[i as int]);
            assert(kept.skip(i as int).first() == kept[i as int]);
            assert(kept.skip(i as int).drop_first() =~= kept.skip(i + 1));
            want = copy_text_if_any(&live[i].profile);
            i += 1;
        }
        assert(kept.len() == live@.len());

        // First tick with nothing live: adopt the current manual state as-is.
        if self.effective.is_none() && want.is_none() && live.len() == 0 {
            self.effective = Some(None);
            return ScheduleTick { changed: false, profile: None };
        }
        let settled = match &self.effective {
            Some(effective) => same_choice(effective, &want),
            None => false,
        };
        if settled {
            // The winner stays; a manual toggle made meanwhile gives way to it.
            let mut changed = false;
            if let Some(name) = &want {
                let current = active.active();
                if !same_choice(&current, &want) {
                    active.activate(name.as_str());
                    changed = true;
                }
            }
            return ScheduleTick { changed, profile: want };
        }
        // Transition: schedules with a profile force it; a profile that the
        // controller activated is cleared once it has expired.
        let was_active = match &self.effective {
            Some(Some(_)) => true,
            _ => false,
        };
        if let Some(name) = &want {
            active.activate(name.as_str());
        } else if was_active {
            active.clear();
        }
        self.effective = Some(copy_text_if_any(&want));
        ScheduleTick { changed: true, profile: want }
    }
}

impl Default for ScheduleController {
    fn default() -> (r: ScheduleController)
        ensures
            r@ is None,
    {
        ScheduleController::new()
    }
}

/// The wanted profile is that of a schedule that is live and names one, with no
/// such schedule before it; there is none only where no live schedule names a
/// profile. A live schedule without a profile keeps nothing from the others.
pub proof fn the_first_live_profile_is_wanted(schedules: Seq<ScheduleModel>, now: LocalTime)
    ensures
        wanted(schedules, now) is None ==> forall|k: int|
            0 <= k < schedules.len() ==> !((#[trigger] schedules[k]).live(now)
                && schedules[k].profile is Some),
        wanted(schedules, now) is Some ==> exists|i: int|
            {
                &&& 0 <= i < schedules.len()
                &&& (#[trigger] schedules[i]).live(now)
                &&& schedules[i].profile == wanted(schedules, now)
                &&& forall|k: int|
                    0 <= k < i ==> !((#[trigger] schedules[k]).live(now)
                        && schedules[k].profile is Some)
            },
    decreases schedules.len(),
{
    if schedules.len() > 0 {
        let rest = schedules.drop_first();
        the_first_live_profile_is_wanted(rest, now);
        if schedules[0].live(now) && schedules[0].profile is Some {
            assert(schedules[0].profile == wanted(schedules, now));
        } else {
            if wanted(rest, now) is Some {
                let i = choose|i: int|
                    {
                        &&& 0 <= i < rest.len()
                        &&& (#[trigger] rest[i]).live(now)
                        &&& rest[i].profile == wanted(rest, now)
                        &&& forall|k: int|
                            0 <= k < i ==> !((#[trigger] rest[k]).live(now)
                                && rest[k].profile is Some)
                    };
                assert(schedules[i + 1] == rest[i]);
                assert forall|k: int| 0 <= k < i + 1 implies !((#[trigger] schedules[k]).live(now)
                    && schedules[k].profile is Some) by {
                    if k > 0 {
                        assert(schedules[k] == rest[k - 1]);
                    }
                }
            } else {
                assert forall|k: int| 0 <= k < schedules.len() implies !((
                #[trigger] schedules[k]).live(now) && schedules[k].profile is Some) by {
                    if k > 0 {
                        assert(schedules[k] == rest[k - 1]);
                    }
                }
            }
        }
    }
}

/// A schedule that is not live, or names no profile, changes nothing about what
/// is wanted, wherever it stands.
pub proof fn idle_schedules_want_nothing(
    schedules: Seq<ScheduleModel>,
    at: int,
    idle: ScheduleModel,
    now: LocalTime,
)
    requires
        0 <= at <= schedules.len(),
        !idle.live(now) || idle.profile is None,
    ensures
        wanted(schedules.insert(at, idle), now) == wanted(schedules, now),
    decreases schedules.len(),
{
    let more = schedules.insert(at, idle);
    if at == 0 {
        assert(more.drop_first() =~= schedules);
    } else {
        assert(more.first() == schedules.first());
        assert(more.drop_first() =~= schedules.drop_first().insert(at - 1, idle));
        idle_schedules_want_nothing(schedules.drop_first(), at - 1, idle, now);
    }
}

/// A profile that is looked up is the first whose name is the one asked for, but
/// for the case of ASCII letters; none is found only where there is none.
pub proof fn the_first_of_a_name_is_found(profiles: Seq<ProfileModel>, name: Seq<char>)
    ensures
        profile_named(profiles, name) is None ==> forall|k: int|
            0 <= k < profiles.len() ==> !same_name((#[trigger] profiles[k]).name, name),
        profile_named(profiles, name) is Some ==> exists|k: int|
            {
                &&& 0 <= k < profiles.len()
                &&& profile_named(profiles, name) == Some(#[trigger] profiles[k])
                &&& same_name(profiles[k].name, name)
                &&& forall|i: int| 0 <= i < k ==> !same_name((#[trigger] profiles[i]).name, name)
            },
    decreases profiles.len(),
{
    if profiles.len() > 0 {
        let rest = profiles.drop_first();
        the_first_of_a_name_is_found(rest, name);
        if same_name(profiles[0].name, name) {
            assert(profile_named(profiles, name) == Some(profiles[0]));
        } else if profile_named(rest, name) is Some {
            let k = choose|k: int|
                {
                    &&& 0 <= k < rest.len()
                    &&& profile_named(rest, name) == Some(#[trigger] rest[k])
                    &&& same_name(rest[k].name, name)
                    &&& forall|i: int| 0 <= i < k ==> !same_name((#[trigger] rest[i]).name, name)
                };
            assert(profiles[k + 1] == rest[k]);
            assert forall|i: int| 0 <= i < k + 1 implies !same_name(
                (#[trigger] profiles[i]).name,
                name,
            ) by {
                if i > 0 {
                    assert(profiles[i] == rest[i - 1]);
                }
            }
        } else {
            assert forall|i: int| 0 <= i < profiles.len() implies !same_name(
                (#[trigger] profiles[i]).name,
                name,
            ) by {
                if i > 0 {
                    assert(profiles[i] == rest[i - 1]);
                }
            }
        }
    }
}

/// Two names are the same where they are equally long and differ, at any place,
/// by no more than the case of an ASCII letter.
pub proof fn names_differ_by_case_alone(a: Seq<char>, b: Seq<char>)
    ensures
        same_name(a, b) <==> a.len() == b.len() && forall|i: int|
            0 <= i < a.len() ==> {
                let x = #[trigger] a[i];
                let y = b[i];
                ||| x == y
                ||| ('A' <= x && x <= 'Z' && y as int == x as int + 32)
                ||| ('A' <= y && y <= 'Z' && x as int == y as int + 32)
            },
{
    text::lower_case_goes_by_ascii_letters(a, b);
}

/// A toggle clears the slot exactly where the very profile was active, and
/// activates it everywhere else.
pub proof fn a_toggle_activates_or_clears(active: Option<Seq<char>>, name: Seq<char>)
    ensures
        toggled(active, name) is None <==> active == Some(name),
        toggled(active, name) is Some ==> toggled(active, name)->0 == name,
{
}

/// A tick always settles on what is wanted, says that something changed exactly
/// where it decided otherwise than before or had to replace the active profile,
/// and is silent on a first look that finds nothing live.
pub proof fn a_tick_says_what_it_changed(
    effective: Option<Option<Seq<char>>>,
    active: Option<Seq<char>>,
    want: Option<Seq<char>>,
    live: bool,
)
    ensures
        ({
            let after = tick_outcome(effective, active, want, live);
            &&& after.effective == Some(want)
            &&& after.active == active || after.active == want
            &&& after.active != active ==> after.changed
            &&& effective is Some ==> (after.changed <==> effective->0 != want || after.active
                != active)
            &&& effective is None ==> (after.changed <==> live || want is Some)
        }),
{
}

/// Names that are not blank and of which no two are the same, leaving out white
/// space around them, have no fault; a fault is said of the first name that has
/// one.
pub proof fn distinct_names_have_no_fault(names: Seq<Seq<char>>, n: nat)
    requires
        n <= names.len(),
        forall|i: int| 0 <= i < n ==> !text::blank(#[trigger] names[i]),
        forall|i: int, j: int|
            0 <= i < j < n ==> !same_name(
                text::trimmed(#[trigger] names[i]),
                text::trimmed(#[trigger] names[j]),
            ),
    ensures
        names_fault(names, n) is None,
    decreases n,
{
    if n > 0 {
        distinct_names_have_no_fault(names, (n - 1) as nat);
    }
}

} // verus!
