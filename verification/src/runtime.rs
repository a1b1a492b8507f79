//! Composition layer wiring the rule pipeline, history, digest collector and
//! schedule controller into one running focus engine.
//!
//! Both the tray app and the headless daemon build a [`FocusRuntime`]; they
//! supply the context provider, hand in the notifications, and store the
//! history entries that come out.
use vstd::prelude::*;
use crate::clock::{local_now, LocalTime, Timestamp};
use crate::config::Config;
use crate::context::{ContextProvider, ContextSnapshot};
use crate::digest;
use crate::digest::{DigestCollector, GroupModel};
use crate::engine::{Pipeline, ProcessedModel, ProcessedNotification};
use crate::model;
use crate::model::Notification;
use crate::profile;
use crate::profile::{ActiveProfile, ScheduleController, ScheduleTick};
use crate::rules;
use crate::schedule;
use crate::schedule::{Schedule, ScheduleModel};
use crate::storage;
use crate::storage::{prune_plan, HistoryEntry, PrunePlan, Retention, StoredModel, StoredRow};

verus! {

/// The running focus engine.
pub struct FocusRuntime<C: ContextProvider> {
    pipeline: Pipeline<C>,
    digests: DigestCollector,
    retention: Retention,
    active_profile: ActiveProfile,
    schedules: Vec<Schedule>,
    controller: ScheduleController,
}

/// What a [`FocusRuntime`] holds.
pub struct RuntimeModel<C> {
    pub config: Config,
    pub provider: C,
    pub held: Seq<GroupModel>,
    pub window: int,
    pub retention: Retention,
    pub active_profile: Option<Seq<char>>,
    pub schedules: Seq<ScheduleModel>,
    pub effective: Option<Option<Seq<char>>>,
}

impl<C: ContextProvider> View for FocusRuntime<C> {
    type V = RuntimeModel<C>;

    closed spec fn view(&self) -> RuntimeModel<C> {
        RuntimeModel {
            config: self.pipeline.rules_in_force(),
            provider: self.pipeline.provider(),
            held: self.digests@,
            window: self.digests.maturity(),
            retention: self.retention,
            active_profile: self.active_profile@,
            schedules: schedule::schedule_models(self.schedules@),
            effective: self.controller@,
        }
    }
}

/// What is held back after a pipeline outcome.
pub open spec fn held_after(held: Seq<GroupModel>, processed: ProcessedModel) -> Seq<GroupModel> {
    match digest::entry_of(processed) {
        Some(entry) => digest::folded(held, entry),
        None => held,
    }
}

impl<C: ContextProvider> FocusRuntime<C> {
    /// An engine that holds nothing back yet, has no schedules and keeps
    /// everything.
    pub fn new(config: Config, context: C, active_profile: ActiveProfile) -> (r: FocusRuntime<C>)
        ensures
            r@ == (RuntimeModel {
                config,
                provider: context,
                held: Seq::<GroupModel>::empty(),
                window: digest::DEFAULT_WINDOW * crate::clock::SECOND,
                retention: Retention { max_age: None, max_count: None },
                active_profile: active_profile@,
                schedules: Seq::<ScheduleModel>::empty(),
                effective: None,
            }),
    {
        let schedules: Vec<Schedule> = Vec::new();
        assert(schedule::schedule_models(schedules@) =~= Seq::<ScheduleModel>::empty());
        FocusRuntime {
            pipeline: Pipeline::new(config, context),
            digests: DigestCollector::default(),
            retention: Retention::default(),
            active_profile,
            schedules,
            controller: ScheduleController::new(),
        }
    }

    /// Route one notification through the engine: rules decide, suppressed
    /// entries accumulate in the digest, and the history entry to be recorded
    /// comes back with the outcome.
    pub fn process(&mut self, notification: Notification) -> (r: (
        ProcessedNotification,
        HistoryEntry,
    ))
        ensures
            r.0.notification == notification,
            exists|context: ContextSnapshot|
                #[trigger] old(self)@.provider.may_capture(context) && r.0.evaluation@
                    == rules::verdict(old(self)@.config@, notification@, context@),
            r.1@ == storage::recorded(r.0@, r.1@.decided_at),
            r.1@.decided_at >= 0,
            final(self)@ == (RuntimeModel {
                held: held_after(old(self)@.held, r.0@),
                ..old(self)@
            }),
    {
        let processed = self.pipeline.process(notification);
        self.digests.add(&processed);
        let entry = HistoryEntry::from_processed(&processed);
        (processed, entry)
    }

    /// Rule pipeline (ad-hoc evaluation).
    pub fn pipeline(&self) -> (r: &Pipeline<C>)
        ensures
            r.rules_in_force() == self@.config,
            r.provider() == self@.provider,
    {
        &self.pipeline
    }

    /// Hot-reload rules and profiles.
    pub fn replace_config(&mut self, config: Config)
        ensures
            final(self)@ == (RuntimeModel { config, ..old(self)@ }),
    {
        self.pipeline.replace_config(config);
    }

    /// The context provider, to be changed in place.
    pub fn context_provider_mut(&mut self) -> (r: &mut C)
        ensures
            *r == old(self)@.provider,
            final(self)@ == (RuntimeModel { provider: *final(r), ..old(self)@ }),
    {
        self.pipeline.context_provider_mut()
    }

    /// Digest accumulator for suppressed notifications.
    pub fn digests(&self) -> (r: &DigestCollector)
        ensures
            r@ == self@.held,
            r.maturity() == self@.window,
    {
        &self.digests
    }

    /// Digest accumulator for suppressed notifications, to be changed in place.
    pub fn digests_mut(&mut self) -> (r: &mut DigestCollector)
        ensures
            r@ == old(self)@.held,
            r.maturity() == old(self)@.window,
            final(self)@ == (RuntimeModel {
                held: final(r)@,
                window: final(r).maturity(),
                ..old(self)@
            }),
    {
        &mut self.digests
    }

    /// Manual profile toggle.
    pub fn active_profile(&self) -> (r: &ActiveProfile)
        ensures
            r@ == self@.active_profile,
    {
        &self.active_profile
    }

    /// Manual profile toggle, to be changed in place.
    pub fn active_profile_mut(&mut self) -> (r: &mut ActiveProfile)
        ensures
            r@ == old(self)@.active_profile,
            final(self)@ == (RuntimeModel { active_profile: final(r)@, ..old(self)@ }),
    {
        &mut self.active_profile
    }

    /// Set the retention policy that prune runs apply.
    pub fn set_retention(&mut self, retention: Retention)
        ensures
            final(self)@ == (RuntimeModel { retention, ..old(self)@ }),
    {
        self.retention = retention;
    }

    /// What the retention policy deletes from the stored notifications at
    /// `now`.
    pub fn prune(&self, rows: &Vec<StoredRow>, now: Timestamp) -> (r: PrunePlan)
        ensures
            model::texts(r.by_age@) == storage::row_ids(
                storage::expired(storage::stored_models(rows@), self@.retention, now@),
            ),
            exists|surplus: Seq<StoredModel>|
                #[trigger] storage::surplus_rows(
                    storage::fresh(storage::stored_models(rows@), self@.retention, now@),
                    self@.retention,
                    surplus,
                ) && model::texts(r.by_count@) == storage::row_ids(surplus),
    {
        prune_plan(rows, &self.retention, now)
    }

    /// Install the schedule list evaluated by
    /// [`tick_schedules`](Self::tick_schedules).
    pub fn set_schedules(&mut self, schedules: Vec<Schedule>)
        ensures
            final(self)@ == (RuntimeModel {
                schedules: schedule::schedule_models(schedules@),
                ..old(self)@
            }),
    {
        self.schedules = schedules;
    }

    /// Re-evaluate schedules at a wall-clock time and switch the active profile
    /// where the winning schedule asks for it.
    pub fn tick_schedules_at(&mut self, now: LocalTime) -> (r: ScheduleTick)
        ensures
            tick_leads_to(old(self)@, now, final(self)@, r),
    {
        self.controller.tick(self.schedules.as_slice(), &mut self.active_profile, now)
    }

    /// Re-evaluate schedules against the current wall clock and switch the
    /// active profile where the winning schedule asks for it.
    pub fn tick_schedules(&mut self) -> (r: ScheduleTick)
        ensures
            exists|now: LocalTime| #[trigger] tick_leads_to(old(self)@, now, final(self)@, r),
    {
        let now = local_now();
        self.tick_schedules_at(now)
    }
}

/// A tick at `now` leads from one state of the engine to the next.
pub open spec fn tick_leads_to<C>(
    before: RuntimeModel<C>,
    now: LocalTime,
    after: RuntimeModel<C>,
    tick: ScheduleTick,
) -> bool {
    let want = profile::wanted(before.schedules, now);
    let outcome = profile::tick_outcome(
        before.effective,
        before.active_profile,
        want,
        profile::any_live(before.schedules, now),
    );
    &&& after == (RuntimeModel {
        effective: outcome.effective,
        active_profile: outcome.active,
        ..before
    })
    &&& tick.changed == outcome.changed
    &&& model::text_if_any(tick.profile) == want
}

/// Every notification is recorded, and exactly those that are suppressed are
/// held back: an allowed one leaves the digest as it is, any other adds one
/// entry.
pub proof fn suppressed_notifications_are_held(
    held: Seq<GroupModel>,
    processed: ProcessedModel,
    at: int,
)
    ensures
        storage::recorded(processed, at).decision == processed.evaluation.decision,
        processed.evaluation.decision == rules::Decision::Allow ==> held_after(held, processed)
            == held,
        processed.evaluation.decision != rules::Decision::Allow ==> digest::total(
            held_after(held, processed),
        ) == digest::total(held) + 1 && digest::held(
            held_after(held, processed),
            processed.notification.id,
        ),
{
    if let Some(entry) = digest::entry_of(processed) {
        digest::folding_holds_one_more(held, entry);
        digest::folding_holds_the_entry(held, entry, processed.notification.id);
    }
}

/// A tick of the schedules touches the active profile and nothing else of the
/// engine: where a live schedule names a profile the first such profile is
/// active, and the tick says which.
pub proof fn ticks_touch_the_profile_alone<C>(
    before: RuntimeModel<C>,
    now: LocalTime,
    after: RuntimeModel<C>,
    tick: ScheduleTick,
    first: int,
)
    requires
        tick_leads_to(before, now, after, tick),
        0 <= first < before.schedules.len(),
        before.schedules[first].live(now),
        before.schedules[first].profile is Some,
        forall|k: int|
            0 <= k < first ==> !((#[trigger] before.schedules[k]).live(now)
                && before.schedules[k].profile is Some),
    ensures
        model::text_if_any(tick.profile) == before.schedules[first].profile,
        tick.changed ==> after.active_profile == before.schedules[first].profile,
        after.held == before.held,
        after.config == before.config,
        after.schedules == before.schedules,
        after.window == before.window && after.retention == before.retention,
{
    profile::the_first_live_profile_is_wanted(before.schedules, now);
    let i = choose|i: int|
        {
            &&& 0 <= i < before.schedules.len()
            &&& (#[trigger] before.schedules[i]).live(now)
            &&& before.schedules[i].profile == profile::wanted(before.schedules, now)
            &&& forall|k: int|
                0 <= k < i ==> !((#[trigger] before.schedules[k]).live(now)
                    && before.schedules[k].profile is Some)
        };
    assert(before.schedules[first].live(now));
    assert(i == first);
}

} // verus!
