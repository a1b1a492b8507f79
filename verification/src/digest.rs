//! Batch/digest accumulation for muted and batched notifications.
//!
//! Suppressed notifications are never re-issued as toasts; they accumulate
//! here, grouped by source application, until their time window matures and
//! the tray/CLI presents them as a per-app digest. The history store remains
//! the source of truth; this module is the live, in-memory view.
use vstd::prelude::*;
use crate::clock::{Span, Timestamp};
use crate::engine::{ProcessedModel, ProcessedNotification};
use crate::model;
use crate::model::{copy_text_if_any, Notification, NotificationId, NotificationModel};
use crate::rules::Decision;
use crate::sorting;
use crate::sorting::rank_by;
use crate::text::same_text;

verus! {

broadcast use vstd::string::group_string_axioms;

/// Seconds after its last notification at which an app's digest matures.
pub const DEFAULT_WINDOW: u64 = 900;

/// One suppressed notification inside a [`DigestGroup`].
#[derive(Debug, PartialEq)]
pub struct DigestEntry {
    pub notification: Notification,
    /// Rule that suppressed it, if any.
    pub matched_rule: Option<String>,
    /// Why it was suppressed (rule name or fallback explanation).
    pub reason: String,
}

/// What a [`DigestEntry`] says.
pub struct EntryModel {
    pub notification: NotificationModel,
    pub matched_rule: Option<Seq<char>>,
    pub reason: Seq<char>,
}

impl View for DigestEntry {
    type V = EntryModel;

    open spec fn view(&self) -> EntryModel {
        EntryModel {
            notification: self.notification@,
            matched_rule: model::text_if_any(self.matched_rule),
            reason: self.reason@,
        }
    }
}

/// The entry that a pipeline outcome makes, if it makes one.
pub open spec fn entry_of(processed: ProcessedModel) -> Option<EntryModel> {
    if processed.evaluation.decision == Decision::Allow {
        None
    } else {
        Some(
            EntryModel {
                notification: processed.notification,
                matched_rule: processed.evaluation.matched_rule,
                reason: processed.evaluation.reason,
            },
        )
    }
}

/// What an entry that may be absent says.
pub open spec fn entry_if_any(entry: Option<DigestEntry>) -> Option<EntryModel> {
    match entry {
        Some(e) => Some(e@),
        None => None,
    }
}

impl DigestEntry {
    /// Build from a pipeline outcome. `Allow` decisions return `None`:
    /// allowed notifications are shown immediately, never digested.
    pub fn from_processed(processed: &ProcessedNotification) -> (r: Option<DigestEntry>)
        ensures
            entry_if_any(r) == entry_of(processed@),
    {
        if !processed.suppressed() {
            return None;
        }
        Some(
            DigestEntry {
                notification: processed.notification.clone(),
                matched_rule: copy_text_if_any(&processed.evaluation.matched_rule),
                reason: processed.evaluation.reason.clone(),
            },
        )
    }
}

impl Clone for DigestEntry {
    fn clone(&self) -> (r: DigestEntry)
        ensures
            r@ == self@,
    {
        DigestEntry {
            notification: self.notification.clone(),
            matched_rule: copy_text_if_any(&self.matched_rule),
            reason: self.reason.clone(),
        }
    }
}

/// Suppressed notifications from one app, oldest first.
#[derive(Debug, PartialEq)]
pub struct DigestGroup {
    pub app_id: String,
    pub app_display_name: Option<String>,
    pub entries: Vec<DigestEntry>,
}

/// What a [`DigestGroup`] says.
#[verifier::ext_equal]
pub struct GroupModel {
    pub app_id: Seq<char>,
    pub app_display_name: Option<Seq<char>>,
    pub entries: Seq<EntryModel>,
}

/// What each entry in a list says.
pub open spec fn entry_models(entries: Seq<DigestEntry>) -> Seq<EntryModel> {
    entries.map_values(|e: DigestEntry| e@)
}

/// What each group in a list says.
pub open spec fn group_models(groups: Seq<DigestGroup>) -> Seq<GroupModel> {
    groups.map_values(|g: DigestGroup| g@)
}

impl View for DigestGroup {
    type V = GroupModel;

    open spec fn view(&self) -> GroupModel {
        GroupModel {
            app_id: self.app_id@,
            app_display_name: model::text_if_any(self.app_display_name),
            entries: entry_models(self.entries@),
        }
    }
}

impl GroupModel {
    /// The instant of the first entry.
    pub open spec fn first_seen(self) -> int {
        self.entries.first().notification.timestamp
    }

    /// The instant of the last entry.
    pub open spec fn last_seen(self) -> int {
        self.entries.last().notification.timestamp
    }

    /// Whether the group has been quiet for at least `window` at `now`. A clock
    /// that runs behind the last entry counts as no time at all.
    pub open spec fn quiet(self, now: int, window: int) -> bool {
        now - self.last_seen() >= window || window == 0
    }
}

impl DigestGroup {
    /// First notification in the group.
    pub fn first_seen(&self) -> (r: Timestamp)
        ensures
            self.entries@.len() > 0 ==> r == self.entries@[0].notification.timestamp,
            self.entries@.len() > 0 ==> r@ == self@.first_seen(),
    {
        if self.entries.len() > 0 {
            self.entries[0].notification.timestamp
        } else {
            Timestamp::now()
        }
    }

    /// Most recent notification in the group.
    pub fn last_seen(&self) -> (r: Timestamp)
        ensures
            self.entries@.len() > 0 ==> r == self.entries@.last().notification.timestamp,
            self.entries@.len() > 0 ==> r@ == self@.last_seen(),
    {
        if self.entries.len() > 0 {
            self.entries[self.entries.len() - 1].notification.timestamp
        } else {
            Timestamp::now()
        }
    }

    /// Title of the newest entry: the digest headline.
    pub fn headline(&self) -> (r: &str)
        ensures
            self.entries@.len() > 0 ==> r@ == self@.entries.last().notification.title,
            self.entries@.len() == 0 ==> r@ == ""@,
    {
        if self.entries.len() > 0 {
            self.entries[self.entries.len() - 1].notification.title.as_str()
        } else {
            ""
        }
    }
}

impl Clone for DigestGroup {
    fn clone(&self) -> (r: DigestGroup)
        ensures
            r@ == self@,
    {
        let mut entries: Vec<DigestEntry> = Vec::new();
        let mut i: usize = 0;
        while i < self.entries.len()
            invariant
                i <= self.entries@.len(),
                entries@.len() == i,
                forall|k: int| 0 <= k < i ==> (#[trigger] entries@[k])@ == self.entries@[k]@,
            decreases self.entries@.len() - i,
        {
            entries.push(self.entries[i].clone());
            i += 1;
        }
        assert(entry_models(entries@) =~= entry_models(self.entries@));
        DigestGroup {
            app_id: self.app_id.clone(),
            app_display_name: copy_text_if_any(&self.app_display_name),
            entries,
        }
    }
}

/// The position of an app's group, or the number of groups where it has none.
pub open spec fn group_position(groups: Seq<GroupModel>, app_id: Seq<char>) -> int
    decreases groups.len(),
{
    if groups.len() == 0 {
        0
    } else if groups.first().app_id == app_id {
        0
    } else {
        1 + group_position(groups.drop_first(), app_id)
    }
}

/// A group with one more entry. A group without a display name takes the
/// entry's.
pub open spec fn joined(group: GroupModel, entry: EntryModel) -> GroupModel {
    GroupModel {
        app_id: group.app_id,
        app_display_name: match group.app_display_name {
            Some(name) => Some(name),
            None => entry.notification.source.display_name,
        },
        entries: group.entries.push(entry),
    }
}

/// The groups with one more entry: at the end of its app's group, or in a group
/// of its own behind the others.
pub open spec fn folded(groups: Seq<GroupModel>, entry: EntryModel) -> Seq<GroupModel> {
    let at = group_position(groups, entry.notification.source.app_id);
    if at < groups.len() {
        groups.update(at, joined(groups[at], entry))
    } else {
        groups.push(
            GroupModel {
                app_id: entry.notification.source.app_id,
                app_display_name: entry.notification.source.display_name,
                entries: seq![entry],
            },
        )
    }
}

/// No app has two groups, no group is empty, and every entry is in its app's
/// group.
pub open spec fn grouped_by_app(groups: Seq<GroupModel>) -> bool {
    &&& forall|i: int, j: int|
        0 <= i < j < groups.len() ==> (#[trigger] groups[i]).app_id != (#[trigger] groups[j]).app_id
    &&& forall|i: int| 0 <= i < groups.len() ==> (#[trigger] groups[i]).entries.len() > 0
    &&& forall|i: int, k: int|
        0 <= i < groups.len() && 0 <= k < groups[i].entries.len() ==> (
        #[trigger] groups[i].entries[k]).notification.source.app_id == groups[i].app_id
}

/// The number of entries in all groups.
pub open spec fn total(groups: Seq<GroupModel>) -> nat
    decreases groups.len(),
{
    if groups.len() == 0 {
        0
    } else {
        total(groups.drop_last()) + groups.last().entries.len()
    }
}

/// `sorted` holds the groups by the instant of their first entry, those of the
/// same instant as they were opened.
pub open spec fn oldest_first(groups: Seq<GroupModel>, sorted: Seq<GroupModel>) -> bool {
    exists|order: Seq<int>|
        {
            &&& #[trigger] sorting::ranking(first_seen_keys(groups), order)
            &&& sorted == order.map_values(|i: int| groups[i])
        }
}

/// The instants by which groups are put in order.
pub open spec fn first_seen_keys(groups: Seq<GroupModel>) -> Seq<Option<i128>> {
    groups.map_values(|g: GroupModel| Some(g.first_seen() as i128))
}

/// The groups that have been quiet for at least `window`, in order.
pub open spec fn quiet_ones(groups: Seq<GroupModel>, now: int, window: int) -> Seq<GroupModel> {
    groups.filter(|g: GroupModel| g.quiet(now, window))
}

/// The groups that have not been quiet for `window`, in order.
pub open spec fn busy_ones(groups: Seq<GroupModel>, now: int, window: int) -> Seq<GroupModel> {
    groups.filter(|g: GroupModel| !g.quiet(now, window))
}

/// The position of an app's group is where the group is: the first of that app,
/// and behind the last where the app has none.
pub proof fn position_is_found(groups: Seq<GroupModel>, app_id: Seq<char>)
    ensures
        0 <= group_position(groups, app_id) <= groups.len(),
        group_position(groups, app_id) < groups.len() ==> groups[group_position(
            groups,
            app_id,
        )].app_id == app_id,
        forall|k: int|
            0 <= k < group_position(groups, app_id) ==> (#[trigger] groups[k]).app_id != app_id,
    decreases groups.len(),
{
    if groups.len() > 0 && groups.first().app_id != app_id {
        let rest = groups.drop_first();
        position_is_found(rest, app_id);
        assert forall|k: int| 0 <= k < group_position(groups, app_id) implies (
        #[trigger] groups[k]).app_id != app_id by {
            if k > 0 {
                assert(groups[k] == rest[k - 1]);
            }
        }
    }
}

proof fn lemma_position_is(groups: Seq<GroupModel>, app_id: Seq<char>, at: int)
    requires
        0 <= at <= groups.len(),
        at < groups.len() ==> groups[at].app_id == app_id,
        forall|k: int| 0 <= k < at ==> (#[trigger] groups[k]).app_id != app_id,
    ensures
        group_position(groups, app_id) == at,
    decreases groups.len(),
{
    if groups.len() > 0 && at > 0 {
        assert(groups[0].app_id != app_id);
        let rest = groups.drop_first();
        assert forall|k: int| 0 <= k < at - 1 implies (#[trigger] rest[k]).app_id != app_id by {
            assert(rest[k] == groups[k + 1]);
        }
        lemma_position_is(rest, app_id, at - 1);
    }
}

/// Folding an entry in keeps the groups in order: one for each app, none empty,
/// every entry in its app's group.
pub proof fn folding_keeps_groups(groups: Seq<GroupModel>, entry: EntryModel)
    requires
        grouped_by_app(groups),
    ensures
        grouped_by_app(folded(groups, entry)),
{
    let app = entry.notification.source.app_id;
    position_is_found(groups, app);
    let at = group_position(groups, app);
    let after = folded(groups, entry);
    assert forall|i: int, k: int|
        0 <= i < after.len() && 0 <= k < after[i].entries.len() implies (
    #[trigger] after[i].entries[k]).notification.source.app_id == after[i].app_id by {
        if i == at && at < groups.len() {
            if k < groups[at].entries.len() {
                assert(after[i].entries[k] == groups[at].entries[k]);
            }
        } else if i < groups.len() {
            assert(after[i] == groups[i]);
            assert(groups[i].entries[k].notification.source.app_id == groups[i].app_id);
        }
    }
}

proof fn lemma_total_push(groups: Seq<GroupModel>, group: GroupModel)
    ensures
        total(groups.push(group)) == total(groups) + group.entries.len(),
{
    assert(groups.push(group).drop_last() =~= groups);
}

proof fn lemma_total_update(groups: Seq<GroupModel>, at: int, group: GroupModel)
    requires
        0 <= at < groups.len(),
    ensures
        total(groups.update(at, group)) == total(groups) - groups[at].entries.len()
            + group.entries.len(),
    decreases groups.len(),
{
    let after = groups.update(at, group);
    if at == groups.len() - 1 {
        assert(after.drop_last() =~= groups.drop_last());
    } else {
        lemma_total_update(groups.drop_last(), at, group);
        assert(after.drop_last() =~= groups.drop_last().update(at, group));
    }
}

/// Every entry that is folded in is held: the count grows by exactly one.
pub proof fn folding_holds_one_more(groups: Seq<GroupModel>, entry: EntryModel)
    ensures
        total(folded(groups, entry)) == total(groups) + 1,
{
    let app = entry.notification.source.app_id;
    position_is_found(groups, app);
    let at = group_position(groups, app);
    if at < groups.len() {
        lemma_total_update(groups, at, joined(groups[at], entry));
    } else {
        lemma_total_push(
            groups,
            GroupModel {
                app_id: app,
                app_display_name: entry.notification.source.display_name,
                entries: seq![entry],
            },
        );
    }
}

/// Draining loses nothing and keeps nothing twice: what is quiet and what stays
/// add up to what was held.
pub proof fn draining_splits_what_is_held(groups: Seq<GroupModel>, now: int, window: int)
    ensures
        total(quiet_ones(groups, now, window)) + total(busy_ones(groups, now, window)) == total(
            groups,
        ),
        forall|i: int|
            0 <= i < groups.len() ==> if (#[trigger] groups[i]).quiet(now, window) {
                quiet_ones(groups, now, window).contains(groups[i])
            } else {
                busy_ones(groups, now, window).contains(groups[i])
            },
    decreases groups.len(),
{
    reveal(Seq::filter);
    let quiet = |g: GroupModel| g.quiet(now, window);
    let busy = |g: GroupModel| !g.quiet(now, window);
    if groups.len() > 0 {
        let rest = groups.drop_last();
        draining_splits_what_is_held(rest, now, window);
        lemma_total_push(quiet_ones(rest, now, window), groups.last());
        lemma_total_push(busy_ones(rest, now, window), groups.last());
        assert forall|i: int| 0 <= i < groups.len() implies if (#[trigger] groups[i]).quiet(
            now,
            window,
        ) {
            quiet_ones(groups, now, window).contains(groups[i])
        } else {
            busy_ones(groups, now, window).contains(groups[i])
        } by {
            if i < rest.len() {
                assert(rest[i] == groups[i]);
                if groups[i].quiet(now, window) {
                    let k = choose|k: int|
                        0 <= k < quiet_ones(rest, now, window).len() && quiet_ones(
                            rest,
                            now,
                            window,
                        )[k] == groups[i];
                    assert(quiet_ones(groups, now, window)[k] == groups[i]);
                } else {
                    let k = choose|k: int|
                        0 <= k < busy_ones(rest, now, window).len() && busy_ones(
                            rest,
                            now,
                            window,
                        )[k] == groups[i];
                    assert(busy_ones(groups, now, window)[k] == groups[i]);
                }
            } else if groups[i].quiet(now, window) {
                assert(quiet_ones(groups, now, window).last() == groups[i]);
            } else {
                assert(busy_ones(groups, now, window).last() == groups[i]);
            }
        }
    }
}

/// Where an app's group stands.
fn find_group(groups: &Vec<DigestGroup>, app_id: &str) -> (r: usize)
    ensures
        r == group_position(group_models(groups@), app_id@),
{
    let ghost models = group_models(groups@);
    let mut i: usize = 0;
    while i < groups.len()
        invariant
            i <= groups@.len(),
            models == group_models(groups@),
            forall|k: int| 0 <= k < i ==> (#[trigger] models[k]).app_id != app_id@,
        decreases groups@.len() - i,
    {
        assert(models[i as int] == groups@[i as int]@);
        if same_text(groups[i].app_id.as_str(), app_id) {
            proof {
                lemma_position_is(models, app_id@, i as int);
            }
            return i;
        }
        i += 1;
    }
    proof {
        lemma_position_is(models, app_id@, i as int);
    }
    i
}

/// Folds one entry into a list of groups.
pub fn fold_entry(groups: &mut Vec<DigestGroup>, entry: DigestEntry)
    ensures
        group_models(final(groups)@) == folded(group_models(old(groups)@), entry@),
{
    let ghost before = group_models(groups@);
    proof {
        position_is_found(before, entry@.notification.source.app_id);
    }
    let at: usize = find_group(groups, entry.notification.source.app_id.as_str());
    if at < groups.len() {
        let group = groups.remove(at);
        let ghost kept = group@;
        let app_display_name = match group.app_display_name {
            Some(name) => Some(name),
            None => copy_text_if_any(&entry.notification.source.display_name),
        };
        let mut entries = group.entries;
        let ghost entries_before = entries@;
        let ghost added = entry@;
        entries.push(entry);
        assert(entry_models(entries@) =~= entry_models(entries_before).push(added));
        let grown = DigestGroup { app_id: group.app_id, app_display_name, entries };
        assert(grown@ =~= joined(kept, added));
        groups.insert(at, grown);
        assert(group_models(groups@) =~= before.update(at as int, joined(kept, added)));
    } else {
        let app_id = entry.notification.source.app_id.clone();
        let app_display_name = copy_text_if_any(&entry.notification.source.display_name);
        let ghost added = entry@;
        let mut entries: Vec<DigestEntry> = Vec::new();
        entries.push(entry);
        assert(entry_models(entries@) =~= seq![added]);
        groups.push(DigestGroup { app_id, app_display_name, entries });
        assert(group_models(groups@) =~= folded(before, added));
    }
}

/// The groups by the instant of their first entry.
pub fn sort_groups(groups: &Vec<DigestGroup>) -> (r: Vec<DigestGroup>)
    requires
        forall|i: int| 0 <= i < groups@.len() ==> (#[trigger] groups@[i]).entries@.len() > 0,
    ensures
        oldest_first(group_models(groups@), group_models(r@)),
{
    let ghost models = group_models(groups@);
    let ghost wanted = first_seen_keys(models);
    let mut keys: Vec<Option<i128>> = Vec::new();
    let mut i: usize = 0;
    while i < groups.len()
        invariant
            i <= groups@.len(),
            models == group_models(groups@),
            wanted == first_seen_keys(models),
            keys@ == wanted.take(i as int),
            forall|k: int| 0 <= k < groups@.len() ==> (#[trigger] groups@[k]).entries@.len() > 0,
        decreases groups@.len() - i,
    {
        assert(models[i as int] == groups@[i as int]@);
        assert(groups@[i as int].entries@.len() > 0);
        keys.push(Some(groups[i].first_seen().nanos()));
        assert(keys@ =~= wanted.take(i + 1));
        i += 1;
    }
    assert(keys@ =~= wanted);
    let order = rank_by(&keys);
    let ghost places = sorting::positions(order@);
    let mut out: Vec<DigestGroup> = Vec::new();
    let mut k: usize = 0;
    while k < order.len()
        invariant
            k <= order@.len(),
            models == group_models(groups@),
            places == sorting::positions(order@),
            sorting::ranking(wanted, places),
            wanted == first_seen_keys(models),
            out@.len() == k,
            forall|m: int| 0 <= m < k ==> (#[trigger] out@[m])@ == models[places[m]],
        decreases order@.len() - k,
    {
        assert(0 <= places[k as int] < wanted.len());
        out.push(groups[order[k]].clone());
        k += 1;
    }
    assert(group_models(out@) =~= places.map_values(|i: int| models[i]));
    out
}

/// Accumulates suppressed notifications per app until their window matures.
#[derive(Debug)]
pub struct DigestCollector {
    window: Span,
    groups: Vec<DigestGroup>,
}

impl View for DigestCollector {
    type V = Seq<GroupModel>;

    closed spec fn view(&self) -> Seq<GroupModel> {
        group_models(self.groups@)
    }
}

impl DigestCollector {
    #[verifier::type_invariant]
    spec fn in_order(self) -> bool {
        grouped_by_app(group_models(self.groups@))
    }

    /// The span after which a quiet group matures.
    pub closed spec fn maturity(self) -> int {
        self.window@
    }

    /// An empty collector.
    pub fn new(window: Span) -> (r: DigestCollector)
        ensures
            r@ == Seq::<GroupModel>::empty(),
            r.maturity() == window@,
    {
        let groups: Vec<DigestGroup> = Vec::new();
        assert(group_models(groups@) =~= Seq::<GroupModel>::empty());
        DigestCollector { window, groups }
    }

    /// Configured maturity window.
    pub fn window(&self) -> (r: Span)
        ensures
            r@ == self.maturity(),
    {
        self.window
    }

    /// Fold a pipeline outcome into its app group. Allowed notifications are
    /// ignored.
    pub fn add(&mut self, processed: &ProcessedNotification)
        ensures
            final(self).maturity() == old(self).maturity(),
            final(self)@ == (match entry_of(processed@) {
                Some(entry) => folded(old(self)@, entry),
                None => old(self)@,
            }),
    {
        proof {
            use_type_invariant(&*self);
        }
        if let Some(entry) = DigestEntry::from_processed(processed) {
            let mut groups: Vec<DigestGroup> = Vec::new();
            std::mem::swap(&mut groups, &mut self.groups);
            proof {
                folding_keeps_groups(group_models(groups@), entry@);
            }
            fold_entry(&mut groups, entry);
            self.groups = groups;
        }
    }

    /// Snapshot of every open group, oldest entry first.
    pub fn groups(&self) -> (r: Vec<DigestGroup>)
        ensures
            oldest_first(self@, group_models(r@)),
            grouped_by_app(self@),
    {
        proof {
            use_type_invariant(self);
            assert forall|i: int| 0 <= i < self.groups@.len() implies (
            #[trigger] self.groups@[i]).entries@.len() > 0 by {
                assert(self@[i].entries.len() > 0);
            }
        }
        sort_groups(&self.groups)
    }

    /// Number of notifications currently held back, as far as a machine integer
    /// can count.
    pub fn held_count(&self) -> (r: usize)
        ensures
            total(self@) <= usize::MAX ==> r == total(self@),
            total(self@) > usize::MAX ==> r == usize::MAX,
    {
        let ghost models = self@;
        let mut sum: usize = 0;
        let mut i: usize = 0;
        while i < self.groups.len()
            invariant
                i <= self.groups@.len(),
                models == group_models(self.groups@),
                total(models.take(i as int)) <= usize::MAX ==> sum == total(models.take(i as int)),
                total(models.take(i as int)) > usize::MAX ==> sum == usize::MAX,
            decreases self.groups@.len() - i,
        {
            assert(models[i as int] == self.groups@[i as int]@);
            assert(models.take(i + 1).drop_last() =~= models.take(i as int));
            sum = sum.saturating_add(self.groups[i].entries.len());
            i += 1;
        }
        assert(models.take(models.len() as int) =~= models);
        sum
    }

    /// Whether nothing is held back.
    pub fn is_empty(&self) -> (r: bool)
        ensures
            r == (self@.len() == 0),
    {
        self.groups.len() == 0
    }

    /// Groups quiet for at least the configured window (`now` injected for
    /// tests), oldest first.
    pub fn mature(&self, now: Timestamp) -> (r: Vec<DigestGroup>)
        ensures
            exists|sorted: Seq<GroupModel>|
                #[trigger] oldest_first(self@, sorted) && group_models(r@) == quiet_ones(
                    sorted,
                    now@,
                    self.maturity(),
                ),
    {
        let all = self.groups();
        let ghost sorted = group_models(all@);
        proof {
            use_type_invariant(self);
            lemma_sorted_not_empty(self@, sorted);
        }
        let ghost window = self.maturity();
        let mut out: Vec<DigestGroup> = Vec::new();
        let mut i: usize = 0;
        proof {
            reveal(Seq::filter);
            assert(group_models(out@) =~= quiet_ones(sorted.take(0), now@, window));
        }
        while i < all.len()
            invariant
                i <= all@.len(),
                sorted == group_models(all@),
                window == self.maturity(),
                forall|k: int| 0 <= k < sorted.len() ==> (#[trigger] sorted[k]).entries.len() > 0,
                group_models(out@) == quiet_ones(sorted.take(i as int), now@, window),
            decreases all@.len() - i,
        {
            proof {
                reveal(Seq::filter);
                assert(sorted.take(i + 1).drop_last() =~= sorted.take(i as int));
                assert(sorted[i as int] == all@[i as int]@);
            }
            let ghost before = out@;
            if is_quiet(&all[i], now, self.window) {
                out.push(all[i].clone());
                assert(group_models(out@) =~= group_models(before).push(sorted[i as int]));
            }
            i += 1;
        }
        assert(sorted.take(sorted.len() as int) =~= sorted);
        out
    }

    /// Remove and return the mature groups, oldest first.
    pub fn drain_mature(&mut self, now: Timestamp) -> (r: Vec<DigestGroup>)
        ensures
            final(self).maturity() == old(self).maturity(),
            final(self)@ == busy_ones(old(self)@, now@, old(self).maturity()),
            exists|sorted: Seq<GroupModel>|
                #[trigger] oldest_first(old(self)@, sorted) && group_models(r@) == quiet_ones(
                    sorted,
                    now@,
                    old(self).maturity(),
                ),
            group_models(r@).to_multiset().add(final(self)@.to_multiset())
                == old(self)@.to_multiset(),
            total(group_models(r@)) + total(final(self)@) == total(old(self)@),
            quiet_ones(final(self)@, now@, final(self).maturity()).len() == 0,
    {
        let out = self.mature(now);
        let window = self.window;
        proof {
            use_type_invariant(&*self);
        }
        let mut groups: Vec<DigestGroup> = Vec::new();
        std::mem::swap(&mut groups, &mut self.groups);
        let ghost models = group_models(groups@);
        let mut rest: Vec<DigestGroup> = Vec::new();
        let mut done: Ghost<int> = Ghost(0);
        proof {
            reveal(Seq::filter);
            assert(group_models(rest@) =~= busy_ones(models.take(0), now@, window@));
            assert(models.skip(0) =~= models);
        }
        while groups.len() > 0
            invariant
                0 <= done@ <= models.len(),
                grouped_by_app(models),
                group_models(groups@) == models.skip(done@),
                group_models(rest@) == busy_ones(models.take(done@), now@, window@),
            decreases groups@.len(),
        {
            proof {
                reveal(Seq::filter);
                assert(group_models(groups@).len() > 0);
                assert(done@ < models.len());
                assert(group_models(groups@)[0] == groups@[0]@);
                assert(models.skip(done@)[0] == models[done@]);
                assert(models.take(done@ + 1).drop_last() =~= models.take(done@));
                assert(models[done@].entries.len() > 0);
            }
            let ghost before = rest@;
            let ghost pile = groups@;
            let group = groups.remove(0);
            assert(group_models(groups@) =~= models.skip(done@ + 1)) by {
                assert forall|i: int| 0 <= i < groups@.len() implies group_models(groups@)[i]
                    == models.skip(done@ + 1)[i] by {
                    assert(group_models(pile)[i + 1] == pile[i + 1]@);
                    assert(models.skip(done@)[i + 1] == models[done@ + 1 + i]);
                }
            }
            if !is_quiet(&group, now, window) {
                rest.push(group);
                assert(group_models(rest@) =~= group_models(before).push(models[done@]));
            }
            proof {
                done@ = done@ + 1;
            }
        }
        proof {
            assert(done@ == models.len()) by {
                assert(group_models(groups@).len() == 0);
            }
            assert(models.take(models.len() as int) =~= models);
            lemma_filter_keeps_groups(models, |g: GroupModel| !g.quiet(now@, window@));
            let sorted = choose|sorted: Seq<GroupModel>|
                #[trigger] oldest_first(models, sorted) && group_models(out@) == quiet_ones(
                    sorted,
                    now@,
                    window@,
                );
            lemma_drained(models, sorted, now@, window@);
        }
        self.groups = rest;
        out
    }

    /// Drop one specific app's group (user opened the digest). Returns the
    /// removed group.
    pub fn take(&mut self, app_id: &str) -> (r: Option<DigestGroup>)
        ensures
            final(self).maturity() == old(self).maturity(),
            ({
                let at = group_position(old(self)@, app_id@);
                if at < old(self)@.len() {
                    &&& r is Some
                    &&& r->0@ == old(self)@[at]
                    &&& final(self)@ == old(self)@.remove(at)
                } else {
                    &&& r is None
                    &&& final(self)@ == old(self)@
                }
            }),
    {
        proof {
            use_type_invariant(&*self);
            position_is_found(self@, app_id@);
        }
        let at: usize = find_group(&self.groups, app_id);
        if at < self.groups.len() {
            let mut groups: Vec<DigestGroup> = Vec::new();
            std::mem::swap(&mut groups, &mut self.groups);
            let ghost models = group_models(groups@);
            let group = groups.remove(at);
            proof {
                assert(group_models(groups@) =~= models.remove(at as int));
                lemma_remove_keeps_groups(models, at as int);
            }
            self.groups = groups;
            Some(group)
        } else {
            None
        }
    }

    /// Whether `id` is being held back in any group.
    pub fn holds(&self, id: &NotificationId) -> (r: bool)
        ensures
            r == held(self@, id@),
    {
        let ghost models = self@;
        let mut i: usize = 0;
        while i < self.groups.len()
            invariant
                i <= self.groups@.len(),
                models == group_models(self.groups@),
                models == self@,
                forall|g: int, k: int|
                    0 <= g < i && 0 <= k < models[g].entries.len() ==> (
                    #[trigger] models[g].entries[k]).notification.id != id@,
            decreases self.groups@.len() - i,
        {
            let entries = &self.groups[i].entries;
            assert(models[i as int].entries == entry_models(entries@));
            let mut k: usize = 0;
            while k < entries.len()
                invariant
                    i < self.groups@.len(),
                    k <= entries@.len(),
                    models == self@,
                    models[i as int].entries == entry_models(entries@),
                    i < models.len(),
                    forall|m: int|
                        0 <= m < k ==> (#[trigger] models[i as int].entries[m]).notification.id
                            != id@,
                decreases entries@.len() - k,
            {
                assert(models[i as int].entries[k as int] == entries@[k as int]@);
                if entries[k].notification.id.same(id) {
                    return true;
                }
                k += 1;
            }
            i += 1;
        }
        false
    }

    /// Drop everything.
    pub fn clear(&mut self)
        ensures
            final(self)@ == Seq::<GroupModel>::empty(),
            final(self).maturity() == old(self).maturity(),
    {
        let groups: Vec<DigestGroup> = Vec::new();
        assert(group_models(groups@) =~= Seq::<GroupModel>::empty());
        self.groups = groups;
    }
}

impl Default for DigestCollector {
    fn default() -> (r: DigestCollector)
        ensures
            r@ == Seq::<GroupModel>::empty(),
            r.maturity() == DEFAULT_WINDOW * crate::clock::SECOND,
    {
        DigestCollector::new(Span::from_secs(DEFAULT_WINDOW))
    }
}

/// Some group holds an entry with this id.
pub open spec fn held(groups: Seq<GroupModel>, id: Seq<char>) -> bool {
    exists|g: int, k: int|
        0 <= g < groups.len() && 0 <= k < groups[g].entries.len() && (
        #[trigger] groups[g].entries[k]).notification.id == id
}

/// What is folded in is held, and nothing else is that was not.
pub proof fn folding_holds_the_entry(groups: Seq<GroupModel>, entry: EntryModel, id: Seq<char>)
    ensures
        held(folded(groups, entry), id) <==> held(groups, id) || entry.notification.id == id,
{
    let app = entry.notification.source.app_id;
    position_is_found(groups, app);
    let at = group_position(groups, app);
    let after = folded(groups, entry);
    assert(after[at].entries.last() == entry);
    if held(groups, id) {
        let (g, k) = choose|g: int, k: int|
            0 <= g < groups.len() && 0 <= k < groups[g].entries.len() && (
            #[trigger] groups[g].entries[k]).notification.id == id;
        assert(after[g].entries[k] == groups[g].entries[k]);
    }
    if held(after, id) {
        let (g, k) = choose|g: int, k: int|
            0 <= g < after.len() && 0 <= k < after[g].entries.len() && (
            #[trigger] after[g].entries[k]).notification.id == id;
        if g < groups.len() && k < groups[g].entries.len() {
            assert(groups[g].entries[k] == after[g].entries[k]);
        } else {
            assert(after[g].entries[k] == entry);
        }
    }
    if entry.notification.id == id {
        assert(after[at].entries[after[at].entries.len() - 1].notification.id == id);
    }
}

/// Whether a group has been quiet for at least `window`.
fn is_quiet(group: &DigestGroup, now: Timestamp, window: Span) -> (r: bool)
    requires
        group@.entries.len() > 0,
    ensures
        r == group@.quiet(now@, window@),
{
    let since: i128 = now.nanos() - group.last_seen().nanos();
    if since < 0 {
        window.nanos == 0
    } else {
        since as u128 >= window.nanos
    }
}

proof fn lemma_sorted_not_empty(groups: Seq<GroupModel>, sorted: Seq<GroupModel>)
    requires
        grouped_by_app(groups),
        oldest_first(groups, sorted),
    ensures
        forall|k: int| 0 <= k < sorted.len() ==> (#[trigger] sorted[k]).entries.len() > 0,
{
    let order = choose|order: Seq<int>|
        {
            &&& #[trigger] sorting::ranking(first_seen_keys(groups), order)
            &&& sorted == order.map_values(|i: int| groups[i])
        };
    assert forall|k: int| 0 <= k < sorted.len() implies (
    #[trigger] sorted[k]).entries.len() > 0 by {
        assert(0 <= order[k] < groups.len());
        assert(groups[order[k]].entries.len() > 0);
    }
}

/// `g` stands before `h` among held groups that are put oldest first.
spec fn leads(held: Seq<GroupModel>, g: GroupModel, h: GroupModel) -> bool {
    let a = g.first_seen() as i128;
    let b = h.first_seen() as i128;
    a < b || (a == b && held.index_of(g) < held.index_of(h))
}

/// Each group in a list stands before those behind it.
spec fn led(held: Seq<GroupModel>, list: Seq<GroupModel>) -> bool {
    forall|i: int, j: int|
        0 <= i < j < list.len() ==> leads(held, #[trigger] list[i], #[trigger] list[j])
}

/// Two lists hold the same groups.
spec fn same_groups(p: Seq<GroupModel>, q: Seq<GroupModel>) -> bool {
    forall|g: GroupModel| #[trigger] p.contains(g) <==> q.contains(g)
}

proof fn lemma_groups_differ(groups: Seq<GroupModel>)
    requires
        grouped_by_app(groups),
    ensures
        groups.no_duplicates(),
{
    assert forall|i: int, j: int| 0 <= i < groups.len() && 0 <= j < groups.len() && i
        != j implies groups[i] != groups[j] by {
        if i < j {
            assert(groups[i].app_id != groups[j].app_id);
        } else {
            assert(groups[j].app_id != groups[i].app_id);
        }
    }
}

proof fn lemma_sorted_is_led(held: Seq<GroupModel>, sorted: Seq<GroupModel>)
    requires
        grouped_by_app(held),
        oldest_first(held, sorted),
    ensures
        led(held, sorted),
        same_groups(sorted, held),
        sorted.no_duplicates(),
{
    lemma_groups_differ(held);
    let keys = first_seen_keys(held);
    let order = choose|order: Seq<int>|
        {
            &&& #[trigger] sorting::ranking(keys, order)
            &&& sorted == order.map_values(|i: int| held[i])
        };
    assert forall|k: int| 0 <= k < sorted.len() implies 0 <= order[k] < held.len()
        && #[trigger] sorted[k] == held[order[k]] && held.index_of(sorted[k]) == order[k]
        && keys[order[k]] == Some(sorted[k].first_seen() as i128) by {
        assert(0 <= order[k] < keys.len());
        assert(held.contains(held[order[k]]));
    }
    assert forall|i: int, j: int| 0 <= i < j < sorted.len() implies leads(
        held,
        #[trigger] sorted[i],
        #[trigger] sorted[j],
    ) by {
        assert(sorting::before(keys, order[i], order[j]));
    }
    assert forall|g: GroupModel| #[trigger] sorted.contains(g) <==> held.contains(g) by {
        if sorted.contains(g) {
            let k = choose|k: int| 0 <= k < sorted.len() && sorted[k] == g;
            assert(held[order[k]] == g);
        }
        if held.contains(g) {
            let i = choose|i: int| 0 <= i < held.len() && held[i] == g;
            assert(keys[i] is Some);
            assert(order.contains(i));
            let k = choose|k: int| 0 <= k < order.len() && order[k] == i;
            assert(sorted[k] == g);
        }
    }
    lemma_led_differ(held, sorted);
}

proof fn lemma_led_differ(held: Seq<GroupModel>, list: Seq<GroupModel>)
    requires
        led(held, list),
    ensures
        list.no_duplicates(),
{
    assert forall|i: int, j: int| 0 <= i < list.len() && 0 <= j < list.len() && i
        != j implies list[i] != list[j] by {
        if i < j {
            assert(leads(held, list[i], list[j]));
        } else {
            assert(leads(held, list[j], list[i]));
        }
    }
}

proof fn lemma_filtered_members(list: Seq<GroupModel>, keep: spec_fn(GroupModel) -> bool)
    ensures
        forall|g: GroupModel| #[trigger]
            list.filter(keep).contains(g) <==> list.contains(g) && keep(g),
    decreases list.len(),
{
    reveal(Seq::filter);
    if list.len() > 0 {
        let rest = list.drop_last();
        let kept = rest.filter(keep);
        lemma_filtered_members(rest, keep);
        assert forall|g: GroupModel| #[trigger]
            list.filter(keep).contains(g) <==> list.contains(g) && keep(g) by {
            assert(list.contains(g) <==> rest.contains(g) || g == list.last()) by {
                if rest.contains(g) {
                    let k = choose|k: int| 0 <= k < rest.len() && rest[k] == g;
                    assert(list[k] == g);
                }
                if list.contains(g) {
                    let k = choose|k: int| 0 <= k < list.len() && list[k] == g;
                    if k < rest.len() {
                        assert(rest[k] == g);
                    }
                }
                assert(list[list.len() - 1] == list.last());
            }
            if keep(list.last()) {
                let after = kept.push(list.last());
                assert(after.contains(g) <==> kept.contains(g) || g == list.last()) by {
                    if kept.contains(g) {
                        let k = choose|k: int| 0 <= k < kept.len() && kept[k] == g;
                        assert(after[k] == g);
                    }
                    assert(after[kept.len() as int] == list.last());
                    if after.contains(g) {
                        let k = choose|k: int| 0 <= k < after.len() && after[k] == g;
                        if k < kept.len() {
                            assert(kept[k] == g);
                        }
                    }
                }
            }
        }
    }
}

proof fn lemma_filtered_pairs(
    list: Seq<GroupModel>,
    keep: spec_fn(GroupModel) -> bool,
    pair: spec_fn(GroupModel, GroupModel) -> bool,
)
    requires
        forall|i: int, j: int|
            0 <= i < j < list.len() ==> pair(#[trigger] list[i], #[trigger] list[j]),
    ensures
        forall|i: int, j: int|
            0 <= i < j < list.filter(keep).len() ==> pair(
                #[trigger] list.filter(keep)[i],
                #[trigger] list.filter(keep)[j],
            ),
    decreases list.len(),
{
    reveal(Seq::filter);
    if list.len() > 0 {
        let rest = list.drop_last();
        let kept = rest.filter(keep);
        lemma_filtered_pairs(rest, keep, pair);
        lemma_filtered_members(rest, keep);
        let all = list.filter(keep);
        assert forall|i: int, j: int| 0 <= i < j < all.len() implies pair(
            #[trigger] all[i],
            #[trigger] all[j],
        ) by {
            assert(all[i] == kept[i]);
            if j < kept.len() {
                assert(all[j] == kept[j]);
            } else {
                assert(kept.contains(kept[i]));
                assert(rest.contains(kept[i]));
                let k = choose|k: int| 0 <= k < rest.len() && rest[k] == kept[i];
                assert(pair(list[k], list[list.len() - 1]));
            }
        }
    }
}

proof fn lemma_same_prefix(held: Seq<GroupModel>, p: Seq<GroupModel>, q: Seq<GroupModel>, n: int)
    requires
        led(held, p),
        led(held, q),
        same_groups(p, q),
        0 <= n <= p.len(),
    ensures
        n <= q.len(),
        forall|k: int| 0 <= k < n ==> p[k] == q[k],
    decreases n,
{
    if n > 0 {
        lemma_same_prefix(held, p, q, n - 1);
        let x = p[n - 1];
        assert(p.contains(x));
        assert(q.contains(x));
        let at = choose|k: int| 0 <= k < q.len() && q[k] == x;
        if at < n - 1 {
            assert(p[at] == q[at]);
            assert(leads(held, p[at], p[n - 1]));
        } else if at > n - 1 {
            let y = q[n - 1];
            assert(q.contains(y));
            assert(p.contains(y));
            let from = choose|k: int| 0 <= k < p.len() && p[k] == y;
            assert(leads(held, q[n - 1], q[at]));
            if from < n - 1 {
                assert(p[from] == q[from]);
                assert(leads(held, q[from], q[n - 1]));
            } else if from > n - 1 {
                assert(leads(held, p[n - 1], p[from]));
            }
        }
    }
}

proof fn lemma_bag_count(list: Seq<GroupModel>, g: GroupModel)
    requires
        list.no_duplicates(),
    ensures
        list.to_multiset().count(g) == if list.contains(g) {
            1nat
        } else {
            0nat
        },
{
    list.to_multiset_ensures();
    list.lemma_multiset_has_no_duplicates();
    if list.contains(g) {
        assert(list.to_multiset().count(g) > 0);
        assert(list.to_multiset().contains(g));
    }
}

proof fn lemma_total_remove(groups: Seq<GroupModel>, at: int)
    requires
        0 <= at < groups.len(),
    ensures
        total(groups) == total(groups.remove(at)) + groups[at].entries.len(),
    decreases groups.len(),
{
    if at == groups.len() - 1 {
        assert(groups.remove(at) =~= groups.drop_last());
    } else {
        lemma_total_remove(groups.drop_last(), at);
        assert(groups.remove(at).drop_last() =~= groups.drop_last().remove(at));
        assert(groups.remove(at).last() == groups.last());
    }
}

proof fn lemma_total_of_bag(p: Seq<GroupModel>, q: Seq<GroupModel>)
    requires
        p.to_multiset() == q.to_multiset(),
    ensures
        total(p) == total(q),
    decreases p.len(),
{
    p.to_multiset_ensures();
    q.to_multiset_ensures();
    assert(p.len() == q.len());
    if p.len() > 0 {
        let x = p.last();
        assert(p.contains(x));
        assert(p.to_multiset().count(x) > 0);
        assert(q.contains(x));
        let at = choose|k: int| 0 <= k < q.len() && q[k] == x;
        lemma_total_remove(q, at);
        assert(p.remove(p.len() - 1) =~= p.drop_last());
        assert(p.remove(p.len() - 1).to_multiset() =~= p.to_multiset().remove(p[p.len() - 1]));
        assert(q.remove(at).to_multiset() =~= q.to_multiset().remove(q[at]));
        lemma_total_of_bag(p.drop_last(), q.remove(at));
    }
}

proof fn lemma_drained(
    held: Seq<GroupModel>,
    sorted: Seq<GroupModel>,
    now: int,
    window: int,
)
    requires
        grouped_by_app(held),
        oldest_first(held, sorted),
    ensures
        total(quiet_ones(sorted, now, window)) + total(busy_ones(held, now, window)) == total(held),
        quiet_ones(sorted, now, window).to_multiset().add(
            busy_ones(held, now, window).to_multiset(),
        ) == held.to_multiset(),
        quiet_ones(busy_ones(held, now, window), now, window).len() == 0,
{
    let quiet = |g: GroupModel| g.quiet(now, window);
    let busy = |g: GroupModel| !g.quiet(now, window);
    let out = sorted.filter(quiet);
    let out_held = held.filter(quiet);
    let rest = held.filter(busy);
    lemma_sorted_is_led(held, sorted);
    lemma_groups_differ(held);
    lemma_filtered_members(sorted, quiet);
    lemma_filtered_members(held, quiet);
    lemma_filtered_members(held, busy);
    lemma_filtered_members(rest, quiet);
    let differ = |g: GroupModel, h: GroupModel| g != h;
    lemma_filtered_pairs(sorted, quiet, differ);
    lemma_filtered_pairs(held, quiet, differ);
    lemma_filtered_pairs(held, busy, differ);
    assert(out.no_duplicates()) by {
        assert forall|i: int, j: int| 0 <= i < out.len() && 0 <= j < out.len() && i
            != j implies out[i] != out[j] by {
            assert(i < j ==> differ(out[i], out[j]));
            assert(j < i ==> differ(out[j], out[i]));
        }
    }
    assert(out_held.no_duplicates()) by {
        assert forall|i: int, j: int| 0 <= i < out_held.len() && 0 <= j < out_held.len() && i
            != j implies out_held[i] != out_held[j] by {
            assert(i < j ==> differ(out_held[i], out_held[j]));
            assert(j < i ==> differ(out_held[j], out_held[i]));
        }
    }
    assert(rest.no_duplicates()) by {
        assert forall|i: int, j: int| 0 <= i < rest.len() && 0 <= j < rest.len() && i
            != j implies rest[i] != rest[j] by {
            assert(i < j ==> differ(rest[i], rest[j]));
            assert(j < i ==> differ(rest[j], rest[i]));
        }
    }
    assert forall|g: GroupModel| #[trigger] out.to_multiset().count(g) == out_held.to_multiset().count(
        g,
    ) && out.to_multiset().count(g) + rest.to_multiset().count(g) == held.to_multiset().count(
        g,
    ) by {
        lemma_bag_count(out, g);
        lemma_bag_count(out_held, g);
        lemma_bag_count(rest, g);
        lemma_bag_count(held, g);
        assert(sorted.contains(g) <==> held.contains(g));
    }
    assert(out.to_multiset() =~= out_held.to_multiset());
    assert(out.to_multiset().add(rest.to_multiset()) =~= held.to_multiset());
    lemma_total_of_bag(out, out_held);
    draining_splits_what_is_held(held, now, window);
    if rest.filter(quiet).len() > 0 {
        assert(rest.filter(quiet).contains(rest.filter(quiet)[0]));
    }
}

/// Groups can be put oldest first in one way only: what is drained is what was
/// mature just before, and two looks at the same groups show the same.
pub proof fn groups_have_one_order(
    held: Seq<GroupModel>,
    p: Seq<GroupModel>,
    q: Seq<GroupModel>,
)
    requires
        oldest_first(held, p),
        oldest_first(held, q),
    ensures
        p == q,
{
    let keys = first_seen_keys(held);
    let a = choose|order: Seq<int>|
        {
            &&& #[trigger] sorting::ranking(keys, order)
            &&& p == order.map_values(|i: int| held[i])
        };
    let b = choose|order: Seq<int>|
        {
            &&& #[trigger] sorting::ranking(keys, order)
            &&& q == order.map_values(|i: int| held[i])
        };
    sorting::ranking_is_unique(keys, a, b);
}

/// Draining hands out what is mature and leaves the rest. The groups that come
/// out, oldest first, and those that stay add up to what was held, and so do
/// their entries. Nothing that stays is mature, and what stays is shown in the
/// order it had.
pub proof fn draining_takes_what_is_mature(
    held: Seq<GroupModel>,
    sorted: Seq<GroupModel>,
    after: Seq<GroupModel>,
    now: int,
    window: int,
)
    requires
        grouped_by_app(held),
        oldest_first(held, sorted),
        oldest_first(busy_ones(held, now, window), after),
    ensures
        quiet_ones(sorted, now, window).to_multiset().add(after.to_multiset())
            == held.to_multiset(),
        total(quiet_ones(sorted, now, window)) + total(after) == total(held),
        quiet_ones(after, now, window).len() == 0,
        after == busy_ones(sorted, now, window),
{
    let quiet = |g: GroupModel| g.quiet(now, window);
    let busy = |g: GroupModel| !g.quiet(now, window);
    let rest = held.filter(busy);
    lemma_drained(held, sorted, now, window);
    lemma_groups_differ(held);
    lemma_filter_keeps_groups(held, busy);
    lemma_groups_differ(rest);
    lemma_sorted_is_led(held, sorted);
    lemma_sorted_is_led(rest, after);
    lemma_filtered_members(held, busy);
    lemma_filtered_members(sorted, busy);
    lemma_filtered_members(after, quiet);

    // Among what stays, the order of opening is that among what was held.
    let opened = |g: GroupModel, h: GroupModel| held.index_of(g) < held.index_of(h);
    assert forall|i: int, j: int| 0 <= i < j < held.len() implies opened(
        #[trigger] held[i],
        #[trigger] held[j],
    ) by {
        assert(held.contains(held[i]) && held.contains(held[j]));
    }
    lemma_filtered_pairs(held, busy, opened);
    assert(led(held, after)) by {
        assert forall|i: int, j: int| 0 <= i < j < after.len() implies leads(
            held,
            #[trigger] after[i],
            #[trigger] after[j],
        ) by {
            assert(leads(rest, after[i], after[j]));
            assert(after.contains(after[i]) && after.contains(after[j]));
            assert(rest.contains(after[i]) && rest.contains(after[j]));
            let a = rest.index_of(after[i]);
            let b = rest.index_of(after[j]);
            if a < b {
                assert(opened(rest[a], rest[b]));
            }
        }
    }
    let wanted = sorted.filter(busy);
    assert(led(held, wanted)) by {
        let pair = |g: GroupModel, h: GroupModel| leads(held, g, h);
        lemma_filtered_pairs(sorted, busy, pair);
        assert forall|i: int, j: int| 0 <= i < j < wanted.len() implies leads(
            held,
            #[trigger] wanted[i],
            #[trigger] wanted[j],
        ) by {
            assert(pair(wanted[i], wanted[j]));
        }
    }
    assert(same_groups(after, wanted)) by {
        assert forall|g: GroupModel| #[trigger] after.contains(g) <==> wanted.contains(g) by {
            assert(after.contains(g) <==> rest.contains(g));
            assert(sorted.contains(g) <==> held.contains(g));
        }
    }
    lemma_same_prefix(held, after, wanted, after.len() as int);
    lemma_same_prefix(held, wanted, after, wanted.len() as int);
    assert(after =~= wanted);

    assert(after.to_multiset() =~= rest.to_multiset()) by {
        assert forall|g: GroupModel| #[trigger] after.to_multiset().count(g)
            == rest.to_multiset().count(g) by {
            lemma_bag_count(after, g);
            lemma_bag_count(rest, g);
            assert(after.contains(g) <==> rest.contains(g));
        }
    }
    lemma_total_of_bag(after, rest);
    if after.filter(quiet).len() > 0 {
        let g = after.filter(quiet)[0];
        assert(after.filter(quiet).contains(g));
        assert(after.contains(g) && rest.contains(g));
    }
}

proof fn lemma_remove_keeps_groups(groups: Seq<GroupModel>, at: int)
    requires
        grouped_by_app(groups),
        0 <= at < groups.len(),
    ensures
        grouped_by_app(groups.remove(at)),
{
    let after = groups.remove(at);
    assert forall|i: int, j: int| 0 <= i < j < after.len() implies (#[trigger] after[i]).app_id != (
    #[trigger] after[j]).app_id by {
        let x = if i < at {
            i
        } else {
            i + 1
        };
        let y = if j < at {
            j
        } else {
            j + 1
        };
        assert(after[i] == groups[x] && after[j] == groups[y]);
    }
    assert forall|i: int| 0 <= i < after.len() implies (#[trigger] after[i]).entries.len() > 0 by {
        let x = if i < at {
            i
        } else {
            i + 1
        };
        assert(after[i] == groups[x]);
    }
    assert forall|i: int, k: int|
        0 <= i < after.len() && 0 <= k < after[i].entries.len() implies (
    #[trigger] after[i].entries[k]).notification.source.app_id == after[i].app_id by {
        let x = if i < at {
            i
        } else {
            i + 1
        };
        assert(after[i] == groups[x]);
        assert(groups[x].entries[k].notification.source.app_id == groups[x].app_id);
    }
}

proof fn lemma_filter_keeps_groups(groups: Seq<GroupModel>, keep: spec_fn(GroupModel) -> bool)
    requires
        grouped_by_app(groups),
    ensures
        grouped_by_app(groups.filter(keep)),
        forall|i: int|
            0 <= i < groups.filter(keep).len() ==> groups.contains(
                #[trigger] groups.filter(keep)[i],
            ),
    decreases groups.len(),
{
    reveal(Seq::filter);
    if groups.len() > 0 {
        let rest = groups.drop_last();
        let kept = rest.filter(keep);
        assert(grouped_by_app(rest)) by {
            assert forall|i: int, k: int|
                0 <= i < rest.len() && 0 <= k < rest[i].entries.len() implies (
            #[trigger] rest[i].entries[k]).notification.source.app_id == rest[i].app_id by {
                assert(rest[i] == groups[i]);
                assert(groups[i].entries[k].notification.source.app_id == groups[i].app_id);
            }
        }
        lemma_filter_keeps_groups(rest, keep);
        let after = groups.filter(keep);
        let last = groups.last();
        assert forall|i: int| 0 <= i < after.len() implies groups.contains(#[trigger] after[i]) by {
            if i < kept.len() {
                assert(after[i] == kept[i]);
                assert(rest.contains(kept[i]));
                let k = choose|k: int| 0 <= k < rest.len() && rest[k] == kept[i];
                assert(groups[k] == after[i]);
            } else {
                assert(groups[groups.len() - 1] == after[i]);
            }
        }
        if keep(last) {
            assert(after =~= kept.push(last));
            assert forall|i: int, j: int| 0 <= i < j < after.len() implies (
            #[trigger] after[i]).app_id != (#[trigger] after[j]).app_id by {
                if j < kept.len() {
                    assert(after[i] == kept[i] && after[j] == kept[j]);
                } else {
                    assert(after[i] == kept[i]);
                    assert(rest.contains(kept[i]));
                    let k = choose|k: int| 0 <= k < rest.len() && rest[k] == kept[i];
                    assert(groups[k].app_id != groups[groups.len() - 1].app_id);
                }
            }
            assert forall|i: int| 0 <= i < after.len() implies (
            #[trigger] after[i]).entries.len() > 0 by {
                if i < kept.len() {
                    assert(after[i] == kept[i]);
                } else {
                    assert(groups[groups.len() - 1].entries.len() > 0);
                }
            }
            assert forall|i: int, k: int|
                0 <= i < after.len() && 0 <= k < after[i].entries.len() implies (
            #[trigger] after[i].entries[k]).notification.source.app_id == after[i].app_id by {
                if i < kept.len() {
                    assert(after[i] == kept[i]);
                    assert(kept[i].entries[k].notification.source.app_id == kept[i].app_id);
                } else {
                    let n = groups.len() - 1;
                    assert(groups[n].entries[k].notification.source.app_id == groups[n].app_id);
                }
            }
        } else {
            assert(after =~= kept);
        }
    }
}

/// A group that comes out as mature has had no entry for the whole window, and
/// one that stays has: what counts is the instant of the entry it got last,
/// however long ago the others came. Without a window every group is mature.
pub proof fn mature_groups_have_waited(
    groups: Seq<GroupModel>,
    now: int,
    window: int,
    g: GroupModel,
)
    ensures
        quiet_ones(groups, now, window).contains(g) <==> groups.contains(g) && (window == 0
            || g.entries[g.entries.len() - 1].notification.timestamp + window <= now),
        busy_ones(groups, now, window).contains(g) <==> groups.contains(g) && window != 0
            && g.entries[g.entries.len() - 1].notification.timestamp + window > now,
{
    lemma_filtered_members(groups, |g: GroupModel| g.quiet(now, window));
    lemma_filtered_members(groups, |g: GroupModel| !g.quiet(now, window));
}

/// A new entry restarts the wait of its app: until the window has passed since
/// then the app's group is not mature and stays held, and once it has passed it
/// is, whatever the group held before.
pub proof fn a_new_entry_restarts_the_wait(
    groups: Seq<GroupModel>,
    entry: EntryModel,
    now: int,
    window: int,
    g: GroupModel,
)
    requires
        grouped_by_app(groups),
        window > 0,
        folded(groups, entry).contains(g),
        g.app_id == entry.notification.source.app_id,
    ensures
        now - entry.notification.timestamp < window ==> !quiet_ones(
            folded(groups, entry),
            now,
            window,
        ).contains(g) && busy_ones(folded(groups, entry), now, window).contains(g),
        now - entry.notification.timestamp >= window ==> quiet_ones(
            folded(groups, entry),
            now,
            window,
        ).contains(g),
{
    let app = entry.notification.source.app_id;
    let after = folded(groups, entry);
    position_is_found(groups, app);
    folding_keeps_groups(groups, entry);
    let at = group_position(groups, app);
    let k = choose|k: int| 0 <= k < after.len() && after[k] == g;
    assert(after[at].app_id == app);
    assert(k == at);
    mature_groups_have_waited(after, now, window, g);
}

/// An entry goes behind the others of its app, which keep their places, and the
/// groups of other apps stay as they are. An app that had no group gets one
/// that holds the entry alone, behind the others. A group keeps the display
/// name it has and takes the entry's where it has none.
pub proof fn an_entry_joins_its_app(groups: Seq<GroupModel>, entry: EntryModel, i: int)
    requires
        grouped_by_app(groups),
        0 <= i < folded(groups, entry).len(),
    ensures
        ({
            let app = entry.notification.source.app_id;
            let name = entry.notification.source.display_name;
            let after = folded(groups, entry);
            let new = forall|k: int| 0 <= k < groups.len() ==> (#[trigger] groups[k]).app_id != app;
            &&& after.len() == groups.len() + if new {
                1int
            } else {
                0
            }
            &&& i < groups.len() && groups[i].app_id != app ==> after[i] == groups[i]
            &&& i < groups.len() && groups[i].app_id == app ==> {
                &&& after[i].app_id == app
                &&& after[i].entries == groups[i].entries.push(entry)
                &&& groups[i].app_display_name is Some ==> after[i].app_display_name
                    == groups[i].app_display_name
                &&& groups[i].app_display_name is None ==> after[i].app_display_name == name
            }
            &&& i == groups.len() ==> {
                &&& after[i].app_id == app
                &&& after[i].entries == seq![entry]
                &&& after[i].app_display_name == name
            }
        }),
{
    let app = entry.notification.source.app_id;
    position_is_found(groups, app);
    let at = group_position(groups, app);
    if at < groups.len() {
        assert(groups[at].app_id == app);
        if i < groups.len() && groups[i].app_id == app && i != at {
            if i < at {
                assert(groups[i].app_id != app);
            } else {
                assert(groups[at].app_id != groups[i].app_id);
            }
        }
    }
}

/// What is muted or batched is held, as it is, with the rule and the reason; what
/// is allowed is not.
pub proof fn what_is_suppressed_is_held(p: ProcessedModel)
    ensures
        p.evaluation.decision == Decision::Allow ==> entry_of(p) is None,
        p.evaluation.decision == Decision::Mute || p.evaluation.decision == Decision::Batch ==> {
            &&& entry_of(p) is Some
            &&& entry_of(p)->0.notification == p.notification
            &&& entry_of(p)->0.matched_rule == p.evaluation.matched_rule
            &&& entry_of(p)->0.reason == p.evaluation.reason
        },
{
}

/// Groups that are put oldest first are those that were there, and of any two the
/// one whose first entry came earlier stands in front.
pub proof fn the_oldest_group_comes_first(
    held: Seq<GroupModel>,
    sorted: Seq<GroupModel>,
    i: int,
    j: int,
)
    requires
        grouped_by_app(held),
        forall|k: int|
            0 <= k < held.len() ==> i64::MIN * 1_000_000_000 <= (
            #[trigger] held[k]).entries[0].notification.timestamp <= i64::MAX * 1_000_000_000,
        oldest_first(held, sorted),
        0 <= i < j < sorted.len(),
    ensures
        sorted[i].entries[0].notification.timestamp <= sorted[j].entries[0].notification.timestamp,
        sorted[i].app_id != sorted[j].app_id,
        held.contains(sorted[i]) && held.contains(sorted[j]),
        forall|g: GroupModel| held.contains(g) ==> sorted.contains(g),
{
    lemma_sorted_is_led(held, sorted);
    lemma_groups_differ(held);
    assert(sorted.contains(sorted[i]) && sorted.contains(sorted[j]));
    assert(held.contains(sorted[i]) && held.contains(sorted[j]));
    assert(leads(held, sorted[i], sorted[j]));
    let a = choose|a: int| 0 <= a < held.len() && held[a] == sorted[i];
    let b = choose|b: int| 0 <= b < held.len() && held[b] == sorted[j];
    assert(held[a].entries.first() == held[a].entries[0]);
    assert(held[b].entries.first() == held[b].entries[0]);
    assert(sorted[i] != sorted[j]);
    if a < b {
        assert(held[a].app_id != held[b].app_id);
    } else {
        assert(held[b].app_id != held[a].app_id);
    }
}

/// The number of held entries is that of each group, added up.
pub proof fn every_entry_counts_once(groups: Seq<GroupModel>, at: int)
    requires
        0 <= at < groups.len(),
    ensures
        total(groups) == total(groups.remove(at)) + groups[at].entries.len(),
        total(Seq::<GroupModel>::empty()) == 0,
{
    lemma_total_remove(groups, at);
}

/// Unless it is told otherwise a collector holds a group until its app has been
/// quiet for a quarter of an hour.
pub proof fn groups_wait_a_quarter_of_an_hour(g: GroupModel, now: int)
    requires
        g.entries.len() > 0,
    ensures
        g.quiet(now, DEFAULT_WINDOW * crate::clock::SECOND) <==> now
            - g.entries.last().notification.timestamp >= 15 * 60 * 1_000_000_000,
{
}

} // verus!
