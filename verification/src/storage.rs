//! Notification history: its entries, the filters that select them, the
//! retention rule and the digest over what was suppressed.
//!
//! The database itself is opened and driven elsewhere; here stands what is
//! asked of it and what is made of its answers.
use vstd::prelude::*;
use crate::clock;
use crate::clock::{floor_div, Span, Timestamp};
use crate::digest;
use crate::digest::{fold_entry, DigestEntry, DigestGroup, EntryModel, GroupModel};
use crate::engine::{ProcessedModel, ProcessedNotification};
use crate::error::{Error, ErrorModel};
use crate::model;
use crate::model::{copy_text_if_any, Notification, NotificationModel};
use crate::number;
use crate::number::decimal;
use crate::rules::Decision;
use crate::sorting;
use crate::sorting::rank_by;
use crate::text;
use crate::text::text_precedes;

verus! {

broadcast use vstd::string::group_string_axioms;

/// One row of user-visible history: a notification plus its decision.
#[derive(Debug, PartialEq)]
pub struct HistoryEntry {
    pub notification: Notification,
    pub decision: Decision,
    /// Rule that decided, if any.
    pub rule_id: Option<String>,
    /// Why it was decided so.
    pub reason: String,
    /// Whether the user has read it.
    pub read: bool,
    /// When it was decided.
    pub decided_at: Timestamp,
}

/// What a [`HistoryEntry`] says.
#[verifier::ext_equal]
pub struct HistoryModel {
    pub notification: NotificationModel,
    pub decision: Decision,
    pub rule_id: Option<Seq<char>>,
    pub reason: Seq<char>,
    pub read: bool,
    pub decided_at: int,
}

impl View for HistoryEntry {
    type V = HistoryModel;

    open spec fn view(&self) -> HistoryModel {
        HistoryModel {
            notification: self.notification@,
            decision: self.decision,
            rule_id: model::text_if_any(self.rule_id),
            reason: self.reason@,
            read: self.read,
            decided_at: self.decided_at@,
        }
    }
}

/// What each entry in a list says.
pub open spec fn history_models(entries: Seq<HistoryEntry>) -> Seq<HistoryModel> {
    entries.map_values(|e: HistoryEntry| e@)
}

/// The entry for a pipeline decision, made at a given instant.
pub open spec fn recorded(processed: ProcessedModel, at: int) -> HistoryModel {
    HistoryModel {
        notification: processed.notification,
        decision: processed.evaluation.decision,
        rule_id: processed.evaluation.matched_rule,
        reason: processed.evaluation.reason,
        read: false,
        decided_at: at,
    }
}

impl HistoryEntry {
    /// Build an entry from a pipeline decision, made now.
    pub fn from_processed(processed: &ProcessedNotification) -> (r: HistoryEntry)
        ensures
            r@ == recorded(processed@, r.decided_at@),
            r.decided_at@ >= 0,
    {
        HistoryEntry::decided(processed, Timestamp::now())
    }

    /// Build an entry from a pipeline decision, made at a given instant.
    pub fn decided(processed: &ProcessedNotification, at: Timestamp) -> (r: HistoryEntry)
        ensures
            r@ == recorded(processed@, at@),
            r.decided_at == at,
    {
        HistoryEntry {
            notification: processed.notification.clone(),
            decision: processed.evaluation.decision,
            rule_id: copy_text_if_any(&processed.evaluation.matched_rule),
            reason: processed.evaluation.reason.clone(),
            read: false,
            decided_at: at,
        }
    }
}

impl Clone for HistoryEntry {
    fn clone(&self) -> (r: HistoryEntry)
        ensures
            r@ == self@,
    {
        HistoryEntry {
            notification: self.notification.clone(),
            decision: self.decision,
            rule_id: copy_text_if_any(&self.rule_id),
            reason: self.reason.clone(),
            read: self.read,
            decided_at: self.decided_at,
        }
    }
}

/// Filter set for history queries and searches.
#[derive(Debug)]
pub struct HistoryQuery {
    /// Exact `app_id` (case-insensitive).
    pub app: Option<String>,
    /// Only this decision.
    pub decision: Option<Decision>,
    /// `timestamp >= since`.
    pub since: Option<Timestamp>,
    /// `timestamp <= until`.
    pub until: Option<Timestamp>,
    /// Only unread notifications.
    pub unread_only: bool,
    /// Maximum rows returned.
    pub limit: Option<u32>,
    /// Rows skipped (for pagination).
    pub offset: Option<u32>,
    /// Oldest-first instead of newest-first.
    pub ascending: bool,
}

/// What a [`HistoryQuery`] says.
pub struct QueryModel {
    pub app: Option<Seq<char>>,
    pub decision: Option<Decision>,
    pub since: Option<int>,
    pub until: Option<int>,
    pub unread_only: bool,
    pub limit: Option<u32>,
    pub offset: Option<u32>,
    pub ascending: bool,
}

/// An instant that may be absent.
pub open spec fn instant_if_any(t: Option<Timestamp>) -> Option<int> {
    match t {
        Some(at) => Some(at@),
        None => None,
    }
}

impl View for HistoryQuery {
    type V = QueryModel;

    open spec fn view(&self) -> QueryModel {
        QueryModel {
            app: model::text_if_any(self.app),
            decision: self.decision,
            since: instant_if_any(self.since),
            until: instant_if_any(self.until),
            unread_only: self.unread_only,
            limit: self.limit,
            offset: self.offset,
            ascending: self.ascending,
        }
    }
}

/// The query that selects everything, newest first.
pub open spec fn everything() -> QueryModel {
    QueryModel {
        app: None,
        decision: None,
        since: None,
        until: None,
        unread_only: false,
        limit: None,
        offset: None,
        ascending: false,
    }
}

impl HistoryQuery {
    /// Everything, newest first.
    pub fn new() -> (r: HistoryQuery)
        ensures
            r@ == everything(),
    {
        HistoryQuery {
            app: None,
            decision: None,
            since: None,
            until: None,
            unread_only: false,
            limit: None,
            offset: None,
            ascending: false,
        }
    }

    /// Only this app.
    pub fn with_app(self, app: &str) -> (r: HistoryQuery)
        ensures
            r@ == (QueryModel { app: Some(app@), ..self@ }),
    {
        HistoryQuery { app: Some(app.to_string()), ..self }
    }

    /// Only this decision.
    pub fn with_decision(self, decision: Decision) -> (r: HistoryQuery)
        ensures
            r@ == (QueryModel { decision: Some(decision), ..self@ }),
    {
        HistoryQuery { decision: Some(decision), ..self }
    }

    /// At most so many rows.
    pub fn with_limit(self, limit: u32) -> (r: HistoryQuery)
        ensures
            r@ == (QueryModel { limit: Some(limit), ..self@ }),
    {
        HistoryQuery { limit: Some(limit), ..self }
    }

    /// Nothing before this instant.
    pub fn since(self, since: Timestamp) -> (r: HistoryQuery)
        ensures
            r@ == (QueryModel { since: Some(since@), ..self@ }),
    {
        HistoryQuery { since: Some(since), ..self }
    }

    /// Nothing after this instant.
    pub fn until(self, until: Timestamp) -> (r: HistoryQuery)
        ensures
            r@ == (QueryModel { until: Some(until@), ..self@ }),
    {
        HistoryQuery { until: Some(until), ..self }
    }

    /// Only what is unread.
    pub fn unread_only(self) -> (r: HistoryQuery)
        ensures
            r@ == (QueryModel { unread_only: true, ..self@ }),
    {
        HistoryQuery { unread_only: true, ..self }
    }

    /// Oldest first.
    pub fn ascending(self) -> (r: HistoryQuery)
        ensures
            r@ == (QueryModel { ascending: true, ..self@ }),
    {
        HistoryQuery { ascending: true, ..self }
    }
}

impl Default for HistoryQuery {
    fn default() -> (r: HistoryQuery)
        ensures
            r@ == everything(),
    {
        HistoryQuery::new()
    }
}

/// Retention policy for the history.
#[derive(Clone, Copy, Debug, PartialEq, Eq, Structural)]
pub struct Retention {
    /// Delete notifications older than this.
    pub max_age: Option<Span>,
    /// Keep only the newest N notifications.
    pub max_count: Option<u64>,
}

impl Default for Retention {
    fn default() -> (r: Retention)
        ensures
            r.max_age is None,
            r.max_count is None,
    {
        Retention { max_age: None, max_count: None }
    }
}

/// What a prune run actually removed.
#[derive(Clone, Copy, Debug, PartialEq, Eq, Structural)]
pub struct PruneReport {
    pub removed_by_age: u64,
    pub removed_by_count: u64,
}

impl PruneReport {
    /// Everything that was removed.
    pub fn total(&self) -> (r: u64)
        requires
            self.removed_by_age + self.removed_by_count <= u64::MAX,
        ensures
            r == self.removed_by_age + self.removed_by_count,
    {
        self.removed_by_age + self.removed_by_count
    }
}

impl Default for PruneReport {
    fn default() -> (r: PruneReport)
        ensures
            r.removed_by_age == 0,
            r.removed_by_count == 0,
    {
        PruneReport { removed_by_age: 0, removed_by_count: 0 }
    }
}

/// A stored notification as the retention rule sees it.
#[derive(Debug, PartialEq, Eq)]
pub struct StoredRow {
    pub id: String,
    pub timestamp_millis: i64,
}

/// What a [`StoredRow`] says.
pub struct StoredModel {
    pub id: Seq<char>,
    pub millis: int,
}

impl View for StoredRow {
    type V = StoredModel;

    open spec fn view(&self) -> StoredModel {
        StoredModel { id: self.id@, millis: self.timestamp_millis as int }
    }
}

/// What each row in a list says.
pub open spec fn stored_models(rows: Seq<StoredRow>) -> Seq<StoredModel> {
    rows.map_values(|r: StoredRow| r@)
}

/// The instant, in milliseconds, before which notifications are too old.
pub open spec fn cutoff(now: int, max_age: int) -> int {
    (now - max_age) / 1_000_000
}

/// Whether a row is too old to be kept.
pub open spec fn too_old(row: StoredModel, retention: Retention, now: int) -> bool {
    retention.max_age is Some && row.millis < cutoff(now, retention.max_age->0@)
}

/// The rows that are too old, in order.
pub open spec fn expired(rows: Seq<StoredModel>, retention: Retention, now: int) -> Seq<StoredModel> {
    rows.filter(|r: StoredModel| too_old(r, retention, now))
}

/// The rows that are not too old, in order.
pub open spec fn fresh(rows: Seq<StoredModel>, retention: Retention, now: int) -> Seq<StoredModel> {
    rows.filter(|r: StoredModel| !too_old(r, retention, now))
}

/// How many of `n` rows are over the limit.
pub open spec fn overflow(n: nat, retention: Retention) -> nat {
    match retention.max_count {
        Some(max) => if n > max {
            (n - max) as nat
        } else {
            0
        },
        None => 0,
    }
}

/// Whether a row leaves no later than another: by instant, and by id among
/// rows of one instant.
pub open spec fn no_later(a: StoredModel, b: StoredModel) -> bool {
    a.millis < b.millis || (a.millis == b.millis && !text::precedes(b.id, a.id))
}

/// `sorted` holds the rows in the order in which they leave.
pub open spec fn oldest_rows_first(rows: Seq<StoredModel>, sorted: Seq<StoredModel>) -> bool {
    &&& sorted.to_multiset() == rows.to_multiset()
    &&& forall|i: int, j: int|
        0 <= i < j < sorted.len() ==> no_later(#[trigger] sorted[i], #[trigger] sorted[j])
}

/// `surplus` holds the oldest rows that the limit does not leave room for.
pub open spec fn surplus_rows(
    rows: Seq<StoredModel>,
    retention: Retention,
    surplus: Seq<StoredModel>,
) -> bool {
    exists|sorted: Seq<StoredModel>|
        #[trigger] oldest_rows_first(rows, sorted) && surplus == sorted.take(
            overflow(rows.len(), retention) as int,
        )
}

/// The ids of a list of rows.
pub open spec fn row_ids(rows: Seq<StoredModel>) -> Seq<Seq<char>> {
    rows.map_values(|r: StoredModel| r.id)
}

/// What a prune run has to delete.
#[derive(Debug, PartialEq, Eq)]
pub struct PrunePlan {
    /// Ids of the notifications that are too old.
    pub by_age: Vec<String>,
    /// Ids of the oldest notifications beyond the limit.
    pub by_count: Vec<String>,
}

/// The cutoff below which a row is too old, where there is one.
fn cutoff_millis(retention: &Retention, now: Timestamp) -> (r: Option<i128>)
    ensures
        r is Some <==> retention.max_age is Some,
        r is Some && retention.max_age->0@ <= 0xffff_ffff_ffff_ffff_ffff_ffff ==> r->0 == cutoff(
            now@,
            retention.max_age->0@,
        ),
        r is Some && retention.max_age->0@ > 0xffff_ffff_ffff_ffff_ffff_ffff ==> r->0 <= i64::MIN,
        r is Some && retention.max_age->0@ > 0xffff_ffff_ffff_ffff_ffff_ffff ==> cutoff(
            now@,
            retention.max_age->0@,
        ) <= i64::MIN,
{
    match retention.max_age {
        Some(age) => {
            let at: i128 = now.nanos();
            if age.nanos <= 0xffff_ffff_ffff_ffff_ffff_ffff {
                let start: i128 = at - age.nanos as i128;
                Some(floor_div(start, 1_000_000))
            } else {
                proof {
                    let start = now@ - age@;
                    assert(start <= 8_210_266_876_800 * 1_000_000_000
                        - 0xffff_ffff_ffff_ffff_ffff_ffff);
                    assert(start / 1_000_000 <= i64::MIN) by (nonlinear_arith)
                        requires
                            start <= 8_210_266_876_800 * 1_000_000_000
                                - 0xffff_ffff_ffff_ffff_ffff_ffff,
                    ;
                }
                Some(i64::MIN as i128)
            }
        },
        None => None,
    }
}

/// The rows at the given places.
spec fn picked(rows: Seq<StoredModel>, places: Seq<usize>) -> Seq<StoredModel> {
    places.map_values(|k: usize| rows[k as int])
}

/// Whether a row leaves no later than another.
fn leaves_no_later(a: &StoredRow, b: &StoredRow) -> (r: bool)
    ensures
        r == no_later(a@, b@),
{
    a.timestamp_millis < b.timestamp_millis || (a.timestamp_millis == b.timestamp_millis
        && !text_precedes(b.id.as_str(), a.id.as_str()))
}

proof fn lemma_no_later(a: StoredModel, b: StoredModel, c: StoredModel)
    ensures
        no_later(a, a),
        no_later(a, b) || no_later(b, a),
        no_later(a, b) && no_later(b, a) ==> a == b,
        no_later(a, b) && no_later(b, c) ==> no_later(a, c),
{
    text::one_text_precedes(a.id, a.id);
    text::one_text_precedes(a.id, b.id);
    text::one_text_precedes(b.id, c.id);
    if a.millis == c.millis && no_later(a, b) && no_later(b, c) && text::precedes(c.id, a.id) {
        if a.id == b.id || b.id == c.id {
        } else {
            text::precedence_carries_on(a.id, b.id, c.id);
            text::one_text_precedes(a.id, c.id);
        }
    }
}

/// The given places, those of the rows that leave first in front.
fn order_to_leave(rows: &Vec<StoredRow>, places: &Vec<usize>) -> (r: Vec<usize>)
    requires
        forall|k: int| 0 <= k < places@.len() ==> #[trigger] places@[k] < rows@.len(),
    ensures
        r@.len() == places@.len(),
        forall|k: int| 0 <= k < r@.len() ==> #[trigger] r@[k] < rows@.len(),
        oldest_rows_first(picked(stored_models(rows@), places@), picked(stored_models(rows@), r@)),
{
    let ghost models = stored_models(rows@);
    let ghost given = picked(models, places@);
    let mut out: Vec<usize> = Vec::new();
    let mut i: usize = 0;
    assert(picked(models, out@) =~= given.take(0));
    while i < places.len()
        invariant
            i <= places@.len(),
            models == stored_models(rows@),
            given == picked(models, places@),
            forall|k: int| 0 <= k < places@.len() ==> #[trigger] places@[k] < rows@.len(),
            out@.len() == i,
            forall|k: int| 0 <= k < out@.len() ==> #[trigger] out@[k] < rows@.len(),
            oldest_rows_first(given.take(i as int), picked(models, out@)),
        decreases places@.len() - i,
    {
        let place: usize = places[i];
        let ghost row = models[place as int];
        let ghost before = picked(models, out@);
        let mut at: usize = out.len();
        while at > 0 && !leaves_no_later(&rows[out[at - 1]], &rows[place])
            invariant
                at <= out@.len(),
                place < rows@.len(),
                models == stored_models(rows@),
                row == models[place as int],
                before == picked(models, out@),
                forall|k: int| 0 <= k < out@.len() ==> #[trigger] out@[k] < rows@.len(),
                forall|k: int| at <= k < before.len() ==> !no_later(#[trigger] before[k], row),
            decreases at,
        {
            at -= 1;
            assert(before[at as int] == rows@[out@[at as int] as int]@);
        }
        proof {
            if at > 0 {
                assert(before[at - 1] == rows@[out@[at - 1] as int]@);
            }
            let after = before.insert(at as int, row);
            assert forall|a: int, b: int| 0 <= a < b < after.len() implies no_later(
                #[trigger] after[a],
                #[trigger] after[b],
            ) by {
                let x = if a <= at {
                    a
                } else {
                    a - 1
                };
                let y = if b < at {
                    b
                } else {
                    b - 1
                };
                if a == at {
                    lemma_no_later(before[y], row, row);
                } else if b == at {
                    if a < at - 1 {
                        assert(no_later(before[a], before[at - 1]));
                        lemma_no_later(before[a], before[at - 1], row);
                    }
                } else {
                    assert(after[a] == before[x] && after[b] == before[y]);
                    assert(no_later(before[x], before[y]));
                }
            }
            vstd::seq_lib::to_multiset_insert(before, at as int, row);
            given.take(i as int).to_multiset_ensures();
            assert(given.take(i + 1) =~= given.take(i as int).push(row));
            assert(given.take(i as int).push(row).to_multiset() =~= given.take(
                i as int,
            ).to_multiset().insert(row));
            assert(picked(models, out@.insert(at as int, place)) =~= after);
        }
        let ghost held = out@;
        out.insert(at, place);
        assert forall|k: int| 0 <= k < out@.len() implies #[trigger] out@[k] < rows@.len() by {
            if k < at {
                assert(out@[k] == held[k]);
            } else if k > at {
                assert(out@[k] == held[k - 1]);
            }
        }
        i += 1;
    }
    assert(given.take(given.len() as int) =~= given);
    out
}

/// What a retention policy deletes from the stored notifications: those that
/// are older than the age limit, and of the others the oldest beyond the count
/// limit. Of rows of the same instant the one with the lesser id leaves first.
pub fn prune_plan(rows: &Vec<StoredRow>, retention: &Retention, now: Timestamp) -> (r: PrunePlan)
    ensures
        model::texts(r.by_age@) == row_ids(expired(stored_models(rows@), *retention, now@)),
        exists|surplus: Seq<StoredModel>|
            #[trigger] surplus_rows(
                fresh(stored_models(rows@), *retention, now@),
                *retention,
                surplus,
            ) && model::texts(r.by_count@) == row_ids(surplus),
{
    let ghost models = stored_models(rows@);
    let limit = cutoff_millis(retention, now);
    let mut by_age: Vec<String> = Vec::new();
    let mut left: Vec<usize> = Vec::new();
    let mut i: usize = 0;
    proof {
        reveal(Seq::filter);
        assert(model::texts(by_age@) =~= row_ids(expired(models.take(0), *retention, now@)));
        assert(picked(models, left@) =~= fresh(models.take(0), *retention, now@));
    }
    while i < rows.len()
        invariant
            i <= rows@.len(),
            models == stored_models(rows@),
            limit is Some <==> retention.max_age is Some,
            limit is Some && retention.max_age->0@ <= 0xffff_ffff_ffff_ffff_ffff_ffff ==> limit->0
                == cutoff(now@, retention.max_age->0@),
            limit is Some && retention.max_age->0@ > 0xffff_ffff_ffff_ffff_ffff_ffff ==> limit->0
                <= i64::MIN,
            limit is Some && retention.max_age->0@ > 0xffff_ffff_ffff_ffff_ffff_ffff ==> cutoff(
                now@,
                retention.max_age->0@,
            ) <= i64::MIN,
            model::texts(by_age@) == row_ids(expired(models.take(i as int), *retention, now@)),
            forall|k: int| 0 <= k < left@.len() ==> #[trigger] left@[k] < i,
            picked(models, left@) == fresh(models.take(i as int), *retention, now@),
        decreases rows@.len() - i,
    {
        let ghost row = models[i as int];
        proof {
            reveal(Seq::filter);
            assert(models.take(i + 1).drop_last() =~= models.take(i as int));
            assert(row == rows@[i as int]@);
        }
        let old_row = match limit {
            Some(at) => (rows[i].timestamp_millis as i128) < at,
            None => false,
        };
        assert(old_row == too_old(row, *retention, now@));
        if old_row {
            let ghost before = by_age@;
            by_age.push(rows[i].id.clone());
            assert(model::texts(by_age@) =~= model::texts(before).push(row.id));
            assert(row_ids(expired(models.take(i + 1), *retention, now@)) =~= row_ids(
                expired(models.take(i as int), *retention, now@),
            ).push(row.id));
        } else {
            let ghost before = left@;
            left.push(i);
            assert(picked(models, left@) =~= picked(models, before).push(row));
        }
        i += 1;
    }
    assert(models.take(models.len() as int) =~= models);
    let ghost kept = fresh(models, *retention, now@);
    assert(kept.len() == left@.len());

    let order = order_to_leave(rows, &left);
    let ghost sorted = picked(models, order@);
    let surplus: usize = match retention.max_count {
        Some(max) => {
            if left.len() as u64 > max {
                (left.len() as u64 - max) as usize
            } else {
                0
            }
        },
        None => 0,
    };
    assert(surplus == overflow(kept.len(), *retention));
    let mut by_count: Vec<String> = Vec::new();
    let mut k: usize = 0;
    while k < surplus
        invariant
            k <= surplus <= order@.len(),
            models == stored_models(rows@),
            sorted == picked(models, order@),
            forall|m: int| 0 <= m < order@.len() ==> #[trigger] order@[m] < rows@.len(),
            by_count@.len() == k,
            forall|m: int| 0 <= m < k ==> (#[trigger] by_count@[m])@ == sorted[m].id,
        decreases surplus - k,
    {
        assert(sorted[k as int] == rows@[order@[k as int] as int]@);
        by_count.push(rows[order[k]].id.clone());
        k += 1;
    }
    proof {
        let gone = sorted.take(surplus as int);
        assert(surplus_rows(kept, *retention, gone));
        assert(model::texts(by_count@) =~= row_ids(gone));
    }
    PrunePlan { by_age, by_count }
}

/// There is one order only in which rows leave.
pub proof fn rows_leave_in_one_order(
    rows: Seq<StoredModel>,
    p: Seq<StoredModel>,
    q: Seq<StoredModel>,
)
    requires
        oldest_rows_first(rows, p),
        oldest_rows_first(rows, q),
    ensures
        p == q,
{
    let leq = |a: StoredModel, b: StoredModel| no_later(a, b);
    assert forall|a: StoredModel, b: StoredModel, c: StoredModel| #[trigger] leq(a, b)
        && #[trigger] leq(b, c) implies leq(a, c) by {
        lemma_no_later(a, b, c);
    }
    assert forall|a: StoredModel, b: StoredModel| #[trigger] leq(a, b) && #[trigger] leq(
        b,
        a,
    ) implies a == b by {
        lemma_no_later(a, b, a);
    }
    assert forall|a: StoredModel, b: StoredModel| #[trigger] leq(a, b) || #[trigger] leq(b, a) by {
        lemma_no_later(a, b, a);
    }
    assert forall|a: StoredModel| #[trigger] leq(a, a) by {
        lemma_no_later(a, a, a);
    }
    assert(vstd::relations::sorted_by(p, leq));
    assert(vstd::relations::sorted_by(q, leq));
    vstd::seq_lib::lemma_sorted_unique(p, q, leq);
}

/// What is removed for want of room is no newer than anything that is kept,
/// and of the same instant only under an id that is not greater.
pub proof fn pruning_keeps_the_newest(
    rows: Seq<StoredModel>,
    retention: Retention,
    sorted: Seq<StoredModel>,
    gone: int,
    kept: int,
)
    requires
        oldest_rows_first(rows, sorted),
        0 <= gone < overflow(rows.len(), retention) <= kept < rows.len(),
    ensures
        sorted.len() == rows.len(),
        sorted[gone].millis <= sorted[kept].millis,
        sorted[gone].millis == sorted[kept].millis ==> !text::precedes(
            sorted[kept].id,
            sorted[gone].id,
        ),
        rows.contains(sorted[gone]) && rows.contains(sorted[kept]),
{
    rows.to_multiset_ensures();
    sorted.to_multiset_ensures();
    assert(sorted.len() == rows.len());
    assert(no_later(sorted[gone], sorted[kept]));
    assert(sorted.contains(sorted[gone]) && sorted.contains(sorted[kept]));
    assert(rows.to_multiset().count(sorted[gone]) > 0);
    assert(rows.to_multiset().count(sorted[kept]) > 0);
}

/// After pruning no more notifications are left than the limit allows, and
/// where there was room for all of them none was removed for want of it.
pub proof fn pruning_meets_the_limit(n: nat, retention: Retention)
    ensures
        overflow(n, retention) <= n,
        retention.max_count matches Some(max) ==> n - overflow(n, retention) == if n <= max {
            n as int
        } else {
            max as int
        },
        retention.max_count is None ==> overflow(n, retention) == 0,
        overflow((n - overflow(n, retention)) as nat, retention) == 0,
{
}

/// What is removed for its age is too old, what is left is not, and a second
/// run at the same instant finds nothing more to remove.
pub proof fn pruning_by_age_is_settled(rows: Seq<StoredModel>, retention: Retention, now: int)
    ensures
        expired(rows, retention, now).len() + fresh(rows, retention, now).len() == rows.len(),
        forall|i: int|
            0 <= i < fresh(rows, retention, now).len() ==> !too_old(
                #[trigger] fresh(rows, retention, now)[i],
                retention,
                now,
            ),
        forall|i: int|
            0 <= i < expired(rows, retention, now).len() ==> too_old(
                #[trigger] expired(rows, retention, now)[i],
                retention,
                now,
            ),
        expired(fresh(rows, retention, now), retention, now).len() == 0,
    decreases rows.len(),
{
    reveal(Seq::filter);
    if rows.len() > 0 {
        let rest = rows.drop_last();
        pruning_by_age_is_settled(rest, retention, now);
        let kept = fresh(rest, retention, now);
        if !too_old(rows.last(), retention, now) {
            assert(fresh(rows, retention, now) =~= kept.push(rows.last()));
            assert(kept.push(rows.last()).drop_last() =~= kept);
        }
    }
}

/// Schema version that this build reads and writes.
pub const SCHEMA_VERSION: u32 = 1;

/// Portable backup document.
#[derive(Debug)]
pub struct HistoryExport {
    pub schema_version: u32,
    pub exported_at: Timestamp,
    pub entries: Vec<HistoryEntry>,
}

/// A schema version that this build reads.
pub open spec fn supported_schema(version: u32) -> bool {
    version != 0 && version <= SCHEMA_VERSION
}

/// Whether a backup of this schema version can be restored.
pub fn check_backup_version(version: u32) -> (r: Result<(), Error>)
    ensures
        r is Ok <==> supported_schema(version),
        r matches Err(e) ==> e@ == ErrorModel::ConfigValidation(
            "backup schema version "@ + number::digits(version as nat)
                + " is not supported by this build"@,
        ),
{
    if version == 0 || version > SCHEMA_VERSION {
        let mut message = "backup schema version ".to_string();
        message.append(decimal(version as u64).as_str());
        message.append(" is not supported by this build");
        return Err(Error::validation(message));
    }
    Ok(())
}

/// The schema versions that a database at `current` still has to be brought to,
/// in order.
pub fn pending_migrations(current: u32) -> (r: Vec<u32>)
    ensures
        r@ == Seq::new(
            (if current < SCHEMA_VERSION {
                SCHEMA_VERSION - current
            } else {
                0
            }) as nat,
            |i: int| (current + 1 + i) as u32,
        ),
{
    let mut out: Vec<u32> = Vec::new();
    let mut target: u32 = 1;
    while target <= SCHEMA_VERSION
        invariant
            1 <= target <= SCHEMA_VERSION + 1,
            out@ == Seq::new(
                (if current + 1 < target {
                    target - current - 1
                } else {
                    0
                }) as nat,
                |i: int| (current + 1 + i) as u32,
            ),
        decreases SCHEMA_VERSION + 1 - target,
    {
        if current < target {
            out.push(target);
        }
        target += 1;
        assert(out@ =~= Seq::new(
            (if current + 1 < target {
                target - current - 1
            } else {
                0
            }) as nat,
            |i: int| (current + 1 + i) as u32,
        ));
    }
    out
}

/// The digest entry that a history entry makes.
pub open spec fn digest_entry(entry: HistoryModel) -> EntryModel {
    EntryModel {
        notification: entry.notification,
        matched_rule: entry.rule_id,
        reason: entry.reason,
    }
}

/// Whether a history entry belongs to a digest: it was suppressed, and it is
/// not older, in milliseconds, than `since`.
pub open spec fn digested(entry: HistoryModel, since: int) -> bool {
    entry.decision != Decision::Allow && clock::millis_of(entry.notification.timestamp)
        >= clock::millis_of(since)
}

/// The instants by which digest entries are put in order; entries that belong
/// to no digest have none.
pub open spec fn digest_keys(entries: Seq<HistoryModel>, since: int) -> Seq<Option<i128>> {
    entries.map_values(
        |e: HistoryModel|
            if digested(e, since) {
                Some(e.notification.timestamp as i128)
            } else {
                None
            },
    )
}

/// Groups made of entries one after the other.
pub open spec fn folded_all(entries: Seq<EntryModel>) -> Seq<GroupModel>
    decreases entries.len(),
{
    if entries.len() == 0 {
        Seq::empty()
    } else {
        digest::folded(folded_all(entries.drop_last()), entries.last())
    }
}

/// Per-app digest groups over the suppressed entries of a history (mute/batch)
/// from `since` on, oldest app first, the entries of an app oldest first. This
/// is the historical view backing the live collector.
pub fn digest_groups(entries: &Vec<HistoryEntry>, since: Timestamp) -> (r: Vec<DigestGroup>)
    ensures
        exists|order: Seq<int>|
            {
                &&& #[trigger] sorting::ranking(
                    digest_keys(history_models(entries@), since@),
                    order,
                )
                &&& digest::group_models(r@) == folded_all(
                    order.map_values(|i: int| digest_entry(history_models(entries@)[i])),
                )
            },
{
    let ghost models = history_models(entries@);
    let ghost wanted = digest_keys(models, since@);
    let from: i64 = since.millis();
    let mut keys: Vec<Option<i128>> = Vec::new();
    let mut i: usize = 0;
    while i < entries.len()
        invariant
            i <= entries@.len(),
            models == history_models(entries@),
            wanted == digest_keys(models, since@),
            from == clock::millis_of(since@),
            keys@ == wanted.take(i as int),
        decreases entries@.len() - i,
    {
        let entry = &entries[i];
        assert(models[i as int] == entry@);
        if entry.decision != Decision::Allow && entry.notification.timestamp.millis() >= from {
            keys.push(Some(entry.notification.timestamp.nanos()));
        } else {
            keys.push(None);
        }
        assert(keys@ =~= wanted.take(i + 1));
        i += 1;
    }
    assert(keys@ =~= wanted);
    let order = rank_by(&keys);
    let ghost places = sorting::positions(order@);
    let ghost listed = places.map_values(|i: int| digest_entry(models[i]));
    let mut groups: Vec<DigestGroup> = Vec::new();
    let mut k: usize = 0;
    assert(digest::group_models(groups@) =~= folded_all(listed.take(0)));
    while k < order.len()
        invariant
            k <= order@.len(),
            models == history_models(entries@),
            places == sorting::positions(order@),
            sorting::ranking(wanted, places),
            wanted == digest_keys(models, since@),
            listed == places.map_values(|i: int| digest_entry(models[i])),
            digest::group_models(groups@) == folded_all(listed.take(k as int)),
        decreases order@.len() - k,
    {
        assert(0 <= places[k as int] < wanted.len());
        let entry = &entries[order[k]];
        assert(entry@ == models[places[k as int]]);
        let held = DigestEntry {
            notification: entry.notification.clone(),
            matched_rule: copy_text_if_any(&entry.rule_id),
            reason: entry.reason.clone(),
        };
        assert(listed.take(k + 1).drop_last() =~= listed.take(k as int));
        assert(listed.take(k + 1).last() == held@);
        fold_entry(&mut groups, held);
        k += 1;
    }
    assert(listed.take(listed.len() as int) =~= listed);
    groups
}

/// Entries by ascending instant.
pub open spec fn ascending_entries(entries: Seq<EntryModel>) -> bool {
    forall|i: int, j: int|
        0 <= i <= j < entries.len() ==> (#[trigger] entries[i]).notification.timestamp <= (
        #[trigger] entries[j]).notification.timestamp
}

/// Folding entries oldest first gives groups oldest first, each with its
/// entries oldest first, one group for each app.
pub proof fn digest_is_oldest_first(entries: Seq<EntryModel>)
    requires
        ascending_entries(entries),
    ensures
        digest::grouped_by_app(folded_all(entries)),
        forall|i: int, j: int|
            0 <= i <= j < folded_all(entries).len() ==> (
            #[trigger] folded_all(entries)[i]).first_seen() <= (
            #[trigger] folded_all(entries)[j]).first_seen(),
        forall|i: int|
            0 <= i < folded_all(entries).len() ==> ascending_entries(
                (#[trigger] folded_all(entries)[i]).entries,
            ),
        forall|i: int|
            0 <= i < folded_all(entries).len() ==> (
            #[trigger] folded_all(entries)[i]).last_seen() <= entries.last().notification.timestamp,
    decreases entries.len(),
{
    if entries.len() > 0 {
        let rest = entries.drop_last();
        let last = entries.last();
        digest_is_oldest_first(rest);
        let before = folded_all(rest);
        let after = folded_all(entries);
        digest::folding_keeps_groups(before, last);
        digest::position_is_found(before, last.notification.source.app_id);
        let at = digest::group_position(before, last.notification.source.app_id);
        if rest.len() > 0 {
            assert(entries[rest.len() - 1].notification.timestamp <= entries[
                entries.len() - 1].notification.timestamp);
        }
        assert forall|i: int| 0 <= i < after.len() implies ascending_entries(
            (#[trigger] after[i]).entries,
        ) && after[i].last_seen() <= last.notification.timestamp && (i < before.len()
            ==> after[i].first_seen() == before[i].first_seen()) && after[i].first_seen()
            <= after[i].last_seen() by {
            if i < before.len() {
                assert(before[i].entries.len() > 0);
                assert(ascending_entries(before[i].entries));
                let list = before[i].entries;
                assert(list[0].notification.timestamp <= list[list.len() - 1].notification.timestamp);
                assert(before[i].last_seen() <= rest.last().notification.timestamp);
                if i == at {
                    assert(after[i].entries =~= list.push(last));
                    assert forall|a: int, b: int|
                        0 <= a <= b < after[i].entries.len() implies (
                    #[trigger] after[i].entries[a]).notification.timestamp <= (
                    #[trigger] after[i].entries[b]).notification.timestamp by {
                        if b < list.len() {
                            assert(list[a].notification.timestamp
                                <= list[b].notification.timestamp);
                        } else if a < list.len() {
                            assert(list[a].notification.timestamp <= list[
                                list.len() - 1].notification.timestamp);
                        }
                    }
                }
            }
        }
    }
}

/// A row is too old exactly when its millisecond was over that long ago; without
/// a limit none ever is.
pub proof fn rows_grow_too_old(row: StoredModel, retention: Retention, now: int)
    ensures
        retention.max_age is None ==> !too_old(row, retention, now),
        retention.max_age matches Some(age) ==> (too_old(row, retention, now) <==> (row.millis + 1)
            * 1_000_000 + age@ <= now),
{
}

/// What the limit leaves no room for is as much as there is over it, and each of
/// it is one of the rows.
pub proof fn surplus_is_what_is_over_the_limit(
    rows: Seq<StoredModel>,
    retention: Retention,
    surplus: Seq<StoredModel>,
    k: int,
)
    requires
        surplus_rows(rows, retention, surplus),
    ensures
        retention.max_count is None ==> surplus.len() == 0,
        retention.max_count matches Some(max) ==> surplus.len() == if rows.len() > max {
            rows.len() - max
        } else {
            0
        },
        0 <= k < surplus.len() ==> rows.contains(surplus[k]),
        0 < k < surplus.len() ==> surplus[k - 1].millis <= surplus[k].millis,
{
    let sorted = choose|sorted: Seq<StoredModel>|
        #[trigger] oldest_rows_first(rows, sorted) && surplus == sorted.take(
            overflow(rows.len(), retention) as int,
        );
    rows.to_multiset_ensures();
    sorted.to_multiset_ensures();
    assert(sorted.len() == rows.len());
    if 0 <= k < surplus.len() {
        assert(surplus[k] == sorted[k]);
        assert(sorted.contains(sorted[k]));
        assert(rows.to_multiset().count(sorted[k]) > 0);
        if 0 < k {
            assert(surplus[k - 1] == sorted[k - 1]);
            assert(no_later(sorted[k - 1], sorted[k]));
        }
    }
}

/// An entry says what was decided about its notification, by which rule and why,
/// and is unread.
pub proof fn entries_say_what_was_decided(processed: ProcessedModel, at: int)
    ensures
        ({
            let entry = recorded(processed, at);
            &&& entry.notification == processed.notification
            &&& entry.decision == processed.evaluation.decision
            &&& entry.rule_id == processed.evaluation.matched_rule
            &&& entry.reason == processed.evaluation.reason
            &&& !entry.read
            &&& entry.decided_at == at
        }),
{
}

/// A digest takes what was suppressed from its start on, to the millisecond, and
/// nothing that was shown.
pub proof fn digests_take_what_was_suppressed(entry: HistoryModel, since: int)
    ensures
        entry.decision == Decision::Allow ==> !digested(entry, since),
        entry.decision != Decision::Allow && entry.notification.timestamp >= since ==> digested(
            entry,
            since,
        ),
        entry.notification.timestamp + 1_000_000 <= since ==> !digested(entry, since),
        digested(entry, since) ==> digest_entry(entry).notification == entry.notification
            && digest_entry(entry).matched_rule == entry.rule_id && digest_entry(entry).reason
            == entry.reason,
{
}

/// A digest holds every entry that was folded into it, once.
pub proof fn a_digest_holds_every_entry(entries: Seq<EntryModel>, id: Seq<char>)
    ensures
        digest::total(folded_all(entries)) == entries.len(),
        digest::held(folded_all(entries), id) <==> exists|i: int|
            0 <= i < entries.len() && (#[trigger] entries[i]).notification.id == id,
    decreases entries.len(),
{
    if entries.len() > 0 {
        let rest = entries.drop_last();
        a_digest_holds_every_entry(rest, id);
        digest::folding_holds_one_more(folded_all(rest), entries.last());
        digest::folding_holds_the_entry(folded_all(rest), entries.last(), id);
        if exists|i: int| 0 <= i < rest.len() && (#[trigger] rest[i]).notification.id == id {
            let i = choose|i: int| 0 <= i < rest.len() && (#[trigger] rest[i]).notification.id == id;
            assert(entries[i].notification.id == id);
        }
        if exists|i: int| 0 <= i < entries.len() && (#[trigger] entries[i]).notification.id == id {
            let i = choose|i: int|
                0 <= i < entries.len() && (#[trigger] entries[i]).notification.id == id;
            if i < rest.len() {
                assert(rest[i].notification.id == id);
            }
        }
        assert(entries[entries.len() - 1] == entries.last());
    } else {
        assert(folded_all(entries) =~= Seq::<GroupModel>::empty());
    }
}

/// A backup is read in every schema version from the first to the present one.
pub proof fn backups_are_read_up_to_this_version(version: u32)
    ensures
        supported_schema(version) <==> 1 <= version <= SCHEMA_VERSION,
        supported_schema(SCHEMA_VERSION),
{
}

/// The query that selects everything sets no bound and comes newest first.
pub proof fn everything_sets_no_bound()
    ensures
        everything().app is None && everything().decision is None,
        everything().since is None && everything().until is None,
        everything().limit is None && everything().offset is None,
        !everything().unread_only && !everything().ascending,
{
}

} // verus!
