//! What the history database holds, and what the statements about the history
//! mean: each change by what it does to the tables, each read by the lines that
//! answer it.
//!
//! The database engine is driven elsewhere. Of its full-text search no more is
//! said than that a search text is found in a title and a body or is not.
use vstd::prelude::*;
use crate::clock;
use crate::model::{ActionModel, IconModel};
use crate::rows;
use crate::rows::{DecisionRowModel, NotificationRowModel};
use crate::rules;
use crate::sql;
use crate::sql::{ClauseModel, StatementModel, ValueModel};
use crate::storage;
use crate::storage::{HistoryModel, QueryModel, StoredModel};
use crate::text;

verus! {

/// A line of the table of notifications.
#[verifier::ext_equal]
pub struct NotificationLine {
    pub row: NotificationRowModel,
    pub read: int,
}

/// A line of the search index.
pub struct IndexLine {
    pub id: Seq<char>,
    pub title: Seq<char>,
    pub body: Seq<char>,
}

/// What the history database holds: the notifications by id, the decisions in
/// the order they were appended, and the search index.
#[verifier::ext_equal]
pub struct Tables {
    pub notifications: Map<Seq<char>, NotificationLine>,
    pub decisions: Seq<DecisionRowModel>,
    pub index: Seq<IndexLine>,
}

/// The tables of a new database.
pub open spec fn no_history() -> Tables {
    Tables { notifications: Map::empty(), decisions: Seq::empty(), index: Seq::empty() }
}

impl Tables {
    /// There is a notification of an id.
    pub open spec fn holds(self, id: Seq<char>) -> bool {
        self.notifications.dom().contains(id)
    }

    /// How many notifications there are.
    pub open spec fn count(self) -> nat {
        self.notifications.dom().len()
    }

    /// The tables fit together: every notification stands under its id and once
    /// in the search index, and every decision and every line of the index is
    /// about a notification that is there.
    pub open spec fn sound(self) -> bool {
        &&& self.notifications.dom().finite()
        &&& forall|id: Seq<char>| #[trigger]
            self.holds(id) ==> self.notifications[id].row.id == id && exists|k: int|
                0 <= k < self.index.len() && (#[trigger] self.index[k]).id == id
        &&& forall|k: int|
            0 <= k < self.decisions.len() ==> self.holds(
                (#[trigger] self.decisions[k]).notification_id,
            )
        &&& forall|k: int| 0 <= k < self.index.len() ==> self.holds((#[trigger] self.index[k]).id)
        &&& forall|i: int, j: int|
            0 <= i < j < self.index.len() ==> (#[trigger] self.index[i]).id != (
            #[trigger] self.index[j]).id
    }
}

/// The text that is bound at a place.
pub open spec fn text_at(args: Seq<ValueModel>, i: int) -> Seq<char> {
    match args[i] {
        ValueModel::Text(t) => t,
        _ => Seq::empty(),
    }
}

/// The text that is bound at a place, if one is.
pub open spec fn text_if_any_at(args: Seq<ValueModel>, i: int) -> Option<Seq<char>> {
    match args[i] {
        ValueModel::Text(t) => Some(t),
        _ => None,
    }
}

/// The number that is bound at a place.
pub open spec fn number_at(args: Seq<ValueModel>, i: int) -> int {
    match args[i] {
        ValueModel::Integer(n) => n,
        _ => 0,
    }
}

/// The lines of a search index that are about other notifications.
pub open spec fn index_of_others(index: Seq<IndexLine>, id: Seq<char>) -> Seq<IndexLine> {
    index.filter(|line: IndexLine| line.id != id)
}

/// The decisions about other notifications.
pub open spec fn decisions_of_others(decisions: Seq<DecisionRowModel>, id: Seq<char>) -> Seq<
    DecisionRowModel,
> {
    decisions.filter(|d: DecisionRowModel| d.notification_id != id)
}

/// What a statement does to the tables. A notification that is stored takes the
/// place of the one of its id, and with one that is deleted its decisions go.
pub open spec fn carried_out(t: Tables, s: StatementModel) -> Tables {
    if s.sql == sql::store_text() {
        let line = NotificationLine {
            row: NotificationRowModel {
                id: text_at(s.args, 0),
                app_id: text_at(s.args, 1),
                app_display_name: text_if_any_at(s.args, 2),
                title: text_at(s.args, 3),
                body: text_at(s.args, 4),
                urgency: text_at(s.args, 5),
                timestamp_millis: number_at(s.args, 6),
                actions_json: text_at(s.args, 7),
                icon_json: text_if_any_at(s.args, 8),
            },
            read: number_at(s.args, 9),
        };
        Tables { notifications: t.notifications.insert(line.row.id, line), ..t }
    } else if s.sql == sql::unindex_text() {
        Tables { index: index_of_others(t.index, text_at(s.args, 0)), ..t }
    } else if s.sql == sql::index_text() {
        let line = IndexLine {
            id: text_at(s.args, 0),
            title: text_at(s.args, 1),
            body: text_at(s.args, 2),
        };
        Tables { index: t.index.push(line), ..t }
    } else if s.sql == sql::decide_text() {
        let row = DecisionRowModel {
            notification_id: text_at(s.args, 0),
            decision: text_at(s.args, 1),
            rule_id: text_if_any_at(s.args, 2),
            reason: text_at(s.args, 3),
            decided_millis: number_at(s.args, 4),
        };
        Tables { decisions: t.decisions.push(row), ..t }
    } else if s.sql == sql::delete_text() {
        let id = text_at(s.args, 0);
        Tables {
            notifications: t.notifications.remove(id),
            decisions: decisions_of_others(t.decisions, id),
            ..t
        }
    } else if s.sql == sql::set_read_text() {
        let id = text_at(s.args, 1);
        if t.holds(id) {
            let line = NotificationLine { read: number_at(s.args, 0), ..t.notifications[id] };
            Tables { notifications: t.notifications.insert(id, line), ..t }
        } else {
            t
        }
    } else if s.sql == sql::clear_texts()[0] {
        Tables { notifications: Map::empty(), decisions: Seq::empty(), ..t }
    } else if s.sql == sql::clear_texts()[1] {
        Tables { index: Seq::empty(), ..t }
    } else if s.sql == sql::clear_texts()[2] {
        Tables { decisions: Seq::empty(), ..t }
    } else {
        t
    }
}

/// What statements do to the tables, one after the other.
pub open spec fn all_carried_out(t: Tables, statements: Seq<StatementModel>) -> Tables
    decreases statements.len(),
{
    if statements.len() == 0 {
        t
    } else {
        carried_out(all_carried_out(t, statements.drop_last()), statements.last())
    }
}

proof fn lemma_texts()
    ensures
        sql::store_text() != sql::unindex_text(),
        sql::store_text() != sql::index_text(),
        sql::store_text() != sql::decide_text(),
        sql::unindex_text() != sql::index_text(),
        sql::unindex_text() != sql::decide_text(),
        sql::index_text() != sql::decide_text(),
        sql::delete_text() != sql::store_text(),
        sql::delete_text() != sql::unindex_text(),
        sql::delete_text() != sql::index_text(),
        sql::delete_text() != sql::decide_text(),
        sql::set_read_text() != sql::store_text(),
        sql::set_read_text() != sql::unindex_text(),
        sql::set_read_text() != sql::index_text(),
        sql::set_read_text() != sql::decide_text(),
        sql::set_read_text() != sql::delete_text(),
        forall|i: int|
            0 <= i < 3 ==> {
                let text = #[trigger] sql::clear_texts()[i];
                &&& text != sql::store_text()
                &&& text != sql::unindex_text()
                &&& text != sql::index_text()
                &&& text != sql::decide_text()
                &&& text != sql::delete_text()
                &&& text != sql::set_read_text()
            },
        sql::clear_texts()[0] != sql::clear_texts()[1],
        sql::clear_texts()[0] != sql::clear_texts()[2],
        sql::clear_texts()[1] != sql::clear_texts()[2],
{
    sql::changes_differ();
    let texts = seq![
        sql::store_text(),
        sql::unindex_text(),
        sql::index_text(),
        sql::decide_text(),
        sql::delete_text(),
        sql::set_read_text(),
        sql::clear_texts()[0],
        sql::clear_texts()[1],
        sql::clear_texts()[2],
    ];
    assert(texts.no_duplicates());
    assert(texts[0] != texts[1] && texts[0] != texts[2] && texts[0] != texts[3]);
    assert(texts[1] != texts[2] && texts[1] != texts[3] && texts[2] != texts[3]);
    assert(texts[4] != texts[0] && texts[4] != texts[1] && texts[4] != texts[2] && texts[4]
        != texts[3]);
    assert(texts[5] != texts[0] && texts[5] != texts[1] && texts[5] != texts[2] && texts[5]
        != texts[3] && texts[5] != texts[4]);
    assert(texts[6] != texts[7] && texts[6] != texts[8] && texts[7] != texts[8]);
    assert forall|i: int| 0 <= i < 3 implies {
        let text = #[trigger] sql::clear_texts()[i];
        &&& text != sql::store_text()
        &&& text != sql::unindex_text()
        &&& text != sql::index_text()
        &&& text != sql::decide_text()
        &&& text != sql::delete_text()
        &&& text != sql::set_read_text()
    } by {
        assert(i == 0 || i == 1 || i == 2);
        assert(texts[i + 6] == sql::clear_texts()[i]);
        assert(texts[i + 6] != texts[0] && texts[i + 6] != texts[1] && texts[i + 6] != texts[2]
            && texts[i + 6] != texts[3] && texts[i + 6] != texts[4] && texts[i + 6] != texts[5]);
    }
}

/// The tables after a notification and its decision were recorded.
pub open spec fn after_record(
    t: Tables,
    row: NotificationRowModel,
    read: bool,
    decision: DecisionRowModel,
) -> Tables {
    Tables {
        notifications: t.notifications.insert(
            row.id,
            NotificationLine { row, read: sql::flag(read) },
        ),
        decisions: t.decisions.push(decision),
        index: index_of_others(t.index, row.id).push(
            IndexLine { id: row.id, title: row.title, body: row.body },
        ),
    }
}

/// What the statements that record a notification and its decision come to.
pub proof fn recording_writes_its_rows(
    t: Tables,
    row: NotificationRowModel,
    read: bool,
    decision: DecisionRowModel,
)
    ensures
        all_carried_out(t, sql::recorded(row, read, decision)) == after_record(
            t,
            row,
            read,
            decision,
        ),
{
    lemma_texts();
    let all = sql::recorded(row, read, decision);
    let three = all.drop_last();
    let two = three.drop_last();
    let one = two.drop_last();
    assert(one.drop_last() =~= Seq::<StatementModel>::empty());
    reveal_with_fuel(all_carried_out, 5);
    let t1 = carried_out(t, all[0]);
    assert(t1 =~= Tables {
        notifications: t.notifications.insert(
            row.id,
            NotificationLine { row, read: sql::flag(read) },
        ),
        ..t
    });
    let t2 = carried_out(t1, all[1]);
    let t3 = carried_out(t2, all[2]);
    let t4 = carried_out(t3, all[3]);
    assert(t4 =~= after_record(t, row, read, decision));
}

proof fn lemma_index_without(index: Seq<IndexLine>, id: Seq<char>)
    requires
        forall|i: int, j: int|
            0 <= i < j < index.len() ==> (#[trigger] index[i]).id != (#[trigger] index[j]).id,
    ensures
        ({
            let kept = index_of_others(index, id);
            &&& forall|line: IndexLine| #[trigger]
                kept.contains(line) <==> index.contains(line) && line.id != id
            &&& forall|i: int, j: int|
                0 <= i < j < kept.len() ==> (#[trigger] kept[i]).id != (#[trigger] kept[j]).id
        }),
    decreases index.len(),
{
    reveal(Seq::filter);
    let kept = index_of_others(index, id);
    if index.len() > 0 {
        let rest = index.drop_last();
        let last = index.last();
        lemma_index_without(rest, id);
        let less = index_of_others(rest, id);
        assert forall|line: IndexLine| index.contains(line) <==> #[trigger] rest.contains(line)
            || line == last by {
            if index.contains(line) {
                let k = choose|k: int| 0 <= k < index.len() && index[k] == line;
                if k < rest.len() {
                    assert(rest[k] == line);
                }
            }
            if rest.contains(line) {
                let k = choose|k: int| 0 <= k < rest.len() && rest[k] == line;
                assert(index[k] == line);
            }
            assert(index[index.len() - 1] == last);
        }
        if last.id != id {
            assert(kept =~= less.push(last));
            assert forall|line: IndexLine| #[trigger] kept.contains(line) <==> less.contains(line)
                || line == last by {
                if kept.contains(line) {
                    let k = choose|k: int| 0 <= k < kept.len() && kept[k] == line;
                    if k < less.len() {
                        assert(less[k] == line);
                    }
                }
                if less.contains(line) {
                    let k = choose|k: int| 0 <= k < less.len() && less[k] == line;
                    assert(kept[k] == line);
                }
                assert(kept[less.len() as int] == last);
            }
            assert forall|i: int, j: int| 0 <= i < j < kept.len() implies (
            #[trigger] kept[i]).id != (#[trigger] kept[j]).id by {
                assert(kept[i] == less[i]);
                if j < less.len() {
                    assert(kept[j] == less[j]);
                } else {
                    assert(less.contains(less[i]));
                    assert(rest.contains(less[i]));
                    let k = choose|k: int| 0 <= k < rest.len() && rest[k] == less[i];
                    assert(index[k].id != index[index.len() - 1].id);
                }
            }
        } else {
            assert(kept =~= less);
        }
        assert forall|line: IndexLine| #[trigger] kept.contains(line) <==> index.contains(line)
            && line.id != id by {
            assert(rest.contains(line) || line == last <==> index.contains(line));
        }
    }
}

proof fn lemma_decisions_without(decisions: Seq<DecisionRowModel>, id: Seq<char>)
    ensures
        forall|k: int|
            0 <= k < decisions_of_others(decisions, id).len() ==> (
            #[trigger] decisions_of_others(decisions, id)[k]).notification_id != id
                && decisions.contains(decisions_of_others(decisions, id)[k]),
    decreases decisions.len(),
{
    reveal(Seq::filter);
    if decisions.len() > 0 {
        let rest = decisions.drop_last();
        lemma_decisions_without(rest, id);
        let less = decisions_of_others(rest, id);
        let kept = decisions_of_others(decisions, id);
        assert forall|k: int| 0 <= k < kept.len() implies (#[trigger] kept[k]).notification_id
            != id && decisions.contains(kept[k]) by {
            if k < less.len() {
                assert(kept[k] == less[k]);
                let m = choose|m: int| 0 <= m < rest.len() && rest[m] == kept[k];
                assert(decisions[m] == kept[k]);
            } else {
                assert(decisions[decisions.len() - 1] == kept[k]);
            }
        }
    }
}

proof fn lemma_recorded_sound(
    t: Tables,
    row: NotificationRowModel,
    read: bool,
    decision: DecisionRowModel,
)
    requires
        t.sound(),
        decision.notification_id == row.id,
    ensures
        after_record(t, row, read, decision).sound(),
{
    let u = after_record(t, row, read, decision);
    let kept = index_of_others(t.index, row.id);
    lemma_index_without(t.index, row.id);
    assert forall|k: int| 0 <= k < u.index.len() implies u.holds((#[trigger] u.index[k]).id) by {
        if k < kept.len() {
            assert(u.index[k] == kept[k] && kept.contains(kept[k]));
            let m = choose|m: int| 0 <= m < t.index.len() && t.index[m] == kept[k];
            assert(t.holds(t.index[m].id));
        }
    }
    assert forall|i: int, j: int| 0 <= i < j < u.index.len() implies (#[trigger] u.index[i]).id != (
    #[trigger] u.index[j]).id by {
        assert(u.index[i] == kept[i] && kept.contains(kept[i]));
        if j < kept.len() {
            assert(u.index[j] == kept[j]);
        }
    }
    assert forall|id: Seq<char>| #[trigger] u.holds(id) implies u.notifications[id].row.id == id
        && exists|k: int| 0 <= k < u.index.len() && (#[trigger] u.index[k]).id == id by {
        if id == row.id {
            assert(u.index[kept.len() as int].id == id);
        } else {
            assert(t.holds(id));
            let m = choose|m: int| 0 <= m < t.index.len() && (#[trigger] t.index[m]).id == id;
            assert(t.index.contains(t.index[m]));
            assert(kept.contains(t.index[m]));
            let k = choose|k: int| 0 <= k < kept.len() && kept[k] == t.index[m];
            assert(u.index[k].id == id);
        }
    }
    assert forall|k: int| 0 <= k < u.decisions.len() implies u.holds(
        (#[trigger] u.decisions[k]).notification_id,
    ) by {
        if k < t.decisions.len() {
            assert(u.decisions[k] == t.decisions[k]);
            assert(t.holds(t.decisions[k].notification_id));
        }
    }
}

/// The statements that delete a notification, its decisions with it, and what
/// the search index holds of it.
pub open spec fn deletion(id: Seq<char>) -> Seq<StatementModel> {
    seq![sql::about(sql::delete_text(), id), sql::about(sql::unindex_text(), id)]
}

proof fn lemma_deleted_sound(t: Tables, id: Seq<char>)
    requires
        t.sound(),
    ensures
        all_carried_out(t, deletion(id)).sound(),
        all_carried_out(t, deletion(id)).notifications == t.notifications.remove(id),
{
    lemma_texts();
    let all = deletion(id);
    assert(all.drop_last().drop_last() =~= Seq::<StatementModel>::empty());
    reveal_with_fuel(all_carried_out, 3);
    let u = all_carried_out(t, all);
    let kept = index_of_others(t.index, id);
    let left = decisions_of_others(t.decisions, id);
    assert(u == carried_out(carried_out(t, all[0]), all[1]));
    assert(u =~= Tables {
        notifications: t.notifications.remove(id),
        decisions: left,
        index: kept,
    });
    lemma_index_without(t.index, id);
    lemma_decisions_without(t.decisions, id);
    assert forall|k: int| 0 <= k < u.index.len() implies u.holds((#[trigger] u.index[k]).id) by {
        assert(kept.contains(kept[k]));
        let m = choose|m: int| 0 <= m < t.index.len() && t.index[m] == kept[k];
        assert(t.holds(t.index[m].id));
    }
    assert forall|other: Seq<char>| #[trigger] u.holds(other) implies u.notifications[other].row.id
        == other && exists|k: int| 0 <= k < u.index.len() && (#[trigger] u.index[k]).id
        == other by {
        assert(t.holds(other));
        let m = choose|m: int| 0 <= m < t.index.len() && (#[trigger] t.index[m]).id == other;
        assert(t.index.contains(t.index[m]));
        assert(kept.contains(t.index[m]));
        let k = choose|k: int| 0 <= k < kept.len() && kept[k] == t.index[m];
        assert(u.index[k].id == other);
    }
    assert forall|k: int| 0 <= k < u.decisions.len() implies u.holds(
        (#[trigger] u.decisions[k]).notification_id,
    ) by {
        let m = choose|m: int| 0 <= m < t.decisions.len() && t.decisions[m] == left[k];
        assert(t.holds(t.decisions[m].notification_id));
    }
}

proof fn lemma_marked_sound(t: Tables, id: Seq<char>, read: bool)
    requires
        t.sound(),
    ensures
        carried_out(t, sql::marked(id, read)).sound(),
{
    lemma_texts();
    let u = carried_out(t, sql::marked(id, read));
    assert(u.decisions == t.decisions && u.index == t.index);
    assert(u.notifications.dom() =~= t.notifications.dom());
    assert forall|other: Seq<char>| #[trigger] u.holds(other) implies u.notifications[other].row.id
        == other && exists|k: int| 0 <= k < u.index.len() && (#[trigger] u.index[k]).id
        == other by {
        assert(t.holds(other));
    }
    assert forall|k: int| 0 <= k < u.index.len() implies u.holds((#[trigger] u.index[k]).id) by {
        assert(t.holds(t.index[k].id));
    }
    assert forall|k: int| 0 <= k < u.decisions.len() implies u.holds(
        (#[trigger] u.decisions[k]).notification_id,
    ) by {
        assert(t.holds(t.decisions[k].notification_id));
    }
}

/// The statements that delete every notification.
pub open spec fn clearance() -> Seq<StatementModel> {
    sql::clear_texts().map_values(
        |text: Seq<char>| StatementModel { sql: text, args: Seq::empty() },
    )
}

/// Clearing the history leaves nothing.
pub proof fn clearing_leaves_nothing(t: Tables)
    ensures
        all_carried_out(t, clearance()) == no_history(),
{
    lemma_texts();
    let all = clearance();
    assert(all.drop_last().drop_last().drop_last() =~= Seq::<StatementModel>::empty());
    reveal_with_fuel(all_carried_out, 4);
    let u = all_carried_out(t, all);
    assert(u == carried_out(carried_out(carried_out(t, all[0]), all[1]), all[2]));
    assert(u =~= no_history());
}

/// The tables of a new database fit together, and whatever is done to them
/// keeps it so: recording a notification with its decision, deleting one or all
/// of them, and setting or clearing a read mark.
pub proof fn changes_keep_the_tables_sound(
    t: Tables,
    row: NotificationRowModel,
    read: bool,
    decision: DecisionRowModel,
    id: Seq<char>,
)
    requires
        t.sound(),
        decision.notification_id == row.id,
    ensures
        no_history().sound(),
        all_carried_out(t, sql::recorded(row, read, decision)).sound(),
        all_carried_out(t, deletion(id)).sound(),
        all_carried_out(t, clearance()).sound(),
        carried_out(t, sql::marked(id, read)).sound(),
{
    clearing_leaves_nothing(t);
    recording_writes_its_rows(t, row, read, decision);
    lemma_recorded_sound(t, row, read, decision);
    lemma_deleted_sound(t, id);
    lemma_marked_sound(t, id, read);
}

/// A stored notification with its read mark and the decision about it that was
/// appended last, if there is one.
pub struct EntryLine {
    pub row: NotificationRowModel,
    pub read: int,
    pub decision: Option<DecisionRowModel>,
}

/// The decision about a notification that was appended last.
pub open spec fn latest(decisions: Seq<DecisionRowModel>, id: Seq<char>) -> Option<DecisionRowModel>
    decreases decisions.len(),
{
    if decisions.len() == 0 {
        None
    } else if decisions.last().notification_id == id {
        Some(decisions.last())
    } else {
        latest(decisions.drop_last(), id)
    }
}

/// What the tables say of a notification.
pub open spec fn line_of(t: Tables, id: Seq<char>) -> EntryLine {
    EntryLine {
        row: t.notifications[id].row,
        read: t.notifications[id].read,
        decision: latest(t.decisions, id),
    }
}

/// Whether a line meets a condition. Apps are compared without regard to the
/// case of ASCII letters; a notification without a decision meets no condition
/// on decisions.
pub open spec fn meets(line: EntryLine, condition: ClauseModel) -> bool {
    let value = condition.value;
    if condition.before == "LOWER(n.app_id) = LOWER(?"@ {
        value is Text && text::ascii_lower(line.row.app_id) == text::ascii_lower(value->Text_0)
    } else if condition.before == "d.decision = ?"@ {
        line.decision is Some && value == ValueModel::Text(line.decision->0.decision)
    } else if condition.before == "n.timestamp_millis >= ?"@ {
        value is Integer && line.row.timestamp_millis >= value->Integer_0
    } else if condition.before == "n.timestamp_millis <= ?"@ {
        value is Integer && line.row.timestamp_millis <= value->Integer_0
    } else if condition.before == "n.read = ?"@ {
        value == ValueModel::Integer(line.read)
    } else {
        false
    }
}

/// Whether a line meets every condition that a filter sets.
pub open spec fn meets_all(line: EntryLine, q: QueryModel) -> bool {
    forall|i: int|
        0 <= i < sql::filter_clauses(q).len() ==> meets(line, #[trigger] sql::filter_clauses(q)[i])
}

/// A line meets what a filter sets exactly when it is of the app, has the
/// decision, lies between the instants and is unread, as far as the filter
/// asks for these.
pub proof fn filters_ask_what_they_say(line: EntryLine, q: QueryModel)
    ensures
        meets_all(line, q) <==> {
            &&& q.app matches Some(app) ==> text::ascii_lower(line.row.app_id)
                == text::ascii_lower(app)
            &&& q.decision matches Some(d) ==> line.decision is Some && line.decision->0.decision
                == rules::decision_word(d)
            &&& q.since matches Some(at) ==> line.row.timestamp_millis >= clock::millis_of(at)
            &&& q.until matches Some(at) ==> line.row.timestamp_millis <= clock::millis_of(at)
            &&& q.unread_only ==> line.read == 0
        },
{
    reveal_strlit("LOWER(n.app_id) = LOWER(?");
    reveal_strlit("d.decision = ?");
    reveal_strlit("n.timestamp_millis >= ?");
    reveal_strlit("n.timestamp_millis <= ?");
    reveal_strlit("n.read = ?");
    assert("LOWER(n.app_id) = LOWER(?"@.len() == 25);
    assert("d.decision = ?"@.len() == 14);
    assert("n.timestamp_millis >= ?"@.len() == 23);
    assert("n.timestamp_millis <= ?"@.len() == 23);
    assert("n.read = ?"@.len() == 10);
    assert("n.timestamp_millis >= ?"@[19] == '>');
    assert("n.timestamp_millis <= ?"@[19] == '<');
    let clauses = sql::filter_clauses(q);
    let apps: int = if q.app is Some {
        1
    } else {
        0
    };
    let decisions: int = if q.decision is Some {
        1
    } else {
        0
    };
    let starts: int = if q.since is Some {
        1
    } else {
        0
    };
    let ends: int = if q.until is Some {
        1
    } else {
        0
    };
    if let Some(app) = q.app {
        assert(clauses[0].before == "LOWER(n.app_id) = LOWER(?"@);
        assert(meets(line, clauses[0]) <==> text::ascii_lower(line.row.app_id)
            == text::ascii_lower(app));
    }
    if let Some(d) = q.decision {
        assert(clauses[apps].before == "d.decision = ?"@);
        assert(meets(line, clauses[apps]) <==> line.decision is Some && line.decision->0.decision
            == rules::decision_word(d));
    }
    if let Some(at) = q.since {
        assert(clauses[apps + decisions].before == "n.timestamp_millis >= ?"@);
        assert(meets(line, clauses[apps + decisions]) <==> line.row.timestamp_millis
            >= clock::millis_of(at));
    }
    if let Some(at) = q.until {
        assert(clauses[apps + decisions + starts].before == "n.timestamp_millis <= ?"@);
        assert(meets(line, clauses[apps + decisions + starts]) <==> line.row.timestamp_millis
            <= clock::millis_of(at));
    }
    if q.unread_only {
        assert(clauses[apps + decisions + starts + ends].before == "n.read = ?"@);
        assert(meets(line, clauses[apps + decisions + starts + ends]) <==> line.read == 0);
    }
}

/// By what lines are put in order.
pub open spec fn order_key(line: EntryLine) -> StoredModel {
    StoredModel { id: line.row.id, millis: line.row.timestamp_millis }
}

/// `lines` holds what the tables say of each notification that meets a filter,
/// once.
pub open spec fn lists(t: Tables, q: QueryModel, lines: Seq<EntryLine>) -> bool {
    &&& lines.no_duplicates()
    &&& forall|line: EntryLine| #[trigger]
        lines.contains(line) <==> t.holds(line.row.id) && line == line_of(t, line.row.id)
            && meets_all(line, q)
}

/// Lines stand by instant and, among those of one instant, by id: the lesser
/// first, or the greater first.
pub open spec fn in_order(lines: Seq<EntryLine>, ascending: bool) -> bool {
    forall|i: int, j: int|
        0 <= i < j < lines.len() ==> if ascending {
            storage::no_later(order_key(#[trigger] lines[i]), order_key(#[trigger] lines[j]))
        } else {
            storage::no_later(order_key(lines[j]), order_key(lines[i]))
        }
}

/// What is left of lines when some are skipped and the rest is limited.
pub open spec fn windowed(lines: Seq<EntryLine>, q: QueryModel) -> Seq<EntryLine> {
    let rest = match q.offset {
        Some(n) => lines.skip(
            if n < lines.len() {
                n as int
            } else {
                lines.len() as int
            },
        ),
        None => lines,
    };
    match q.limit {
        Some(n) => if n < rest.len() {
            rest.take(n as int)
        } else {
            rest
        },
        None => rest,
    }
}

/// `lines` is the answer to a filtered read of the history.
pub open spec fn answers(t: Tables, q: QueryModel, lines: Seq<EntryLine>) -> bool {
    exists|all: Seq<EntryLine>|
        {
            &&& #[trigger] lists(t, q, all)
            &&& in_order(all, q.ascending)
            &&& lines == windowed(all, q)
        }
}

/// Whether a search text is found in what the index holds of a notification.
/// `hits` says of a search text, a title and a body whether the one is found in
/// the others.
pub open spec fn finds(
    t: Tables,
    hits: spec_fn(Seq<char>, Seq<char>, Seq<char>) -> bool,
    terms: Seq<char>,
    id: Seq<char>,
) -> bool {
    exists|k: int|
        {
            &&& 0 <= k < t.index.len()
            &&& (#[trigger] t.index[k]).id == id
            &&& hits(terms, t.index[k].title, t.index[k].body)
        }
}

/// `lines` holds what the tables say of each notification that meets a filter
/// and in which a search text is found, once.
pub open spec fn lists_found(
    t: Tables,
    hits: spec_fn(Seq<char>, Seq<char>, Seq<char>) -> bool,
    terms: Seq<char>,
    q: QueryModel,
    lines: Seq<EntryLine>,
) -> bool {
    &&& lines.no_duplicates()
    &&& forall|line: EntryLine| #[trigger]
        lines.contains(line) <==> t.holds(line.row.id) && line == line_of(t, line.row.id)
            && meets_all(line, q) && finds(t, hits, terms, line.row.id)
}

/// `lines` is an answer to a search for what was typed. How well each line fits,
/// and with it their order, is left to the database.
pub open spec fn search_answers(
    t: Tables,
    hits: spec_fn(Seq<char>, Seq<char>, Seq<char>) -> bool,
    typed: Seq<char>,
    q: QueryModel,
    lines: Seq<EntryLine>,
) -> bool {
    let terms = text_at(sql::search_model(typed, q).args, 0);
    exists|all: Seq<EntryLine>|
        #[trigger] lists_found(t, hits, terms, q, all) && lines == windowed(all, q)
}

/// A filtered search holds exactly those lines of the unfiltered search that
/// a read under the filter holds: those that meet the filter.
pub proof fn a_search_is_narrowed_by_its_filter(
    t: Tables,
    hits: spec_fn(Seq<char>, Seq<char>, Seq<char>) -> bool,
    typed: Seq<char>,
    q: QueryModel,
    plain: Seq<EntryLine>,
    narrowed: Seq<EntryLine>,
    read: Seq<EntryLine>,
    line: EntryLine,
)
    requires
        q.limit is None && q.offset is None,
        search_answers(t, hits, typed, storage::everything(), plain),
        search_answers(t, hits, typed, q, narrowed),
        answers(t, q, read),
    ensures
        narrowed.contains(line) <==> plain.contains(line) && read.contains(line),
        narrowed.contains(line) <==> plain.contains(line) && meets_all(line, q),
{
    assert(sql::filter_clauses(storage::everything()).len() == 0);
    assert(meets_all(line, storage::everything()));
    let terms = text_at(sql::search_model(typed, q).args, 0);
    assert(terms == text_at(sql::search_model(typed, storage::everything()).args, 0));
    assert(lists_found(t, hits, terms, q, narrowed));
    assert(lists_found(t, hits, terms, storage::everything(), plain));
    assert(lists(t, q, read));
}

/// How the actions and the icon of a notification are written down, and what is
/// read from it.
pub struct Details {
    pub written: spec_fn(Seq<ActionModel>, Option<IconModel>) -> (Seq<char>, Option<Seq<char>>),
    pub read: spec_fn(Seq<char>, Option<Seq<char>>) -> (Seq<ActionModel>, Option<IconModel>),
}

impl Details {
    /// What was written is read back as it was.
    pub open spec fn faithful(self) -> bool {
        forall|actions: Seq<ActionModel>, icon: Option<IconModel>|
            {
                let text = #[trigger] (self.written)(actions, icon);
                (self.read)(text.0, text.1) == (actions, icon)
            }
    }
}

/// The entry that a line is read as.
pub open spec fn entry_of(line: EntryLine, details: Details) -> HistoryModel {
    let (actions, icon) = (details.read)(line.row.actions_json, line.row.icon_json);
    let at = line.row.timestamp_millis * 1_000_000;
    HistoryModel {
        notification: rows::row_notification(line.row, actions, icon, at),
        decision: rows::stored_decision(
            match line.decision {
                Some(d) => Some(d.decision),
                None => None,
            },
        ),
        rule_id: match line.decision {
            Some(d) => d.rule_id,
            None => None,
        },
        reason: match line.decision {
            Some(d) => d.reason,
            None => Seq::empty(),
        },
        read: line.read != 0,
        decided_at: match line.decision {
            Some(d) => d.decided_millis * 1_000_000,
            None => at,
        },
    }
}

/// The calendar reaches the instants of a line.
pub open spec fn on_calendar(line: EntryLine) -> bool {
    &&& clock::reachable_millis(line.row.timestamp_millis)
    &&& line.decision matches Some(d) ==> clock::reachable_millis(d.decided_millis)
}

/// A line whose instants the calendar reaches is read as one entry only.
pub proof fn lines_are_read_as_entries(line: EntryLine, details: Details, r: HistoryModel)
    requires
        on_calendar(line),
        ({
            let (actions, icon) = (details.read)(line.row.actions_json, line.row.icon_json);
            rows::reads_as(
                line.row,
                actions,
                icon,
                line.read,
                match line.decision {
                    Some(d) => Some(d.decision),
                    None => None,
                },
                match line.decision {
                    Some(d) => d.rule_id,
                    None => None,
                },
                match line.decision {
                    Some(d) => Some(d.reason),
                    None => None,
                },
                match line.decision {
                    Some(d) => Some(d.decided_millis),
                    None => None,
                },
                r,
            )
        }),
    ensures
        r == entry_of(line, details),
{
    assert(r.notification == entry_of(line, details).notification);
}

/// The statements that record an entry.
pub open spec fn recording(e: HistoryModel, details: Details) -> Seq<StatementModel> {
    sql::recorded(recorded_row(e, details), e.read, rows::decision_row(e))
}

/// The row under which the notification of an entry is recorded.
pub open spec fn recorded_row(e: HistoryModel, details: Details) -> NotificationRowModel {
    let text = (details.written)(e.notification.actions, e.notification.icon);
    rows::notification_row(e.notification, text.0, text.1)
}

/// What the tables say of an entry that was just recorded.
pub open spec fn recorded_line(e: HistoryModel, details: Details) -> EntryLine {
    EntryLine {
        row: recorded_row(e, details),
        read: sql::flag(e.read),
        decision: Some(rows::decision_row(e)),
    }
}

proof fn lemma_recorded_reads_back(e: HistoryModel, details: Details)
    requires
        details.faithful(),
    ensures
        entry_of(recorded_line(e, details), details) == rows::kept_entry(e),
{
    rows::urgency_words_read_back(e.notification.urgency);
    rows::decision_words_read_back(e.decision);
    let line = recorded_line(e, details);
    let text = (details.written)(e.notification.actions, e.notification.icon);
    assert((details.read)(text.0, text.1) == (e.notification.actions, e.notification.icon));
    assert(entry_of(line, details).notification == rows::kept_entry(e).notification);
}

proof fn lemma_recorded(t: Tables, e: HistoryModel, details: Details)
    requires
        t.sound(),
    ensures
        ({
            let u = all_carried_out(t, recording(e, details));
            &&& u.sound()
            &&& u == after_record(t, recorded_row(e, details), e.read, rows::decision_row(e))
            &&& u.notifications.dom() == t.notifications.dom().insert(e.notification.id)
            &&& line_of(u, e.notification.id) == recorded_line(e, details)
            &&& forall|id: Seq<char>|
                id != e.notification.id ==> #[trigger] line_of(u, id) == line_of(t, id)
        }),
{
    let row = recorded_row(e, details);
    let decision = rows::decision_row(e);
    let u = all_carried_out(t, recording(e, details));
    recording_writes_its_rows(t, row, e.read, decision);
    lemma_recorded_sound(t, row, e.read, decision);
    assert(u.decisions.drop_last() =~= t.decisions);
    assert(u.notifications.dom() =~= t.notifications.dom().insert(e.notification.id));
    assert forall|id: Seq<char>| id != e.notification.id implies #[trigger] line_of(u, id)
        == line_of(t, id) by {
        assert(latest(u.decisions, id) == latest(t.decisions, id));
    }
}

/// Recording an id again leaves the number of notifications, and everything
/// that is said of the others, as it was. A read of the history shows the new
/// entry once and nothing else of that id, and a search finds it by what the
/// new title and body hold and by nothing that only the old ones held.
pub proof fn recording_again_replaces(
    t: Tables,
    e: HistoryModel,
    details: Details,
    hits: spec_fn(Seq<char>, Seq<char>, Seq<char>) -> bool,
    terms: Seq<char>,
    other: Seq<char>,
    lines: Seq<EntryLine>,
)
    requires
        t.sound(),
        t.holds(e.notification.id),
        details.faithful(),
        other != e.notification.id,
        answers(all_carried_out(t, recording(e, details)), storage::everything(), lines),
    ensures
        ({
            let id = e.notification.id;
            let u = all_carried_out(t, recording(e, details));
            &&& u.sound()
            &&& u.count() == t.count()
            &&& u.holds(other) == t.holds(other)
            &&& line_of(u, other) == line_of(t, other)
            &&& finds(u, hits, terms, other) == finds(t, hits, terms, other)
            &&& finds(u, hits, terms, id) == hits(terms, e.notification.title, e.notification.body)
            &&& exists|k: int|
                {
                    &&& 0 <= k < lines.len()
                    &&& entry_of(#[trigger] lines[k], details) == rows::kept_entry(e)
                    &&& forall|j: int|
                        0 <= j < lines.len() ==> ((#[trigger] lines[j]).row.id == id <==> j == k)
                }
        }),
{
    let id = e.notification.id;
    let u = all_carried_out(t, recording(e, details));
    lemma_recorded(t, e, details);
    lemma_recorded_reads_back(e, details);
    assert(u.notifications.dom() =~= t.notifications.dom());

    // What the index holds.
    let kept = index_of_others(t.index, id);
    lemma_index_without(t.index, id);
    let new = u.index.last();
    assert(u.index == kept.push(new));
    if finds(t, hits, terms, other) {
        let m = choose|m: int|
            0 <= m < t.index.len() && (#[trigger] t.index[m]).id == other && hits(
                terms,
                t.index[m].title,
                t.index[m].body,
            );
        assert(t.index.contains(t.index[m]));
        assert(kept.contains(t.index[m]));
        let k = choose|k: int| 0 <= k < kept.len() && kept[k] == t.index[m];
        assert(u.index[k] == t.index[m]);
    }
    if finds(u, hits, terms, other) {
        let k = choose|k: int|
            0 <= k < u.index.len() && (#[trigger] u.index[k]).id == other && hits(
                terms,
                u.index[k].title,
                u.index[k].body,
            );
        assert(u.index[k] == kept[k] && kept.contains(kept[k]));
        let m = choose|m: int| 0 <= m < t.index.len() && t.index[m] == kept[k];
        assert(t.index[m].id == other);
    }
    assert(u.index[kept.len() as int] == new);
    if finds(u, hits, terms, id) {
        let k = choose|k: int|
            0 <= k < u.index.len() && (#[trigger] u.index[k]).id == id && hits(
                terms,
                u.index[k].title,
                u.index[k].body,
            );
        if k < kept.len() {
            assert(u.index[k] == kept[k] && kept.contains(kept[k]));
        }
    }

    // What a read shows.
    assert(sql::filter_clauses(storage::everything()).len() == 0);
    let line = recorded_line(e, details);
    assert(meets_all(line, storage::everything()));
    assert(lists(u, storage::everything(), lines));
    assert(lines.contains(line));
    let k = choose|k: int| 0 <= k < lines.len() && lines[k] == line;
    assert forall|j: int| 0 <= j < lines.len() implies ((#[trigger] lines[j]).row.id == id <==> j
        == k) by {
        assert(lines.contains(lines[j]));
    }
    assert(entry_of(lines[k], details) == rows::kept_entry(e));
}

/// The tables after entries were recorded, one after the other.
pub open spec fn imported(t: Tables, entries: Seq<HistoryModel>, details: Details) -> Tables
    decreases entries.len(),
{
    if entries.len() == 0 {
        t
    } else {
        all_carried_out(
            imported(t, entries.drop_last(), details),
            recording(entries.last(), details),
        )
    }
}

/// `entries` is what a read of the history gives.
pub open spec fn reads(
    t: Tables,
    q: QueryModel,
    details: Details,
    entries: Seq<HistoryModel>,
) -> bool {
    exists|lines: Seq<EntryLine>|
        #[trigger] answers(t, q, lines) && entries == lines.map_values(
            |line: EntryLine| entry_of(line, details),
        )
}

/// The query that selects everything, oldest first.
pub open spec fn everything_oldest_first() -> QueryModel {
    QueryModel { ascending: true, ..storage::everything() }
}

/// The calendar reaches every instant that is stored.
pub open spec fn all_on_calendar(t: Tables) -> bool {
    forall|id: Seq<char>| #[trigger] t.holds(id) ==> on_calendar(line_of(t, id))
}

proof fn lemma_imported(t: Tables, entries: Seq<HistoryModel>, details: Details)
    requires
        t.sound(),
        forall|i: int, j: int|
            0 <= i < j < entries.len() ==> (#[trigger] entries[i]).notification.id != (
            #[trigger] entries[j]).notification.id,
    ensures
        ({
            let u = imported(t, entries, details);
            &&& u.sound()
            &&& forall|id: Seq<char>| #[trigger] t.holds(id) ==> u.holds(id)
            &&& forall|id: Seq<char>| #[trigger]
                u.holds(id) ==> t.holds(id) || exists|k: int|
                    0 <= k < entries.len() && (#[trigger] entries[k]).notification.id == id
            &&& forall|k: int|
                0 <= k < entries.len() ==> u.holds((#[trigger] entries[k]).notification.id)
                    && line_of(u, entries[k].notification.id) == recorded_line(entries[k], details)
        }),
    decreases entries.len(),
{
    let u = imported(t, entries, details);
    if entries.len() > 0 {
        let rest = entries.drop_last();
        let e = entries.last();
        let before = imported(t, rest, details);
        lemma_imported(t, rest, details);
        lemma_recorded(before, e, details);
        assert forall|id: Seq<char>| #[trigger] u.holds(id) implies t.holds(id) || exists|k: int|
            0 <= k < entries.len() && (#[trigger] entries[k]).notification.id == id by {
            if id == e.notification.id {
                assert(entries[entries.len() - 1].notification.id == id);
            } else {
                assert(before.holds(id));
                if !t.holds(id) {
                    let k = choose|k: int|
                        0 <= k < rest.len() && (#[trigger] rest[k]).notification.id == id;
                    assert(entries[k].notification.id == id);
                }
            }
        }
        assert forall|k: int| 0 <= k < entries.len() implies u.holds(
            (#[trigger] entries[k]).notification.id,
        ) && line_of(u, entries[k].notification.id) == recorded_line(entries[k], details) by {
            if k < rest.len() {
                assert(rest[k] == entries[k]);
                assert(entries[k].notification.id != entries[entries.len() - 1].notification.id);
                assert(before.holds(rest[k].notification.id));
            }
        }
        assert forall|id: Seq<char>| #[trigger] t.holds(id) implies u.holds(id) by {
            assert(before.holds(id));
        }
    }
}

/// Two tables hold the same notifications, under the same instants, and each is
/// read as the same entry.
spec fn alike(a: Tables, b: Tables, details: Details) -> bool {
    &&& forall|id: Seq<char>| #[trigger] a.holds(id) <==> b.holds(id)
    &&& forall|id: Seq<char>| #[trigger]
        a.holds(id) ==> {
            &&& line_of(a, id).row.id == id
            &&& line_of(b, id).row.id == id
            &&& order_key(line_of(a, id)) == order_key(line_of(b, id))
            &&& entry_of(line_of(a, id), details) == entry_of(line_of(b, id), details)
        }
}

proof fn lemma_lines_of_all(t: Tables, q: QueryModel, lines: Seq<EntryLine>)
    requires
        t.sound(),
        q == (QueryModel { ascending: q.ascending, ..storage::everything() }),
        answers(t, q, lines),
    ensures
        in_order(lines, q.ascending),
        forall|k: int|
            0 <= k < lines.len() ==> t.holds((#[trigger] lines[k]).row.id) && lines[k] == line_of(
                t,
                lines[k].row.id,
            ),
        forall|id: Seq<char>| #[trigger]
            t.holds(id) ==> exists|k: int|
                0 <= k < lines.len() && (#[trigger] lines[k]).row.id == id,
        forall|i: int, j: int|
            0 <= i < j < lines.len() ==> (#[trigger] lines[i]).row.id != (
            #[trigger] lines[j]).row.id,
        lines.len() == t.count(),
{
    assert(sql::filter_clauses(q).len() == 0);
    assert(lists(t, q, lines));
    assert forall|k: int| 0 <= k < lines.len() implies t.holds((#[trigger] lines[k]).row.id)
        && lines[k] == line_of(t, lines[k].row.id) by {
        assert(lines.contains(lines[k]));
    }
    assert forall|id: Seq<char>| #[trigger] t.holds(id) implies exists|k: int|
        0 <= k < lines.len() && (#[trigger] lines[k]).row.id == id by {
        let line = line_of(t, id);
        assert(meets_all(line, q));
        assert(lines.contains(line));
        let k = choose|k: int| 0 <= k < lines.len() && lines[k] == line;
        assert(lines[k].row.id == id);
    }
    assert forall|i: int, j: int| 0 <= i < j < lines.len() implies (#[trigger] lines[i]).row.id != (
    #[trigger] lines[j]).row.id by {
        assert(lines[i] != lines[j]);
    }
    let ids = lines.map_values(|line: EntryLine| line.row.id);
    assert(ids.no_duplicates());
    ids.unique_seq_to_set();
    assert(ids.to_set() =~= t.notifications.dom()) by {
        assert forall|id: Seq<char>| t.notifications.dom().contains(id) implies ids.to_set().contains(
            id,
        ) by {
            assert(t.holds(id));
            let k = choose|k: int| 0 <= k < lines.len() && (#[trigger] lines[k]).row.id == id;
            assert(ids[k] == id);
        }
        assert forall|id: Seq<char>| ids.to_set().contains(id) implies t.notifications.dom().contains(
            id,
        ) by {
            let k = choose|k: int| 0 <= k < ids.len() && ids[k] == id;
            assert(t.holds(lines[k].row.id));
        }
    }
}

proof fn lemma_same_lines(
    a: Tables,
    b: Tables,
    details: Details,
    q: QueryModel,
    p: Seq<EntryLine>,
    r: Seq<EntryLine>,
    n: int,
)
    requires
        a.sound(),
        b.sound(),
        alike(a, b, details),
        q == (QueryModel { ascending: q.ascending, ..storage::everything() }),
        answers(a, q, p),
        answers(b, q, r),
        0 <= n <= p.len(),
    ensures
        n <= r.len(),
        forall|k: int| 0 <= k < n ==> p[k].row.id == r[k].row.id,
    decreases n,
{
    if n > 0 {
        lemma_same_lines(a, b, details, q, p, r, n - 1);
        lemma_lines_of_all(a, q, p);
        lemma_lines_of_all(b, q, r);
        let id = p[n - 1].row.id;
        assert(a.holds(id));
        let at = choose|k: int| 0 <= k < r.len() && (#[trigger] r[k]).row.id == id;
        if at < n - 1 {
            assert(p[at].row.id == r[at].row.id);
        } else if at > n - 1 {
            let next = r[n - 1].row.id;
            assert(b.holds(next) && a.holds(next));
            let from = choose|k: int| 0 <= k < p.len() && (#[trigger] p[k]).row.id == next;
            if from < n - 1 {
                assert(p[from].row.id == r[from].row.id);
            } else {
                // `id` comes before `next` in one list and behind it in the other.
                assert(from > n - 1);
                assert(order_key(p[n - 1]) == order_key(r[at]));
                assert(order_key(p[from]) == order_key(r[n - 1]));
                text::one_text_precedes(id, next);
            }
        }
    }
}

proof fn lemma_alike_read_the_same(
    a: Tables,
    b: Tables,
    details: Details,
    q: QueryModel,
    p: Seq<HistoryModel>,
    r: Seq<HistoryModel>,
)
    requires
        a.sound(),
        b.sound(),
        alike(a, b, details),
        q == (QueryModel { ascending: q.ascending, ..storage::everything() }),
        reads(a, q, details, p),
        reads(b, q, details, r),
    ensures
        p == r,
        a.count() == b.count(),
        p.len() == a.count(),
{
    let x = choose|lines: Seq<EntryLine>|
        #[trigger] answers(a, q, lines) && p == lines.map_values(
            |line: EntryLine| entry_of(line, details),
        );
    let y = choose|lines: Seq<EntryLine>|
        #[trigger] answers(b, q, lines) && r == lines.map_values(
            |line: EntryLine| entry_of(line, details),
        );
    assert(a.notifications.dom() =~= b.notifications.dom()) by {
        assert forall|id: Seq<char>| a.notifications.dom().contains(id)
            <==> b.notifications.dom().contains(id) by {
            assert(a.holds(id) <==> b.holds(id));
        }
    }
    lemma_lines_of_all(a, q, x);
    lemma_lines_of_all(b, q, y);
    lemma_same_lines(a, b, details, q, x, y, x.len() as int);
    assert forall|k: int| 0 <= k < p.len() implies p[k] == r[k] by {
        assert(a.holds(x[k].row.id));
    }
    assert(p =~= r);
}

/// A history that is exported and taken over into a new database is there
/// again: as many entries, and every read shows what it showed. Taking it over
/// a second time changes nothing of that.
pub proof fn an_export_restores_the_history(
    a: Tables,
    details: Details,
    exported: Seq<HistoryModel>,
    ascending: bool,
    before: Seq<HistoryModel>,
    after: Seq<HistoryModel>,
    again: Seq<HistoryModel>,
)
    requires
        a.sound(),
        all_on_calendar(a),
        details.faithful(),
        reads(a, everything_oldest_first(), details, exported),
        reads(a, (QueryModel { ascending, ..storage::everything() }), details, before),
        reads(
            imported(no_history(), exported, details),
            (QueryModel { ascending, ..storage::everything() }),
            details,
            after,
        ),
        reads(
            imported(imported(no_history(), exported, details), exported, details),
            (QueryModel { ascending, ..storage::everything() }),
            details,
            again,
        ),
    ensures
        exported.len() == a.count(),
        imported(no_history(), exported, details).count() == a.count(),
        imported(imported(no_history(), exported, details), exported, details).count()
            == a.count(),
        after == before,
        again == before,
{
    let q = QueryModel { ascending, ..storage::everything() };
    let b = imported(no_history(), exported, details);
    let c = imported(b, exported, details);
    let lines = choose|lines: Seq<EntryLine>|
        #[trigger] answers(a, everything_oldest_first(), lines) && exported == lines.map_values(
            |line: EntryLine| entry_of(line, details),
        );
    lemma_lines_of_all(a, everything_oldest_first(), lines);
    assert forall|k: int| 0 <= k < exported.len() implies (
    #[trigger] exported[k]).notification.id == lines[k].row.id && a.holds(lines[k].row.id)
        && rows::kept_entry(exported[k]) == exported[k] && exported[k] == entry_of(
        line_of(a, lines[k].row.id),
        details,
    ) && order_key(recorded_line(exported[k], details)) == order_key(lines[k]) by {
        let line = lines[k];
        assert(on_calendar(line));
        let e = exported[k];
        assert(e == entry_of(line, details));
        assert(clock::millis_of(line.row.timestamp_millis * 1_000_000)
            == line.row.timestamp_millis);
        if let Some(d) = line.decision {
            assert(clock::millis_of(d.decided_millis * 1_000_000) == d.decided_millis);
        }
        assert(rows::kept_entry(e).notification == e.notification);
        assert(rows::kept_entry(e) == e);
    }
    assert forall|i: int, j: int| 0 <= i < j < exported.len() implies (
    #[trigger] exported[i]).notification.id != (#[trigger] exported[j]).notification.id by {
        assert(lines[i].row.id != lines[j].row.id);
    }
    assert(no_history().sound());
    lemma_imported(no_history(), exported, details);
    lemma_imported(b, exported, details);
    lemma_restored(a, b, details, lines, exported);
    lemma_restored(a, c, details, lines, exported);
    lemma_alike_read_the_same(a, b, details, q, before, after);
    lemma_alike_read_the_same(a, c, details, q, before, again);
}

proof fn lemma_restored(
    a: Tables,
    b: Tables,
    details: Details,
    lines: Seq<EntryLine>,
    exported: Seq<HistoryModel>,
)
    requires
        a.sound(),
        b.sound(),
        details.faithful(),
        exported.len() == lines.len(),
        forall|id: Seq<char>| #[trigger]
            a.holds(id) ==> exists|k: int|
                0 <= k < lines.len() && (#[trigger] lines[k]).row.id == id,
        forall|k: int|
            0 <= k < exported.len() ==> (#[trigger] exported[k]).notification.id
                == lines[k].row.id && a.holds(lines[k].row.id) && rows::kept_entry(exported[k])
                == exported[k] && exported[k] == entry_of(line_of(a, lines[k].row.id), details)
                && order_key(recorded_line(exported[k], details)) == order_key(lines[k]),
        forall|k: int|
            0 <= k < lines.len() ==> (#[trigger] lines[k]) == line_of(a, lines[k].row.id),
        forall|id: Seq<char>| #[trigger]
            b.holds(id) ==> exists|k: int|
                0 <= k < exported.len() && (#[trigger] exported[k]).notification.id == id,
        forall|k: int|
            0 <= k < exported.len() ==> b.holds((#[trigger] exported[k]).notification.id)
                && line_of(b, exported[k].notification.id) == recorded_line(exported[k], details),
    ensures
        alike(a, b, details),
{
    assert forall|id: Seq<char>| #[trigger] a.holds(id) implies {
        &&& b.holds(id)
        &&& line_of(a, id).row.id == id
        &&& line_of(b, id).row.id == id
        &&& order_key(line_of(a, id)) == order_key(line_of(b, id))
        &&& entry_of(line_of(a, id), details) == entry_of(line_of(b, id), details)
    } by {
        let k = choose|k: int| 0 <= k < lines.len() && (#[trigger] lines[k]).row.id == id;
        assert(exported[k].notification.id == id);
        lemma_recorded_reads_back(exported[k], details);
    }
    assert forall|id: Seq<char>| #[trigger] b.holds(id) implies a.holds(id) by {
        let k = choose|k: int|
            0 <= k < exported.len() && (#[trigger] exported[k]).notification.id == id;
        assert(a.holds(lines[k].row.id));
    }
    assert forall|id: Seq<char>| #[trigger] a.holds(id) <==> b.holds(id) by {
        if a.holds(id) {
            assert(b.holds(id));
        }
        if b.holds(id) {
            assert(a.holds(id));
        }
    }
}

/// Skipping leaves out the first lines, a limit the last ones, and what is left
/// stands as it stood; without either everything is left.
pub proof fn windows_skip_and_limit(lines: Seq<EntryLine>, q: QueryModel, k: int)
    ensures
        ({
            let shown = windowed(lines, q);
            let skipped = match q.offset {
                Some(n) => n as int,
                None => 0,
            };
            &&& q.limit matches Some(n) ==> shown.len() <= n
            &&& 0 <= k < shown.len() ==> shown[k] == lines[skipped + k]
            &&& skipped >= lines.len() ==> shown.len() == 0
            &&& skipped < lines.len() && q.limit is None ==> shown.len() == lines.len() - skipped
            &&& skipped < lines.len() ==> (q.limit matches Some(n) ==> shown.len() == if n
                < lines.len() - skipped {
                n as int
            } else {
                lines.len() - skipped
            })
        }),
{
}

/// A read comes newest first, or oldest first where it is asked for, and by id
/// among notifications of one instant; every line meets the filter.
pub proof fn answers_come_in_order(t: Tables, q: QueryModel, lines: Seq<EntryLine>, i: int, j: int)
    requires
        answers(t, q, lines),
        0 <= i < j < lines.len(),
    ensures
        q.ascending ==> lines[i].row.timestamp_millis <= lines[j].row.timestamp_millis,
        !q.ascending ==> lines[i].row.timestamp_millis >= lines[j].row.timestamp_millis,
        lines[i].row.timestamp_millis == lines[j].row.timestamp_millis ==> if q.ascending {
            !text::precedes(lines[j].row.id, lines[i].row.id)
        } else {
            !text::precedes(lines[i].row.id, lines[j].row.id)
        },
        meets_all(lines[i], q) && t.holds(lines[i].row.id),
        lines[i] == line_of(t, lines[i].row.id),
        lines[i] != lines[j],
{
    let all = choose|all: Seq<EntryLine>|
        {
            &&& #[trigger] lists(t, q, all)
            &&& in_order(all, q.ascending)
            &&& lines == windowed(all, q)
        };
    windows_skip_and_limit(all, q, i);
    windows_skip_and_limit(all, q, j);
    let skipped = match q.offset {
        Some(n) => n as int,
        None => 0,
    };
    assert(lines[i] == all[skipped + i] && lines[j] == all[skipped + j]);
    assert(all.contains(all[skipped + i]));
    let a = order_key(all[skipped + i]);
    let b = order_key(all[skipped + j]);
    assert(if q.ascending {
        storage::no_later(a, b)
    } else {
        storage::no_later(b, a)
    });
}

/// The decision that counts is the one that was appended last about the
/// notification, whatever was appended about others since.
pub proof fn the_last_decision_counts(
    decisions: Seq<DecisionRowModel>,
    d: DecisionRowModel,
    id: Seq<char>,
)
    ensures
        latest(Seq::empty(), id) is None,
        d.notification_id == id ==> latest(decisions.push(d), id) == Some(d),
        d.notification_id != id ==> latest(decisions.push(d), id) == latest(decisions, id),
{
    assert(decisions.push(d).drop_last() =~= decisions);
}

} // verus!
