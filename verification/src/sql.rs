//! The statements that are put to the history database: their text, and the
//! values for their numbered placeholders.
use vstd::prelude::*;
use crate::clock;
use crate::model;
use crate::model::NotificationId;
use crate::number;
use crate::number::decimal;
use crate::rows::{
    DecisionRow,
    DecisionRowModel,
    NotificationRow,
    NotificationRowModel,
    ProfileRow,
    ScheduleRow,
};
use crate::rules;
use crate::storage;
use crate::storage::{HistoryQuery, QueryModel};
use crate::text;
use crate::text::{join, split_words};

verus! {

broadcast use vstd::string::group_string_axioms;

/// A value bound to a placeholder.
#[derive(Debug, PartialEq, Eq)]
pub enum SqlValue {
    Null,
    Integer(i64),
    Text(String),
}

/// What an [`SqlValue`] says.
pub enum ValueModel {
    Null,
    Integer(int),
    Text(Seq<char>),
}

impl View for SqlValue {
    type V = ValueModel;

    open spec fn view(&self) -> ValueModel {
        match self {
            SqlValue::Null => ValueModel::Null,
            SqlValue::Integer(n) => ValueModel::Integer(*n as int),
            SqlValue::Text(t) => ValueModel::Text(t@),
        }
    }
}

/// What each value in a list says.
pub open spec fn value_models(values: Seq<SqlValue>) -> Seq<ValueModel> {
    values.map_values(|v: SqlValue| v@)
}

/// A text that may be absent, as a value.
pub open spec fn optional_text(t: Option<Seq<char>>) -> ValueModel {
    match t {
        Some(s) => ValueModel::Text(s),
        None => ValueModel::Null,
    }
}

/// A statement with its values.
#[derive(Debug, PartialEq, Eq)]
pub struct Statement {
    pub sql: String,
    pub args: Vec<SqlValue>,
}

/// What a [`Statement`] says.
#[verifier::ext_equal]
pub struct StatementModel {
    pub sql: Seq<char>,
    pub args: Seq<ValueModel>,
}

impl View for Statement {
    type V = StatementModel;

    open spec fn view(&self) -> StatementModel {
        StatementModel { sql: self.sql@, args: value_models(self.args@) }
    }
}

fn text_value(t: &str) -> (r: SqlValue)
    ensures
        r@ == ValueModel::Text(t@),
{
    SqlValue::Text(t.to_string())
}

fn optional_value(t: &Option<String>) -> (r: SqlValue)
    ensures
        r@ == optional_text(model::text_if_any(*t)),
{
    match t {
        Some(s) => SqlValue::Text(s.clone()),
        None => SqlValue::Null,
    }
}

/// Columns of every history read, in order.
pub open spec fn entry_columns() -> Seq<char> {
    "n.id, n.app_id, n.app_display_name, n.title, n.body, n.urgency, n.timestamp_millis, n.actions_json, n.icon_json, n.read, d.decision, d.rule_id, d.reason, d.decided_millis"@
}

/// The join that adds the latest decision to a notification.
pub open spec fn decision_join() -> Seq<char> {
    "LEFT JOIN rule_decisions d ON d.id = ( SELECT d2.id FROM rule_decisions d2 WHERE d2.notification_id = n.id ORDER BY d2.id DESC LIMIT 1 )"@
}

/// Columns of every history read, in order.
pub fn entry_columns_text() -> (r: &'static str)
    ensures
        r@ == entry_columns(),
{
    "n.id, n.app_id, n.app_display_name, n.title, n.body, n.urgency, n.timestamp_millis, n.actions_json, n.icon_json, n.read, d.decision, d.rule_id, d.reason, d.decided_millis"
}

/// The join that adds the latest decision to a notification.
pub fn decision_join_text() -> (r: &'static str)
    ensures
        r@ == decision_join(),
{
    "LEFT JOIN rule_decisions d ON d.id = ( SELECT d2.id FROM rule_decisions d2 WHERE d2.notification_id = n.id ORDER BY d2.id DESC LIMIT 1 )"
}

/// One condition of a filter: the text around its placeholder, and the value
/// for it.
pub struct ClauseModel {
    pub before: Seq<char>,
    pub after: Seq<char>,
    pub value: ValueModel,
}

/// The conditions that a filter sets, in order.
pub open spec fn filter_clauses(q: QueryModel) -> Seq<ClauseModel> {
    (match q.app {
        Some(app) => seq![
            ClauseModel {
                before: "LOWER(n.app_id) = LOWER(?"@,
                after: ")"@,
                value: ValueModel::Text(app),
            },
        ],
        None => Seq::empty(),
    }) + (match q.decision {
        Some(d) => seq![
            ClauseModel {
                before: "d.decision = ?"@,
                after: ""@,
                value: ValueModel::Text(rules::decision_word(d)),
            },
        ],
        None => Seq::empty(),
    }) + (match q.since {
        Some(t) => seq![
            ClauseModel {
                before: "n.timestamp_millis >= ?"@,
                after: ""@,
                value: ValueModel::Integer(clock::millis_of(t)),
            },
        ],
        None => Seq::empty(),
    }) + (match q.until {
        Some(t) => seq![
            ClauseModel {
                before: "n.timestamp_millis <= ?"@,
                after: ""@,
                value: ValueModel::Integer(clock::millis_of(t)),
            },
        ],
        None => Seq::empty(),
    }) + (if q.unread_only {
        seq![ClauseModel { before: "n.read = ?"@, after: ""@, value: ValueModel::Integer(0) }]
    } else {
        Seq::empty()
    })
}

/// The conditions as text, their placeholders numbered from `first` on.
pub open spec fn numbered(clauses: Seq<ClauseModel>, first: nat) -> Seq<Seq<char>> {
    Seq::new(
        clauses.len(),
        |i: int| clauses[i].before + number::digits((first + i) as nat) + clauses[i].after,
    )
}

/// The values of the conditions.
pub open spec fn clause_values(clauses: Seq<ClauseModel>) -> Seq<ValueModel> {
    clauses.map_values(|c: ClauseModel| c.value)
}

struct Clause {
    before: &'static str,
    after: &'static str,
    value: SqlValue,
}

impl View for Clause {
    type V = ClauseModel;

    closed spec fn view(&self) -> ClauseModel {
        ClauseModel { before: self.before@, after: self.after@, value: self.value@ }
    }
}

spec fn clause_models(clauses: Seq<Clause>) -> Seq<ClauseModel> {
    clauses.map_values(|c: Clause| c@)
}

fn collect_clauses(filter: &HistoryQuery) -> (r: Vec<Clause>)
    ensures
        clause_models(r@) == filter_clauses(filter@),
{
    let mut out: Vec<Clause> = Vec::new();
    if let Some(app) = &filter.app {
        out.push(
            Clause {
                before: "LOWER(n.app_id) = LOWER(?",
                after: ")",
                value: text_value(app.as_str()),
            },
        );
    }
    if let Some(decision) = filter.decision {
        out.push(
            Clause { before: "d.decision = ?", after: "", value: text_value(decision.as_str()) },
        );
    }
    if let Some(since) = filter.since {
        out.push(
            Clause {
                before: "n.timestamp_millis >= ?",
                after: "",
                value: SqlValue::Integer(since.millis()),
            },
        );
    }
    if let Some(until) = filter.until {
        out.push(
            Clause {
                before: "n.timestamp_millis <= ?",
                after: "",
                value: SqlValue::Integer(until.millis()),
            },
        );
    }
    if filter.unread_only {
        out.push(Clause { before: "n.read = ?", after: "", value: SqlValue::Integer(0) });
    }
    assert(clause_models(out@) =~= filter_clauses(filter@));
    out
}

/// Adds the conditions of a filter to a statement in the making: their text to
/// `conditions`, their values to `args`, each placeholder numbered by the place
/// of its value.
pub fn push_filters(
    filter: &HistoryQuery,
    conditions: &mut Vec<String>,
    args: &mut Vec<SqlValue>,
)
    requires
        old(args)@.len() + filter_clauses(filter@).len() <= u64::MAX,
    ensures
        model::texts(final(conditions)@) == model::texts(old(conditions)@) + numbered(
            filter_clauses(filter@),
            old(args)@.len() + 1,
        ),
        value_models(final(args)@) == value_models(old(args)@) + clause_values(
            filter_clauses(filter@),
        ),
{
    let mut clauses = collect_clauses(filter);
    let ghost models = clause_models(clauses@);
    let ghost base = args@.len();
    let ghost conditions_before = model::texts(conditions@);
    let ghost args_before = value_models(args@);
    let mut done: Ghost<int> = Ghost(0);
    assert(models.skip(0) =~= models);
    assert(conditions_before + numbered(models, base + 1).take(0) =~= conditions_before);
    assert(args_before + clause_values(models).take(0) =~= args_before);
    while clauses.len() > 0
        invariant
            0 <= done@ <= models.len(),
            base + models.len() <= u64::MAX,
            args@.len() == base + done@,
            clause_models(clauses@) == models.skip(done@),
            model::texts(conditions@) == conditions_before + numbered(models, base + 1).take(
                done@,
            ),
            value_models(args@) == args_before + clause_values(models).take(done@),
        decreases clauses@.len(),
    {
        let ghost pile = clauses@;
        proof {
            assert(clause_models(pile).len() > 0);
            assert(done@ < models.len());
            assert(clause_models(pile)[0] == pile[0]@);
            assert(models.skip(done@)[0] == models[done@]);
        }
        let clause = clauses.remove(0);
        assert(clause_models(clauses@) =~= models.skip(done@ + 1)) by {
            assert forall|i: int| 0 <= i < clauses@.len() implies clause_models(clauses@)[i]
                == models.skip(done@ + 1)[i] by {
                assert(clause_models(pile)[i + 1] == pile[i + 1]@);
                assert(models.skip(done@)[i + 1] == models[done@ + 1 + i]);
            }
        }
        let ghost texts_now = model::texts(conditions@);
        let ghost values_now = value_models(args@);
        let mut condition = clause.before.to_string();
        condition.append(decimal(args.len() as u64 + 1).as_str());
        condition.append(clause.after);
        let ghost added = condition@;
        let ghost value = clause.value@;
        conditions.push(condition);
        args.push(clause.value);
        proof {
            assert(added == numbered(models, base + 1)[done@]);
            assert(model::texts(conditions@) =~= texts_now.push(added));
            assert(texts_now.push(added) =~= conditions_before + numbered(models, base + 1).take(
                done@ + 1,
            ));
            assert(value_models(args@) =~= values_now.push(value));
            assert(values_now.push(value) =~= args_before + clause_values(models).take(done@ + 1));
            done@ = done@ + 1;
        }
    }
    proof {
        assert(clause_models(clauses@).len() == 0);
        assert(done@ == models.len());
        assert(numbered(models, base + 1).take(done@) =~= numbered(models, base + 1));
        assert(clause_values(models).take(done@) =~= clause_values(models));
    }
}

/// The order of a plain history read.
pub open spec fn order_text(ascending: bool) -> Seq<char> {
    if ascending {
        " ORDER BY n.timestamp_millis ASC, n.id ASC"@
    } else {
        " ORDER BY n.timestamp_millis DESC, n.id DESC"@
    }
}

/// The order of a plain history read.
pub fn order_clause(filter: &HistoryQuery) -> (r: &'static str)
    ensures
        r@ == order_text(filter@.ascending),
{
    if filter.ascending {
        " ORDER BY n.timestamp_millis ASC, n.id ASC"
    } else {
        " ORDER BY n.timestamp_millis DESC, n.id DESC"
    }
}

/// The text that limits a read, with `used` values already bound. Rows can be
/// skipped without a limit on those that follow.
pub open spec fn limit_text(q: QueryModel, used: nat) -> Seq<char> {
    match (q.limit, q.offset) {
        (Some(_), Some(_)) => " LIMIT ?"@ + number::digits(used + 1) + " OFFSET ?"@ + number::digits(
            used + 2,
        ),
        (Some(_), None) => " LIMIT ?"@ + number::digits(used + 1),
        (None, Some(_)) => " LIMIT -1 OFFSET ?"@ + number::digits(used + 1),
        (None, None) => Seq::empty(),
    }
}

/// The values that limit a read.
pub open spec fn limit_values(q: QueryModel) -> Seq<ValueModel> {
    (match q.limit {
        Some(n) => seq![ValueModel::Integer(n as int)],
        None => Seq::empty(),
    }) + (match q.offset {
        Some(n) => seq![ValueModel::Integer(n as int)],
        None => Seq::empty(),
    })
}

/// Adds the limit of a filter to a statement in the making.
pub fn push_limit(filter: &HistoryQuery, sql: &mut String, args: &mut Vec<SqlValue>)
    requires
        old(args)@.len() + limit_values(filter@).len() <= u64::MAX,
    ensures
        final(sql)@ == old(sql)@ + limit_text(filter@, old(args)@.len()),
        value_models(final(args)@) == value_models(old(args)@) + limit_values(filter@),
{
    let ghost before = value_models(args@);
    let ghost text_before = sql@;
    if let Some(limit) = filter.limit {
        sql.append(" LIMIT ?");
        sql.append(decimal(args.len() as u64 + 1).as_str());
        args.push(SqlValue::Integer(limit as i64));
        if let Some(offset) = filter.offset {
            sql.append(" OFFSET ?");
            sql.append(decimal(args.len() as u64 + 1).as_str());
            args.push(SqlValue::Integer(offset as i64));
        }
    } else if let Some(offset) = filter.offset {
        sql.append(" LIMIT -1 OFFSET ?");
        sql.append(decimal(args.len() as u64 + 1).as_str());
        args.push(SqlValue::Integer(offset as i64));
    }
    assert(value_models(args@) =~= before + limit_values(filter@));
    assert(sql@ =~= text_before + limit_text(filter@, before.len()));
}

/// A filtered read of the history.
pub open spec fn query_model(q: QueryModel) -> StatementModel {
    let clauses = filter_clauses(q);
    StatementModel {
        sql: "SELECT "@ + entry_columns() + " FROM notifications n "@ + decision_join() + (
        if clauses.len() > 0 {
            " WHERE "@ + text::joined(numbered(clauses, 1), " AND "@)
        } else {
            Seq::empty()
        }) + order_text(q.ascending) + limit_text(q, clauses.len()),
        args: clause_values(clauses) + limit_values(q),
    }
}

/// Filtered history query.
pub fn query_statement(filter: &HistoryQuery) -> (r: Statement)
    ensures
        r@ == query_model(filter@),
{
    let mut conditions: Vec<String> = Vec::new();
    let mut args: Vec<SqlValue> = Vec::new();
    let ghost none = model::texts(conditions@);
    let ghost no_values = value_models(args@);
    push_filters(filter, &mut conditions, &mut args);
    let ghost clauses = filter_clauses(filter@);
    proof {
        assert(none + numbered(clauses, 1) =~= numbered(clauses, 1));
        assert(no_values + clause_values(clauses) =~= clause_values(clauses));
        assert(value_models(args@).len() == args@.len());
        assert(clauses.len() <= 5);
        assert(model::texts(conditions@).len() == conditions@.len());
    }
    let mut sql = "SELECT ".to_string();
    sql.append(entry_columns_text());
    sql.append(" FROM notifications n ");
    sql.append(decision_join_text());
    if conditions.len() > 0 {
        sql.append(" WHERE ");
        sql.append(join(&conditions, " AND ").as_str());
    }
    sql.append(order_clause(filter));
    push_limit(filter, &mut sql, &mut args);
    assert(sql@ =~= query_model(filter@).sql);
    Statement { sql, args }
}

/// A quotation mark doubled, everything else as it is.
pub open spec fn doubled(s: Seq<char>) -> Seq<char>
    decreases s.len(),
{
    if s.len() == 0 {
        s
    } else if s.last() == '"' {
        doubled(s.drop_last()) + seq!['"', '"']
    } else {
        doubled(s.drop_last()).push(s.last())
    }
}

/// A search term in quotation marks, those inside it doubled.
pub open spec fn quoted(term: Seq<char>) -> Seq<char> {
    seq!['"'] + doubled(term) + seq!['"']
}

/// The terms of a search, each in quotation marks.
pub open spec fn quoted_terms(text: Seq<char>) -> Seq<Seq<char>> {
    text::words(text).map_values(|w: Seq<char>| quoted(w))
}

/// Undoes [`doubled`].
pub open spec fn halved(s: Seq<char>) -> Seq<char>
    decreases s.len(),
{
    if s.len() == 0 {
        s
    } else if s.len() >= 2 && s.last() == '"' && s[s.len() - 2] == '"' {
        halved(s.drop_last().drop_last()).push('"')
    } else {
        halved(s.drop_last()).push(s.last())
    }
}

/// No quotation mark inside a quoted term ends it early: taking doubled marks
/// for single ones gives the term back.
pub proof fn quoting_keeps_the_term(term: Seq<char>)
    ensures
        halved(doubled(term)) == term,
    decreases term.len(),
{
    if term.len() > 0 {
        let rest = term.drop_last();
        quoting_keeps_the_term(rest);
        let whole = doubled(term);
        if term.last() == '"' {
            assert(whole.drop_last().drop_last() =~= doubled(rest));
            assert(halved(whole) =~= rest.push('"'));
        } else {
            assert(whole.drop_last() =~= doubled(rest));
            assert(halved(whole) =~= rest.push(term.last()));
        }
        assert(rest.push(term.last()) =~= term);
    }
}

fn quote_term(term: &str) -> (r: String)
    ensures
        r@ == quoted(term@),
{
    let chars = text::chars_of(term);
    let mut out = String::new();
    out.push('"');
    let mut i: usize = 0;
    assert(out@ =~= seq!['"'] + doubled(chars@.take(0)));
    while i < chars.len()
        invariant
            i <= chars@.len(),
            out@ == seq!['"'] + doubled(chars@.take(i as int)),
        decreases chars@.len() - i,
    {
        let c = chars[i];
        assert(chars@.take(i + 1).drop_last() =~= chars@.take(i as int));
        if c == '"' {
            out.push('"');
        }
        out.push(c);
        assert(out@ =~= seq!['"'] + doubled(chars@.take(i + 1)));
        i += 1;
    }
    assert(chars@.take(chars@.len() as int) =~= chars@);
    out.push('"');
    assert(out@ =~= quoted(term@));
    out
}

/// Wrap every whitespace-separated term in double quotes so arbitrary user
/// input is safe to pass to the full-text search.
pub fn fts_quote(text: &str) -> (r: String)
    ensures
        r@ == text::joined(quoted_terms(text@), " "@),
        text::words(text@).len() == 0 ==> r@.len() == 0,
{
    let terms = split_words(text);
    let ghost all = text::words(text@);
    let mut parts: Vec<String> = Vec::new();
    let mut i: usize = 0;
    while i < terms.len()
        invariant
            i <= terms@.len(),
            all == terms@.map_values(|t: String| t@),
            parts@.len() == i,
            forall|k: int| 0 <= k < i ==> (#[trigger] parts@[k])@ == quoted(all[k]),
        decreases terms@.len() - i,
    {
        assert(all[i as int] == terms@[i as int]@);
        parts.push(quote_term(terms[i].as_str()));
        i += 1;
    }
    assert(parts@.map_values(|t: String| t@) =~= quoted_terms(text@));
    join(&parts, " ")
}

/// The order of a search.
pub open spec fn search_order_text(ascending: bool) -> Seq<char> {
    if ascending {
        " ORDER BY n.timestamp_millis ASC, n.id ASC, bm25(notifications_fts) ASC"@
    } else {
        " ORDER BY bm25(notifications_fts) ASC, n.timestamp_millis DESC, n.id DESC"@
    }
}

/// A full-text search over title and body. The search text is the first value;
/// the filter's values follow it.
pub open spec fn search_model(text: Seq<char>, q: QueryModel) -> StatementModel {
    let clauses = filter_clauses(q);
    StatementModel {
        sql: "SELECT "@ + entry_columns()
            + " FROM notifications_fts JOIN notifications n ON n.id = notifications_fts.notification_id "@
            + decision_join() + " WHERE "@ + text::joined(
            seq!["notifications_fts MATCH ?1"@] + numbered(clauses, 2),
            " AND "@,
        ) + search_order_text(q.ascending) + limit_text(q, clauses.len() + 1),
        args: seq![ValueModel::Text(text::joined(quoted_terms(text), " "@))] + clause_values(
            clauses,
        ) + limit_values(q),
    }
}

/// Full-text search over title and body, ranked by relevance.
///
/// Each whitespace-separated term is quoted, so user input cannot inject
/// search syntax. A text without terms asks nothing.
pub fn search_statement(text: &str, filter: &HistoryQuery) -> (r: Option<Statement>)
    ensures
        r is None <==> text::words(text@).len() == 0,
        r matches Some(s) ==> s@ == search_model(text@, filter@),
{
    if split_words(text).len() == 0 {
        assert(text::words(text@).len() == 0);
        return None;
    }
    let terms = fts_quote(text);
    let mut args: Vec<SqlValue> = Vec::new();
    args.push(SqlValue::Text(terms));
    let mut conditions: Vec<String> = Vec::new();
    conditions.push("notifications_fts MATCH ?1".to_string());
    let ghost match_text = model::texts(conditions@);
    let ghost match_value = value_models(args@);
    push_filters(filter, &mut conditions, &mut args);
    let ghost clauses = filter_clauses(filter@);
    proof {
        assert(match_text =~= seq!["notifications_fts MATCH ?1"@]);
        assert(match_value =~= seq![
            ValueModel::Text(text::joined(quoted_terms(text@), " "@)),
        ]);
        assert(value_models(args@).len() == args@.len());
        assert(clauses.len() <= 5);
    }
    let mut sql = "SELECT ".to_string();
    sql.append(entry_columns_text());
    sql.append(
        " FROM notifications_fts JOIN notifications n ON n.id = notifications_fts.notification_id ",
    );
    sql.append(decision_join_text());
    sql.append(" WHERE ");
    sql.append(join(&conditions, " AND ").as_str());
    if filter.ascending {
        sql.append(" ORDER BY n.timestamp_millis ASC, n.id ASC, bm25(notifications_fts) ASC");
    } else {
        sql.append(" ORDER BY bm25(notifications_fts) ASC, n.timestamp_millis DESC, n.id DESC");
    }
    push_limit(filter, &mut sql, &mut args);
    assert(sql@ =~= search_model(text@, filter@).sql);
    Some(Statement { sql, args })
}

/// In a read, the condition at place `i` takes the value at place `i`: its
/// placeholder is numbered one higher, as placeholders count from one. In a
/// search everything stands one place further, behind the search text.
pub proof fn placeholders_follow_their_values(q: QueryModel, text: Seq<char>, i: int)
    requires
        0 <= i < filter_clauses(q).len(),
    ensures
        ({
            let clause = filter_clauses(q)[i];
            &&& numbered(filter_clauses(q), 1)[i] == clause.before + number::digits((i + 1) as nat)
                + clause.after
            &&& query_model(q).args[i] == clause.value
            &&& numbered(filter_clauses(q), 2)[i] == clause.before + number::digits((i + 2) as nat)
                + clause.after
            &&& search_model(text, q).args[i + 1] == clause.value
        }),
{
}

/// A search binds what the same search without a filter binds, and behind it
/// what a read under the filter binds.
pub proof fn search_binds_what_a_read_binds(q: QueryModel, text: Seq<char>)
    ensures
        search_model(text, q).args == search_model(text, storage::everything()).args + query_model(
            q,
        ).args,
{
    assert(search_model(text, q).args =~= search_model(text, storage::everything()).args
        + query_model(q).args);
}

/// The text that stores or updates a notification.
pub open spec fn store_text() -> Seq<char> {
    "INSERT INTO notifications (id, app_id, app_display_name, title, body, urgency, timestamp_millis, actions_json, icon_json, read) VALUES (?1, ?2, ?3, ?4, ?5, ?6, ?7, ?8, ?9, ?10) ON CONFLICT(id) DO UPDATE SET app_id = excluded.app_id, app_display_name = excluded.app_display_name, title = excluded.title, body = excluded.body, urgency = excluded.urgency, timestamp_millis = excluded.timestamp_millis, actions_json = excluded.actions_json, icon_json = excluded.icon_json, read = excluded.read"@
}

/// The text that takes what the search index holds of a notification out of it.
pub open spec fn unindex_text() -> Seq<char> {
    "DELETE FROM notifications_fts WHERE notification_id = ?1"@
}

/// The text that puts a notification into the search index.
pub open spec fn index_text() -> Seq<char> {
    "INSERT INTO notifications_fts (notification_id, title, body) VALUES (?1, ?2, ?3)"@
}

/// The text that appends a decision to a notification's audit trail.
pub open spec fn decide_text() -> Seq<char> {
    "INSERT INTO rule_decisions (notification_id, decision, rule_id, reason, decided_millis) VALUES (?1, ?2, ?3, ?4, ?5)"@
}

/// The text that deletes a notification.
pub open spec fn delete_text() -> Seq<char> {
    "DELETE FROM notifications WHERE id = ?1"@
}

/// The text that sets or clears the read mark of a notification.
pub open spec fn set_read_text() -> Seq<char> {
    "UPDATE notifications SET read = ?1 WHERE id = ?2"@
}

/// The texts that delete every notification: the notifications themselves, what
/// the search index holds, and the decisions.
pub open spec fn clear_texts() -> Seq<Seq<char>> {
    seq![
        "DELETE FROM notifications"@,
        "DELETE FROM notifications_fts"@,
        "DELETE FROM rule_decisions"@,
    ]
}

/// No two of the texts that change the history are the same.
pub proof fn changes_differ()
    ensures
        seq![
            store_text(),
            unindex_text(),
            index_text(),
            decide_text(),
            delete_text(),
            set_read_text(),
            clear_texts()[0],
            clear_texts()[1],
            clear_texts()[2],
        ].no_duplicates(),
{
    reveal_strlit("INSERT INTO notifications (id, app_id, app_display_name, title, body, urgency, timestamp_millis, actions_json, icon_json, read) VALUES (?1, ?2, ?3, ?4, ?5, ?6, ?7, ?8, ?9, ?10) ON CONFLICT(id) DO UPDATE SET app_id = excluded.app_id, app_display_name = excluded.app_display_name, title = excluded.title, body = excluded.body, urgency = excluded.urgency, timestamp_millis = excluded.timestamp_millis, actions_json = excluded.actions_json, icon_json = excluded.icon_json, read = excluded.read");
    reveal_strlit("DELETE FROM notifications_fts WHERE notification_id = ?1");
    reveal_strlit("INSERT INTO notifications_fts (notification_id, title, body) VALUES (?1, ?2, ?3)");
    reveal_strlit("INSERT INTO rule_decisions (notification_id, decision, rule_id, reason, decided_millis) VALUES (?1, ?2, ?3, ?4, ?5)");
    reveal_strlit("DELETE FROM notifications WHERE id = ?1");
    reveal_strlit("UPDATE notifications SET read = ?1 WHERE id = ?2");
    reveal_strlit("DELETE FROM notifications");
    reveal_strlit("DELETE FROM notifications_fts");
    reveal_strlit("DELETE FROM rule_decisions");
    assert(store_text().len() == 489 && unindex_text().len() == 56 && index_text().len() == 80);
    assert(decide_text().len() == 115 && delete_text().len() == 39 && set_read_text().len() == 48);
    assert(clear_texts()[0].len() == 25 && clear_texts()[1].len() == 29 && clear_texts()[2].len()
        == 26);
    let lengths = seq![489nat, 56, 80, 115, 39, 48, 25, 29, 26];
    let texts = seq![
        store_text(),
        unindex_text(),
        index_text(),
        decide_text(),
        delete_text(),
        set_read_text(),
        clear_texts()[0],
        clear_texts()[1],
        clear_texts()[2],
    ];
    assert forall|i: int| 0 <= i < texts.len() implies #[trigger] texts[i].len() == lengths[i] by {
        assert(i == 0 || i == 1 || i == 2 || i == 3 || i == 4 || i == 5 || i == 6 || i == 7 || i
            == 8);
    }
    assert(lengths.no_duplicates());
    assert forall|i: int, j: int| 0 <= i < texts.len() && 0 <= j < texts.len() && i != j implies
        texts[i] != texts[j] by {
        assert(texts[i].len() == lengths[i] && texts[j].len() == lengths[j]);
    }
}

/// A flag as a number.
pub open spec fn flag(on: bool) -> int {
    if on {
        1
    } else {
        0
    }
}

/// The statement that stores or updates a notification.
pub open spec fn stored(row: NotificationRowModel, read: bool) -> StatementModel {
    StatementModel {
        sql: store_text(),
        args: seq![
            ValueModel::Text(row.id),
            ValueModel::Text(row.app_id),
            optional_text(row.app_display_name),
            ValueModel::Text(row.title),
            ValueModel::Text(row.body),
            ValueModel::Text(row.urgency),
            ValueModel::Integer(row.timestamp_millis),
            ValueModel::Text(row.actions_json),
            optional_text(row.icon_json),
            ValueModel::Integer(flag(read)),
        ],
    }
}

/// The statement that stores or updates a notification.
pub fn store_notification(row: &NotificationRow, read: bool) -> (r: Statement)
    ensures
        r@ == stored(row@, read),
{
    let mut args: Vec<SqlValue> = Vec::new();
    args.push(text_value(row.id.as_str()));
    args.push(text_value(row.app_id.as_str()));
    args.push(optional_value(&row.app_display_name));
    args.push(text_value(row.title.as_str()));
    args.push(text_value(row.body.as_str()));
    args.push(text_value(row.urgency.as_str()));
    args.push(SqlValue::Integer(row.timestamp_millis));
    args.push(text_value(row.actions_json.as_str()));
    args.push(optional_value(&row.icon_json));
    args.push(
        SqlValue::Integer(
            if read {
                1
            } else {
                0
            },
        ),
    );
    Statement {
        sql: "INSERT INTO notifications (id, app_id, app_display_name, title, body, urgency, timestamp_millis, actions_json, icon_json, read) VALUES (?1, ?2, ?3, ?4, ?5, ?6, ?7, ?8, ?9, ?10) ON CONFLICT(id) DO UPDATE SET app_id = excluded.app_id, app_display_name = excluded.app_display_name, title = excluded.title, body = excluded.body, urgency = excluded.urgency, timestamp_millis = excluded.timestamp_millis, actions_json = excluded.actions_json, icon_json = excluded.icon_json, read = excluded.read".to_string(),
        args,
    }
}

/// The statement that puts a notification into the search index.
pub open spec fn indexed(row: NotificationRowModel) -> StatementModel {
    StatementModel {
        sql: index_text(),
        args: seq![
            ValueModel::Text(row.id),
            ValueModel::Text(row.title),
            ValueModel::Text(row.body),
        ],
    }
}

/// The statements that bring the search index up to date with a notification:
/// what it held of the id goes, the title and the body come in.
pub fn index_notification(row: &NotificationRow) -> (r: (Statement, Statement))
    ensures
        r.0@ == about(unindex_text(), row@.id),
        r.1@ == indexed(row@),
{
    let mut gone: Vec<SqlValue> = Vec::new();
    gone.push(text_value(row.id.as_str()));
    let mut new_args: Vec<SqlValue> = Vec::new();
    new_args.push(text_value(row.id.as_str()));
    new_args.push(text_value(row.title.as_str()));
    new_args.push(text_value(row.body.as_str()));
    (
        Statement {
            sql: "DELETE FROM notifications_fts WHERE notification_id = ?1".to_string(),
            args: gone,
        },
        Statement {
            sql: "INSERT INTO notifications_fts (notification_id, title, body) VALUES (?1, ?2, ?3)".to_string(),
            args: new_args,
        },
    )
}

/// The statement that appends a decision to a notification's audit trail.
pub open spec fn decided(row: DecisionRowModel) -> StatementModel {
    StatementModel {
        sql: decide_text(),
        args: seq![
            ValueModel::Text(row.notification_id),
            ValueModel::Text(row.decision),
            optional_text(row.rule_id),
            ValueModel::Text(row.reason),
            ValueModel::Integer(row.decided_millis),
        ],
    }
}

/// The statement that appends a decision to a notification's audit trail.
pub fn store_decision(row: &DecisionRow) -> (r: Statement)
    ensures
        r@ == decided(row@),
{
    let mut args: Vec<SqlValue> = Vec::new();
    args.push(text_value(row.notification_id.as_str()));
    args.push(text_value(row.decision.as_str()));
    args.push(optional_value(&row.rule_id));
    args.push(text_value(row.reason.as_str()));
    args.push(SqlValue::Integer(row.decided_millis));
    Statement {
        sql: "INSERT INTO rule_decisions (notification_id, decision, rule_id, reason, decided_millis) VALUES (?1, ?2, ?3, ?4, ?5)".to_string(),
        args,
    }
}

/// The statement that stores or updates a focus profile at a place in the list.
pub fn store_profile(row: &ProfileRow, position: u32) -> (r: Statement)
    ensures
        r@ == (StatementModel {
            sql: "INSERT INTO profiles (name, description, default_decision, position) VALUES (?1, ?2, ?3, ?4) ON CONFLICT(name) DO UPDATE SET description = excluded.description, default_decision = excluded.default_decision, position = excluded.position"@,
            args: seq![
                ValueModel::Text(row.name@),
                optional_text(model::text_if_any(row.description)),
                optional_text(model::text_if_any(row.default_decision)),
                ValueModel::Integer(position as int),
            ],
        }),
{
    let mut args: Vec<SqlValue> = Vec::new();
    args.push(text_value(row.name.as_str()));
    args.push(optional_value(&row.description));
    args.push(optional_value(&row.default_decision));
    args.push(SqlValue::Integer(position as i64));
    Statement {
        sql: "INSERT INTO profiles (name, description, default_decision, position) VALUES (?1, ?2, ?3, ?4) ON CONFLICT(name) DO UPDATE SET description = excluded.description, default_decision = excluded.default_decision, position = excluded.position".to_string(),
        args,
    }
}

/// The statement that stores or updates a schedule.
pub fn store_schedule(row: &ScheduleRow) -> (r: Statement)
    ensures
        r@ == (StatementModel {
            sql: "INSERT INTO schedules (id, name, weekdays, start_time, end_time, profile, enabled) VALUES (?1, ?2, ?3, ?4, ?5, ?6, ?7) ON CONFLICT(id) DO UPDATE SET name = excluded.name, weekdays = excluded.weekdays, start_time = excluded.start_time, end_time = excluded.end_time, profile = excluded.profile, enabled = excluded.enabled"@,
            args: seq![
                ValueModel::Text(row.id@),
                ValueModel::Text(row.name@),
                ValueModel::Text(row.weekdays@),
                ValueModel::Text(row.start_time@),
                ValueModel::Text(row.end_time@),
                optional_text(model::text_if_any(row.profile)),
                ValueModel::Integer(row.enabled as int),
            ],
        }),
{
    let mut args: Vec<SqlValue> = Vec::new();
    args.push(text_value(row.id.as_str()));
    args.push(text_value(row.name.as_str()));
    args.push(text_value(row.weekdays.as_str()));
    args.push(text_value(row.start_time.as_str()));
    args.push(text_value(row.end_time.as_str()));
    args.push(optional_value(&row.profile));
    args.push(SqlValue::Integer(row.enabled));
    Statement {
        sql: "INSERT INTO schedules (id, name, weekdays, start_time, end_time, profile, enabled) VALUES (?1, ?2, ?3, ?4, ?5, ?6, ?7) ON CONFLICT(id) DO UPDATE SET name = excluded.name, weekdays = excluded.weekdays, start_time = excluded.start_time, end_time = excluded.end_time, profile = excluded.profile, enabled = excluded.enabled".to_string(),
        args,
    }
}

/// What a connection is told before anything else.
pub const PRAGMAS: &'static str = "PRAGMA journal_mode = WAL; PRAGMA foreign_keys = ON; PRAGMA busy_timeout = 5000;";

/// The tables of the first schema version.
pub const SCHEMA: &'static str = "CREATE TABLE IF NOT EXISTS notifications (id TEXT PRIMARY KEY NOT NULL, app_id TEXT NOT NULL, app_display_name TEXT, title TEXT NOT NULL, body TEXT NOT NULL, urgency TEXT NOT NULL, timestamp_millis INTEGER NOT NULL, actions_json TEXT NOT NULL DEFAULT '[]', icon_json TEXT, read INTEGER NOT NULL DEFAULT 0); CREATE INDEX IF NOT EXISTS idx_notifications_timestamp ON notifications(timestamp_millis); CREATE INDEX IF NOT EXISTS idx_notifications_app ON notifications(app_id); CREATE TABLE IF NOT EXISTS rule_decisions (id INTEGER PRIMARY KEY AUTOINCREMENT, notification_id TEXT NOT NULL REFERENCES notifications(id) ON DELETE CASCADE, decision TEXT NOT NULL, rule_id TEXT, reason TEXT NOT NULL DEFAULT '', decided_millis INTEGER NOT NULL); CREATE INDEX IF NOT EXISTS idx_decisions_notification ON rule_decisions(notification_id); CREATE VIRTUAL TABLE IF NOT EXISTS notifications_fts USING fts5(notification_id UNINDEXED, title, body, tokenize = 'unicode61'); CREATE TABLE IF NOT EXISTS profiles (name TEXT PRIMARY KEY NOT NULL, description TEXT, default_decision TEXT, position INTEGER NOT NULL DEFAULT 0); CREATE TABLE IF NOT EXISTS schedules (id TEXT PRIMARY KEY NOT NULL, name TEXT NOT NULL, weekdays TEXT NOT NULL DEFAULT '[]', start_time TEXT NOT NULL, end_time TEXT NOT NULL, profile TEXT, enabled INTEGER NOT NULL DEFAULT 1); CREATE TABLE IF NOT EXISTS settings (key TEXT PRIMARY KEY NOT NULL, value TEXT NOT NULL);";

/// The statements that lead to a schema version from the one before it.
pub fn migration(version: u32) -> (r: Option<&'static str>)
    ensures
        r is Some <==> version == 1,
        r matches Some(sql) ==> sql@ == SCHEMA@,
{
    if version == 1 {
        Some(SCHEMA)
    } else {
        None
    }
}

/// The statement that notes the schema version.
pub fn note_version(version: u32) -> (r: String)
    ensures
        r@ == "PRAGMA user_version = "@ + number::digits(version as nat),
{
    let mut sql = "PRAGMA user_version = ".to_string();
    sql.append(decimal(version as u64).as_str());
    sql
}

/// The schema version that was noted.
pub const READ_VERSION: &'static str = "PRAGMA user_version";

/// The number of stored notifications.
pub const COUNT: &'static str = "SELECT COUNT(*) FROM notifications";

/// The number of notifications not yet marked read.
pub const COUNT_UNREAD: &'static str = "SELECT COUNT(*) FROM notifications WHERE read = 0";

/// The stored notifications, as retention judges them.
pub const STORED_ROWS: &'static str = "SELECT id, timestamp_millis FROM notifications";

/// All stored profiles, in the order of their positions.
pub const LIST_PROFILES: &'static str = "SELECT name, description, default_decision FROM profiles ORDER BY position, name";

/// All stored schedules.
pub const LIST_SCHEDULES: &'static str = "SELECT id, name, weekdays, start_time, end_time, profile, enabled FROM schedules ORDER BY name";

/// A statement about one thing that goes by a text.
pub open spec fn about(sql: Seq<char>, key: Seq<char>) -> StatementModel {
    StatementModel { sql, args: seq![ValueModel::Text(key)] }
}

fn statement_about(sql: &str, key: &str) -> (r: Statement)
    ensures
        r@ == about(sql@, key@),
{
    let mut args: Vec<SqlValue> = Vec::new();
    args.push(text_value(key));
    let statement = Statement { sql: sql.to_string(), args };
    assert(statement@ =~= about(sql@, key@));
    statement
}

/// What each statement in a list says.
pub open spec fn statement_models(statements: Seq<Statement>) -> Seq<StatementModel> {
    statements.map_values(|s: Statement| s@)
}

/// The statements that store a notification, bring the search index up to date
/// and append the decision, in this order.
pub open spec fn recorded(
    row: NotificationRowModel,
    read: bool,
    decision: DecisionRowModel,
) -> Seq<StatementModel> {
    seq![stored(row, read), about(unindex_text(), row.id), indexed(row), decided(decision)]
}

/// The statements that store a notification, bring the search index up to date
/// and append the decision, in this order.
pub fn record(row: &NotificationRow, read: bool, decision: &DecisionRow) -> (r: Vec<Statement>)
    ensures
        statement_models(r@) == recorded(row@, read, decision@),
{
    let (gone, indexed) = index_notification(row);
    let statements = vec![store_notification(row, read), gone, indexed, store_decision(decision)];
    assert(statement_models(statements@) =~= recorded(row@, read, decision@));
    statements
}

/// The statement that marks a notification read or unread.
pub open spec fn marked(id: Seq<char>, read: bool) -> StatementModel {
    StatementModel {
        sql: set_read_text(),
        args: seq![ValueModel::Integer(flag(read)), ValueModel::Text(id)],
    }
}

/// The statement that marks a notification read or unread.
pub fn set_read(id: &NotificationId, read: bool) -> (r: Statement)
    ensures
        r@ == marked(id@, read),
{
    let mut args: Vec<SqlValue> = Vec::new();
    args.push(
        SqlValue::Integer(
            if read {
                1
            } else {
                0
            },
        ),
    );
    args.push(text_value(id.as_str()));
    Statement { sql: "UPDATE notifications SET read = ?1 WHERE id = ?2".to_string(), args }
}

/// The statements that delete a notification, its decisions with it, and what
/// the search index holds of it.
pub fn delete_notification(id: &str) -> (r: (Statement, Statement))
    ensures
        r.0@ == about(delete_text(), id@),
        r.1@ == about(unindex_text(), id@),
{
    (
        statement_about("DELETE FROM notifications WHERE id = ?1", id),
        statement_about("DELETE FROM notifications_fts WHERE notification_id = ?1", id),
    )
}

/// The statements that delete every notification.
pub fn clear_history() -> (r: [&'static str; 3])
    ensures
        forall|i: int| 0 <= i < 3 ==> (#[trigger] r@[i])@ == clear_texts()[i],
{
    ["DELETE FROM notifications", "DELETE FROM notifications_fts", "DELETE FROM rule_decisions"]
}

/// The statement that reads one notification.
pub fn get_notification(id: &NotificationId) -> (r: Statement)
    ensures
        r@ == about(
            "SELECT id, app_id, app_display_name, title, body, urgency, timestamp_millis, actions_json, icon_json FROM notifications WHERE id = ?1"@,
            id@,
        ),
{
    statement_about(
        "SELECT id, app_id, app_display_name, title, body, urgency, timestamp_millis, actions_json, icon_json FROM notifications WHERE id = ?1",
        id.as_str(),
    )
}

/// The statement that deletes a profile.
pub fn delete_profile(name: &str) -> (r: Statement)
    ensures
        r@ == about("DELETE FROM profiles WHERE name = ?1"@, name@),
{
    statement_about("DELETE FROM profiles WHERE name = ?1", name)
}

/// The statement that deletes a schedule.
pub fn delete_schedule(id: &str) -> (r: Statement)
    ensures
        r@ == about("DELETE FROM schedules WHERE id = ?1"@, id@),
{
    statement_about("DELETE FROM schedules WHERE id = ?1", id)
}

/// The statement that reads a setting.
pub fn get_setting(key: &str) -> (r: Statement)
    ensures
        r@ == about("SELECT value FROM settings WHERE key = ?1"@, key@),
{
    statement_about("SELECT value FROM settings WHERE key = ?1", key)
}

/// The statement that writes a setting.
pub fn set_setting(key: &str, value: &str) -> (r: Statement)
    ensures
        r@ == (StatementModel {
            sql: "INSERT INTO settings (key, value) VALUES (?1, ?2) ON CONFLICT(key) DO UPDATE SET value = excluded.value"@,
            args: seq![ValueModel::Text(key@), ValueModel::Text(value@)],
        }),
{
    let mut args: Vec<SqlValue> = Vec::new();
    args.push(text_value(key));
    args.push(text_value(value));
    Statement {
        sql: "INSERT INTO settings (key, value) VALUES (?1, ?2) ON CONFLICT(key) DO UPDATE SET value = excluded.value".to_string(),
        args,
    }
}

/// Doubling goes character by character: a mark becomes two and anything else
/// stays one.
pub proof fn doubling_goes_by_characters(a: Seq<char>, b: Seq<char>, c: char)
    ensures
        doubled(a + b) == doubled(a) + doubled(b),
        c == '"' ==> doubled(seq![c]) == seq![c, c],
        c != '"' ==> doubled(seq![c]) == seq![c],
        !a.contains('"') ==> doubled(a) == a,
    decreases b.len(),
{
    assert(seq![c].drop_last() =~= Seq::<char>::empty());
    assert(doubled(Seq::<char>::empty()) =~= Seq::<char>::empty());
    if c == '"' {
        assert(doubled(seq![c]) =~= seq![c, c]);
    } else {
        assert(doubled(seq![c]) =~= seq![c]);
    }
    lemma_nothing_doubled(a);
    if b.len() == 0 {
        assert(a + b =~= a);
        assert(doubled(a) + doubled(b) =~= doubled(a));
    } else {
        doubling_goes_by_characters(a, b.drop_last(), c);
        assert((a + b).drop_last() =~= a + b.drop_last());
        assert((a + b).last() == b.last());
        assert(doubled(a + b) =~= doubled(a) + doubled(b));
    }
}

proof fn lemma_nothing_doubled(a: Seq<char>)
    ensures
        !a.contains('"') ==> doubled(a) == a,
    decreases a.len(),
{
    if a.len() > 0 && !a.contains('"') {
        let rest = a.drop_last();
        assert(a[a.len() - 1] == a.last());
        assert(!rest.contains('"')) by {
            if rest.contains('"') {
                let i = choose|i: int| 0 <= i < rest.len() && rest[i] == '"';
                assert(a[i] == '"');
            }
        }
        lemma_nothing_doubled(rest);
        assert(rest.push(a.last()) =~= a);
    }
}

/// The text that a search binds first.
pub open spec fn searched_for(text: Seq<char>, q: QueryModel) -> Seq<char> {
    match search_model(text, q).args[0] {
        ValueModel::Text(t) => t,
        _ => Seq::empty(),
    }
}

/// A search asks for every word that was typed: each stands in what is bound,
/// between quotation marks.
pub proof fn a_search_asks_for_every_word(text: Seq<char>, q: QueryModel, i: int)
    requires
        0 <= i < text::words(text).len(),
    ensures
        search_model(text, q).args[0] is Text,
        exists|a: Seq<char>, b: Seq<char>|
            searched_for(text, q) == #[trigger] (a + (seq!['"'] + doubled(text::words(text)[i])
                + seq!['"']) + b),
{
    let terms = quoted_terms(text);
    text::every_part_is_joined(terms, " "@, i);
    assert(terms[i] == seq!['"'] + doubled(text::words(text)[i]) + seq!['"']);
}

/// Searching for one text and another behind white space binds what searching
/// for the one binds, a blank, and what searching for the other binds; a text
/// without white space is bound whole, between quotation marks. So every term
/// counts, in the order they were typed.
pub proof fn searches_add_up(a: Seq<char>, c: char, b: Seq<char>, q: QueryModel)
    requires
        text::white(c),
    ensures
        !text::blank(a) && !text::blank(b) ==> searched_for(a.push(c) + b, q) == searched_for(a, q)
            + seq![' '] + searched_for(b, q),
        text::blank(a) ==> searched_for(a.push(c) + b, q) == searched_for(b, q),
        text::blank(b) ==> searched_for(a.push(c) + b, q) == searched_for(a, q),
        a.len() > 0 && text::solid(a) ==> searched_for(a, q) == seq!['"'] + doubled(a) + seq!['"'],
{
    text::white_space_parts_words(a, c, b);
    text::solid_text_is_one_word(a);
    text::solid_text_is_one_word(b);
    lemma_seen_text_has_words(a);
    lemma_seen_text_has_words(b);
    reveal_strlit(" ");
    assert(" "@ =~= seq![' ']);
    let x = quoted_terms(a);
    let y = quoted_terms(b);
    assert(quoted_terms(a.push(c) + b) =~= x + y);
    text::joining_adds_up(x, y, " "@);
    if a.len() > 0 && text::solid(a) {
        assert(x =~= seq![quoted(a)]);
    }
}

proof fn lemma_seen_text_has_words(s: Seq<char>)
    ensures
        !text::blank(s) ==> text::words(s).len() > 0,
    decreases s.len(),
{
    if s.len() > 0 && !text::blank(s) {
        let rest = s.drop_last();
        lemma_seen_text_has_words(rest);
        assert(s[s.len() - 1] == s.last());
        if text::white(s.last()) {
            let i = choose|i: int| 0 <= i < s.len() && !text::white(#[trigger] s[i]);
            assert(rest[i] == s[i]);
            assert(!text::blank(rest));
        }
    }
}

/// Nothing is searched for exactly where nothing but white space was typed.
pub proof fn blank_searches_ask_nothing(s: Seq<char>)
    ensures
        text::words(s).len() == 0 <==> text::blank(s),
{
    lemma_seen_text_has_words(s);
    text::solid_text_is_one_word(s);
}

/// A read is limited by what the filter says: the number of rows is bound first
/// and the number of those that are skipped behind it, each where it is set.
pub proof fn limits_are_bound_in_order(q: QueryModel)
    ensures
        q.limit matches Some(n) ==> limit_values(q)[0] == ValueModel::Integer(n as int),
        q.offset matches Some(n) ==> limit_values(q).last() == ValueModel::Integer(n as int),
        limit_values(q).len() == (if q.limit is Some {
            1int
        } else {
            0
        }) + if q.offset is Some {
            1int
        } else {
            0
        },
        query_model(q).args.len() == filter_clauses(q).len() + limit_values(q).len(),
{
}

/// What is stored of a notification stands in the places of its columns.
pub proof fn columns_hold_their_values(
    row: NotificationRowModel,
    read: bool,
    decision: DecisionRowModel,
)
    ensures
        ({
            let all = recorded(row, read, decision);
            &&& all.len() == 4
            &&& all[0].args.len() == 10
            &&& all[0].args[0] == ValueModel::Text(row.id)
            &&& all[0].args[1] == ValueModel::Text(row.app_id)
            &&& all[0].args[3] == ValueModel::Text(row.title)
            &&& all[0].args[4] == ValueModel::Text(row.body)
            &&& all[0].args[5] == ValueModel::Text(row.urgency)
            &&& all[0].args[6] == ValueModel::Integer(row.timestamp_millis)
            &&& all[0].args[7] == ValueModel::Text(row.actions_json)
            &&& row.app_display_name matches Some(t) ==> all[0].args[2] == ValueModel::Text(t)
            &&& row.app_display_name is None ==> all[0].args[2] is Null
            &&& row.icon_json matches Some(t) ==> all[0].args[8] == ValueModel::Text(t)
            &&& row.icon_json is None ==> all[0].args[8] is Null
            &&& read ==> all[0].args[9] == ValueModel::Integer(1)
            &&& !read ==> all[0].args[9] == ValueModel::Integer(0)
            &&& all[1].args == seq![ValueModel::Text(row.id)]
            &&& all[2].args == seq![
                ValueModel::Text(row.id),
                ValueModel::Text(row.title),
                ValueModel::Text(row.body),
            ]
            &&& all[3].args.len() == 5
            &&& all[3].args[0] == ValueModel::Text(decision.notification_id)
            &&& all[3].args[1] == ValueModel::Text(decision.decision)
            &&& all[3].args[3] == ValueModel::Text(decision.reason)
            &&& all[3].args[4] == ValueModel::Integer(decision.decided_millis)
            &&& decision.rule_id matches Some(t) ==> all[3].args[2] == ValueModel::Text(t)
            &&& decision.rule_id is None ==> all[3].args[2] is Null
        }),
{
}

/// A read mark is set with one and cleared with nought, on the notification that
/// is named and no other.
pub proof fn marks_are_set_by_id(id: Seq<char>, read: bool)
    ensures
        marked(id, read).args == seq![
            ValueModel::Integer(
                if read {
                    1
                } else {
                    0
                },
            ),
            ValueModel::Text(id),
        ],
{
}

/// A read comes newest first unless it is asked for ascending; among notifications
/// of one instant the ids go the same way. A search comes by relevance first,
/// unless it is asked for ascending.
pub proof fn reads_come_newest_first(q: QueryModel, text: Seq<char>)
    ensures
        ({
            let order = if q.ascending {
                " ORDER BY n.timestamp_millis ASC, n.id ASC"@
            } else {
                " ORDER BY n.timestamp_millis DESC, n.id DESC"@
            };
            let sql = query_model(q).sql;
            let tail = order + limit_text(q, filter_clauses(q).len());
            sql.skip(sql.len() - tail.len()) == tail
        }),
        ({
            let order = if q.ascending {
                " ORDER BY n.timestamp_millis ASC, n.id ASC, bm25(notifications_fts) ASC"@
            } else {
                " ORDER BY bm25(notifications_fts) ASC, n.timestamp_millis DESC, n.id DESC"@
            };
            let sql = search_model(text, q).sql;
            let tail = order + limit_text(q, filter_clauses(q).len() + 1);
            sql.skip(sql.len() - tail.len()) == tail
        }),
{
    let sql = query_model(q).sql;
    let tail = order_text(q.ascending) + limit_text(q, filter_clauses(q).len());
    assert(sql.skip(sql.len() - tail.len()) =~= tail);
    let search = search_model(text, q).sql;
    let end = search_order_text(q.ascending) + limit_text(q, filter_clauses(q).len() + 1);
    assert(search.skip(search.len() - end.len()) =~= end);
}

/// A read names its conditions, all of them, where it has any, and goes on with
/// the order where it has none; a search always asks for its text first.
pub proof fn conditions_are_all_asked(q: QueryModel, text: Seq<char>)
    ensures
        ({
            let head = "SELECT "@ + entry_columns() + " FROM notifications n "@ + decision_join();
            let sql = query_model(q).sql;
            let n = filter_clauses(q).len();
            let asked = " WHERE "@ + text::joined(numbered(filter_clauses(q), 1), " AND "@);
            &&& sql.take(head.len() as int) == head
            &&& n > 0 ==> sql.subrange(head.len() as int, (head + asked).len() as int) == asked
            &&& n > 0 ==> sql.skip((head + asked).len() as int) == order_text(q.ascending)
                + limit_text(q, n)
            &&& n == 0 ==> sql.skip(head.len() as int) == order_text(q.ascending) + limit_text(q, 0)
        }),
        ({
            let head = "SELECT "@ + entry_columns()
                + " FROM notifications_fts JOIN notifications n ON n.id = notifications_fts.notification_id "@
                + decision_join();
            let asked = " WHERE "@ + text::joined(
                seq!["notifications_fts MATCH ?1"@] + numbered(filter_clauses(q), 2),
                " AND "@,
            );
            let sql = search_model(text, q).sql;
            &&& sql.take(head.len() as int) == head
            &&& sql.subrange(head.len() as int, (head + asked).len() as int) == asked
        }),
{
    let n = filter_clauses(q).len();
    let head = "SELECT "@ + entry_columns() + " FROM notifications n "@ + decision_join();
    let asked = " WHERE "@ + text::joined(numbered(filter_clauses(q), 1), " AND "@);
    let tail = order_text(q.ascending) + limit_text(q, n);
    if n > 0 {
        assert(query_model(q).sql =~= head + asked + tail);
        lemma_three_parts(head, asked, tail);
    } else {
        assert(query_model(q).sql =~= head + Seq::<char>::empty() + tail);
        lemma_three_parts(head, Seq::empty(), tail);
    }
    let front = "SELECT "@ + entry_columns()
        + " FROM notifications_fts JOIN notifications n ON n.id = notifications_fts.notification_id "@
        + decision_join();
    let sought = " WHERE "@ + text::joined(
        seq!["notifications_fts MATCH ?1"@] + numbered(filter_clauses(q), 2),
        " AND "@,
    );
    let end = search_order_text(q.ascending) + limit_text(q, n + 1);
    assert(search_model(text, q).sql =~= front + sought + end);
    lemma_three_parts(front, sought, end);
}

proof fn lemma_three_parts(a: Seq<char>, b: Seq<char>, c: Seq<char>)
    ensures
        (a + b + c).take(a.len() as int) == a,
        (a + b + c).subrange(a.len() as int, (a + b).len() as int) == b,
        (a + b + c).skip((a + b).len() as int) == c,
{
    assert((a + b + c).take(a.len() as int) =~= a);
    assert((a + b + c).subrange(a.len() as int, (a + b).len() as int) =~= b);
    assert((a + b + c).skip((a + b).len() as int) =~= c);
}

} // verus!
