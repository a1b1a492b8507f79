//! The statements and rows of the history, put to a database in memory.

use rusqlite::types::Value;
use rusqlite::{params_from_iter, Connection, OptionalExtension, Row};

use tpt_focus::clock::{Span, Timestamp, WallTime, Weekday};
use tpt_focus::rows::{
    decode_entry, decode_profile, decode_schedule, encode_decision, encode_notification,
    encode_profile, encode_schedule, EntryRow, NotificationRow, ProfileRow, ScheduleRow,
};
use tpt_focus::sql;
use tpt_focus::sql::{SqlValue, Statement};
use tpt_focus::storage::{
    check_backup_version, digest_groups, pending_migrations, prune_plan, StoredRow,
    SCHEMA_VERSION,
};
use tpt_focus::{
    AppIdentity, Condition, Config, Decision, DigestGroup, FocusProfile, HistoryEntry,
    HistoryExport, HistoryQuery, MockContextProvider, Notification, NotificationId, Pipeline,
    PruneReport, Retention, Rule, Schedule, Urgency,
};

struct Store(Connection);

fn values(statement: &Statement) -> Vec<Value> {
    statement
        .args
        .iter()
        .map(|value| match value {
            SqlValue::Null => Value::Null,
            SqlValue::Integer(n) => Value::Integer(*n),
            SqlValue::Text(t) => Value::Text(t.clone()),
        })
        .collect()
}

fn entry_row(row: &Row<'_>) -> rusqlite::Result<EntryRow> {
    Ok(EntryRow {
        notification: NotificationRow {
            id: row.get(0)?,
            app_id: row.get(1)?,
            app_display_name: row.get(2)?,
            title: row.get(3)?,
            body: row.get(4)?,
            urgency: row.get(5)?,
            timestamp_millis: row.get(6)?,
            actions_json: row.get(7)?,
            icon_json: row.get(8)?,
        },
        read: row.get(9)?,
        decision: row.get(10)?,
        rule_id: row.get(11)?,
        reason: row.get(12)?,
        decided_millis: row.get(13)?,
    })
}

impl Store {
    fn open_in_memory() -> Store {
        let conn = Connection::open_in_memory().unwrap();
        conn.execute_batch(sql::PRAGMAS).unwrap();
        let store = Store(conn);
        for version in pending_migrations(store.schema_version()) {
            store.0.execute_batch(sql::migration(version).unwrap()).unwrap();
            store.0.execute_batch(&sql::note_version(version)).unwrap();
        }
        store
    }

    fn number(&self, sql: &str) -> u64 {
        let n: i64 = self.0.query_row(sql, [], |row| row.get(0)).unwrap();
        n as u64
    }

    fn schema_version(&self) -> u32 {
        self.number(sql::READ_VERSION) as u32
    }

    fn execute(&self, statement: &Statement) -> usize {
        self.0
            .execute(&statement.sql, params_from_iter(values(statement)))
            .unwrap()
    }

    fn record(&self, entry: &HistoryEntry) {
        let row = encode_notification(&entry.notification, "[]".to_string(), None);
        for statement in sql::record(&row, entry.read, &encode_decision(entry)) {
            self.execute(&statement);
        }
    }

    fn fetch(&self, statement: &Statement) -> Vec<HistoryEntry> {
        let mut prepared = self.0.prepare(&statement.sql).unwrap();
        let rows = prepared
            .query_map(params_from_iter(values(statement)), entry_row)
            .unwrap();
        rows.map(|row| decode_entry(row.unwrap(), Vec::new(), None))
            .collect()
    }

    fn query(&self, filter: &HistoryQuery) -> Vec<HistoryEntry> {
        self.fetch(&sql::query_statement(filter))
    }

    fn search(&self, text: &str, filter: &HistoryQuery) -> Vec<HistoryEntry> {
        match sql::search_statement(text, filter) {
            Some(statement) => self.fetch(&statement),
            None => Vec::new(),
        }
    }

    fn count(&self) -> u64 {
        self.number(sql::COUNT)
    }

    fn unread_count(&self) -> u64 {
        self.number(sql::COUNT_UNREAD)
    }

    fn set_read(&self, id: &NotificationId, read: bool) -> bool {
        self.execute(&sql::set_read(id, read)) > 0
    }

    fn delete_ids(&self, ids: &[String]) -> u64 {
        let mut removed = 0;
        for id in ids {
            let (notification, index) = sql::delete_notification(id);
            removed += self.execute(&notification) as u64;
            self.execute(&index);
        }
        removed
    }

    fn prune_at(&self, retention: &Retention, now: Timestamp) -> PruneReport {
        let mut prepared = self.0.prepare(sql::STORED_ROWS).unwrap();
        let rows: Vec<StoredRow> = prepared
            .query_map([], |row| {
                Ok(StoredRow {
                    id: row.get(0)?,
                    timestamp_millis: row.get(1)?,
                })
            })
            .unwrap()
            .map(|row| row.unwrap())
            .collect();
        let plan = prune_plan(&rows, retention, now);
        PruneReport {
            removed_by_age: self.delete_ids(&plan.by_age),
            removed_by_count: self.delete_ids(&plan.by_count),
        }
    }

    fn clear_history(&self) -> u64 {
        let statements = sql::clear_history();
        let removed = self.0.execute(statements[0], []).unwrap();
        self.0.execute(statements[1], []).unwrap();
        self.0.execute(statements[2], []).unwrap();
        removed as u64
    }

    fn export(&self) -> HistoryExport {
        HistoryExport {
            schema_version: self.schema_version(),
            exported_at: Timestamp::now(),
            entries: self.query(&HistoryQuery::new().ascending()),
        }
    }

    fn import(&self, export: &HistoryExport) -> Result<usize, tpt_focus::Error> {
        check_backup_version(export.schema_version)?;
        for entry in &export.entries {
            self.record(entry);
        }
        Ok(export.entries.len())
    }

    fn list_profiles(&self) -> Vec<FocusProfile> {
        let mut prepared = self.0.prepare(sql::LIST_PROFILES).unwrap();
        let rows = prepared
            .query_map([], |row| {
                Ok(ProfileRow {
                    name: row.get(0)?,
                    description: row.get(1)?,
                    default_decision: row.get(2)?,
                })
            })
            .unwrap();
        rows.map(|row| decode_profile(row.unwrap())).collect()
    }

    fn list_schedules(&self) -> Vec<Schedule> {
        let mut prepared = self.0.prepare(sql::LIST_SCHEDULES).unwrap();
        let rows = prepared
            .query_map([], |row| {
                Ok(ScheduleRow {
                    id: row.get(0)?,
                    name: row.get(1)?,
                    weekdays: row.get(2)?,
                    start_time: row.get(3)?,
                    end_time: row.get(4)?,
                    profile: row.get(5)?,
                    enabled: row.get(6)?,
                })
            })
            .unwrap();
        rows.map(|row| decode_schedule(row.unwrap()).unwrap())
            .collect()
    }

    fn get_setting(&self, key: &str) -> Option<String> {
        let statement = sql::get_setting(key);
        self.0
            .query_row(
                &statement.sql,
                params_from_iter(values(&statement)),
                |row| row.get(0),
            )
            .optional()
            .unwrap()
    }

    fn digest_groups(&self, since: Timestamp) -> Vec<DigestGroup> {
        digest_groups(&self.query(&HistoryQuery::new().ascending()), since)
    }
}

fn sample(app: &str, title: &str, body: &str) -> HistoryEntry {
    // SQLite stores millisecond precision; align so round-trips compare equal.
    let timestamp = Timestamp::from_millis(Timestamp::now().millis()).expect("valid timestamp");
    HistoryEntry {
        notification: Notification::new(AppIdentity::new(app), title, body)
            .with_timestamp(timestamp),
        decision: Decision::Allow,
        rule_id: None,
        reason: "test".to_string(),
        read: false,
        decided_at: timestamp,
    }
}

fn days(n: u64) -> Span {
    Span::from_days(n)
}

#[test]
fn insert_and_query_round_trip() {
    let storage = Store::open_in_memory();
    let mut entry = sample("slack", "Standup", "in 5 minutes");
    entry.decision = Decision::Mute;
    entry.rule_id = Some("mute-slack".into());

    storage.record(&entry);
    assert_eq!(storage.count(), 1);

    let rows = storage.query(&HistoryQuery::new());
    assert_eq!(rows.len(), 1);
    assert_eq!(rows[0], entry);
}

#[test]
fn query_filters_by_app_and_decision() {
    let storage = Store::open_in_memory();

    let mut slack = sample("slack", "Ping", "hello");
    slack.decision = Decision::Mute;
    storage.record(&slack);
    storage.record(&sample("mail", "Digest", "today"));

    assert_eq!(storage.query(&HistoryQuery::new().with_app("SLACK")).len(), 1);
    assert_eq!(
        storage
            .query(&HistoryQuery::new().with_decision(Decision::Mute))
            .len(),
        1
    );
    assert_eq!(
        storage
            .query(&HistoryQuery::new().with_decision(Decision::Allow))
            .len(),
        1
    );
    assert_eq!(storage.query(&HistoryQuery::new()).len(), 2);
}

#[test]
fn query_filters_by_date_range() {
    let storage = Store::open_in_memory();
    let mut storage_entries = sample("app", "old", "b");
    storage_entries.notification.timestamp = Timestamp::now().earlier_by(days(10));
    let mut newer = sample("app", "new", "b");
    newer.notification.timestamp = Timestamp::now();

    storage.record(&storage_entries);
    storage.record(&newer);

    let since = Timestamp::now().earlier_by(days(1));
    let rows = storage.query(&HistoryQuery::new().since(since));
    assert_eq!(rows.len(), 1);
    assert_eq!(rows[0].notification.title, "new");

    let until = Timestamp::now().earlier_by(days(5));
    let rows = storage.query(&HistoryQuery::new().until(until));
    assert_eq!(rows.len(), 1);
    assert_eq!(rows[0].notification.title, "old");
}

#[test]
fn full_text_search_matches_title_and_body() {
    let storage = Store::open_in_memory();
    storage.record(&sample("slack", "Standup", "daily meeting"));
    storage.record(&sample("mail", "Invoice", "payment received"));
    storage.record(&sample("jira", "Bug report", "standup blocker"));

    let rows = storage.search("standup", &HistoryQuery::new());
    assert_eq!(rows.len(), 2);

    let rows = storage.search("payment", &HistoryQuery::new());
    assert_eq!(rows.len(), 1);
    assert_eq!(rows[0].notification.source.app_id, "mail");

    // Multi-term AND semantics.
    let rows = storage.search("daily meeting", &HistoryQuery::new());
    assert_eq!(rows.len(), 1);

    assert!(storage.search("", &HistoryQuery::new()).is_empty());
}

#[test]
fn searches_are_filtered_like_queries() {
    let storage = Store::open_in_memory();
    let mut muted = sample("slack", "Standup", "daily meeting");
    muted.decision = Decision::Mute;
    storage.record(&muted);
    storage.record(&sample("jira", "Bug report", "standup blocker"));

    let rows = storage.search("standup", &HistoryQuery::new().with_app("JIRA"));
    assert_eq!(rows.len(), 1);
    assert_eq!(rows[0].notification.source.app_id, "jira");
    let rows = storage.search(
        "standup",
        &HistoryQuery::new()
            .with_decision(Decision::Mute)
            .unread_only()
            .with_limit(5),
    );
    assert_eq!(rows.len(), 1);
    assert_eq!(rows[0].notification.source.app_id, "slack");
    let rows = storage.search("standup", &HistoryQuery::new().with_limit(1).ascending());
    assert_eq!(rows.len(), 1);
}

#[test]
fn search_survives_fts_operator_input() {
    let storage = Store::open_in_memory();
    storage.record(&sample("app", "Bug", "crash"));

    // Operator-looking input must not error or match everything.
    assert!(storage.search("AND OR NOT", &HistoryQuery::new()).is_empty());
    assert!(storage.search("*)(", &HistoryQuery::new()).is_empty());
    assert_eq!(storage.search("crash", &HistoryQuery::new()).len(), 1);
}

#[test]
fn read_state_is_persisted_and_counted() {
    let storage = Store::open_in_memory();
    let entry = sample("app", "t", "b");
    let id = entry.notification.id.clone();
    storage.record(&entry);

    assert_eq!(storage.unread_count(), 1);
    assert!(storage.set_read(&id, true));
    assert_eq!(storage.unread_count(), 0);
    assert!(storage
        .query(&HistoryQuery::new().unread_only())
        .is_empty());
    assert!(!storage.set_read(&NotificationId::from("nobody"), true));
}

#[test]
fn pruning_respects_max_age_and_max_count() {
    let storage = Store::open_in_memory();
    let now = Timestamp::now();

    for age in [10, 5, 1] {
        let mut entry = sample("app", &format!("day {age}"), "b");
        entry.notification.timestamp = now.earlier_by(days(age));
        storage.record(&entry);
    }
    assert_eq!(storage.count(), 3);

    let report = storage.prune_at(
        &Retention {
            max_age: Some(days(7)),
            max_count: None,
        },
        now,
    );
    assert_eq!(report.removed_by_age, 1);
    assert_eq!(storage.count(), 2);

    let report = storage.prune_at(
        &Retention {
            max_age: None,
            max_count: Some(1),
        },
        now,
    );
    assert_eq!(report.removed_by_count, 1);
    assert_eq!(report.total(), 1);
    assert_eq!(storage.count(), 1);
    assert_eq!(
        storage.query(&HistoryQuery::new())[0].notification.title,
        "day 1"
    );
}

#[test]
fn pruning_keeps_the_newest_of_many() {
    let storage = Store::open_in_memory();
    let now = Timestamp::now();
    for age in [4, 1, 5, 3, 2] {
        let mut entry = sample("app", &format!("day {age}"), "b");
        entry.notification.timestamp = now.earlier_by(days(age));
        storage.record(&entry);
    }
    let keep = |max_count: u64| Retention {
        max_age: None,
        max_count: Some(max_count),
    };
    assert_eq!(storage.prune_at(&keep(2), now).removed_by_count, 3);
    let left: Vec<String> = storage
        .query(&HistoryQuery::new())
        .iter()
        .map(|entry| entry.notification.title.clone())
        .collect();
    assert_eq!(left, vec!["day 1", "day 2"]);
    assert_eq!(storage.prune_at(&keep(2), now).total(), 0);
    assert_eq!(storage.prune_at(&Retention::default(), now).total(), 0);
    assert_eq!(storage.prune_at(&keep(0), now).total(), 2);
}

#[test]
fn of_one_instant_the_lesser_id_leaves_first() {
    let rows = |ids: &[(&str, i64)]| -> Vec<StoredRow> {
        ids.iter()
            .map(|(id, millis)| StoredRow {
                id: id.to_string(),
                timestamp_millis: *millis,
            })
            .collect()
    };
    let keep = |max_count: u64| Retention {
        max_age: None,
        max_count: Some(max_count),
    };
    let now = Timestamp::new(10, 0).unwrap();
    let pair = rows(&[("b", 1), ("a", 1)]);
    assert_eq!(prune_plan(&pair, &keep(1), now).by_count, vec!["a"]);
    let more = rows(&[("b", 2), ("ba", 1), ("é", 1), ("z", 1), ("a", 2), ("b", 1)]);
    let plan = prune_plan(&more, &keep(1), now);
    assert!(plan.by_age.is_empty());
    assert_eq!(plan.by_count, vec!["b", "ba", "z", "é", "a"]);
}

#[test]
fn recording_an_id_again_replaces_what_it_said() {
    let storage = Store::open_in_memory();
    let other = sample("mail", "untouched", "words");
    storage.record(&other);
    let mut entry = sample("slack", "standup", "soon");
    storage.record(&entry);
    assert_eq!(storage.count(), 2);

    entry.notification.title = "retro".to_string();
    entry.notification.body = "later".to_string();
    entry.read = true;
    storage.record(&entry);
    assert_eq!(storage.count(), 2);
    let all = storage.query(&HistoryQuery::new());
    let of_id: Vec<&HistoryEntry> = all
        .iter()
        .filter(|e| e.notification.id == entry.notification.id)
        .collect();
    assert_eq!(of_id, vec![&entry]);
    assert!(all.contains(&other));
    for gone in ["standup", "soon"] {
        assert!(storage.search(gone, &HistoryQuery::new()).is_empty());
    }
    for word in ["retro", "later"] {
        assert_eq!(storage.search(word, &HistoryQuery::new()).len(), 1);
    }
}

#[test]
fn a_search_finds_what_the_filter_lets_through() {
    let storage = Store::open_in_memory();
    let now = Timestamp::from_millis(Timestamp::now().millis()).unwrap();
    let mut entries: Vec<HistoryEntry> = Vec::new();
    for i in 0..12u64 {
        let app = if i % 2 == 0 { "slack" } else { "mail" };
        let title = if i % 3 == 0 { "other" } else { "term" };
        let mut entry = sample(app, title, "b");
        entry.notification.timestamp = now.earlier_by(days(i));
        entry.decision = if i % 4 < 2 { Decision::Mute } else { Decision::Allow };
        entry.read = i > 8;
        storage.record(&entry);
        entries.push(entry);
    }
    let filters = [
        HistoryQuery::new().with_app("Slack"),
        HistoryQuery::new().with_decision(Decision::Mute),
        HistoryQuery::new().since(now.earlier_by(days(5))),
        HistoryQuery::new().until(now.earlier_by(days(3))).unread_only(),
        HistoryQuery::new()
            .with_app("mail")
            .with_decision(Decision::Allow)
            .since(now.earlier_by(days(11)))
            .until(now),
    ];
    let ids = |entries: &[HistoryEntry]| -> Vec<String> {
        let mut ids: Vec<String> =
            entries.iter().map(|e| e.notification.id.to_text()).collect();
        ids.sort();
        ids
    };
    let found = ids(&storage.search("term", &HistoryQuery::new()));
    assert_eq!(found.len(), 8);
    for filter in filters {
        let read = ids(&storage.query(&filter));
        let both: Vec<String> = found.iter().filter(|id| read.contains(id)).cloned().collect();
        assert!(!both.is_empty() && both.len() < found.len());
        assert_eq!(ids(&storage.search("term", &filter)), both);
    }
}

#[test]
fn prune_removes_search_index_too() {
    let storage = Store::open_in_memory();
    storage.record(&sample("app", "unique-term", "b"));
    assert_eq!(storage.search("unique-term", &HistoryQuery::new()).len(), 1);

    assert_eq!(storage.clear_history(), 1);
    assert_eq!(storage.search("unique-term", &HistoryQuery::new()).len(), 0);
}

#[test]
fn deleting_takes_the_decisions_and_the_index_along() {
    let storage = Store::open_in_memory();
    let entry = sample("app", "unique-term", "b");
    storage.record(&entry);
    storage.record(&entry);
    assert_eq!(storage.count(), 1);
    assert_eq!(storage.number("SELECT COUNT(*) FROM rule_decisions"), 2);

    assert_eq!(storage.delete_ids(&[entry.notification.id.to_text()]), 1);
    assert_eq!(storage.number("SELECT COUNT(*) FROM rule_decisions"), 0);
    assert_eq!(storage.number("SELECT COUNT(*) FROM notifications_fts"), 0);
}

#[test]
fn the_latest_decision_counts() {
    let storage = Store::open_in_memory();
    let mut entry = sample("app", "t", "b");
    storage.record(&entry);
    entry.decision = Decision::Batch;
    entry.reason = "again".to_string();
    storage.record(&entry);
    let rows = storage.query(&HistoryQuery::new());
    assert_eq!(rows.len(), 1);
    assert_eq!(rows[0].decision, Decision::Batch);
    assert_eq!(rows[0].reason, "again");
}

#[test]
fn pages_of_history_follow_each_other() {
    let storage = Store::open_in_memory();
    let now = Timestamp::now();
    for age in 0..5 {
        let mut entry = sample("app", &format!("{age}"), "b");
        entry.notification.timestamp = now.earlier_by(days(age));
        storage.record(&entry);
    }
    let titles = |query: &HistoryQuery| -> Vec<String> {
        storage
            .query(query)
            .iter()
            .map(|entry| entry.notification.title.clone())
            .collect()
    };
    let page = HistoryQuery {
        offset: Some(2),
        ..HistoryQuery::new().with_limit(2)
    };
    assert_eq!(titles(&page), vec!["2", "3"]);
    let rest = HistoryQuery {
        offset: Some(3),
        ..HistoryQuery::new()
    };
    assert_eq!(titles(&rest), vec!["3", "4"]);
    assert_eq!(titles(&HistoryQuery::new().with_limit(1).ascending()), vec!["4"]);
}

#[test]
fn export_and_import_restore_history() {
    let storage = Store::open_in_memory();
    let mut entry = sample("slack", "Title", "Body");
    entry.decision = Decision::Batch;
    storage.record(&entry);

    let export = storage.export();

    let restored = Store::open_in_memory();
    let imported = restored.import(&export).unwrap();
    assert_eq!(imported, 1);
    assert_eq!(restored.query(&HistoryQuery::new())[0], entry);
}

#[test]
fn import_rejects_future_schema() {
    let storage = Store::open_in_memory();
    let export = HistoryExport {
        schema_version: 999,
        exported_at: Timestamp::new(1_767_225_600, 0).unwrap(),
        entries: Vec::new(),
    };
    let error = storage.import(&export).unwrap_err();
    assert_eq!(
        error.to_text(),
        "invalid configuration: backup schema version 999 is not supported by this build"
    );
    assert!(check_backup_version(0).is_err());
    assert!(check_backup_version(SCHEMA_VERSION).is_ok());
}

#[test]
fn profiles_and_schedules_round_trip() {
    let storage = Store::open_in_memory();

    let profile = FocusProfile::new("Deep Work")
        .with_description("No chat")
        .with_default_decision(Decision::Mute);
    storage.execute(&sql::store_profile(&encode_profile(&profile), 0));
    assert_eq!(storage.list_profiles(), vec![profile.clone()]);
    assert!(storage.execute(&sql::delete_profile("Deep Work")) > 0);
    assert!(storage.list_profiles().is_empty());

    let schedule = Schedule::new(
        "quiet",
        WallTime::from_hms(22, 0, 0).unwrap(),
        WallTime::from_hms(6, 0, 0).unwrap(),
    )
    .named("Quiet hours")
    .with_weekdays(vec![Weekday::Sat, Weekday::Sun])
    .activating_profile("Deep Work");
    storage.execute(&sql::store_schedule(&encode_schedule(&schedule).unwrap()));

    let listed = storage.list_schedules();
    assert_eq!(listed, vec![schedule]);
    assert!(storage.execute(&sql::delete_schedule("quiet")) > 0);
    assert!(storage.list_schedules().is_empty());
}

#[test]
fn schedules_are_stored_as_readable_text() {
    let schedule = Schedule::new(
        "quiet",
        WallTime::from_hms(22, 5, 0).unwrap(),
        WallTime::from_hms(6, 0, 7).unwrap(),
    )
    .with_weekdays(vec![Weekday::Sat, Weekday::Sun]);
    let row = encode_schedule(&schedule).unwrap();
    assert_eq!(row.weekdays, "[\"sat\",\"sun\"]");
    assert_eq!(row.start_time, "22:05:00");
    assert_eq!(row.end_time, "06:00:07");
    assert_eq!(row.enabled, 1);
    assert_eq!(decode_schedule(row).unwrap(), schedule);

    let faulty = Schedule::new(
        "bad",
        WallTime::from_hms(9, 0, 0).unwrap(),
        WallTime::from_hms(9, 0, 0).unwrap(),
    );
    assert!(encode_schedule(&faulty).is_err());
}

#[test]
fn damaged_schedule_rows_are_refused() {
    let row = |weekdays: &str, start: &str| ScheduleRow {
        id: "q".to_string(),
        name: String::new(),
        weekdays: weekdays.to_string(),
        start_time: start.to_string(),
        end_time: "06:00:00".to_string(),
        profile: None,
        enabled: 0,
    };
    assert!(!decode_schedule(row("[]", "22:00:00")).unwrap().enabled);
    assert!(decode_schedule(row("[", "22:00:00")).is_err());
    assert!(decode_schedule(row("[\"never\"]", "22:00:00")).is_err());
    assert!(decode_schedule(row("[1]", "22:00:00")).is_err());
    assert!(decode_schedule(row("[]", "25:00:00")).is_err());
}

#[test]
fn settings_are_upserted() {
    let storage = Store::open_in_memory();
    assert_eq!(storage.get_setting("theme"), None);
    storage.execute(&sql::set_setting("theme", "dark"));
    storage.execute(&sql::set_setting("theme", "light"));
    assert_eq!(storage.get_setting("theme").as_deref(), Some("light"));
}

#[test]
fn migrations_run_once() {
    let storage = Store::open_in_memory();
    assert_eq!(storage.schema_version(), SCHEMA_VERSION);
    assert!(pending_migrations(storage.schema_version()).is_empty());
    assert_eq!(pending_migrations(0), vec![1]);
    assert!(sql::migration(2).is_none());
}

#[test]
fn fts_quote_escapes_user_input() {
    assert_eq!(sql::fts_quote("hello world"), "\"hello\" \"world\"");
    assert_eq!(sql::fts_quote("say \"hi\""), "\"say\" \"\"\"hi\"\"\"");
    assert_eq!(sql::fts_quote("   "), "");
}

#[test]
fn pipeline_decisions_are_recorded_to_history() {
    let config = Config {
        rules: vec![
            Rule::new("mute-mail", Decision::Mute).with_condition(Condition::App {
                apps: vec!["mail".into()],
            }),
        ],
        ..Config::default()
    };

    let storage = Store::open_in_memory();
    let pipeline = Pipeline::from_refs(&config, MockContextProvider::new());

    for app in ["mail", "slack"] {
        let processed = pipeline.process(Notification::new(AppIdentity::new(app), "s", "b"));
        storage.record(&HistoryEntry::from_processed(&processed));
    }

    let entries = storage.query(&HistoryQuery::new());
    assert_eq!(entries.len(), 2);
    assert_eq!(
        storage
            .query(&HistoryQuery::new().with_decision(Decision::Mute))
            .len(),
        1
    );
}

#[test]
fn digests_of_the_past_start_with_the_oldest() {
    let storage = Store::open_in_memory();
    let now = Timestamp::from_millis(Timestamp::now().millis()).unwrap();
    for (app, age, decision) in [
        ("zoom", 5, Decision::Mute),
        ("app", 3, Decision::Batch),
        ("zoom", 2, Decision::Batch),
        ("mail", 1, Decision::Allow),
        ("old", 40, Decision::Mute),
    ] {
        let mut entry = sample(app, &format!("{app} {age}"), "b");
        entry.notification.timestamp = now.earlier_by(days(age));
        entry.decision = decision;
        storage.record(&entry);
    }
    let groups = storage.digest_groups(now.earlier_by(days(30)));
    let apps: Vec<&str> = groups.iter().map(|group| group.app_id.as_str()).collect();
    assert_eq!(apps, vec!["zoom", "app"]);
    assert_eq!(groups[0].entries.len(), 2);
    assert_eq!(groups[0].headline(), "zoom 2");
}

#[test]
fn damaged_rows_fall_back() {
    let raw = EntryRow {
        notification: NotificationRow {
            id: "n".to_string(),
            app_id: "a".to_string(),
            app_display_name: None,
            title: "t".to_string(),
            body: "b".to_string(),
            urgency: "shouting".to_string(),
            timestamp_millis: 1_234,
            actions_json: "[]".to_string(),
            icon_json: None,
        },
        read: 3,
        decision: None,
        rule_id: None,
        reason: None,
        decided_millis: None,
    };
    let entry = decode_entry(raw, Vec::new(), None);
    assert_eq!(entry.notification.urgency, Urgency::Normal);
    assert_eq!(entry.decision, Decision::Allow);
    assert!(entry.read);
    assert_eq!(entry.reason, "");
    assert_eq!(entry.decided_at, entry.notification.timestamp);
}

#[test]
fn instants_keep_their_milliseconds() {
    let storage = Store::open_in_memory();
    let mut entry = sample("app", "t", "b");
    entry.notification.timestamp = Timestamp::new(1_000, 123_456_789).unwrap();
    entry.decided_at = Timestamp::new(-1, 999_999_999).unwrap();
    storage.record(&entry);
    let row = &storage.query(&HistoryQuery::new())[0];
    assert_eq!(row.notification.timestamp, Timestamp::new(1_000, 123_000_000).unwrap());
    assert_eq!(row.decided_at, Timestamp::new(-1, 999_000_000).unwrap());
}

#[test]
fn one_notification_is_read_by_its_id() {
    let store = Store::open_in_memory();
    let wanted = sample("slack", "Lunch", "noon?");
    store.record(&sample("mail", "Invoice", "due"));
    store.record(&wanted);

    let statement = sql::get_notification(&wanted.notification.id);
    let title: String = store
        .0
        .query_row(&statement.sql, params_from_iter(values(&statement)), |row| {
            row.get(3)
        })
        .unwrap();
    assert_eq!(title, "Lunch");

    let missing = sql::get_notification(&NotificationId::from("nobody"));
    let none: Option<String> = store
        .0
        .query_row(&missing.sql, params_from_iter(values(&missing)), |row| {
            row.get(3)
        })
        .optional()
        .unwrap();
    assert!(none.is_none());
}
