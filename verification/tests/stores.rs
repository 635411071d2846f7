use guild_audit::activity::{ActivityLog, NewUserLog, UserLogFilters};
use guild_audit::error::StoreError;
use guild_audit::snapshot::{NewMessageSnapshot, SnapshotStore};

fn snap(guild: u64, channel: u64, message: u64, content: &str) -> NewMessageSnapshot {
    NewMessageSnapshot {
        guild_id: guild,
        channel_id: channel,
        message_id: message,
        author_user_id: 42,
        content: content.to_owned(),
        attachment_summary: None,
        updated_at: 1_000,
    }
}

fn log_entry(guild: u64, event_type: &str, author: u64, created_at: u64) -> NewUserLog {
    NewUserLog {
        guild_id: guild,
        channel_id: 7,
        message_id: Some(8),
        author_user_id: Some(author),
        event_type: event_type.to_owned(),
        before_content: Some("b".to_owned()),
        after_content: Some("a".to_owned()),
        attachment_summary: None,
        created_at,
    }
}

#[test]
fn upsert_get_roundtrip() {
    let mut store = SnapshotStore::new();
    store.upsert_message_snapshot(snap(1, 2, 3, "hello")).unwrap();
    let got = store.get_message_snapshot(1, 2, 3).unwrap().unwrap();
    assert_eq!(got.channel_id, 2);
    assert_eq!(got.message_id, 3);
    assert_eq!(got.author_user_id, 42);
    assert_eq!(got.content, "hello");
    assert_eq!(got.attachment_summary, None);
}

#[test]
fn upsert_overwrites() {
    let mut store = SnapshotStore::new();
    store.upsert_message_snapshot(snap(1, 2, 3, "one")).unwrap();
    store.upsert_message_snapshot(snap(1, 2, 3, "two")).unwrap();
    let got = store.get_message_snapshot(1, 2, 3).unwrap().unwrap();
    assert_eq!(got.content, "two");
}

#[test]
fn get_after_delete_absent() {
    let mut store = SnapshotStore::new();
    store.upsert_message_snapshot(snap(1, 2, 3, "one")).unwrap();
    store.upsert_message_snapshot(snap(1, 2, 3, "two")).unwrap();
    store.delete_message_snapshot(1, 2, 3).unwrap();
    assert!(store.get_message_snapshot(1, 2, 3).unwrap().is_none());
}

#[test]
fn delete_message_snapshot_idempotent() {
    let mut store = SnapshotStore::new();
    store.upsert_message_snapshot(snap(1, 2, 3, "x")).unwrap();
    assert!(store.delete_message_snapshot(1, 2, 3).is_ok());
    assert!(store.delete_message_snapshot(1, 2, 3).is_ok());
    assert!(store.get_message_snapshot(1, 2, 3).unwrap().is_none());
}

#[test]
fn snapshot_id_out_of_range_rejected() {
    let mut store = SnapshotStore::new();
    let big = u64::MAX;
    assert_eq!(
        store.upsert_message_snapshot(snap(big, 2, 3, "x")),
        Err(StoreError::ValueOutOfRange)
    );
    assert_eq!(
        store.get_message_snapshot(1, big, 3).unwrap_err(),
        StoreError::ValueOutOfRange
    );
    assert_eq!(
        store.delete_message_snapshot(1, 2, big),
        Err(StoreError::ValueOutOfRange)
    );
}

#[test]
fn activity_query_orders_newest_first() {
    let mut log = ActivityLog::new();
    log.insert_user_log(log_entry(1, "message_edit", 5, 100)).unwrap();
    log.insert_user_log(log_entry(1, "message_delete", 5, 300)).unwrap();
    log.insert_user_log(log_entry(1, "message_edit", 6, 200)).unwrap();
    let rows = log
        .list_recent_user_logs(
            1,
            UserLogFilters { author_user_id: None, event_type: None, limit: 10 },
        )
        .unwrap();
    assert_eq!(rows.len(), 3);
    assert_eq!(rows[0].created_at, 300);
    assert_eq!(rows[1].created_at, 200);
    assert_eq!(rows[2].created_at, 100);
}

#[test]
fn activity_query_filters_author_and_event() {
    let mut log = ActivityLog::new();
    log.insert_user_log(log_entry(1, "message_edit", 5, 100)).unwrap();
    log.insert_user_log(log_entry(1, "message_delete", 5, 200)).unwrap();
    log.insert_user_log(log_entry(1, "message_edit", 6, 300)).unwrap();
    log.insert_user_log(log_entry(2, "message_edit", 5, 400)).unwrap();

    let by_author = log
        .list_recent_user_logs(
            1,
            UserLogFilters { author_user_id: Some(5), event_type: None, limit: 10 },
        )
        .unwrap();
    assert_eq!(by_author.len(), 2);
    assert!(by_author.iter().all(|e| e.author_user_id == Some(5)));

    // The event filter compares ASCII case-insensitively.
    let by_event = log
        .list_recent_user_logs(
            1,
            UserLogFilters {
                author_user_id: None,
                event_type: Some("MESSAGE_EDIT".to_owned()),
                limit: 10,
            },
        )
        .unwrap();
    assert_eq!(by_event.len(), 2);
    assert!(by_event.iter().all(|e| e.event_type == "message_edit"));
}

#[test]
fn activity_query_clamps_limit() {
    let mut log = ActivityLog::new();
    for i in 0..205u64 {
        log.insert_user_log(log_entry(1, "message_edit", 5, i)).unwrap();
    }
    let capped = log
        .list_recent_user_logs(
            1,
            UserLogFilters { author_user_id: None, event_type: None, limit: 5000 },
        )
        .unwrap();
    assert_eq!(capped.len(), 200);
    // The most recent entries survive the cut.
    assert_eq!(capped[0].created_at, 204);
    assert_eq!(capped[199].created_at, 5);

    let at_least_one = log
        .list_recent_user_logs(
            1,
            UserLogFilters { author_user_id: None, event_type: None, limit: 0 },
        )
        .unwrap();
    assert_eq!(at_least_one.len(), 1);
    assert_eq!(at_least_one[0].created_at, 204);
}

#[test]
fn activity_insert_id_out_of_range_rejected() {
    let mut log = ActivityLog::new();
    let mut entry = log_entry(1, "message_edit", 5, 100);
    entry.message_id = Some(u64::MAX);
    assert_eq!(log.insert_user_log(entry), Err(StoreError::ValueOutOfRange));
    let r = log.list_recent_user_logs(
        u64::MAX,
        UserLogFilters { author_user_id: None, event_type: None, limit: 10 },
    );
    assert_eq!(r.unwrap_err(), StoreError::ValueOutOfRange);
}
