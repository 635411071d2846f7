use guild_audit::activity::{ActivityLog, UserLogFilters};
use guild_audit::attribution::{
    attribute_deletion, resolve_deleted_by_user_id, AuditLogEntry,
};
use guild_audit::classify::{classify_update, EventKind};
use guild_audit::pipeline::{record_deletion, record_observation, IgnoreSet, Observation};
use guild_audit::snapshot::{MessageSnapshot, SnapshotStore};

fn observation(content: &str, attachments: Option<&str>, at: u64) -> Observation {
    Observation {
        guild_id: 1,
        channel_id: 2,
        message_id: 3,
        author_user_id: 42,
        content: content.to_owned(),
        attachment_summary: attachments.map(|s| s.to_owned()),
        observed_at: at,
    }
}

fn previous(content: &str, attachments: Option<&str>) -> Option<MessageSnapshot> {
    Some(MessageSnapshot {
        channel_id: 2,
        message_id: 3,
        author_user_id: 42,
        content: content.to_owned(),
        attachment_summary: attachments.map(|s| s.to_owned()),
    })
}

fn audit(actor: u64, target: Option<u64>, channel: Option<u64>, at: i64) -> AuditLogEntry {
    AuditLogEntry {
        actor_user_id: actor,
        target_user_id: target,
        channel_id: channel,
        created_at: at,
    }
}

#[test]
fn classify_no_change_is_noop() {
    let prev = previous("a", None);
    assert_eq!(classify_update(&prev, "a", &None), None);
}

#[test]
fn classify_content_change_is_edit() {
    let prev = previous("a", None);
    assert_eq!(classify_update(&prev, "b", &None), Some(EventKind::MessageEdit));
}

#[test]
fn classify_attachment_only_change_is_attachment_delete() {
    let prev = previous("a", Some("x.png (http://u/x.png)"));
    assert_eq!(
        classify_update(&prev, "a", &None),
        Some(EventKind::AttachmentDelete)
    );
}

#[test]
fn classify_both_changed_is_edit() {
    let prev = previous("a", Some("x.png (http://u/x.png)"));
    assert_eq!(classify_update(&prev, "b", &None), Some(EventKind::MessageEdit));
}

#[test]
fn classify_without_snapshot_is_baseline() {
    assert_eq!(classify_update(&None, "anything", &None), None);
}

#[test]
fn attributor_matches_channel_target_and_window() {
    let entries = vec![
        audit(900, Some(42), Some(2), 115),
        audit(901, Some(42), Some(2), 110),
    ];
    // The first (most recent) matching entry wins.
    assert_eq!(resolve_deleted_by_user_id(&entries, 2, 42, 100), Some(900));
    assert_eq!(attribute_deletion(&entries, 2, 42, 100), 900);
}

#[test]
fn attributor_falls_back_to_author() {
    let outside_window = vec![audit(900, Some(42), Some(2), 121)];
    assert_eq!(resolve_deleted_by_user_id(&outside_window, 2, 42, 100), None);
    assert_eq!(attribute_deletion(&outside_window, 2, 42, 100), 42);

    let wrong_channel = vec![audit(900, Some(42), Some(9), 110)];
    assert_eq!(attribute_deletion(&wrong_channel, 2, 42, 100), 42);

    let wrong_target = vec![audit(900, Some(77), Some(2), 110)];
    assert_eq!(attribute_deletion(&wrong_target, 2, 42, 100), 42);

    let no_entries: Vec<AuditLogEntry> = Vec::new();
    assert_eq!(attribute_deletion(&no_entries, 2, 42, 100), 42);
}

#[test]
fn attributor_window_is_symmetric() {
    // 20 seconds before the message timestamp still matches.
    let entries = vec![audit(900, Some(42), Some(2), 80)];
    assert_eq!(resolve_deleted_by_user_id(&entries, 2, 42, 100), Some(900));
    let too_early = vec![audit(900, Some(42), Some(2), 79)];
    assert_eq!(resolve_deleted_by_user_id(&too_early, 2, 42, 100), None);
}

#[test]
fn observation_pipeline_classifies_and_logs() {
    let mut snapshots = SnapshotStore::new();
    let mut log = ActivityLog::new();

    // First observation: baseline only, no event.
    let first = record_observation(&mut snapshots, &mut log, observation("a", None, 100));
    assert_eq!(first.unwrap(), None);

    // No-op observation: no event.
    let noop = record_observation(&mut snapshots, &mut log, observation("a", None, 110));
    assert_eq!(noop.unwrap(), None);

    // Edit: one event with before and after.
    let edit = record_observation(&mut snapshots, &mut log, observation("b", None, 120));
    assert_eq!(edit.unwrap(), Some(EventKind::MessageEdit));

    let rows = log
        .list_recent_user_logs(
            1,
            UserLogFilters { author_user_id: None, event_type: None, limit: 10 },
        )
        .unwrap();
    assert_eq!(rows.len(), 1);
    assert_eq!(rows[0].event_type, "message_edit");
    assert_eq!(rows[0].before_content.as_deref(), Some("a"));
    assert_eq!(rows[0].after_content.as_deref(), Some("b"));
    assert_eq!(rows[0].author_user_id, Some(42));
    assert_eq!(rows[0].created_at, 120);
}

#[test]
fn recreated_message_starts_fresh_baseline() {
    let mut snapshots = SnapshotStore::new();
    let mut log = ActivityLog::new();
    let ignores = IgnoreSet::new(5);
    let no_audit: Vec<AuditLogEntry> = Vec::new();

    record_observation(&mut snapshots, &mut log, observation("a", None, 100)).unwrap();
    record_observation(&mut snapshots, &mut log, observation("b", None, 110)).unwrap();
    record_deletion(
        &mut snapshots, &mut log, &ignores, 1, 2, 3, &no_audit, 100, 120,
    )
    .unwrap();
    assert!(snapshots.get_message_snapshot(1, 2, 3).unwrap().is_none());

    // The recreated message's first observation is a baseline, not an edit
    // against ghost state.
    let fresh = record_observation(&mut snapshots, &mut log, observation("zzz", None, 130));
    assert_eq!(fresh.unwrap(), None);
}

#[test]
fn deletion_pipeline_logs_and_attributes() {
    let mut snapshots = SnapshotStore::new();
    let mut log = ActivityLog::new();
    let ignores = IgnoreSet::new(5);
    let entries = vec![audit(900, Some(42), Some(2), 110)];

    record_observation(&mut snapshots, &mut log, observation("bye", None, 100)).unwrap();
    let rec = record_deletion(
        &mut snapshots, &mut log, &ignores, 1, 2, 3, &entries, 100, 130,
    )
    .unwrap()
    .unwrap();
    assert_eq!(rec.author_user_id, Some(42));
    assert_eq!(rec.deleted_by_user_id, Some(900));
    assert_eq!(rec.before_content.as_deref(), Some("bye"));

    let rows = log
        .list_recent_user_logs(
            1,
            UserLogFilters {
                author_user_id: None,
                event_type: Some("message_delete".to_owned()),
                limit: 10,
            },
        )
        .unwrap();
    assert_eq!(rows.len(), 1);
    assert_eq!(rows[0].before_content.as_deref(), Some("bye"));
    assert_eq!(rows[0].after_content, None);
    assert!(snapshots.get_message_snapshot(1, 2, 3).unwrap().is_none());
}

#[test]
fn deletion_without_snapshot_still_logged() {
    let mut snapshots = SnapshotStore::new();
    let mut log = ActivityLog::new();
    let ignores = IgnoreSet::new(5);
    let no_audit: Vec<AuditLogEntry> = Vec::new();

    let rec = record_deletion(
        &mut snapshots, &mut log, &ignores, 1, 2, 3, &no_audit, 100, 130,
    )
    .unwrap()
    .unwrap();
    assert_eq!(rec.author_user_id, None);
    assert_eq!(rec.deleted_by_user_id, None);
    assert_eq!(rec.before_content, None);

    let rows = log
        .list_recent_user_logs(
            1,
            UserLogFilters { author_user_id: None, event_type: None, limit: 10 },
        )
        .unwrap();
    assert_eq!(rows.len(), 1);
    assert_eq!(rows[0].event_type, "message_delete");
    assert_eq!(rows[0].before_content, None);
}

#[test]
fn suppressed_deletion_not_logged() {
    let mut snapshots = SnapshotStore::new();
    let mut log = ActivityLog::new();
    let mut ignores = IgnoreSet::new(5);
    let no_audit: Vec<AuditLogEntry> = Vec::new();

    record_observation(&mut snapshots, &mut log, observation("x", None, 100)).unwrap();
    ignores.insert(3, 118);
    let rec = record_deletion(
        &mut snapshots, &mut log, &ignores, 1, 2, 3, &no_audit, 100, 120,
    )
    .unwrap();
    assert!(rec.is_none());
    // The snapshot is gone all the same, but nothing was logged.
    assert!(snapshots.get_message_snapshot(1, 2, 3).unwrap().is_none());
    let rows = log
        .list_recent_user_logs(
            1,
            UserLogFilters { author_user_id: None, event_type: None, limit: 10 },
        )
        .unwrap();
    assert!(rows.is_empty());
}

#[test]
fn ignore_set_entries_expire() {
    let mut ignores = IgnoreSet::new(5);
    ignores.insert(3, 100);
    assert!(ignores.is_suppressed(3, 100));
    assert!(ignores.is_suppressed(3, 105));
    assert!(!ignores.is_suppressed(3, 106));
    assert!(!ignores.is_suppressed(4, 100));
    ignores.prune(106);
    assert!(!ignores.is_suppressed(3, 100));
}
