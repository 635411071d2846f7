//! Event pipeline: feeds observed message states through the diff classifier
//! into the activity log, and deletions through the attributor.
//!
//! Every observation establishes or refreshes the snapshot baseline; a
//! classified change (never a no-op, never a first observation) appends one
//! activity event. A deletion appends a `message_delete` event — using the
//! last snapshot as the before-state when one exists — attributes it, and
//! removes the snapshot. An observation processed after the deletion finds no
//! snapshot and degenerates to establishing a fresh baseline, so no event is
//! diffed against ghost state. Deletions listed in the caller's short-lived
//! ignore set (self-inflicted removals) are not logged.

use vstd::prelude::*;

use crate::activity::{ActivityLog, LogData, NewUserLog};
use crate::attribution::{first_matching_actor, attribute_deletion, AuditLogEntry};
use crate::cache::sat_add;
use crate::classify::{classify_spec, classify_update, event_kind_label, EventKind};
use crate::error::StoreError;
use crate::ids::{check_id_in_range, id_in_range};
use crate::snapshot::{MessageSnapshot, NewMessageSnapshot, SnapshotData, SnapshotStore};
use crate::text::opt_view;

verus! {

/// One observed message state, as delivered by the platform.
pub struct Observation {
    pub guild_id: u64,
    pub channel_id: u64,
    pub message_id: u64,
    pub author_user_id: u64,
    pub content: String,
    pub attachment_summary: Option<String>,
    pub observed_at: u64,
}

impl Observation {
    /// Whether every identifier fits the storage layer.
    pub open spec fn ids_ok(&self) -> bool {
        id_in_range(self.guild_id) && id_in_range(self.channel_id) && id_in_range(self.message_id)
            && id_in_range(self.author_user_id) && id_in_range(self.observed_at)
    }

    /// The snapshot this observation establishes.
    pub open spec fn snapshot_data(&self) -> SnapshotData {
        SnapshotData {
            author_user_id: self.author_user_id,
            content: self.content@,
            attachment_summary: opt_view(self.attachment_summary),
            updated_at: self.observed_at,
        }
    }
}

/// The label text of an event kind.
pub open spec fn event_kind_text(kind: EventKind) -> Seq<char> {
    match kind {
        EventKind::MessageEdit => "message_edit"@,
        EventKind::AttachmentDelete => "attachment_delete"@,
        EventKind::MessageDelete => "message_delete"@,
    }
}

/// What the classifier decides for an observation against the stored
/// snapshot, if any.
pub open spec fn observation_kind(prev: Option<SnapshotData>, obs: Observation) -> Option<
    EventKind,
> {
    match prev {
        Some(p) => classify_spec(
            p.content,
            p.attachment_summary,
            obs.content@,
            opt_view(obs.attachment_summary),
        ),
        None => None,
    }
}

/// The activity event recorded for a classified observation.
pub open spec fn observation_event(prev: SnapshotData, obs: Observation, kind: EventKind) -> LogData {
    LogData {
        guild_id: obs.guild_id,
        channel_id: obs.channel_id,
        message_id: Some(obs.message_id),
        author_user_id: Some(obs.author_user_id),
        event_type: event_kind_text(kind),
        before_content: Some(prev.content),
        after_content: Some(obs.content@),
        attachment_summary: opt_view(obs.attachment_summary),
        created_at: obs.observed_at,
    }
}

/// Feed one observed message state through the classifier.
///
/// The change against the stored snapshot (if one exists) is classified; a
/// classified change appends exactly one activity event, a no-op or a first
/// observation appends none. Either way the snapshot is replaced by the
/// observed state, so the observation is the new baseline. Fails with
/// `ValueOutOfRange`, changing nothing, exactly when an identifier exceeds
/// the storage layer's range; the returned kind is the classification.
pub fn record_observation(
    snapshots: &mut SnapshotStore,
    log: &mut ActivityLog,
    obs: Observation,
) -> (r: Result<Option<EventKind>, StoreError>)
    requires
        old(snapshots).wf(),
    ensures
        final(snapshots).wf(),
        ({
            let key = (obs.guild_id, obs.channel_id, obs.message_id);
            let prev = if old(snapshots)@.contains_key(key) {
                Some(old(snapshots)@[key])
            } else {
                None
            };
            let kind = observation_kind(prev, obs);
            if obs.ids_ok() {
                &&& r == Ok::<Option<EventKind>, StoreError>(kind)
                &&& final(snapshots)@ == old(snapshots)@.insert(key, obs.snapshot_data())
                &&& final(log)@ == (match kind {
                    Some(k) => old(log)@.push(observation_event(prev->Some_0, obs, k)),
                    None => old(log)@,
                })
            } else {
                &&& r == Err::<Option<EventKind>, StoreError>(StoreError::ValueOutOfRange)
                &&& final(snapshots)@ == old(snapshots)@
                &&& final(log)@ == old(log)@
            }
        }),
{
    if !(check_id_in_range(obs.guild_id) && check_id_in_range(obs.channel_id) && check_id_in_range(
        obs.message_id,
    ) && check_id_in_range(obs.author_user_id) && check_id_in_range(obs.observed_at)) {
        return Err(StoreError::ValueOutOfRange);
    }

    let previous = match snapshots.get_message_snapshot(
        obs.guild_id,
        obs.channel_id,
        obs.message_id,
    ) {
        Ok(p) => p,
        Err(e) => {
            return Err(e);
        },
    };
    let kind = classify_update(&previous, obs.content.as_str(), &obs.attachment_summary);

    if let Some(k) = kind {
        let prev_snapshot = match previous {
            Some(p) => p,
            None => {
                // A change is only ever classified against a previous
                // snapshot.
                return Err(StoreError::MalformedRecord);
            },
        };
        let entry = NewUserLog {
            guild_id: obs.guild_id,
            channel_id: obs.channel_id,
            message_id: Some(obs.message_id),
            author_user_id: Some(obs.author_user_id),
            event_type: event_kind_label(k).to_owned(),
            before_content: Some(prev_snapshot.content),
            after_content: Some(obs.content.clone()),
            attachment_summary: clone_opt(&obs.attachment_summary),
            created_at: obs.observed_at,
        };
        match log.insert_user_log(entry) {
            Ok(()) => (),
            Err(e) => {
                return Err(e);
            },
        }
    }

    let upsert = NewMessageSnapshot {
        guild_id: obs.guild_id,
        channel_id: obs.channel_id,
        message_id: obs.message_id,
        author_user_id: obs.author_user_id,
        content: obs.content,
        attachment_summary: obs.attachment_summary,
        updated_at: obs.observed_at,
    };
    match snapshots.upsert_message_snapshot(upsert) {
        Ok(()) => (),
        Err(e) => {
            return Err(e);
        },
    }
    Ok(kind)
}

fn clone_opt(a: &Option<String>) -> (r: Option<String>)
    ensures
        opt_view(r) == opt_view(*a),
{
    match a {
        Some(s) => Some(s.clone()),
        None => None,
    }
}

/// Short-lived set of message identifiers whose deletions are self-inflicted
/// and must not be logged. Entries expire `ttl_seconds` after insertion.
pub struct IgnoreSet {
    entries: Vec<(u64, u64)>,
    ttl_seconds: u64,
}

/// Whether `message_id` is suppressed at `now`: some entry for it was
/// inserted within the last `ttl_seconds`.
pub open spec fn suppressed(
    entries: Seq<(u64, u64)>,
    ttl_seconds: u64,
    message_id: u64,
    now: u64,
) -> bool {
    exists|i: int|
        0 <= i < entries.len() && (#[trigger] entries[i]).0 == message_id && now <= sat_add(
            entries[i].1,
            ttl_seconds,
        )
}

impl View for IgnoreSet {
    type V = Seq<(u64, u64)>;

    closed spec fn view(&self) -> Seq<(u64, u64)> {
        self.entries@
    }
}

impl IgnoreSet {
    /// How long an inserted entry suppresses logging.
    pub closed spec fn ttl(&self) -> u64 {
        self.ttl_seconds
    }

    /// An empty set whose entries will expire `ttl_seconds` after insertion.
    pub fn new(ttl_seconds: u64) -> (r: IgnoreSet)
        ensures
            r@ == Seq::<(u64, u64)>::empty(),
            r.ttl() == ttl_seconds,
    {
        IgnoreSet { entries: Vec::new(), ttl_seconds }
    }

    /// Suppress logging of `message_id` deletions until the TTL elapses.
    pub fn insert(&mut self, message_id: u64, now: u64)
        ensures
            final(self)@ == old(self)@.push((message_id, now)),
            final(self).ttl() == old(self).ttl(),
    {
        self.entries.push((message_id, now));
    }

    /// Whether a deletion of `message_id` is currently suppressed.
    pub fn is_suppressed(&self, message_id: u64, now: u64) -> (r: bool)
        ensures
            r == suppressed(self@, self.ttl(), message_id, now),
    {
        let mut i: usize = 0;
        while i < self.entries.len()
            invariant
                i <= self.entries@.len(),
                forall|j: int|
                    0 <= j < i ==> !((#[trigger] self.entries@[j]).0 == message_id && now
                        <= sat_add(self.entries@[j].1, self.ttl_seconds)),
            decreases self.entries@.len() - i,
        {
            let (id, inserted_at) = self.entries[i];
            if id == message_id {
                let deadline = if self.ttl_seconds > u64::MAX - inserted_at {
                    u64::MAX
                } else {
                    inserted_at + self.ttl_seconds
                };
                if now <= deadline {
                    return true;
                }
            }
            i = i + 1;
        }
        false
    }

    /// Drop the entries whose TTL has elapsed at `now`.
    pub fn prune(&mut self, now: u64)
        ensures
            final(self)@ == old(self)@.filter(
                |e: (u64, u64)| now <= sat_add(e.1, old(self).ttl()),
            ),
            final(self).ttl() == old(self).ttl(),
    {
        let ghost pred = |e: (u64, u64)| now <= sat_add(e.1, self.ttl_seconds);
        let mut kept: Vec<(u64, u64)> = Vec::new();
        let mut i: usize = 0;
        while i < self.entries.len()
            invariant
                i <= self.entries@.len(),
                pred == (|e: (u64, u64)| now <= sat_add(e.1, self.ttl_seconds)),
                kept@ =~= self.entries@.take(i as int).filter(pred),
            decreases self.entries@.len() - i,
        {
            let (id, inserted_at) = self.entries[i];
            let deadline = if self.ttl_seconds > u64::MAX - inserted_at {
                u64::MAX
            } else {
                inserted_at + self.ttl_seconds
            };
            proof {
                let t1 = self.entries@.take(i + 1);
                assert(t1.drop_last() =~= self.entries@.take(i as int));
                assert(t1.last() == self.entries@[i as int]);
                reveal_with_fuel(Seq::<(u64, u64)>::filter, 2);
            }
            if now <= deadline {
                kept.push((id, inserted_at));
            }
            i = i + 1;
        }
        proof {
            assert(self.entries@.take(self.entries@.len() as int) =~= self.entries@);
        }
        self.entries = kept;
    }
}

/// What a deletion records and reports for publication.
pub struct DeletionRecord {
    /// Author of the deleted message, when a snapshot existed.
    pub author_user_id: Option<u64>,
    /// Best-effort attribution of the deletion, when a snapshot existed.
    pub deleted_by_user_id: Option<u64>,
    /// Last stored text of the deleted message.
    pub before_content: Option<String>,
    /// Last stored attachment summary of the deleted message.
    pub attachment_summary: Option<String>,
}

/// The activity event recorded for a deletion: the last snapshot, when one
/// exists, supplies the before-state.
pub open spec fn deletion_event(
    prev: Option<SnapshotData>,
    guild_id: u64,
    channel_id: u64,
    message_id: u64,
    now: u64,
) -> LogData {
    LogData {
        guild_id: guild_id,
        channel_id: channel_id,
        message_id: Some(message_id),
        author_user_id: match prev {
            Some(p) => Some(p.author_user_id),
            None => None,
        },
        event_type: "message_delete"@,
        before_content: match prev {
            Some(p) => Some(p.content),
            None => None,
        },
        after_content: None,
        attachment_summary: match prev {
            Some(p) => p.attachment_summary,
            None => None,
        },
        created_at: now,
    }
}

/// Who a recorded deletion is attributed to: the most recent matching audit
/// actor, else the message's own author — known only when a snapshot existed.
pub open spec fn deletion_attribution(
    prev: Option<SnapshotData>,
    audit_entries: Seq<AuditLogEntry>,
    channel_id: u64,
    message_created_at: i64,
) -> Option<u64> {
    match prev {
        Some(p) => Some(
            match first_matching_actor(
                audit_entries,
                channel_id,
                p.author_user_id,
                message_created_at,
            ) {
                Some(actor) => actor,
                None => p.author_user_id,
            },
        ),
        None => None,
    }
}

/// Record the deletion of a message.
///
/// Unless the deletion is suppressed by the ignore set, exactly one
/// `message_delete` event is appended — carrying the last snapshot as its
/// before-state when one exists — and the deletion is attributed against the
/// given audit entries, falling back to the author. The snapshot is removed
/// either way, so deletion is idempotent and a later observation starts a
/// fresh baseline. Fails with `ValueOutOfRange`, changing nothing, exactly
/// when an identifier exceeds the storage layer's range. Returns `None` when
/// the deletion was suppressed, `Some` with what was recorded otherwise.
pub fn record_deletion(
    snapshots: &mut SnapshotStore,
    log: &mut ActivityLog,
    ignores: &IgnoreSet,
    guild_id: u64,
    channel_id: u64,
    message_id: u64,
    audit_entries: &Vec<AuditLogEntry>,
    message_created_at: i64,
    now: u64,
) -> (r: Result<Option<DeletionRecord>, StoreError>)
    requires
        old(snapshots).wf(),
    ensures
        final(snapshots).wf(),
        ({
            let key = (guild_id, channel_id, message_id);
            let prev = if old(snapshots)@.contains_key(key) {
                Some(old(snapshots)@[key])
            } else {
                None
            };
            let ids_ok = id_in_range(guild_id) && id_in_range(channel_id) && id_in_range(
                message_id,
            ) && id_in_range(now);
            if ids_ok {
                &&& final(snapshots)@ == old(snapshots)@.remove(key)
                &&& (if suppressed(ignores@, ignores.ttl(), message_id, now) {
                    r == Ok::<Option<DeletionRecord>, StoreError>(None) && final(log)@ == old(
                        log,
                    )@
                } else {
                    &&& final(log)@ == old(log)@.push(
                        deletion_event(prev, guild_id, channel_id, message_id, now),
                    )
                    &&& (match r {
                        Ok(Some(rec)) => {
                            &&& rec.author_user_id == (match prev {
                                Some(p) => Some(p.author_user_id),
                                None => None::<u64>,
                            })
                            &&& rec.deleted_by_user_id == deletion_attribution(
                                prev,
                                audit_entries@,
                                channel_id,
                                message_created_at,
                            )
                            &&& opt_view(rec.before_content) == (match prev {
                                Some(p) => Some(p.content),
                                None => None::<Seq<char>>,
                            })
                            &&& opt_view(rec.attachment_summary) == (match prev {
                                Some(p) => p.attachment_summary,
                                None => None::<Seq<char>>,
                            })
                        },
                        _ => false,
                    })
                })
            } else {
                &&& r == Err::<Option<DeletionRecord>, StoreError>(StoreError::ValueOutOfRange)
                &&& final(snapshots)@ == old(snapshots)@
                &&& final(log)@ == old(log)@
            }
        }),
{
    if !(check_id_in_range(guild_id) && check_id_in_range(channel_id) && check_id_in_range(
        message_id,
    ) && check_id_in_range(now)) {
        return Err(StoreError::ValueOutOfRange);
    }

    if ignores.is_suppressed(message_id, now) {
        match snapshots.delete_message_snapshot(guild_id, channel_id, message_id) {
            Ok(()) => (),
            Err(e) => {
                return Err(e);
            },
        }
        return Ok(None);
    }

    let previous = match snapshots.get_message_snapshot(guild_id, channel_id, message_id) {
        Ok(p) => p,
        Err(e) => {
            return Err(e);
        },
    };

    let record = match &previous {
        Some(p) => {
            let deleted_by = attribute_deletion(
                audit_entries,
                channel_id,
                p.author_user_id,
                message_created_at,
            );
            DeletionRecord {
                author_user_id: Some(p.author_user_id),
                deleted_by_user_id: Some(deleted_by),
                before_content: Some(p.content.clone()),
                attachment_summary: clone_opt(&p.attachment_summary),
            }
        },
        None => DeletionRecord {
            author_user_id: None,
            deleted_by_user_id: None,
            before_content: None,
            attachment_summary: None,
        },
    };

    let entry = NewUserLog {
        guild_id,
        channel_id,
        message_id: Some(message_id),
        author_user_id: match &previous {
            Some(p) => Some(p.author_user_id),
            None => None,
        },
        event_type: String::from_str("message_delete"),
        before_content: match previous {
            Some(p) => Some(p.content),
            None => None,
        },
        after_content: None,
        attachment_summary: clone_opt(&record.attachment_summary),
        created_at: now,
    };
    match log.insert_user_log(entry) {
        Ok(()) => (),
        Err(e) => {
            return Err(e);
        },
    }

    match snapshots.delete_message_snapshot(guild_id, channel_id, message_id) {
        Ok(()) => (),
        Err(e) => {
            return Err(e);
        },
    }
    Ok(Some(record))
}

} // verus!
