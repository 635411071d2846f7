//! Deletion attributor: guesses which actor deleted a message by
//! time-correlation against the platform's audit trail.
//!
//! An audit entry is accepted as the match only if its channel equals the
//! deleted message's channel, its target equals the snapshot's author, and
//! its timestamp lies within a bounded window of the message's creation
//! timestamp. Entries are assumed ordered newest first, so the first match is
//! the most recent one. Without a match, attribution falls back to the
//! message's own author: a display aid and an explicit policy choice, not a
//! guarantee — an actor whose deletion left no correlatable entry is
//! misattributed, non-fatally.

use vstd::prelude::*;

verus! {

/// Half-width, in seconds, of the correlation window around the message's
/// creation timestamp.
pub const ATTRIBUTION_WINDOW_SECS: i64 = 20;

/// How many of the most recent deletion audit entries are fetched and
/// scanned.
pub const AUDIT_FETCH_LIMIT: u8 = 25;

/// One entry of the platform's audit trail, newest first in a fetched list.
#[derive(Clone, Copy, Debug, PartialEq, Eq, Structural)]
pub struct AuditLogEntry {
    /// Who performed the audited action.
    pub actor_user_id: u64,
    /// Whom the action was aimed at, if recorded.
    pub target_user_id: Option<u64>,
    /// Where it happened, if recorded.
    pub channel_id: Option<u64>,
    /// When the entry was created, in unix seconds.
    pub created_at: i64,
}

/// Whether an audit entry is accepted as the record of the deletion: same
/// channel, target equal to the message author, timestamp within the window
/// around the message's creation time.
pub open spec fn audit_entry_matches(
    e: AuditLogEntry,
    channel_id: u64,
    target_author_user_id: u64,
    message_created_at: i64,
) -> bool {
    &&& e.channel_id == Some(channel_id)
    &&& e.target_user_id == Some(target_author_user_id)
    &&& -(ATTRIBUTION_WINDOW_SECS as int) <= e.created_at - message_created_at
        <= ATTRIBUTION_WINDOW_SECS as int
}

/// The actor of the first (most recent) matching entry, if any.
pub open spec fn first_matching_actor(
    entries: Seq<AuditLogEntry>,
    channel_id: u64,
    target_author_user_id: u64,
    message_created_at: i64,
) -> Option<u64>
    decreases entries.len(),
{
    if entries.len() == 0 {
        None
    } else if audit_entry_matches(entries[0], channel_id, target_author_user_id,
    message_created_at) {
        Some(entries[0].actor_user_id)
    } else {
        first_matching_actor(
            entries.drop_first(),
            channel_id,
            target_author_user_id,
            message_created_at,
        )
    }
}

proof fn lemma_first_matching_skip(
    entries: Seq<AuditLogEntry>,
    channel_id: u64,
    target_author_user_id: u64,
    message_created_at: i64,
    i: int,
)
    requires
        0 <= i <= entries.len(),
        forall|j: int|
            0 <= j < i ==> !audit_entry_matches(
                #[trigger] entries[j],
                channel_id,
                target_author_user_id,
                message_created_at,
            ),
    ensures
        first_matching_actor(entries, channel_id, target_author_user_id, message_created_at)
            == first_matching_actor(
            entries.skip(i),
            channel_id,
            target_author_user_id,
            message_created_at,
        ),
    decreases i,
{
    if i > 0 {
        assert(entries.skip(0) =~= entries);
        lemma_first_matching_skip(
            entries.drop_first(),
            channel_id,
            target_author_user_id,
            message_created_at,
            i - 1,
        );
        assert(entries.drop_first().skip(i - 1) =~= entries.skip(i));
    } else {
        assert(entries.skip(0) =~= entries);
    }
}

/// Scan the fetched audit entries, newest first, for the one that records
/// the deletion, and return its actor.
///
/// Returns the actor of the first entry whose channel, target and timestamp
/// all match, and `None` exactly when no entry matches.
pub fn resolve_deleted_by_user_id(
    entries: &Vec<AuditLogEntry>,
    channel_id: u64,
    target_author_user_id: u64,
    message_created_at: i64,
) -> (r: Option<u64>)
    ensures
        r == first_matching_actor(
            entries@,
            channel_id,
            target_author_user_id,
            message_created_at,
        ),
{
    let mut i: usize = 0;
    while i < entries.len()
        invariant
            i <= entries@.len(),
            forall|j: int|
                0 <= j < i ==> !audit_entry_matches(
                    #[trigger] entries@[j],
                    channel_id,
                    target_author_user_id,
                    message_created_at,
                ),
        decreases entries@.len() - i,
    {
        let e = entries[i];
        let same_channel = match e.channel_id {
            Some(c) => c == channel_id,
            None => false,
        };
        let same_target = match e.target_user_id {
            Some(t) => t == target_author_user_id,
            None => false,
        };
        if same_channel && same_target {
            let diff: i128 = e.created_at as i128 - message_created_at as i128;
            if -(ATTRIBUTION_WINDOW_SECS as i128) <= diff && diff <= ATTRIBUTION_WINDOW_SECS
                as i128 {
                proof {
                    lemma_first_matching_skip(
                        entries@,
                        channel_id,
                        target_author_user_id,
                        message_created_at,
                        i as int,
                    );
                    assert(entries@.skip(i as int)[0] == entries@[i as int]);
                }
                return Some(e.actor_user_id);
            }
        }
        i = i + 1;
    }
    proof {
        lemma_first_matching_skip(
            entries@,
            channel_id,
            target_author_user_id,
            message_created_at,
            i as int,
        );
        assert(entries@.skip(i as int) =~= Seq::<AuditLogEntry>::empty());
    }
    None
}

/// Attribute a deletion: the first matching audit actor, or the message's
/// own author when no audit entry matches (self-deletion assumption).
pub fn attribute_deletion(
    entries: &Vec<AuditLogEntry>,
    channel_id: u64,
    author_user_id: u64,
    message_created_at: i64,
) -> (r: u64)
    ensures
        r == (match first_matching_actor(
            entries@,
            channel_id,
            author_user_id,
            message_created_at,
        ) {
            Some(actor) => actor,
            None => author_user_id,
        }),
{
    match resolve_deleted_by_user_id(entries, channel_id, author_user_id, message_created_at) {
        Some(actor) => actor,
        None => author_user_id,
    }
}

} // verus!
