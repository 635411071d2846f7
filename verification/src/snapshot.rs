//! Snapshot store: the last-known state of every tracked message.
//!
//! The store is a keyed record collection with at most one snapshot per
//! message identity `(guild_id, channel_id, message_id)`. `upsert` replaces
//! whatever was stored for the identity, `get` reads it back, and `delete` is
//! idempotent. Identifiers are validated against the storage layer's signed
//! 64-bit range before every operation.

use vstd::prelude::*;

use crate::assoc::{
    assoc_keys_unique,
    assoc_map,
    lemma_assoc_map_domain,
    lemma_assoc_map_index,
    lemma_assoc_map_remove,
    lemma_assoc_map_update,
};
use crate::error::StoreError;
use crate::ids::{check_id_in_range, id_in_range};
use crate::text::opt_view;

verus! {

/// Last-observed state of a message, as read back from the store.
#[derive(Clone, Debug)]
pub struct MessageSnapshot {
    pub channel_id: u64,
    pub message_id: u64,
    pub author_user_id: u64,
    pub content: String,
    pub attachment_summary: Option<String>,
}

/// A snapshot to be written: the full observed state of one message.
#[derive(Clone, Debug)]
pub struct NewMessageSnapshot {
    pub guild_id: u64,
    pub channel_id: u64,
    pub message_id: u64,
    pub author_user_id: u64,
    pub content: String,
    pub attachment_summary: Option<String>,
    pub updated_at: u64,
}

/// Mathematical value of one stored snapshot.
pub ghost struct SnapshotData {
    pub author_user_id: u64,
    pub content: Seq<char>,
    pub attachment_summary: Option<Seq<char>>,
    pub updated_at: u64,
}

/// Message identity: (guild, channel, message).
pub type SnapshotKey = (u64, u64, u64);

struct StoredSnapshot {
    guild_id: u64,
    channel_id: u64,
    message_id: u64,
    author_user_id: u64,
    content: String,
    attachment_summary: Option<String>,
    updated_at: u64,
}

impl StoredSnapshot {
    spec fn key(&self) -> SnapshotKey {
        (self.guild_id, self.channel_id, self.message_id)
    }

    spec fn data(&self) -> SnapshotData {
        SnapshotData {
            author_user_id: self.author_user_id,
            content: self.content@,
            attachment_summary: opt_view(self.attachment_summary),
            updated_at: self.updated_at,
        }
    }

    spec fn ids_ok(&self) -> bool {
        id_in_range(self.guild_id) && id_in_range(self.channel_id) && id_in_range(self.message_id)
            && id_in_range(self.author_user_id) && id_in_range(self.updated_at)
    }
}

impl NewMessageSnapshot {
    /// Whether every identifier of the snapshot fits the storage layer.
    pub open spec fn ids_ok(&self) -> bool {
        id_in_range(self.guild_id) && id_in_range(self.channel_id) && id_in_range(self.message_id)
            && id_in_range(self.author_user_id) && id_in_range(self.updated_at)
    }

    /// Message identity of the snapshot.
    pub open spec fn key(&self) -> SnapshotKey {
        (self.guild_id, self.channel_id, self.message_id)
    }

    /// Mathematical value the snapshot stores.
    pub open spec fn data(&self) -> SnapshotData {
        SnapshotData {
            author_user_id: self.author_user_id,
            content: self.content@,
            attachment_summary: opt_view(self.attachment_summary),
            updated_at: self.updated_at,
        }
    }
}

spec fn snap_key_fn() -> spec_fn(StoredSnapshot) -> SnapshotKey {
    |r: StoredSnapshot| r.key()
}

spec fn snap_data_fn() -> spec_fn(StoredSnapshot) -> SnapshotData {
    |r: StoredSnapshot| r.data()
}

/// Durable keyed store of message snapshots: at most one per identity.
pub struct SnapshotStore {
    rows: Vec<StoredSnapshot>,
}

impl View for SnapshotStore {
    type V = Map<SnapshotKey, SnapshotData>;

    closed spec fn view(&self) -> Map<SnapshotKey, SnapshotData> {
        assoc_map(self.rows@, snap_key_fn(), snap_data_fn())
    }
}

impl SnapshotStore {
    /// The store's internal invariant: unique identities, identifiers in the
    /// storage layer's range.
    pub closed spec fn wf(&self) -> bool {
        assoc_keys_unique(self.rows@, snap_key_fn()) && forall|i: int|
            0 <= i < self.rows@.len() ==> #[trigger] self.rows@[i].ids_ok()
    }

    /// An empty store.
    pub fn new() -> (r: SnapshotStore)
        ensures
            r.wf(),
            r@ == Map::<SnapshotKey, SnapshotData>::empty(),
    {
        SnapshotStore { rows: Vec::new() }
    }

    fn find(&self, guild_id: u64, channel_id: u64, message_id: u64) -> (r: Option<usize>)
        ensures
            match r {
                Some(i) => i < self.rows@.len() && self.rows@[i as int].key() == (
                    guild_id,
                    channel_id,
                    message_id,
                ),
                None => forall|i: int|
                    0 <= i < self.rows@.len() ==> self.rows@[i].key() != (
                        guild_id,
                        channel_id,
                        message_id,
                    ),
            },
    {
        let mut i: usize = 0;
        while i < self.rows.len()
            invariant
                i <= self.rows@.len(),
                forall|j: int|
                    0 <= j < i ==> self.rows@[j].key() != (guild_id, channel_id, message_id),
            decreases self.rows@.len() - i,
        {
            let row = &self.rows[i];
            if row.guild_id == guild_id && row.channel_id == channel_id && row.message_id
                == message_id {
                return Some(i);
            }
            i = i + 1;
        }
        None
    }

    /// Insert-or-replace the snapshot for the identity carried by `snapshot`.
    ///
    /// Succeeds exactly when every identifier fits the storage layer's signed
    /// 64-bit range; the store then maps the identity to the new state,
    /// whether or not a snapshot existed before.
    pub fn upsert_message_snapshot(&mut self, snapshot: NewMessageSnapshot) -> (r: Result<
        (),
        StoreError,
    >)
        requires
            old(self).wf(),
        ensures
            final(self).wf(),
            snapshot.ids_ok() ==> r is Ok && final(self)@ == old(self)@.insert(
                snapshot.key(),
                snapshot.data(),
            ),
            !snapshot.ids_ok() ==> r == Err::<(), StoreError>(StoreError::ValueOutOfRange)
                && final(self)@ == old(self)@,
    {
        if !(check_id_in_range(snapshot.guild_id) && check_id_in_range(snapshot.channel_id)
            && check_id_in_range(snapshot.message_id) && check_id_in_range(snapshot.author_user_id)
            && check_id_in_range(snapshot.updated_at)) {
            return Err(StoreError::ValueOutOfRange);
        }
        let row = StoredSnapshot {
            guild_id: snapshot.guild_id,
            channel_id: snapshot.channel_id,
            message_id: snapshot.message_id,
            author_user_id: snapshot.author_user_id,
            content: snapshot.content,
            attachment_summary: snapshot.attachment_summary,
            updated_at: snapshot.updated_at,
        };
        match self.find(row.guild_id, row.channel_id, row.message_id) {
            Some(i) => {
                proof {
                    lemma_assoc_map_update(self.rows@, snap_key_fn(), snap_data_fn(), i as int, row);
                }
                self.rows[i] = row;
            },
            None => {
                proof {
                    lemma_assoc_map_domain(self.rows@, snap_key_fn(), snap_data_fn(), row.key());
                }
                self.rows.push(row);
                proof {
                    assert(self.rows@.drop_last() =~= old(self).rows@);
                }
            },
        }
        Ok(())
    }

    /// Read the snapshot stored for `(guild_id, channel_id, message_id)`.
    ///
    /// Succeeds exactly when the identifiers fit the storage layer's range,
    /// returning the stored state, or `None` when the identity is absent.
    pub fn get_message_snapshot(&self, guild_id: u64, channel_id: u64, message_id: u64) -> (r:
        Result<Option<MessageSnapshot>, StoreError>)
        requires
            self.wf(),
        ensures
            ({
                let k = (guild_id, channel_id, message_id);
                if id_in_range(guild_id) && id_in_range(channel_id) && id_in_range(message_id) {
                    match r {
                        Ok(Some(s)) => self@.contains_key(k) && s.channel_id == channel_id
                            && s.message_id == message_id && s.author_user_id
                            == self@[k].author_user_id && s.content@ == self@[k].content
                            && opt_view(s.attachment_summary)
                            == self@[k].attachment_summary && id_in_range(s.author_user_id),
                        Ok(None) => !self@.contains_key(k),
                        Err(_) => false,
                    }
                } else {
                    r == Err::<Option<MessageSnapshot>, StoreError>(StoreError::ValueOutOfRange)
                }
            }),
    {
        if !(check_id_in_range(guild_id) && check_id_in_range(channel_id) && check_id_in_range(
            message_id,
        )) {
            return Err(StoreError::ValueOutOfRange);
        }
        proof {
            lemma_assoc_map_domain(self.rows@, snap_key_fn(), snap_data_fn(), (guild_id, channel_id, message_id));
        }
        match self.find(guild_id, channel_id, message_id) {
            Some(i) => {
                proof {
                    lemma_assoc_map_index(self.rows@, snap_key_fn(), snap_data_fn(), i as int);
                    assert(self.rows@[i as int].ids_ok());
                }
                let row = &self.rows[i];
                Ok(
                    Some(
                        MessageSnapshot {
                            channel_id: row.channel_id,
                            message_id: row.message_id,
                            author_user_id: row.author_user_id,
                            content: row.content.clone(),
                            attachment_summary: match &row.attachment_summary {
                                Some(s) => Some(s.clone()),
                                None => None,
                            },
                        },
                    ),
                )
            },
            None => Ok(None),
        }
    }

    /// Remove the snapshot for `(guild_id, channel_id, message_id)`.
    ///
    /// Idempotent: succeeds exactly when the identifiers fit the storage
    /// layer's range, whether or not a snapshot is present.
    pub fn delete_message_snapshot(&mut self, guild_id: u64, channel_id: u64, message_id: u64) -> (
    r: Result<(), StoreError>)
        requires
            old(self).wf(),
        ensures
            final(self).wf(),
            ({
                let k = (guild_id, channel_id, message_id);
                if id_in_range(guild_id) && id_in_range(channel_id) && id_in_range(message_id) {
                    r is Ok && final(self)@ == old(self)@.remove(k)
                } else {
                    r == Err::<(), StoreError>(StoreError::ValueOutOfRange) && final(self)@ == old(
                        self,
                    )@
                }
            }),
    {
        if !(check_id_in_range(guild_id) && check_id_in_range(channel_id) && check_id_in_range(
            message_id,
        )) {
            return Err(StoreError::ValueOutOfRange);
        }
        proof {
            lemma_assoc_map_domain(self.rows@, snap_key_fn(), snap_data_fn(), (guild_id, channel_id, message_id));
        }
        match self.find(guild_id, channel_id, message_id) {
            Some(i) => {
                proof {
                    lemma_assoc_map_remove(self.rows@, snap_key_fn(), snap_data_fn(), i as int);
                }
                self.rows.remove(i);
            },
            None => {
                proof {
                    assert(old(self)@ =~= old(self)@.remove((guild_id, channel_id, message_id)));
                }
            },
        }
        Ok(())
    }
}

} // verus!
