//! Activity log: the append-only record of classified message events.
//!
//! Entries are never mutated or removed once appended. Queries filter by
//! guild, optionally by author and by event kind (ASCII case-insensitive),
//! and return the most recent entries first, with the requested limit clamped
//! to at most 200 and at least 1.

use vstd::prelude::*;

use crate::error::StoreError;
use crate::ids::{check_id_in_range, id_in_range};
use crate::text::{lower_seq, opt_view, str_eq_ignore_ascii_case};

verus! {

/// Largest number of entries one query returns.
pub const MAX_QUERY_LIMIT: u32 = 200;

/// An event to append to the log.
#[derive(Clone, Debug)]
pub struct NewUserLog {
    pub guild_id: u64,
    pub channel_id: u64,
    pub message_id: Option<u64>,
    pub author_user_id: Option<u64>,
    pub event_type: String,
    pub before_content: Option<String>,
    pub after_content: Option<String>,
    pub attachment_summary: Option<String>,
    pub created_at: u64,
}

/// An event as read back by a query.
#[derive(Clone, Debug)]
pub struct UserLogEntry {
    pub channel_id: u64,
    pub message_id: Option<u64>,
    pub author_user_id: Option<u64>,
    pub event_type: String,
    pub before_content: Option<String>,
    pub after_content: Option<String>,
    pub attachment_summary: Option<String>,
    pub created_at: u64,
}

/// Query filters: all are conjunctive; absent filters match everything.
pub struct UserLogFilters {
    pub author_user_id: Option<u64>,
    pub event_type: Option<String>,
    pub limit: u32,
}

/// Mathematical value of one logged event.
pub ghost struct LogData {
    pub guild_id: u64,
    pub channel_id: u64,
    pub message_id: Option<u64>,
    pub author_user_id: Option<u64>,
    pub event_type: Seq<char>,
    pub before_content: Option<Seq<char>>,
    pub after_content: Option<Seq<char>>,
    pub attachment_summary: Option<Seq<char>>,
    pub created_at: u64,
}

/// Mathematical value of one query result entry.
pub ghost struct EntryData {
    pub channel_id: u64,
    pub message_id: Option<u64>,
    pub author_user_id: Option<u64>,
    pub event_type: Seq<char>,
    pub before_content: Option<Seq<char>>,
    pub after_content: Option<Seq<char>>,
    pub attachment_summary: Option<Seq<char>>,
    pub created_at: u64,
}

impl NewUserLog {
    /// Whether every identifier of the entry fits the storage layer.
    pub open spec fn ids_ok(&self) -> bool {
        id_in_range(self.guild_id) && id_in_range(self.channel_id) && (match self.message_id {
            Some(m) => id_in_range(m),
            None => true,
        }) && (match self.author_user_id {
            Some(a) => id_in_range(a),
            None => true,
        }) && id_in_range(self.created_at)
    }

    /// Mathematical value the entry appends.
    pub open spec fn data(&self) -> LogData {
        LogData {
            guild_id: self.guild_id,
            channel_id: self.channel_id,
            message_id: self.message_id,
            author_user_id: self.author_user_id,
            event_type: self.event_type@,
            before_content: opt_view(self.before_content),
            after_content: opt_view(self.after_content),
            attachment_summary: opt_view(self.attachment_summary),
            created_at: self.created_at,
        }
    }
}

impl View for UserLogEntry {
    type V = EntryData;

    open spec fn view(&self) -> EntryData {
        EntryData {
            channel_id: self.channel_id,
            message_id: self.message_id,
            author_user_id: self.author_user_id,
            event_type: self.event_type@,
            before_content: opt_view(self.before_content),
            after_content: opt_view(self.after_content),
            attachment_summary: opt_view(self.attachment_summary),
            created_at: self.created_at,
        }
    }
}

/// The query-result projection of a logged event.
pub open spec fn entry_of(d: LogData) -> EntryData {
    EntryData {
        channel_id: d.channel_id,
        message_id: d.message_id,
        author_user_id: d.author_user_id,
        event_type: d.event_type,
        before_content: d.before_content,
        after_content: d.after_content,
        attachment_summary: d.attachment_summary,
        created_at: d.created_at,
    }
}

/// Whether a logged event satisfies a query for `guild_id` with the given
/// author filter and (already lowercased) event-kind filter.
pub open spec fn log_matches(
    d: LogData,
    guild_id: u64,
    author: Option<u64>,
    event_lower: Option<Seq<char>>,
) -> bool {
    d.guild_id == guild_id && (match author {
        Some(a) => d.author_user_id == Some(a),
        None => true,
    }) && (match event_lower {
        Some(ev) => lower_seq(d.event_type) == ev,
        None => true,
    })
}

/// A sequence ordered by `created_at`, newest first.
pub open spec fn sorted_desc(s: Seq<EntryData>) -> bool {
    forall|i: int, j: int| 0 <= i <= j < s.len() ==> s[i].created_at >= s[j].created_at
}

/// The limit a query actually applies for a requested `limit`.
pub open spec fn clamped_limit(limit: u32) -> int {
    if limit < 1 {
        1
    } else if limit > MAX_QUERY_LIMIT {
        MAX_QUERY_LIMIT as int
    } else {
        limit as int
    }
}

/// `out` and `s` witness a correct query result over the matched entries:
/// `s` is a newest-first ordering of all of `matched`, and `out` is its
/// prefix of length at most `n`.
pub open spec fn query_witness(
    matched: Seq<EntryData>,
    n: int,
    out: Seq<EntryData>,
    s: Seq<EntryData>,
) -> bool {
    &&& sorted_desc(s)
    &&& s.to_multiset() == matched.to_multiset()
    &&& out == s.take(if n <= s.len() {
        n
    } else {
        s.len() as int
    })
}

/// `out` is a correct query result over the matched entries: a prefix of
/// length at most `n` of some newest-first ordering of all of `matched`.
pub open spec fn valid_query_result(matched: Seq<EntryData>, n: int, out: Seq<EntryData>) -> bool {
    exists|s: Seq<EntryData>| #[trigger] s.to_multiset() == matched.to_multiset() && query_witness(
        matched,
        n,
        out,
        s,
    )
}

/// What every caller may read off a correct query result: it holds exactly
/// `min(n, matched)` entries, each of them a matched entry, newest first.
pub proof fn lemma_query_result_entries(matched: Seq<EntryData>, n: int, out: Seq<EntryData>)
    requires
        n >= 0,
        valid_query_result(matched, n, out),
    ensures
        out.len() == (if n <= matched.len() {
            n
        } else {
            matched.len() as int
        }),
        forall|i: int| 0 <= i < out.len() ==> matched.contains(#[trigger] out[i]),
        sorted_desc(out),
{
    let s = choose|s: Seq<EntryData>|
        #[trigger] s.to_multiset() == matched.to_multiset() && query_witness(matched, n, out, s);
    s.to_multiset_ensures();
    matched.to_multiset_ensures();
    assert(s.len() == matched.len());
    let cut = if n <= s.len() {
        n
    } else {
        s.len() as int
    };
    assert(out == s.take(cut));
    assert(0 <= cut <= s.len());
    assert(out.len() == cut);
    assert forall|i: int| 0 <= i < out.len() implies matched.contains(#[trigger] out[i]) by {
        assert(out[i] == s.take(cut)[i]);
        assert(out[i] == s[i]);
        assert(s.contains(s[i]));
        assert(matched.to_multiset().count(s[i]) > 0);
    }
}

proof fn lemma_map_values_remove<A, B>(s: Seq<A>, f: spec_fn(A) -> B, i: int)
    requires
        0 <= i < s.len(),
    ensures
        s.remove(i).map_values(f) =~= s.map_values(f).remove(i),
{
    assert forall|j: int| 0 <= j < s.len() - 1 implies s.remove(i).map_values(f)[j] == s.map_values(
        f,
    ).remove(i)[j] by {
        if j < i {
            assert(s.remove(i)[j] == s[j]);
        } else {
            assert(s.remove(i)[j] == s[j + 1]);
        }
    }
}

/// Append-only record of classified message events.
pub struct ActivityLog {
    rows: Vec<NewUserLog>,
}

impl View for ActivityLog {
    type V = Seq<LogData>;

    closed spec fn view(&self) -> Seq<LogData> {
        self.rows@.map_values(|r: NewUserLog| r.data())
    }
}

impl ActivityLog {
    /// An empty log.
    pub fn new() -> (r: ActivityLog)
        ensures
            r@ == Seq::<LogData>::empty(),
    {
        let log = ActivityLog { rows: Vec::new() };
        proof {
            assert(log@ =~= Seq::<LogData>::empty());
        }
        log
    }

    /// Append one event.
    ///
    /// Append-only: on success the log is exactly the old log with the new
    /// event at the end; nothing else ever changes or removes entries.
    /// Succeeds exactly when every identifier fits the storage layer's
    /// signed 64-bit range.
    pub fn insert_user_log(&mut self, entry: NewUserLog) -> (r: Result<(), StoreError>)
        ensures
            entry.ids_ok() ==> r is Ok && final(self)@ == old(self)@.push(entry.data()),
            !entry.ids_ok() ==> r == Err::<(), StoreError>(StoreError::ValueOutOfRange)
                && final(self)@ == old(self)@,
    {
        let ids_ok = check_id_in_range(entry.guild_id) && check_id_in_range(entry.channel_id)
            && (match entry.message_id {
            Some(m) => check_id_in_range(m),
            None => true,
        }) && (match entry.author_user_id {
            Some(a) => check_id_in_range(a),
            None => true,
        }) && check_id_in_range(entry.created_at);
        if !ids_ok {
            return Err(StoreError::ValueOutOfRange);
        }
        let ghost d = entry.data();
        self.rows.push(entry);
        proof {
            assert(self@ =~= old(self)@.push(d));
        }
        Ok(())
    }

    /// Query the log for `guild_id`, newest first.
    ///
    /// Returns entries matching all given filters, ordered by `created_at`
    /// descending, at most `clamped_limit(filters.limit)` of them; when more
    /// entries match than the limit allows, the returned ones are the most
    /// recent. Fails with `ValueOutOfRange` exactly when `guild_id` or the
    /// author filter exceeds the storage layer's signed 64-bit range.
    pub fn list_recent_user_logs(&self, guild_id: u64, filters: UserLogFilters) -> (r: Result<
        Vec<UserLogEntry>,
        StoreError,
    >)
        ensures
            ({
                let ids_ok = id_in_range(guild_id) && (match filters.author_user_id {
                    Some(a) => id_in_range(a),
                    None => true,
                });
                let evlow = match filters.event_type {
                    Some(ev) => Some(lower_seq(ev@)),
                    None => None,
                };
                let matched = self@.filter(
                    |d: LogData| log_matches(d, guild_id, filters.author_user_id, evlow),
                ).map_values(|d: LogData| entry_of(d));
                if ids_ok {
                    match r {
                        Ok(out) => valid_query_result(
                            matched,
                            clamped_limit(filters.limit),
                            out@.map_values(|e: UserLogEntry| e@),
                        ),
                        Err(_) => false,
                    }
                } else {
                    r == Err::<Vec<UserLogEntry>, StoreError>(StoreError::ValueOutOfRange)
                }
            }),
    {
        let ids_ok = check_id_in_range(guild_id) && (match filters.author_user_id {
            Some(a) => check_id_in_range(a),
            None => true,
        });
        if !ids_ok {
            return Err(StoreError::ValueOutOfRange);
        }
        let ghost evlow = match &filters.event_type {
            Some(ev) => Some(lower_seq(ev@)),
            None => None,
        };
        let ghost pred = |d: LogData| log_matches(d, guild_id, filters.author_user_id, evlow);
        let ghost vfn = |e: UserLogEntry| e@;

        // Collect the matching entries.
        let mut matched: Vec<UserLogEntry> = Vec::new();
        let mut i: usize = 0;
        while i < self.rows.len()
            invariant
                i <= self.rows@.len(),
                self@ == self.rows@.map_values(|r: NewUserLog| r.data()),
                matched@.map_values(vfn) =~= self@.take(i as int).filter(pred).map_values(
                    |d: LogData| entry_of(d),
                ),
                vfn == (|e: UserLogEntry| e@),
                evlow == (match filters.event_type {
                    Some(ev) => Some(lower_seq(ev@)),
                    None => None,
                }),
                pred == (|d: LogData|
                log_matches(d, guild_id, filters.author_user_id, evlow)),
            decreases self.rows@.len() - i,
        {
            let row = &self.rows[i];
            let ghost d = row.data();
            proof {
                assert(self@[i as int] == d);
                assert(self@.take(i + 1).drop_last() =~= self@.take(i as int));
                assert(self@.take(i + 1).last() == d);
            }
            let author_ok = match (filters.author_user_id, row.author_user_id) {
                (None, _) => true,
                (Some(want), Some(have)) => want == have,
                (Some(_), None) => false,
            };
            let event_ok = match &filters.event_type {
                None => true,
                Some(want) => str_eq_ignore_ascii_case(want.as_str(), row.event_type.as_str()),
            };
            if row.guild_id == guild_id && author_ok && event_ok {
                proof {
                    assert(pred(d));
                }
                let e = UserLogEntry {
                    channel_id: row.channel_id,
                    message_id: row.message_id,
                    author_user_id: row.author_user_id,
                    event_type: row.event_type.clone(),
                    before_content: clone_opt(&row.before_content),
                    after_content: clone_opt(&row.after_content),
                    attachment_summary: clone_opt(&row.attachment_summary),
                    created_at: row.created_at,
                };
                proof {
                    assert(e@ == entry_of(d));
                    let prev = matched@;
                    let t1 = self@.take(i + 1);
                    assert(t1.filter(pred) == self@.take(i as int).filter(pred).push(d)) by {
                        reveal_with_fuel(Seq::<LogData>::filter, 2);
                        assert(t1.drop_last() =~= self@.take(i as int));
                        assert(t1.last() == d);
                        assert(pred(d));
                    }
                }
                matched.push(e);
                proof {
                    assert(matched@.map_values(vfn) =~= matched@.drop_last().map_values(vfn).push(
                        e@,
                    ));
                    assert(self@.take(i + 1).filter(pred).map_values(|d: LogData| entry_of(d))
                        =~= self@.take(i as int).filter(pred).map_values(
                        |d: LogData| entry_of(d),
                    ).push(entry_of(d)));
                }
            } else {
                proof {
                    assert(!pred(d));
                    let t1 = self@.take(i + 1);
                    assert(t1.filter(pred) == self@.take(i as int).filter(pred)) by {
                        reveal_with_fuel(Seq::<LogData>::filter, 2);
                        assert(t1.drop_last() =~= self@.take(i as int));
                        assert(t1.last() == d);
                        assert(!pred(d));
                    }
                }
            }
            i = i + 1;
        }
        proof {
            assert(self@.take(self.rows@.len() as int) =~= self@);
        }

        // Order newest first.
        let mut out = sort_entries_desc(matched);
        let ghost full = out@.map_values(vfn);

        // Clamp the limit.
        let limit = if filters.limit < 1 {
            1
        } else if filters.limit > MAX_QUERY_LIMIT {
            MAX_QUERY_LIMIT
        } else {
            filters.limit
        };
        if out.len() > limit as usize {
            out.truncate(limit as usize);
        }
        proof {
            let n = clamped_limit(filters.limit);
            let matched_v = self@.filter(pred).map_values(|d: LogData| entry_of(d));
            let cut = if n <= full.len() {
                n
            } else {
                full.len() as int
            };
            assert(out@.map_values(vfn) =~= full.take(cut));
            assert(query_witness(matched_v, n, out@.map_values(vfn), full));
            assert(valid_query_result(matched_v, n, out@.map_values(vfn)));
        }
        Ok(out)
    }
}

fn clone_opt(a: &Option<String>) -> (r: Option<String>)
    ensures
        opt_view(r) == opt_view(*a),
{
    match a {
        Some(s) => Some(s.clone()),
        None => None,
    }
}

/// Order entries by `created_at`, newest first; the result is a permutation
/// of the input.
fn sort_entries_desc(input: Vec<UserLogEntry>) -> (r: Vec<UserLogEntry>)
    ensures
        sorted_desc(r@.map_values(|e: UserLogEntry| e@)),
        r@.map_values(|e: UserLogEntry| e@).to_multiset() == input@.map_values(
            |e: UserLogEntry| e@,
        ).to_multiset(),
{
    let ghost vfn = |e: UserLogEntry| e@;
    let mut work = input;
    let mut out: Vec<UserLogEntry> = Vec::new();
    proof {
        broadcast use vstd::seq_lib::group_seq_properties;

        assert(out@.map_values(vfn) =~= Seq::<EntryData>::empty());
        assert(out@.map_values(vfn).to_multiset().add(work@.map_values(vfn).to_multiset())
            =~= input@.map_values(vfn).to_multiset());
    }
    while work.len() > 0
        invariant
            vfn == (|e: UserLogEntry| e@),
            sorted_desc(out@.map_values(vfn)),
            out@.map_values(vfn).to_multiset().add(work@.map_values(vfn).to_multiset())
                == input@.map_values(vfn).to_multiset(),
            forall|a: int, b: int|
                0 <= a < out@.len() && 0 <= b < work@.len() ==> out@.map_values(
                    vfn,
                )[a].created_at >= work@.map_values(vfn)[b].created_at,
        decreases work@.len(),
    {
        // Find the newest remaining entry.
        let mut imax: usize = 0;
        let mut j: usize = 1;
        while j < work.len()
            invariant
                imax < work@.len(),
                j <= work@.len(),
                work@.len() > 0,
                forall|k: int| 0 <= k < j ==> work@[imax as int].created_at >= work@[k].created_at,
            decreases work@.len() - j,
        {
            if work[j].created_at > work[imax].created_at {
                imax = j;
            }
            j = j + 1;
        }
        let ghost old_out = out@.map_values(vfn);
        let ghost old_work = work@.map_values(vfn);
        let ghost picked = old_work[imax as int];
        proof {
            old_work.to_multiset_ensures();
            lemma_map_values_remove(work@, vfn, imax as int);
            assert(old_work.to_multiset().count(picked) > 0) by {
                assert(old_work[imax as int] == picked);
                assert(old_work.contains(picked));
            }
        }
        let e = work.remove(imax);
        proof {
            assert(e@ == picked);
            old_out.to_multiset_ensures();
        }
        out.push(e);
        proof {
            assert(out@.map_values(vfn) =~= old_out.push(picked));
            assert(work@.map_values(vfn) =~= old_work.remove(imax as int));
            assert(out@.map_values(vfn).to_multiset().add(work@.map_values(vfn).to_multiset())
                =~= input@.map_values(vfn).to_multiset()) by {
                assert(out@.map_values(vfn).to_multiset() =~= old_out.to_multiset().insert(picked));
                assert(work@.map_values(vfn).to_multiset() =~= old_work.to_multiset().remove(
                    picked,
                ));
                assert forall|y: EntryData|
                    old_out.to_multiset().insert(picked).add(
                        old_work.to_multiset().remove(picked),
                    ).count(y) == old_out.to_multiset().add(old_work.to_multiset()).count(y) by {
                    if y == picked {
                        assert(old_work.to_multiset().count(picked) > 0);
                    }
                }
            }
            // Every remaining entry is no newer than the one just placed.
            assert forall|b: int|
                0 <= b < work@.len() implies picked.created_at >= work@.map_values(
                vfn,
            )[b].created_at by {
                if b < imax {
                    assert(work@.map_values(vfn)[b] == old_work[b]);
                } else {
                    assert(work@.map_values(vfn)[b] == old_work[b + 1]);
                }
            }
        }
    }
    proof {
        assert(work@.map_values(vfn) =~= Seq::<EntryData>::empty());
        assert(out@.map_values(vfn).to_multiset().add(Seq::<EntryData>::empty().to_multiset())
            =~= out@.map_values(vfn).to_multiset());
    }
    out
}

} // verus!
