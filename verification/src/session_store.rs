//! The in-memory store of agent sessions and its lifecycle: sessions are
//! created on first use, archived when idle past their timeout or when the
//! store is over capacity (least recently used first), and an archived
//! session must be restored by the host before it can take a new turn.
use vstd::prelude::*;
use crate::assoc::{has_key, key_index, keys_unique, lemma_key_pos, lemma_lookup_after_push, lemma_lookup_after_set, lookup};
use crate::clock::now_unix_ms;
use crate::log_entries::LogLevel;
use crate::logger::{LogRegistry, Logger};
use crate::runner::AgentRunnerError;
use crate::text::{push_str, str_eq, string_of};

verus! {

/// Default number of sessions kept in memory.
pub const DEFAULT_MAX_IN_MEMORY_SESSIONS: usize = 128;

/// A session held in memory, with what its lifecycle reads.
#[derive(Debug)]
pub struct SessionSlot<S> {
    /// The session's own state.
    pub state: S,
    /// Last time (Unix milliseconds) the session was used.
    pub last_touched_ms: i64,
    /// Streamed LLM chunks not yet committed; such a session is never
    /// archived.
    pub pending_llm_chunks: usize,
    /// Idle timeout in seconds; 0 disables it.
    pub session_timeout_secs: u32,
}

/// Why and when a session left memory.
#[derive(Debug, Clone)]
pub struct ArchivedSessionRecord {
    pub archived_at_ms: i64,
    pub reason: String,
}

/// The sessions in memory, by id, and the records of archived ones.
#[derive(Debug)]
pub struct SessionStore<S> {
    sessions: Vec<(String, SessionSlot<S>)>,
    archived: Vec<(String, ArchivedSessionRecord)>,
    max_in_memory_sessions: usize,
}

/// `a - b`, clamped to the range of `i64`.
pub open spec fn saturating_diff(a: i64, b: i64) -> int {
    let d = a - b;
    if d > i64::MAX {
        i64::MAX as int
    } else if d < i64::MIN {
        i64::MIN as int
    } else {
        d
    }
}

/// Whether a session is idle at `now_ms`: nothing pending, a timeout set,
/// and more than the timeout elapsed since it was last touched.
pub open spec fn is_idle<S>(slot: SessionSlot<S>, now_ms: i64) -> bool {
    &&& slot.pending_llm_chunks == 0
    &&& slot.session_timeout_secs > 0
    &&& saturating_diff(now_ms, slot.last_touched_ms) > slot.session_timeout_secs * 1000
}

/// The sessions of `s` that stay and those that an idle sweep at `now_ms`
/// archives, each in store order.
pub open spec fn sweep_split<S>(s: Seq<(String, SessionSlot<S>)>, now_ms: i64) -> (
    Seq<(String, SessionSlot<S>)>,
    Seq<(String, SessionSlot<S>)>,
)
    decreases s.len(),
{
    if s.len() == 0 {
        (s, s)
    } else {
        let r = sweep_split(s.drop_last(), now_ms);
        if is_idle(s.last().1, now_ms) {
            (r.0, r.1.push(s.last()))
        } else {
            (r.0.push(s.last()), r.1)
        }
    }
}

/// Whether capacity pressure may archive a session: it has nothing
/// pending and is not the protected one.
pub open spec fn evictable<S>(e: (String, SessionSlot<S>), protected: Option<Seq<char>>) -> bool {
    e.1.pending_llm_chunks == 0 && protected != Some(e.0@)
}

/// Position of the least recently touched evictable session (the first of
/// equals), or -1.
pub open spec fn lru_pos<S>(s: Seq<(String, SessionSlot<S>)>, protected: Option<Seq<char>>) -> int
    decreases s.len(),
{
    if s.len() == 0 {
        -1
    } else {
        let b = lru_pos(s.drop_last(), protected);
        if evictable(s.last(), protected) && (b < 0 || s.last().1.last_touched_ms
            < s[b].1.last_touched_ms) {
            s.len() - 1
        } else {
            b
        }
    }
}

/// What `lru_pos` picks: an evictable session touched no later than any
/// other evictable one, and strictly earlier than any evictable one before
/// it; -1 only when no session is evictable.
pub open spec fn is_lru<S>(s: Seq<(String, SessionSlot<S>)>, protected: Option<Seq<char>>, p: int) -> bool {
    &&& -1 <= p < s.len()
    &&& p == -1 ==> forall|j: int| 0 <= j < s.len() ==> !evictable(#[trigger] s[j], protected)
    &&& p >= 0 ==> {
        &&& evictable(s[p], protected)
        &&& forall|j: int|
            0 <= j < s.len() && evictable(#[trigger] s[j], protected)
                ==> s[p].1.last_touched_ms <= s[j].1.last_touched_ms
        &&& forall|j: int|
            0 <= j < p && evictable(#[trigger] s[j], protected)
                ==> s[p].1.last_touched_ms < s[j].1.last_touched_ms
    }
}

pub proof fn lemma_lru_pos<S>(s: Seq<(String, SessionSlot<S>)>, protected: Option<Seq<char>>)
    ensures
        is_lru(s, protected, lru_pos(s, protected)),
    decreases s.len(),
{
    if s.len() > 0 {
        let t = s.drop_last();
        lemma_lru_pos(t, protected);
        let b = lru_pos(t, protected);
        let last = s.len() - 1;
        assert(forall|j: int| 0 <= j < t.len() ==> #[trigger] t[j] == s[j]);
        if evictable(s.last(), protected) && (b < 0 || s.last().1.last_touched_ms
            < s[b].1.last_touched_ms) {
            assert forall|j: int|
                0 <= j < s.len() && evictable(#[trigger] s[j], protected) implies s[last].1.last_touched_ms
                <= s[j].1.last_touched_ms by {
                if j < last {
                    assert(evictable(t[j], protected));
                }
            }
            assert forall|j: int|
                0 <= j < last && evictable(#[trigger] s[j], protected) implies s[last].1.last_touched_ms
                < s[j].1.last_touched_ms by {
                assert(evictable(t[j], protected));
            }
        } else if b < 0 {
            assert forall|j: int| 0 <= j < s.len() implies !evictable(#[trigger] s[j], protected) by {
                if j < last {
                    assert(!evictable(t[j], protected));
                }
            }
        } else {
            assert(evictable(t[b], protected));
            assert forall|j: int|
                0 <= j < s.len() && evictable(#[trigger] s[j], protected) implies s[b].1.last_touched_ms
                <= s[j].1.last_touched_ms by {
                if j < last {
                    assert(evictable(t[j], protected));
                }
            }
            assert forall|j: int|
                0 <= j < b && evictable(#[trigger] s[j], protected) implies s[b].1.last_touched_ms
                < s[j].1.last_touched_ms by {
                assert(evictable(t[j], protected));
            }
        }
    }
}

/// The sessions that stay and those that capacity pressure archives, in
/// the order they are archived: while more than `max` sessions are held,
/// the least recently used evictable one goes.
pub open spec fn capacity_split<S>(
    s: Seq<(String, SessionSlot<S>)>,
    protected: Option<Seq<char>>,
    max: nat,
) -> (Seq<(String, SessionSlot<S>)>, Seq<(String, SessionSlot<S>)>)
    decreases s.len(),
{
    if s.len() <= max || lru_pos(s, protected) < 0 {
        (s, Seq::empty())
    } else {
        proof {
            lemma_lru_pos(s, protected);
        }
        let i = lru_pos(s, protected);
        let r = capacity_split(s.remove(i), protected, max);
        (r.0, seq![s[i]] + r.1)
    }
}

/// The text of the error for a session that was archived and is not in
/// memory.
pub open spec fn archived_error_text(session_id: Seq<char>) -> Seq<char> {
    "Session '"@ + session_id + "' archived and not in RAM"@
}

impl<S> SessionStore<S> {
    /// The sessions in memory, in store order.
    pub closed spec fn sessions(&self) -> Seq<(String, SessionSlot<S>)> {
        self.sessions@
    }

    /// The records of archived sessions.
    pub closed spec fn records(&self) -> Seq<(String, ArchivedSessionRecord)> {
        self.archived@
    }

    /// Most sessions kept in memory before capacity pressure archives some.
    pub closed spec fn max_sessions(&self) -> nat {
        self.max_in_memory_sessions as nat
    }

    /// No two sessions, and no two archive records, share an id.
    pub open spec fn wf(&self) -> bool {
        keys_unique(self.sessions()) && keys_unique(self.records())
    }

    /// An empty store holding at most `max_in_memory_sessions` sessions (0
    /// disables capacity pressure).
    pub fn new(max_in_memory_sessions: usize) -> (r: Self)
        ensures
            r.wf(),
            r.sessions() == Seq::<(String, SessionSlot<S>)>::empty(),
            r.records() == Seq::<(String, ArchivedSessionRecord)>::empty(),
            r.max_sessions() == max_in_memory_sessions,
    {
        SessionStore { sessions: Vec::new(), archived: Vec::new(), max_in_memory_sessions }
    }

    /// Sets the capacity; it is at least 1.
    pub fn set_max_in_memory_sessions(&mut self, max: usize)
        ensures
            final(self).max_sessions() == if max == 0 {
                1
            } else {
                max as nat
            },
            final(self).sessions() == old(self).sessions(),
            final(self).records() == old(self).records(),
    {
        self.max_in_memory_sessions = if max == 0 {
            1
        } else {
            max
        };
    }

    pub fn max_in_memory_sessions(&self) -> (r: usize)
        ensures
            r == self.max_sessions(),
    {
        self.max_in_memory_sessions
    }

    /// Number of sessions in memory.
    pub fn len(&self) -> (r: usize)
        ensures
            r == self.sessions().len(),
    {
        self.sessions.len()
    }

    /// Number of sessions archived to host storage.
    pub fn archived_len(&self) -> (r: usize)
        ensures
            r == self.records().len(),
    {
        self.archived.len()
    }

    /// Whether session `session_id` is in memory.
    pub fn contains(&self, session_id: &str) -> (r: bool)
        ensures
            r == has_key(self.sessions(), session_id@),
    {
        key_index(&self.sessions, session_id) < self.sessions.len()
    }

    /// The session `session_id`, when in memory.
    pub fn get(&self, session_id: &str) -> (r: Option<&SessionSlot<S>>)
        ensures
            match r {
                Some(x) => lookup(self.sessions(), session_id@) == Some(*x),
                None => !has_key(self.sessions(), session_id@),
            },
    {
        let i = key_index(&self.sessions, session_id);
        if i < self.sessions.len() {
            Some(&self.sessions[i].1)
        } else {
            None
        }
    }

    /// The archive record of session `session_id`, when it was archived.
    pub fn archived_record(&self, session_id: &str) -> (r: Option<&ArchivedSessionRecord>)
        ensures
            match r {
                Some(x) => lookup(self.records(), session_id@) == Some(*x),
                None => !has_key(self.records(), session_id@),
            },
    {
        let i = key_index(&self.archived, session_id);
        if i < self.archived.len() {
            Some(&self.archived[i].1)
        } else {
            None
        }
    }

    /// Adds session `session_id` with `state` unless it is in memory already;
    /// tells whether it was added.
    pub fn ensure_session(
        &mut self,
        session_id: &str,
        state: S,
        now_ms: i64,
        session_timeout_secs: u32,
    ) -> (created: bool)
        requires
            old(self).wf(),
        ensures
            final(self).wf(),
            created == !has_key(old(self).sessions(), session_id@),
            created ==> {
                &&& final(self).sessions().drop_last() == old(self).sessions()
                &&& final(self).sessions().len() == old(self).sessions().len() + 1
                &&& final(self).sessions().last().0@ == session_id@
                &&& final(self).sessions().last().1 == SessionSlot {
                    state,
                    last_touched_ms: now_ms,
                    pending_llm_chunks: 0,
                    session_timeout_secs,
                }
            },
            !created ==> final(self).sessions() == old(self).sessions(),
            final(self).records() == old(self).records(),
            final(self).max_sessions() == old(self).max_sessions(),
    {
        let i = key_index(&self.sessions, session_id);
        if i < self.sessions.len() {
            return false;
        }
        proof {
            lemma_key_pos(self.sessions@, session_id@);
        }
        let slot = SessionSlot {
            state,
            last_touched_ms: now_ms,
            pending_llm_chunks: 0,
            session_timeout_secs,
        };
        let ghost before = self.sessions@;
        self.sessions.push((string_of(session_id), slot));
        assert(self.sessions@.drop_last() =~= before);
        assert(keys_unique(self.sessions@)) by {
            assert forall|a: int, b: int| 0 <= a < b < self.sessions@.len() implies self.sessions@[a].0@
                != self.sessions@[b].0@ by {
                if b == before.len() {
                    assert(self.sessions@[a] == before[a]);
                }
                else {
                    assert(self.sessions@[a] == before[a]);
                    assert(self.sessions@[b] == before[b]);
                }
            }
        }
        true
    }

    /// Mutable access to session `session_id`, when it is in memory; the
    /// session keeps its place and id, and nothing else changes.
    pub fn get_mut(&mut self, session_id: &str) -> (r: Option<&mut SessionSlot<S>>)
        requires
            old(self).wf(),
        ensures
            final(self).wf(),
            final(self).records() == old(self).records(),
            final(self).max_sessions() == old(self).max_sessions(),
            match r {
                None => !has_key(old(self).sessions(), session_id@) && final(self).sessions()
                    == old(self).sessions(),
                Some(m) => {
                    let i = crate::assoc::key_pos(old(self).sessions(), session_id@) as int;
                    &&& has_key(old(self).sessions(), session_id@)
                    &&& *m == old(self).sessions()[i].1
                    &&& final(self).sessions() == old(self).sessions().update(
                        i,
                        (old(self).sessions()[i].0, *final(m)),
                    )
                },
            },
    {
        let i = key_index(&self.sessions, session_id);
        if i < self.sessions.len() {
            Some(&mut self.sessions[i].1)
        } else {
            None
        }
    }

    /// Marks session `session_id` as used at `now_ms`.
    pub fn touch(&mut self, session_id: &str, now_ms: i64)
        requires
            old(self).wf(),
        ensures
            final(self).wf(),
            final(self).sessions() == if has_key(old(self).sessions(), session_id@) {
                let i = crate::assoc::key_pos(old(self).sessions(), session_id@) as int;
                let e = old(self).sessions()[i];
                old(self).sessions().update(i, (e.0, SessionSlot { last_touched_ms: now_ms, ..e.1 }))
            } else {
                old(self).sessions()
            },
            final(self).records() == old(self).records(),
            final(self).max_sessions() == old(self).max_sessions(),
    {
        let i = key_index(&self.sessions, session_id);
        if i < self.sessions.len() {
            let ghost before = self.sessions@;
            self.sessions[i].1.last_touched_ms = now_ms;
            assert(self.sessions@ =~= before.update(
                i as int,
                (before[i as int].0, SessionSlot { last_touched_ms: now_ms, ..before[i as int].1 }),
            ));
            assert(keys_unique(self.sessions@)) by {
                assert forall|a: int, b: int| 0 <= a < b < self.sessions@.len() implies self.sessions@[a].0@
                    != self.sessions@[b].0@ by {
                    assert(self.sessions@[a].0 == before[a].0);
                    assert(self.sessions@[b].0 == before[b].0);
                }
            }
        }
    }

    /// Sets the number of streamed chunks that session `session_id` holds
    /// uncommitted.
    pub fn set_pending_llm_chunks(&mut self, session_id: &str, count: usize)
        requires
            old(self).wf(),
        ensures
            final(self).wf(),
            final(self).sessions() == if has_key(old(self).sessions(), session_id@) {
                let i = crate::assoc::key_pos(old(self).sessions(), session_id@) as int;
                let e = old(self).sessions()[i];
                old(self).sessions().update(i, (e.0, SessionSlot { pending_llm_chunks: count, ..e.1 }))
            } else {
                old(self).sessions()
            },
            final(self).records() == old(self).records(),
            final(self).max_sessions() == old(self).max_sessions(),
    {
        let i = key_index(&self.sessions, session_id);
        if i < self.sessions.len() {
            let ghost before = self.sessions@;
            self.sessions[i].1.pending_llm_chunks = count;
            assert(self.sessions@ =~= before.update(
                i as int,
                (before[i as int].0, SessionSlot { pending_llm_chunks: count, ..before[i as int].1 }),
            ));
            assert(keys_unique(self.sessions@)) by {
                assert forall|a: int, b: int| 0 <= a < b < self.sessions@.len() implies self.sessions@[a].0@
                    != self.sessions@[b].0@ by {
                    assert(self.sessions@[a].0 == before[a].0);
                    assert(self.sessions@[b].0 == before[b].0);
                }
            }
        }
    }

    /// Records that session `session_id` was archived at `archived_at_ms`
    /// for `reason`, replacing an earlier record.
    fn put_record(&mut self, session_id: String, record: ArchivedSessionRecord)
        requires
            keys_unique(old(self).archived@),
        ensures
            keys_unique(final(self).archived@),
            final(self).sessions() == old(self).sessions(),
            final(self).max_sessions() == old(self).max_sessions(),
            forall|k: Seq<char>|
                #![trigger lookup(final(self).records(), k)]
                lookup(final(self).records(), k) == if k == session_id@ {
                    Some(record)
                } else {
                    lookup(old(self).records(), k)
                },
            forall|k: Seq<char>|
                #![trigger has_key(final(self).records(), k)]
                has_key(final(self).records(), k) == (has_key(old(self).records(), k) || k
                    == session_id@),
    {
        let i = key_index(&self.archived, session_id.as_str());
        proof {
            lemma_key_pos(self.archived@, session_id@);
        }
        let ghost before = self.archived@;
        proof {
            crate::assoc::lemma_unique_after_put(before, (session_id, record));
        }
        if i < self.archived.len() {
            self.archived.set(i, (session_id, record));
            proof {
                lemma_lookup_after_set(before, i as int, self.archived@[i as int]);
            }
            assert forall|k: Seq<char>| #[trigger] has_key(self.archived@, k) == (has_key(
                before,
                k,
            ) || k == self.archived@[i as int].0@) by {
                if lookup(self.archived@, k) is Some {
                } else {
                }
            }
        } else {
            let e = (session_id, record);
            let ghost ge = e;
            self.archived.push(e);
            proof {
                lemma_lookup_after_push(before, ge);
            }
            assert forall|k: Seq<char>| #[trigger] has_key(self.archived@, k) == (has_key(
                before,
                k,
            ) || k == ge.0@) by {
                if lookup(self.archived@, k) is Some {
                } else {
                }
            }
        }
    }

    /// Removes session `session_id` from memory, recording that it was
    /// archived at `archived_at_ms` for `reason`; gives back the session, or
    /// `None` (changing nothing) when it was not in memory.
    pub fn archive_session_at(&mut self, session_id: &str, reason: &str, archived_at_ms: i64) -> (r:
        Option<SessionSlot<S>>)
        requires
            old(self).wf(),
        ensures
            final(self).wf(),
            final(self).max_sessions() == old(self).max_sessions(),
            match r {
                None => !has_key(old(self).sessions(), session_id@) && final(self).sessions()
                    == old(self).sessions() && final(self).records() == old(self).records(),
                Some(slot) => {
                    let i = crate::assoc::key_pos(old(self).sessions(), session_id@) as int;
                    &&& has_key(old(self).sessions(), session_id@)
                    &&& slot == old(self).sessions()[i].1
                    &&& final(self).sessions() == old(self).sessions().remove(i)
                    &&& forall|k: Seq<char>|
                        #![trigger lookup(final(self).records(), k)]
                        k != session_id@ ==> lookup(final(self).records(), k) == lookup(
                            old(self).records(),
                            k,
                        )
                    &&& lookup(final(self).records(), session_id@) matches Some(rec)
                        && rec.archived_at_ms == archived_at_ms && rec.reason@ == reason@
                },
            },
    {
        let i = key_index(&self.sessions, session_id);
        if i >= self.sessions.len() {
            return None;
        }
        proof {
            lemma_key_pos(self.sessions@, session_id@);
        }
        let ghost before = self.sessions@;
        let (id, slot) = self.sessions.remove(i);
        assert(keys_unique(self.sessions@)) by {
            assert forall|a: int, b: int| 0 <= a < b < self.sessions@.len() implies self.sessions@[a].0@
                != self.sessions@[b].0@ by {
                let a0 = if a < i { a } else { a + 1 };
                let b0 = if b < i { b } else { b + 1 };
                assert(self.sessions@[a] == before[a0]);
                assert(self.sessions@[b] == before[b0]);
            }
        }
        self.put_record(id, ArchivedSessionRecord { archived_at_ms, reason: string_of(reason) });
        Some(slot)
    }

    /// Removes session `session_id` from memory, recording that it was
    /// archived now for `reason`; gives back the session, or `None`
    /// (changing nothing) when it was not in memory.
    pub fn archive_session(&mut self, session_id: &str, reason: &str) -> (r: Option<SessionSlot<S>>)
        requires
            old(self).wf(),
        ensures
            final(self).wf(),
            final(self).max_sessions() == old(self).max_sessions(),
            match r {
                None => !has_key(old(self).sessions(), session_id@) && final(self).sessions()
                    == old(self).sessions() && final(self).records() == old(self).records(),
                Some(slot) => {
                    let i = crate::assoc::key_pos(old(self).sessions(), session_id@) as int;
                    &&& has_key(old(self).sessions(), session_id@)
                    &&& slot == old(self).sessions()[i].1
                    &&& final(self).sessions() == old(self).sessions().remove(i)
                    &&& forall|k: Seq<char>|
                        #![trigger lookup(final(self).records(), k)]
                        k != session_id@ ==> lookup(final(self).records(), k) == lookup(
                            old(self).records(),
                            k,
                        )
                    &&& lookup(final(self).records(), session_id@) matches Some(rec)
                        && rec.reason@ == reason@
                },
            },
    {
        let now = now_unix_ms();
        self.archive_session_at(session_id, reason, now)
    }

    /// Archives every session idle at `now_ms` (see [`is_idle`]) and gives
    /// them back in store order; the others stay, in order.
    pub fn sweep_idle_sessions(&mut self, now_ms: i64) -> (swept: Vec<(String, SessionSlot<S>)>)
        requires
            old(self).wf(),
        ensures
            final(self).wf(),
            final(self).max_sessions() == old(self).max_sessions(),
            final(self).sessions() == sweep_split(old(self).sessions(), now_ms).0,
            swept@ == sweep_split(old(self).sessions(), now_ms).1,
            forall|k: Seq<char>|
                #![trigger lookup(final(self).records(), k)]
                !has_key(swept@, k) ==> lookup(final(self).records(), k) == lookup(
                    old(self).records(),
                    k,
                ),
            forall|k: Seq<char>|
                #![trigger lookup(final(self).records(), k)]
                has_key(swept@, k) ==> (lookup(final(self).records(), k) matches Some(rec)
                    && rec.reason@ == "idle_timeout"@),
    {
        let ghost s0 = self.sessions@;
        let ghost a0 = self.archived@;
        let mut rest: Vec<(String, SessionSlot<S>)> = Vec::new();
        std::mem::swap(&mut rest, &mut self.sessions);
        let mut kept: Vec<(String, SessionSlot<S>)> = Vec::new();
        let mut swept: Vec<(String, SessionSlot<S>)> = Vec::new();
        let mut i: usize = 0;
        let n = rest.len();
        assert(s0.subrange(0, n as int) =~= s0);
        while i < n
            invariant
                n == s0.len(),
                i <= n,
                rest@ == s0.subrange(i as int, n as int),
                kept@ == sweep_split(s0.take(i as int), now_ms).0,
                swept@ == sweep_split(s0.take(i as int), now_ms).1,
            decreases n - i,
        {
            let e = rest.remove(0);
            assert(e == s0[i as int]);
            assert(rest@ =~= s0.subrange(i + 1, n as int));
            assert(s0.take(i + 1).drop_last() =~= s0.take(i as int));
            if slot_is_idle(&e.1, now_ms) {
                swept.push(e);
            } else {
                kept.push(e);
            }
            i = i + 1;
        }
        assert(s0.take(n as int) =~= s0);
        self.sessions = kept;
        proof {
            lemma_sweep_split_unique(s0, now_ms);
        }
        // Record each archived session, in order.
        let mut j: usize = 0;
        while j < swept.len()
            invariant
                j <= swept.len(),
                self.sessions@ == sweep_split(s0, now_ms).0,
                keys_unique(self.sessions@),
                keys_unique(self.archived@),
                self.max_in_memory_sessions == old(self).max_in_memory_sessions,
                forall|k: Seq<char>|
                    #![trigger lookup(self.archived@, k)]
                    !has_key(swept@.take(j as int), k) ==> lookup(self.archived@, k) == lookup(
                        a0,
                        k,
                    ),
                forall|k: Seq<char>|
                    #![trigger lookup(self.archived@, k)]
                    has_key(swept@.take(j as int), k) ==> (lookup(self.archived@, k) matches Some(
                        rec,
                    ) && rec.reason@ == "idle_timeout"@),
            decreases swept.len() - j,
        {
            let id = swept[j].0.clone();
            let at = now_unix_ms();
            proof {
                crate::assoc::lemma_lookup_take_push(swept@, j as int);
            }
            self.put_record(id, ArchivedSessionRecord { archived_at_ms: at, reason: string_of("idle_timeout") });
            j = j + 1;
        }
        assert(swept@.take(swept.len() as int) =~= swept@);
        swept
    }

    /// Sweeps idle sessions as of `now_ms`, or as of now when it is `None`.
    pub fn sweep_sessions(&mut self, now_ms: Option<i64>) -> (swept: Vec<(String, SessionSlot<S>)>)
        requires
            old(self).wf(),
        ensures
            final(self).wf(),
            now_ms matches Some(t) ==> final(self).sessions() == sweep_split(
                old(self).sessions(),
                t,
            ).0 && swept@ == sweep_split(old(self).sessions(), t).1,
            exists|t: i64|
                final(self).sessions() == sweep_split(old(self).sessions(), t).0 && swept@
                    == sweep_split(old(self).sessions(), t).1,
    {
        let now = match now_ms {
            Some(t) => t,
            None => now_unix_ms(),
        };
        self.sweep_idle_sessions(now)
    }

    /// While more sessions than the capacity are in memory, archives the
    /// least recently used one that has nothing pending and is not
    /// `protected`; gives the archived sessions back in the order they
    /// went.  A capacity of 0 disables this.
    pub fn enforce_capacity(&mut self, protected: Option<&str>) -> (evicted: Vec<
        (String, SessionSlot<S>),
    >)
        requires
            old(self).wf(),
        ensures
            final(self).wf(),
            final(self).max_sessions() == old(self).max_sessions(),
            old(self).max_sessions() == 0 ==> final(self).sessions() == old(self).sessions()
                && evicted@.len() == 0 && final(self).records() == old(self).records(),
            old(self).max_sessions() > 0 ==> {
                let split = capacity_split(
                    old(self).sessions(),
                    opt_view(protected),
                    old(self).max_sessions(),
                );
                &&& final(self).sessions() == split.0
                &&& evicted@ == split.1
            },
            forall|k: Seq<char>|
                #![trigger lookup(final(self).records(), k)]
                !has_key(evicted@, k) ==> lookup(final(self).records(), k) == lookup(
                    old(self).records(),
                    k,
                ),
            forall|k: Seq<char>|
                #![trigger lookup(final(self).records(), k)]
                has_key(evicted@, k) ==> (lookup(final(self).records(), k) matches Some(rec)
                    && rec.reason@ == "capacity_pressure"@),
    {
        let mut evicted: Vec<(String, SessionSlot<S>)> = Vec::new();
        if self.max_in_memory_sessions == 0 {
            return evicted;
        }
        let ghost p = opt_view(protected);
        let ghost max = self.max_in_memory_sessions as nat;
        let ghost target = capacity_split(self.sessions@, p, max);
        let ghost a0 = self.archived@;
        while self.sessions.len() > self.max_in_memory_sessions
            invariant
                keys_unique(self.sessions@),
                keys_unique(self.archived@),
                max == self.max_in_memory_sessions,
                max > 0,
                p == opt_view(protected),
                capacity_split(self.sessions@, p, max).0 == target.0,
                evicted@ + capacity_split(self.sessions@, p, max).1 == target.1,
                forall|k: Seq<char>|
                    #![trigger lookup(self.archived@, k)]
                    !has_key(evicted@, k) ==> lookup(self.archived@, k) == lookup(a0, k),
                forall|k: Seq<char>|
                    #![trigger lookup(self.archived@, k)]
                    has_key(evicted@, k) ==> (lookup(self.archived@, k) matches Some(rec)
                        && rec.reason@ == "capacity_pressure"@),
            ensures
                capacity_split(self.sessions@, p, max) == (
                    self.sessions@,
                    Seq::<(String, SessionSlot<S>)>::empty(),
                ),
            decreases self.sessions.len(),
        {
            let c = self.lru_index(protected);
            proof {
                lemma_lru_pos(self.sessions@, p);
            }
            match c {
                None => {
                    break ;
                },
                Some(i) => {
                    let ghost cur = self.sessions@;
                    let ghost ev0 = evicted@;
                    let (id, slot) = self.sessions.remove(i);
                    assert(keys_unique(self.sessions@)) by {
                        assert forall|a: int, b: int|
                            0 <= a < b < self.sessions@.len() implies self.sessions@[a].0@
                            != self.sessions@[b].0@ by {
                            let a0 = if a < i { a } else { a + 1 };
                            let b0 = if b < i { b } else { b + 1 };
                            assert(self.sessions@[a] == cur[a0]);
                            assert(self.sessions@[b] == cur[b0]);
                        }
                    }
                    let rid = id.clone();
                    let at = now_unix_ms();
                    self.put_record(
                        rid,
                        ArchivedSessionRecord { archived_at_ms: at, reason: string_of("capacity_pressure") },
                    );
                    let e = (id, slot);
                    evicted.push(e);
                    proof {
                        assert(e == cur[i as int]);
                        assert(capacity_split(cur, p, max).1 == seq![cur[i as int]]
                            + capacity_split(self.sessions@, p, max).1);
                        assert(evicted@ =~= ev0 + seq![cur[i as int]]);
                        assert(evicted@ + capacity_split(self.sessions@, p, max).1 =~= ev0
                            + capacity_split(cur, p, max).1);
                        assert forall|k: Seq<char>| #[trigger] has_key(evicted@, k) == (has_key(ev0, k) || k == e.0@) by {
                            assert(evicted@ == ev0.push(e));
                            crate::assoc::lemma_lookup_take_push(evicted@, ev0.len() as int);
                            assert(evicted@.take(ev0.len() as int + 1) =~= evicted@);
                            assert(evicted@.take(ev0.len() as int) =~= ev0);
                        }
                    }
                },
            }
        }
        evicted
    }

    /// Position of the least recently used evictable session.
    fn lru_index(&self, protected: Option<&str>) -> (r: Option<usize>)
        ensures
            match r {
                Some(i) => i == lru_pos(self.sessions(), opt_view(protected)),
                None => lru_pos(self.sessions(), opt_view(protected)) == -1,
            },
    {
        let ghost p = opt_view(protected);
        let mut best: Option<usize> = None;
        let mut i: usize = 0;
        while i < self.sessions.len()
            invariant
                i <= self.sessions.len(),
                p == opt_view(protected),
                match best {
                    Some(b) => b == lru_pos(self.sessions@.take(i as int), p) && b < i,
                    None => lru_pos(self.sessions@.take(i as int), p) == -1,
                },
            decreases self.sessions.len() - i,
        {
            let ghost t = self.sessions@.take(i + 1);
            assert(t.drop_last() =~= self.sessions@.take(i as int));
            assert(t.last() == self.sessions@[i as int]);
            assert(t.len() == i + 1);
            let e = &self.sessions[i];
            let is_protected = match protected {
                Some(pid) => str_eq(e.0.as_str(), pid),
                None => false,
            };
            if e.1.pending_llm_chunks == 0 && !is_protected {
                match best {
                    None => {
                        best = Some(i);
                    },
                    Some(b) => {
                        assert(t[b as int] == self.sessions@[b as int]);
                        if e.1.last_touched_ms < self.sessions[b].1.last_touched_ms {
                            best = Some(i);
                        }
                    },
                }
            } else {
                match best {
                    Some(b) => {
                        assert(t[b as int] == self.sessions@[b as int]);
                    },
                    None => {},
                }
            }
            i = i + 1;
        }
        assert(self.sessions@.take(self.sessions.len() as int) =~= self.sessions@);
        best
    }

    /// Forgets session `session_id`: removes it from memory and drops its
    /// archive record; tells whether it was in memory.
    pub fn reset_session(&mut self, session_id: &str) -> (removed: bool)
        requires
            old(self).wf(),
        ensures
            final(self).wf(),
            removed == has_key(old(self).sessions(), session_id@),
            final(self).sessions() == if removed {
                old(self).sessions().remove(
                    crate::assoc::key_pos(old(self).sessions(), session_id@) as int,
                )
            } else {
                old(self).sessions()
            },
            forall|k: Seq<char>|
                #![trigger lookup(final(self).records(), k)]
                lookup(final(self).records(), k) == if k == session_id@ {
                    None
                } else {
                    lookup(old(self).records(), k)
                },
            final(self).max_sessions() == old(self).max_sessions(),
    {
        let i = key_index(&self.sessions, session_id);
        proof {
            lemma_key_pos(self.sessions@, session_id@);
            lemma_key_pos(self.archived@, session_id@);
        }
        let removed = i < self.sessions.len();
        if removed {
            let ghost before = self.sessions@;
            self.sessions.remove(i);
            proof {
                crate::assoc::lemma_lookup_after_remove(before, i as int);
            }
        }
        let j = key_index(&self.archived, session_id);
        if j < self.archived.len() {
            let ghost before = self.archived@;
            self.archived.remove(j);
            proof {
                crate::assoc::lemma_lookup_after_remove(before, j as int);
            }
        } else {
            assert forall|k: Seq<char>| #[trigger] lookup(self.archived@, k) == if k == session_id@ {
                None
            } else {
                lookup(self.archived@, k)
            } by {}
        }
        removed
    }

    /// The state of session `session_id`.  A session not in memory is an
    /// error, logged to its log (source `wasm_agent`): `SessionArchived`
    /// (warning) when it was archived, `SessionNotFound` (error) otherwise.
    pub fn state_of(&self, reg: &mut LogRegistry, session_id: &str) -> (r: Result<&S, AgentRunnerError>)
        requires
            old(reg).wf(),
        ensures
            final(reg).wf(),
            has_key(self.sessions(), session_id@) ==> (r matches Ok(st) && lookup(
                self.sessions(),
                session_id@,
            )->0.state == *st) && final(reg)@ == old(reg)@,
            !has_key(self.sessions(), session_id@) && has_key(self.records(), session_id@) ==> (r
                matches Err(AgentRunnerError::SessionArchived(m)) && m@ == "Session '"@
                + session_id@ + "' is archived in host storage"@) && old(reg)@.logged_at_some_time(
                final(reg)@,
                session_id@,
                LogLevel::Warn,
                "get_state called on archived session"@,
                Some("wasm_agent"@),
                None,
            ),
            !has_key(self.sessions(), session_id@) && !has_key(self.records(), session_id@) ==> (r
                matches Err(AgentRunnerError::SessionNotFound(m)) && m@ == session_id@)
                && old(reg)@.logged_at_some_time(
                final(reg)@,
                session_id@,
                LogLevel::Error,
                "get_state: session not found"@,
                Some("wasm_agent"@),
                None,
            ),
    {
        let i = key_index(&self.sessions, session_id);
        if i < self.sessions.len() {
            return Ok(&self.sessions[i].1.state);
        }
        let logger = Logger::new(session_id);
        if key_index(&self.archived, session_id) < self.archived.len() {
            logger.log_with_source(reg, LogLevel::Warn, "wasm_agent", "get_state called on archived session");
            let mut m = string_of("Session '");
            push_str(&mut m, session_id);
            push_str(&mut m, "' is archived in host storage");
            return Err(AgentRunnerError::SessionArchived(m));
        }
        logger.log_with_source(reg, LogLevel::Error, "wasm_agent", "get_state: session not found");
        Err(AgentRunnerError::SessionNotFound(string_of(session_id)))
    }

    /// Fails with `SessionArchived` when session `session_id` is not in
    /// memory but was archived: the host must restore it before it can
    /// take a turn.
    pub fn require_in_memory(&self, session_id: &str) -> (r: Result<(), AgentRunnerError>)
        ensures
            !has_key(self.sessions(), session_id@) && has_key(self.records(), session_id@) ==> (
            r matches Err(AgentRunnerError::SessionArchived(m)) && m@ == archived_error_text(
                session_id@,
            )),
            has_key(self.sessions(), session_id@) || !has_key(self.records(), session_id@) ==> r
                is Ok,
    {
        if !self.contains(session_id) && key_index(&self.archived, session_id) < self.archived.len() {
            let mut m = string_of("Session '");
            push_str(&mut m, session_id);
            push_str(&mut m, "' archived and not in RAM");
            return Err(AgentRunnerError::SessionArchived(m));
        }
        Ok(())
    }
}

/// The text of an optional string.
pub open spec fn opt_view(o: Option<&str>) -> Option<Seq<char>> {
    match o {
        Some(s) => Some(s@),
        None => None,
    }
}

/// Whether a session is idle at `now_ms`.
pub fn slot_is_idle<S>(slot: &SessionSlot<S>, now_ms: i64) -> (r: bool)
    ensures
        r == is_idle(*slot, now_ms),
{
    if slot.pending_llm_chunks != 0 || slot.session_timeout_secs == 0 {
        return false;
    }
    let timeout_ms: i64 = slot.session_timeout_secs as i64 * 1000;
    let d: i128 = now_ms as i128 - slot.last_touched_ms as i128;
    let elapsed: i64 = if d > i64::MAX as i128 {
        i64::MAX
    } else if d < i64::MIN as i128 {
        i64::MIN
    } else {
        d as i64
    };
    elapsed > timeout_ms
}

/// The sessions that a sweep keeps still have distinct ids.
proof fn lemma_sweep_split_unique<S>(s: Seq<(String, SessionSlot<S>)>, now_ms: i64)
    requires
        keys_unique(s),
    ensures
        keys_unique(sweep_split(s, now_ms).0),
        forall|x: (String, SessionSlot<S>)| sweep_split(s, now_ms).0.contains(x) ==> s.contains(x),
    decreases s.len(),
{
    if s.len() > 0 {
        let t = s.drop_last();
        assert forall|i: int, j: int| 0 <= i < j < t.len() implies t[i].0@ != t[j].0@ by {
            assert(t[i] == s[i] && t[j] == s[j]);
        }
        lemma_sweep_split_unique(t, now_ms);
        let k = sweep_split(t, now_ms).0;
        if !is_idle(s.last().1, now_ms) {
            assert forall|i: int, j: int| 0 <= i < j < k.len() + 1 implies k.push(s.last())[i].0@
                != k.push(s.last())[j].0@ by {
                if j == k.len() {
                    assert(k.contains(k[i]));
                    let w = choose|w: int| 0 <= w < s.len() && s[w] == k[i];
                    assert(t.contains(k[i]));
                    let w2 = choose|w2: int| 0 <= w2 < t.len() && t[w2] == k[i];
                    assert(t[w2] == s[w2]);
                    assert(s[w2].0@ != s[s.len() - 1].0@);
                }
            }
            assert forall|x: (String, SessionSlot<S>)| k.push(s.last()).contains(x) implies s.contains(x) by {
                if x == s.last() {
                    assert(s[s.len() - 1] == x);
                } else {
                    let w = choose|w: int| 0 <= w < k.len() + 1 && k.push(s.last())[w] == x;
                    assert(k[w] == x);
                    assert(k.contains(x));
                    assert(t.contains(x));
                    let w2 = choose|w2: int| 0 <= w2 < t.len() && t[w2] == x;
                    assert(s[w2] == x);
                }
            }
        } else {
            assert forall|x: (String, SessionSlot<S>)| k.contains(x) implies s.contains(x) by {
                assert(t.contains(x));
                let w2 = choose|w2: int| 0 <= w2 < t.len() && t[w2] == x;
                assert(s[w2] == x);
            }
        }
    }
}

/// A sweep keeps each kept session's slot as it was.
pub proof fn lemma_sweep_keeps_slots<S>(s: Seq<(String, SessionSlot<S>)>, now_ms: i64, k: Seq<char>)
    requires
        keys_unique(s),
    ensures
        has_key(sweep_split(s, now_ms).0, k) ==> lookup(sweep_split(s, now_ms).0, k) == lookup(s, k),
{
    let t = sweep_split(s, now_ms).0;
    lemma_sweep_split_unique(s, now_ms);
    if has_key(t, k) {
        let p = crate::assoc::key_pos(t, k) as int;
        crate::assoc::lemma_key_pos(t, k);
        assert(t.contains(t[p]));
        crate::assoc::lemma_lookup_member(s, t[p]);
    }
}

/// An idle sweep partitions the sessions: every archived session is idle,
/// every kept one is not, and none is lost.
pub proof fn lemma_sweep_partition<S>(s: Seq<(String, SessionSlot<S>)>, now_ms: i64)
    ensures
        sweep_split(s, now_ms).0.len() + sweep_split(s, now_ms).1.len() == s.len(),
        forall|j: int|
            0 <= j < sweep_split(s, now_ms).1.len() ==> is_idle(
                #[trigger] sweep_split(s, now_ms).1[j].1,
                now_ms,
            ),
        forall|j: int|
            0 <= j < sweep_split(s, now_ms).0.len() ==> !is_idle(
                #[trigger] sweep_split(s, now_ms).0[j].1,
                now_ms,
            ),
    decreases s.len(),
{
    if s.len() > 0 {
        lemma_sweep_partition(s.drop_last(), now_ms);
        let r = sweep_split(s.drop_last(), now_ms);
        if is_idle(s.last().1, now_ms) {
            assert forall|j: int| 0 <= j < r.1.len() + 1 implies is_idle(
                #[trigger] r.1.push(s.last())[j].1,
                now_ms,
            ) by {
                if j < r.1.len() {
                    assert(r.1.push(s.last())[j] == r.1[j]);
                }
            }
        } else {
            assert forall|j: int| 0 <= j < r.0.len() + 1 implies !is_idle(
                #[trigger] r.0.push(s.last())[j].1,
                now_ms,
            ) by {
                if j < r.0.len() {
                    assert(r.0.push(s.last())[j] == r.0[j]);
                }
            }
        }
    }
}

/// Every session that capacity pressure keeps was one of the sessions.
pub proof fn lemma_capacity_members<S>(
    s: Seq<(String, SessionSlot<S>)>,
    protected: Option<Seq<char>>,
    max: nat,
)
    ensures
        forall|j: int|
            0 <= j < capacity_split(s, protected, max).0.len() ==> s.contains(
                #[trigger] capacity_split(s, protected, max).0[j],
            ),
    decreases s.len(),
{
    lemma_lru_pos(s, protected);
    if s.len() <= max || lru_pos(s, protected) < 0 {
        assert forall|j: int| 0 <= j < s.len() implies s.contains(#[trigger] s[j]) by {}
    } else {
        let i = lru_pos(s, protected);
        let t = s.remove(i);
        lemma_capacity_members(t, protected, max);
        let k = capacity_split(t, protected, max).0;
        assert forall|j: int| 0 <= j < k.len() implies s.contains(#[trigger] k[j]) by {
            let w = choose|w: int| 0 <= w < t.len() && t[w] == k[j];
            if w < i {
                assert(s[w] == t[w]);
            } else {
                assert(s[w + 1] == t[w]);
            }
        }
    }
}

/// Capacity pressure archives least recently used sessions first: every
/// archived session was touched no later than any session it kept that
/// it could have archived.
pub proof fn lemma_capacity_lru<S>(s: Seq<(String, SessionSlot<S>)>, protected: Option<Seq<char>>, max: nat)
    ensures
        forall|a: int, k: int|
            0 <= a < capacity_split(s, protected, max).1.len() && 0 <= k < capacity_split(
                s,
                protected,
                max,
            ).0.len() && evictable(#[trigger] capacity_split(s, protected, max).0[k], protected)
                ==> (#[trigger] capacity_split(s, protected, max).1[a]).1.last_touched_ms
                <= capacity_split(s, protected, max).0[k].1.last_touched_ms,
    decreases s.len(),
{
    lemma_lru_pos(s, protected);
    if s.len() <= max || lru_pos(s, protected) < 0 {
    } else {
        let i = lru_pos(s, protected);
        let t = s.remove(i);
        lemma_capacity_lru(t, protected, max);
        lemma_capacity_members(t, protected, max);
        let r = capacity_split(t, protected, max);
        let ev = seq![s[i]] + r.1;
        assert(capacity_split(s, protected, max).1 == ev);
        assert(capacity_split(s, protected, max).0 == r.0);
        assert forall|a: int, k: int|
            0 <= a < ev.len() && 0 <= k < r.0.len() && evictable(#[trigger] r.0[k], protected) implies (
            #[trigger] ev[a]).1.last_touched_ms <= r.0[k].1.last_touched_ms by {
            if a == 0 {
                let w = choose|w: int| 0 <= w < t.len() && t[w] == r.0[k];
                let x = if w < i { w } else { w + 1 };
                assert(s[x] == t[w]);
                assert(evictable(s[x], protected));
            } else {
                assert(ev[a] == r.1[a - 1]);
            }
        }
    }
}

/// Capacity pressure leaves at most `max` sessions unless every remaining
/// session is pending or protected; it archives only sessions that have
/// nothing pending and are not the protected one (so never the protected
/// session); and it loses none.
pub proof fn lemma_capacity_bound<S>(
    s: Seq<(String, SessionSlot<S>)>,
    protected: Option<Seq<char>>,
    max: nat,
)
    ensures
        capacity_split(s, protected, max).0.len() + capacity_split(s, protected, max).1.len()
            == s.len(),
        capacity_split(s, protected, max).0.len() <= max || forall|j: int|
            0 <= j < capacity_split(s, protected, max).0.len() ==> !evictable(
                #[trigger] capacity_split(s, protected, max).0[j],
                protected,
            ),
        forall|j: int|
            0 <= j < capacity_split(s, protected, max).1.len() ==> evictable(
                #[trigger] capacity_split(s, protected, max).1[j],
                protected,
            ),
    decreases s.len(),
{
    lemma_lru_pos(s, protected);
    if s.len() <= max || lru_pos(s, protected) < 0 {
    } else {
        let i = lru_pos(s, protected);
        lemma_capacity_bound(s.remove(i), protected, max);
        let r = capacity_split(s.remove(i), protected, max);
        assert forall|j: int| 0 <= j < r.1.len() + 1 implies evictable(
            #[trigger] (seq![s[i]] + r.1)[j],
            protected,
        ) by {
            if j > 0 {
                assert((seq![s[i]] + r.1)[j] == r.1[j - 1]);
            }
        }
    }
}

/// Capacity pressure never archives the protected session.
pub proof fn lemma_capacity_keeps_protected<S>(
    s: Seq<(String, SessionSlot<S>)>,
    protected: Seq<char>,
    max: nat,
)
    requires
        has_key(s, protected),
    ensures
        has_key(capacity_split(s, Some(protected), max).0, protected),
        keys_unique(s) ==> lookup(capacity_split(s, Some(protected), max).0, protected) == lookup(
            s,
            protected,
        ),
    decreases s.len(),
{
    lemma_lru_pos(s, Some(protected));
    if s.len() <= max || lru_pos(s, Some(protected)) < 0 {
    } else {
        let i = lru_pos(s, Some(protected));
        lemma_key_pos(s, protected);
        let p = crate::assoc::key_pos(s, protected) as int;
        assert(s[i].0@ != protected);
        let q = if p < i { p } else { p - 1 };
        assert(s.remove(i)[q] == s[p]);
        crate::assoc::lemma_has_key_at(s.remove(i), protected, q);
        if keys_unique(s) {
            crate::assoc::lemma_lookup_after_remove(s, i);
        }
        lemma_capacity_keeps_protected(s.remove(i), protected, max);
    }
}

} // verus!
