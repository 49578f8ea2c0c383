//! Per-session log buffers and the registry that holds them.
//!
//! A [`LogBuffer`] keeps the most recent entries of one session, up to its
//! capacity, evicting the oldest entry when a new one would overflow it.
//! A [`LogRegistry`] owns one buffer per session id and remembers the
//! active session; [`Logger`] is a handle naming one session in a registry.
use vstd::prelude::*;
use crate::clock::now_rfc3339;
use crate::log_entries::{copy_entries, entries_view, is_query_result, opt_view, query_entries, EntryView, LogBatch, LogEntry, LogFilter, LogLevel};
use crate::text::{copy_string, str_eq, string_of};

verus! {

/// Capacity of a buffer created without an explicit one.
pub const DEFAULT_LOG_CAPACITY: usize = 1000;

/// The last `n` items of `s` (all of `s` when it is shorter).
pub open spec fn keep_last<T>(s: Seq<T>, n: nat) -> Seq<T> {
    if s.len() <= n {
        s
    } else {
        s.skip(s.len() - n)
    }
}

/// The sequence number that follows `n`, wrapping after `u64::MAX`.
pub open spec fn next_sequence(n: nat) -> nat {
    if n >= u64::MAX {
        0
    } else {
        n + 1
    }
}

/// Content of a buffer.
pub struct BufferState {
    pub session_id: Seq<char>,
    pub capacity: nat,
    /// Retained entries, oldest first.
    pub entries: Seq<EntryView>,
    /// Sequence number of the next entry.
    pub next_sequence: nat,
}

impl BufferState {
    pub open spec fn inv(self) -> bool {
        self.entries.len() <= self.capacity && self.next_sequence <= u64::MAX
    }

    /// An empty buffer.
    pub open spec fn fresh(session_id: Seq<char>, capacity: nat) -> BufferState {
        BufferState { session_id, capacity, entries: Seq::empty(), next_sequence: 0 }
    }

    /// The entry that a write records next.
    pub open spec fn next_entry(
        self,
        level: LogLevel,
        message: Seq<char>,
        source: Option<Seq<char>>,
        context: Option<Seq<char>>,
        timestamp: Seq<char>,
    ) -> EntryView {
        EntryView {
            level,
            message,
            timestamp,
            session_id: Some(self.session_id),
            source,
            context,
            sequence: self.next_sequence,
        }
    }

    /// The buffer after recording one entry: the entry is appended and the
    /// oldest entries are dropped beyond the capacity.
    pub open spec fn logged(
        self,
        level: LogLevel,
        message: Seq<char>,
        source: Option<Seq<char>>,
        context: Option<Seq<char>>,
        timestamp: Seq<char>,
    ) -> BufferState {
        BufferState {
            entries: keep_last(
                self.entries.push(self.next_entry(level, message, source, context, timestamp)),
                self.capacity,
            ),
            next_sequence: next_sequence(self.next_sequence),
            ..self
        }
    }

    /// The buffer with its entries removed.
    pub open spec fn cleared(self) -> BufferState {
        BufferState { entries: Seq::empty(), ..self }
    }
}

/// The retained entries of one session.
pub struct LogBuffer {
    session_id: String,
    capacity: usize,
    entries: Vec<LogEntry>,
    next_sequence: u64,
}

impl View for LogBuffer {
    type V = BufferState;

    closed spec fn view(&self) -> BufferState {
        BufferState {
            session_id: self.session_id@,
            capacity: self.capacity as nat,
            entries: entries_view(self.entries@),
            next_sequence: self.next_sequence as nat,
        }
    }
}

impl LogBuffer {
    pub open spec fn wf(&self) -> bool {
        self@.inv()
    }

    /// An empty buffer for `session_id` keeping at most `capacity` entries.
    pub fn new(session_id: &str, capacity: usize) -> (b: LogBuffer)
        ensures
            b@ == BufferState::fresh(session_id@, capacity as nat),
            b.wf(),
    {
        let b = LogBuffer {
            session_id: string_of(session_id),
            capacity,
            entries: Vec::new(),
            next_sequence: 0,
        };
        assert(entries_view(b.entries@) =~= Seq::empty());
        b
    }

    pub fn session_id(&self) -> (r: &str)
        ensures
            r@ == self@.session_id,
    {
        self.session_id.as_str()
    }

    /// Number of retained entries.
    pub fn len(&self) -> (r: usize)
        ensures
            r == self@.entries.len(),
    {
        self.entries.len()
    }

    pub fn is_empty(&self) -> (r: bool)
        ensures
            r == (self@.entries.len() == 0),
    {
        self.entries.len() == 0
    }

    /// Records an entry stamped with `timestamp`.
    pub fn append_at(
        &mut self,
        level: LogLevel,
        message: String,
        source: Option<String>,
        context: Option<String>,
        timestamp: String,
    )
        requires
            old(self).wf(),
        ensures
            final(self).wf(),
            final(self)@ == old(self)@.logged(
                level,
                message@,
                opt_view(source),
                opt_view(context),
                timestamp@,
            ),
    {
        let ghost old_view = self@;
        let e = LogEntry {
            level,
            message,
            timestamp,
            session_id: Some(copy_string(&self.session_id)),
            source,
            context,
            sequence: self.next_sequence,
        };
        let ghost pushed = old_view.entries.push(e@);
        assert(e@ == old_view.next_entry(
            level,
            e.message@,
            opt_view(e.source),
            opt_view(e.context),
            e.timestamp@,
        ));
        self.entries.push(e);
        assert(entries_view(self.entries@) =~= pushed);
        if self.entries.len() > self.capacity {
            self.entries.remove(0);
            assert(entries_view(self.entries@) =~= pushed.skip(1));
        }
        self.next_sequence = if self.next_sequence == u64::MAX {
            0
        } else {
            self.next_sequence + 1
        };
        assert(self@.entries =~= keep_last(pushed, old_view.capacity));
    }

    /// The entries that `filter` selects, paged.
    pub fn query(&self, filter: &LogFilter) -> (b: LogBatch)
        ensures
            is_query_result(b, self@.entries, filter@),
    {
        query_entries(&self.entries, filter)
    }

    /// The newest `count` entries, oldest first.
    pub fn latest(&self, count: usize) -> (r: Vec<LogEntry>)
        ensures
            entries_view(r@) == keep_last(self@.entries, count as nat),
    {
        let n = self.entries.len();
        let start: usize = if count >= n {
            0
        } else {
            n - count
        };
        let r = copy_entries(&self.entries, start, n);
        assert(entries_view(self.entries@).subrange(start as int, n as int) =~= keep_last(
            self@.entries,
            count as nat,
        ));
        r
    }

    /// Removes every entry.
    pub fn clear(&mut self)
        requires
            old(self).wf(),
        ensures
            final(self).wf(),
            final(self)@ == old(self)@.cleared(),
    {
        self.entries.clear();
        assert(entries_view(self.entries@) =~= Seq::empty());
    }
}

// ---------------------------------------------------------------------------
// Registry
// ---------------------------------------------------------------------------

/// Content of a registry.
pub struct RegistryState {
    /// Session that logging without an explicit session writes to.
    pub active_session: Seq<char>,
    /// One buffer per session id.
    pub buffers: Map<Seq<char>, BufferState>,
}

impl RegistryState {
    pub open spec fn inv(self) -> bool {
        forall|k: Seq<char>| #[trigger]
            self.buffers.contains_key(k) ==> self.buffers[k].inv() && self.buffers[k].session_id
                == k
    }

    /// The registry with a buffer for `k`, created empty at the default
    /// capacity when missing.
    pub open spec fn with_buffer(self, k: Seq<char>) -> RegistryState {
        if self.buffers.contains_key(k) {
            self
        } else {
            RegistryState {
                buffers: self.buffers.insert(
                    k,
                    BufferState::fresh(k, DEFAULT_LOG_CAPACITY as nat),
                ),
                ..self
            }
        }
    }

    /// The registry after recording an entry in session `k` (creating its
    /// buffer if needed).
    pub open spec fn logged(
        self,
        k: Seq<char>,
        level: LogLevel,
        message: Seq<char>,
        source: Option<Seq<char>>,
        context: Option<Seq<char>>,
        timestamp: Seq<char>,
    ) -> RegistryState {
        let s = self.with_buffer(k);
        RegistryState {
            buffers: s.buffers.insert(
                k,
                s.buffers[k].logged(level, message, source, context, timestamp),
            ),
            ..s
        }
    }

    /// Whether the registry is `self` after recording an entry in session
    /// `k` at some time.
    pub open spec fn logged_at_some_time(
        self,
        after: RegistryState,
        k: Seq<char>,
        level: LogLevel,
        message: Seq<char>,
        source: Option<Seq<char>>,
        context: Option<Seq<char>>,
    ) -> bool {
        exists|ts: Seq<char>| after == self.logged(k, level, message, source, context, ts)
    }

    /// Whether `states` runs from the registry `self` through the recording
    /// of `messages` in session `k`, in order, at `level` with source
    /// `source`: one state more than messages, each the one before with the
    /// next message recorded.
    pub open spec fn logging_run(
        self,
        states: Seq<RegistryState>,
        k: Seq<char>,
        level: LogLevel,
        messages: Seq<Seq<char>>,
        source: Option<Seq<char>>,
    ) -> bool {
        &&& states.len() == messages.len() + 1
        &&& states[0] == self
        &&& forall|i: int|
            0 <= i < messages.len() ==> (#[trigger] states[i]).logged_at_some_time(
                states[i + 1],
                k,
                level,
                messages[i],
                source,
                None,
            )
    }

    /// Whether the registry is `after` once `messages` have been recorded in
    /// session `k`, in order, at `level` with source `source`.
    pub open spec fn logged_all(
        self,
        after: RegistryState,
        k: Seq<char>,
        level: LogLevel,
        messages: Seq<Seq<char>>,
        source: Option<Seq<char>>,
    ) -> bool {
        exists|states: Seq<RegistryState>|
            #[trigger] self.logging_run(states, k, level, messages, source) && states.last() == after
    }

    /// Recording no message leaves the registry as it is.
    pub proof fn lemma_logged_none(self, k: Seq<char>, level: LogLevel, source: Option<Seq<char>>)
        ensures
            self.logged_all(self, k, level, Seq::empty(), source),
    {
        assert(self.logging_run(seq![self], k, level, Seq::empty(), source));
    }

    /// Recording one more message after a run of them extends the run.
    pub proof fn lemma_logged_all_push(
        self,
        mid: RegistryState,
        after: RegistryState,
        k: Seq<char>,
        level: LogLevel,
        messages: Seq<Seq<char>>,
        source: Option<Seq<char>>,
    )
        requires
            messages.len() > 0,
            self.logged_all(mid, k, level, messages.drop_last(), source),
            mid.logged_at_some_time(after, k, level, messages.last(), source, None),
        ensures
            self.logged_all(after, k, level, messages, source),
    {
        let states = choose|states: Seq<RegistryState>|
            #[trigger] self.logging_run(states, k, level, messages.drop_last(), source)
                && states.last() == mid;
        let run = states.push(after);
        assert forall|i: int| 0 <= i < messages.len() implies (#[trigger] run[i]).logged_at_some_time(
            run[i + 1],
            k,
            level,
            messages[i],
            source,
            None,
        ) by {
            if i < messages.len() - 1 {
                assert(run[i] == states[i] && run[i + 1] == states[i + 1]);
                assert(messages[i] == messages.drop_last()[i]);
                assert(states[i].logged_at_some_time(
                    states[i + 1],
                    k,
                    level,
                    messages.drop_last()[i],
                    source,
                    None,
                ));
            } else {
                assert(run[i] == mid);
            }
        }
        assert(self.logging_run(run, k, level, messages, source));
    }

    /// Whether `states` runs from the registry `self` through the recording
    /// of `events` in order, each a session, a level, a message and a
    /// source.
    pub open spec fn event_run(
        self,
        states: Seq<RegistryState>,
        events: Seq<(Seq<char>, LogLevel, Seq<char>, Option<Seq<char>>)>,
    ) -> bool {
        &&& states.len() == events.len() + 1
        &&& states[0] == self
        &&& forall|i: int|
            0 <= i < events.len() ==> (#[trigger] states[i]).logged_at_some_time(
                states[i + 1],
                events[i].0,
                events[i].1,
                events[i].2,
                events[i].3,
                None,
            )
    }

    /// Whether the registry is `after` once `events` have been recorded in
    /// order.
    pub open spec fn logged_events(
        self,
        after: RegistryState,
        events: Seq<(Seq<char>, LogLevel, Seq<char>, Option<Seq<char>>)>,
    ) -> bool {
        exists|states: Seq<RegistryState>| #[trigger] self.event_run(states, events) && states.last() == after
    }

    /// Recording no event leaves the registry as it is.
    pub proof fn lemma_logged_no_events(self)
        ensures
            self.logged_events(self, Seq::empty()),
    {
        assert(self.event_run(seq![self], Seq::empty()));
    }

    /// Recording one more event after a run of them extends the run.
    pub proof fn lemma_logged_events_push(
        self,
        mid: RegistryState,
        after: RegistryState,
        events: Seq<(Seq<char>, LogLevel, Seq<char>, Option<Seq<char>>)>,
    )
        requires
            events.len() > 0,
            self.logged_events(mid, events.drop_last()),
            mid.logged_at_some_time(
                after,
                events.last().0,
                events.last().1,
                events.last().2,
                events.last().3,
                None,
            ),
        ensures
            self.logged_events(after, events),
    {
        let states = choose|states: Seq<RegistryState>|
            #[trigger] self.event_run(states, events.drop_last()) && states.last() == mid;
        let run = states.push(after);
        assert forall|i: int| 0 <= i < events.len() implies (#[trigger] run[i]).logged_at_some_time(
            run[i + 1],
            events[i].0,
            events[i].1,
            events[i].2,
            events[i].3,
            None,
        ) by {
            if i < events.len() - 1 {
                assert(run[i] == states[i] && run[i + 1] == states[i + 1]);
                assert(events[i] == events.drop_last()[i]);
            } else {
                assert(run[i] == mid);
            }
        }
        assert(self.event_run(run, events));
    }

    /// The entries retained for session `k` (none when it has no buffer).
    pub open spec fn entries_of(self, k: Seq<char>) -> Seq<EntryView> {
        if self.buffers.contains_key(k) {
            self.buffers[k].entries
        } else {
            Seq::empty()
        }
    }

    /// The registry with session `k`'s entries removed (when it has a buffer).
    pub open spec fn cleared(self, k: Seq<char>) -> RegistryState {
        if self.buffers.contains_key(k) {
            RegistryState { buffers: self.buffers.insert(k, self.buffers[k].cleared()), ..self }
        } else {
            self
        }
    }
}

/// Recording into a session whose buffer was just ensured is recording.
pub proof fn lemma_with_buffer_then_logged(
    r: RegistryState,
    k: Seq<char>,
    level: LogLevel,
    message: Seq<char>,
    source: Option<Seq<char>>,
    context: Option<Seq<char>>,
    timestamp: Seq<char>,
)
    ensures
        r.with_buffer(k).logged(k, level, message, source, context, timestamp) == r.logged(
            k,
            level,
            message,
            source,
            context,
            timestamp,
        ),
{
    assert(r.with_buffer(k).with_buffer(k) == r.with_buffer(k));
}

/// Index of the last buffer of `bufs` for session `k`, or -1.
pub open spec fn index_of(bufs: Seq<BufferState>, k: Seq<char>) -> int
    decreases bufs.len(),
{
    if bufs.len() == 0 {
        -1
    } else if bufs.last().session_id == k {
        bufs.len() - 1
    } else {
        index_of(bufs.drop_last(), k)
    }
}

pub open spec fn ids_unique(bufs: Seq<BufferState>) -> bool {
    forall|i: int, j: int|
        0 <= i < bufs.len() && 0 <= j < bufs.len() && i != j ==> #[trigger] bufs[i].session_id
            != #[trigger] bufs[j].session_id
}

/// The buffers of `bufs` keyed by session id.
pub open spec fn buffers_map(bufs: Seq<BufferState>) -> Map<Seq<char>, BufferState> {
    Map::new(|k: Seq<char>| index_of(bufs, k) >= 0, |k: Seq<char>| bufs[index_of(bufs, k)])
}

pub proof fn lemma_index_of(bufs: Seq<BufferState>, k: Seq<char>)
    ensures
        -1 <= index_of(bufs, k) < bufs.len(),
        index_of(bufs, k) >= 0 ==> bufs[index_of(bufs, k)].session_id == k,
        forall|j: int| index_of(bufs, k) < j < bufs.len() ==> bufs[j].session_id != k,
    decreases bufs.len(),
{
    if bufs.len() > 0 && bufs.last().session_id != k {
        lemma_index_of(bufs.drop_last(), k);
        assert forall|j: int| index_of(bufs, k) < j < bufs.len() implies bufs[j].session_id != k by {
            if j < bufs.len() - 1 {
                assert(bufs.drop_last()[j] == bufs[j]);
            }
        }
    }
}

pub proof fn lemma_index_of_unique(bufs: Seq<BufferState>, k: Seq<char>)
    requires
        ids_unique(bufs),
    ensures
        index_of(bufs, k) == -1 <==> forall|j: int| 0 <= j < bufs.len() ==> bufs[j].session_id != k,
        forall|j: int| 0 <= j < bufs.len() && bufs[j].session_id == k ==> index_of(bufs, k) == j,
{
    lemma_index_of(bufs, k);
    if index_of(bufs, k) == -1 {
    } else {
        let i = index_of(bufs, k);
        assert forall|j: int| 0 <= j < bufs.len() && bufs[j].session_id == k implies i == j by {
            if i != j {
                assert(bufs[i].session_id != bufs[j].session_id);
            }
        }
    }
}

pub proof fn lemma_index_of_update(bufs: Seq<BufferState>, i: int, b: BufferState, k: Seq<char>)
    requires
        0 <= i < bufs.len(),
        b.session_id == bufs[i].session_id,
    ensures
        index_of(bufs.update(i, b), k) == index_of(bufs, k),
    decreases bufs.len(),
{
    let u = bufs.update(i, b);
    if i == bufs.len() - 1 {
        assert(u.drop_last() =~= bufs.drop_last());
    } else {
        assert(u.drop_last() =~= bufs.drop_last().update(i, b));
        lemma_index_of_update(bufs.drop_last(), i, b, k);
    }
}

/// Content of the buffers of a vector.
pub open spec fn buffer_views(v: Seq<LogBuffer>) -> Seq<BufferState> {
    v.map_values(|b: LogBuffer| b@)
}

proof fn lemma_update_buffers(mid: Seq<LogBuffer>, i: int, b: LogBuffer)
    requires
        0 <= i < mid.len(),
        ids_unique(buffer_views(mid)),
        forall|x: int| 0 <= x < mid.len() ==> (#[trigger] mid[x]).wf(),
        b.wf(),
        b@.session_id == mid[i]@.session_id,
    ensures
        ids_unique(buffer_views(mid.update(i, b))),
        forall|x: int| 0 <= x < mid.len() ==> (#[trigger] mid.update(i, b)[x]).wf(),
        buffers_map(buffer_views(mid.update(i, b))) == buffers_map(buffer_views(mid)).insert(
            b@.session_id,
            b@,
        ),
{
    let old_bv = buffer_views(mid);
    let bv = buffer_views(mid.update(i, b));
    assert(bv =~= old_bv.update(i, b@));
    assert forall|k: Seq<char>| index_of(bv, k) == index_of(old_bv, k) by {
        lemma_index_of_update(old_bv, i, b@, k);
    }
    lemma_index_of_unique(old_bv, b@.session_id);
    lemma_index_of(old_bv, b@.session_id);
    assert forall|k: Seq<char>| #[trigger] buffers_map(bv).contains_key(k) implies buffers_map(bv)[k]
        == buffers_map(old_bv).insert(b@.session_id, b@)[k] by {
        lemma_index_of(old_bv, k);
        assert(index_of(bv, k) == index_of(old_bv, k));
        if k != b@.session_id {
            assert(index_of(old_bv, k) != i);
            assert(bv[index_of(bv, k)] == old_bv[index_of(old_bv, k)]);
        } else {
            assert(old_bv[i].session_id == k);
            assert(index_of(old_bv, k) == i);
            assert(bv[i] == b@);
        }
    }
    assert forall|k: Seq<char>| buffers_map(bv).contains_key(k) <==> #[trigger] buffers_map(old_bv).insert(
        b@.session_id,
        b@,
    ).contains_key(k) by {
        assert(index_of(bv, k) == index_of(old_bv, k));
        if k == b@.session_id {
            assert(old_bv[i].session_id == k);
        }
    }
    assert(buffers_map(bv) =~= buffers_map(old_bv).insert(b@.session_id, b@));
    assert forall|x: int, y: int|
        0 <= x < bv.len() && 0 <= y < bv.len() && x != y implies #[trigger] bv[x].session_id
        != #[trigger] bv[y].session_id by {
        assert(old_bv[x].session_id != old_bv[y].session_id);
    }
    assert forall|x: int| 0 <= x < mid.len() implies (#[trigger] mid.update(i, b)[x]).wf() by {
        if x != i {
            assert(mid.update(i, b)[x] == mid[x]);
        }
    }
}

/// Per-session log buffers, and the active session.
pub struct LogRegistry {
    active_session: String,
    buffers: Vec<LogBuffer>,
}

impl View for LogRegistry {
    type V = RegistryState;

    closed spec fn view(&self) -> RegistryState {
        RegistryState {
            active_session: self.active_session@,
            buffers: buffers_map(buffer_views(self.buffers@)),
        }
    }
}

impl LogRegistry {
    pub closed spec fn wf(&self) -> bool {
        &&& ids_unique(buffer_views(self.buffers@))
        &&& forall|i: int| 0 <= i < self.buffers@.len() ==> (#[trigger] self.buffers@[i]).wf()
    }

    /// An empty registry whose active session is `tui`.
    pub fn new() -> (r: LogRegistry)
        ensures
            r.wf(),
            r@.active_session == "tui"@,
            r@.buffers == Map::<Seq<char>, BufferState>::empty(),
    {
        let r = LogRegistry { active_session: string_of("tui"), buffers: Vec::new() };
        assert(r@.buffers =~= Map::<Seq<char>, BufferState>::empty());
        r
    }

    /// The session that logging without an explicit session writes to.
    pub fn active_session(&self) -> (r: String)
        ensures
            r@ == self@.active_session,
    {
        copy_string(&self.active_session)
    }

    /// Makes `session_id` the active session.
    pub fn set_active_session(&mut self, session_id: &str)
        requires
            old(self).wf(),
        ensures
            final(self).wf(),
            final(self)@ == (RegistryState { active_session: session_id@, ..old(self)@ }),
    {
        self.active_session = string_of(session_id);
    }

    /// Number of sessions that have a buffer.
    pub fn logger_count(&self) -> (r: usize)
        requires
            self.wf(),
        ensures
            r == self@.buffers.dom().len(),
    {
        proof {
            self.lemma_dom_len();
        }
        self.buffers.len()
    }

    proof fn lemma_dom_len(&self)
        requires
            self.wf(),
        ensures
            self@.buffers.dom().finite(),
            self@.buffers.dom().len() == self.buffers@.len(),
        decreases self.buffers@.len(),
    {
        let bv = buffer_views(self.buffers@);
        let ids = bv.map_values(|b: BufferState| b.session_id);
        assert forall|i: int, j: int| 0 <= i < ids.len() && 0 <= j < ids.len() && i != j implies ids[i] != ids[j] by {
            assert(bv[i].session_id != bv[j].session_id);
        }
        assert(ids.no_duplicates());
        ids.unique_seq_to_set();
        assert forall|k: Seq<char>| self@.buffers.dom().contains(k) <==> ids.to_set().contains(k) by {
            lemma_index_of(bv, k);
            lemma_index_of_unique(bv, k);
            if ids.to_set().contains(k) {
                let j = choose|j: int| 0 <= j < ids.len() && ids[j] == k;
                assert(bv[j].session_id == k);
            }
            if self@.buffers.dom().contains(k) {
                assert(ids[index_of(bv, k)] == k);
            }
        }
        assert(self@.buffers.dom() =~= ids.to_set());
    }

    /// Position of the buffer for `session_id`.
    fn find(&self, session_id: &str) -> (r: Option<usize>)
        requires
            self.wf(),
        ensures
            match r {
                Some(i) => i as int == index_of(buffer_views(self.buffers@), session_id@)
                    && i < self.buffers@.len(),
                None => index_of(buffer_views(self.buffers@), session_id@) == -1,
            },
            r is Some <==> self@.buffers.contains_key(session_id@),
    {
        let ghost bv = buffer_views(self.buffers@);
        let mut i: usize = self.buffers.len();
        assert(bv.take(bv.len() as int) =~= bv);
        while i > 0
            invariant
                i <= self.buffers@.len(),
                bv == buffer_views(self.buffers@),
                index_of(bv, session_id@) == index_of(bv.take(i as int), session_id@),
            decreases i,
        {
            if str_eq(self.buffers[i - 1].session_id(), session_id) {
                assert(bv.take(i as int).last() == bv[i - 1]);
                return Some(i - 1);
            }
            assert(bv.take(i as int).drop_last() =~= bv.take(i - 1));
            i = i - 1;
        }
        None
    }

    /// Whether `session_id` has a buffer.
    pub fn contains(&self, session_id: &str) -> (r: bool)
        requires
            self.wf(),
        ensures
            r == self@.buffers.contains_key(session_id@),
    {
        self.find(session_id).is_some()
    }

    /// Position of the buffer for `session_id`, created empty at the
    /// default capacity when missing.
    fn ensure(&mut self, session_id: &str) -> (r: usize)
        requires
            old(self).wf(),
        ensures
            final(self).wf(),
            final(self)@ == old(self)@.with_buffer(session_id@),
            r < final(self).buffers@.len(),
            final(self).buffers@[r as int]@.session_id == session_id@,
            index_of(buffer_views(final(self).buffers@), session_id@) == r,
    {
        match self.find(session_id) {
            Some(i) => {
                proof {
                    lemma_index_of(buffer_views(self.buffers@), session_id@);
                }
                i
            },
            None => {
                let ghost old_bv = buffer_views(self.buffers@);
                let ghost old_map = self@.buffers;
                proof {
                    lemma_index_of_unique(old_bv, session_id@);
                }
                let b = LogBuffer::new(session_id, DEFAULT_LOG_CAPACITY);
                self.buffers.push(b);
                let ghost bv = buffer_views(self.buffers@);
                assert(bv =~= old_bv.push(b@));
                assert forall|k: Seq<char>| index_of(bv, k) == (if k == session_id@ {
                    old_bv.len() as int
                } else {
                    index_of(old_bv, k)
                }) by {
                    assert(bv.drop_last() =~= old_bv);
                }
                assert forall|k: Seq<char>| #[trigger] self@.buffers.contains_key(k) implies self@.buffers[k]
                    == old_map.insert(
                    session_id@,
                    BufferState::fresh(session_id@, DEFAULT_LOG_CAPACITY as nat),
                )[k] by {
                    lemma_index_of(old_bv, k);
                    if k != session_id@ {
                        assert(bv[index_of(bv, k)] == old_bv[index_of(old_bv, k)]);
                    } else {
                        assert(bv[old_bv.len() as int] == b@);
                    }
                }
                assert(self@.buffers =~= old_map.insert(
                    session_id@,
                    BufferState::fresh(session_id@, DEFAULT_LOG_CAPACITY as nat),
                ));
                assert forall|i: int, j: int|
                    0 <= i < bv.len() && 0 <= j < bv.len() && i != j implies #[trigger] bv[i].session_id
                    != #[trigger] bv[j].session_id by {
                    if i < old_bv.len() && j < old_bv.len() {
                        assert(bv[i] == old_bv[i] && bv[j] == old_bv[j]);
                    } else if i < old_bv.len() {
                        assert(bv[i] == old_bv[i]);
                    } else {
                        assert(bv[j] == old_bv[j]);
                    }
                }
                assert forall|i: int| 0 <= i < self.buffers@.len() implies (#[trigger] self.buffers@[i]).wf() by {
                    if i < old_bv.len() {
                        assert(self.buffers@[i] == old(self).buffers@[i]);
                    }
                }
                self.buffers.len() - 1
            },
        }
    }

    /// Records an entry stamped with `timestamp` in session `session_id`,
    /// creating its buffer when missing.
    pub fn log_at(
        &mut self,
        session_id: &str,
        level: LogLevel,
        source: Option<String>,
        context: Option<String>,
        message: String,
        timestamp: String,
    )
        requires
            old(self).wf(),
        ensures
            final(self).wf(),
            final(self)@ == old(self)@.logged(
                session_id@,
                level,
                message@,
                opt_view(source),
                opt_view(context),
                timestamp@,
            ),
    {
        let ghost src = opt_view(source);
        let ghost ctx = opt_view(context);
        let ghost msg = message@;
        let ghost ts = timestamp@;
        let i = self.ensure(session_id);
        let ghost mid = self@;
        let ghost mid_bufs = self.buffers@;
        proof {
            lemma_index_of(buffer_views(mid_bufs), session_id@);
            assert(mid.buffers[session_id@] == mid_bufs[i as int]@);
        }
        let mut b = self.buffers.remove(i);
        b.append_at(level, message, source, context, timestamp);
        self.buffers.insert(i, b);
        proof {
            assert(self.buffers@ =~= mid_bufs.update(i as int, b));
            lemma_update_buffers(mid_bufs, i as int, b);
        }
    }

    /// Removes every entry of session `session_id` (when it has a buffer).
    pub fn clear_session(&mut self, session_id: &str)
        requires
            old(self).wf(),
        ensures
            final(self).wf(),
            final(self)@ == old(self)@.cleared(session_id@),
    {
        match self.find(session_id) {
            Some(i) => {
                let ghost mid_bufs = self.buffers@;
                proof {
                    lemma_index_of(buffer_views(mid_bufs), session_id@);
                }
                let mut b = self.buffers.remove(i);
                b.clear();
                self.buffers.insert(i, b);
                proof {
                    assert(self.buffers@ =~= mid_bufs.update(i as int, b));
                    lemma_update_buffers(mid_bufs, i as int, b);
                }
            },
            None => {},
        }
    }

    /// Gives session `session_id` a new empty buffer keeping at most
    /// `capacity` entries, replacing any buffer it had.
    pub fn reset_buffer(&mut self, session_id: &str, capacity: usize)
        requires
            old(self).wf(),
        ensures
            final(self).wf(),
            final(self)@ == (RegistryState {
                buffers: old(self)@.buffers.insert(
                    session_id@,
                    BufferState::fresh(session_id@, capacity as nat),
                ),
                ..old(self)@
            }),
    {
        let i = self.ensure(session_id);
        let ghost mid_bufs = self.buffers@;
        proof {
            lemma_index_of(buffer_views(mid_bufs), session_id@);
        }
        let _old = self.buffers.remove(i);
        let b = LogBuffer::new(session_id, capacity);
        self.buffers.insert(i, b);
        proof {
            assert(self.buffers@ =~= mid_bufs.update(i as int, b));
            lemma_update_buffers(mid_bufs, i as int, b);
            assert(self@.buffers =~= old(self)@.buffers.insert(
                session_id@,
                BufferState::fresh(session_id@, capacity as nat),
            ));
        }
    }

    /// Removes every buffer.
    pub fn clear_all(&mut self)
        requires
            old(self).wf(),
        ensures
            final(self).wf(),
            final(self)@ == (RegistryState {
                buffers: Map::<Seq<char>, BufferState>::empty(),
                ..old(self)@
            }),
    {
        self.buffers.clear();
        assert(self@.buffers =~= Map::<Seq<char>, BufferState>::empty());
    }

    /// The entries of session `session_id` that `filter` selects, paged; an
    /// empty batch when the session has no buffer.
    pub fn query(&self, session_id: &str, filter: &LogFilter) -> (b: LogBatch)
        requires
            self.wf(),
        ensures
            is_query_result(b, self@.entries_of(session_id@), filter@),
    {
        match self.find(session_id) {
            Some(i) => {
                proof {
                    lemma_index_of(buffer_views(self.buffers@), session_id@);
                }
                self.buffers[i].query(filter)
            },
            None => {
                let b = LogBatch { entries: Vec::new(), total_count: 0, has_more: false };
                assert(entries_view(b.entries@) =~= Seq::<EntryView>::empty());
                b
            },
        }
    }

    /// The newest `count` entries of session `session_id`, oldest first.
    pub fn latest(&self, session_id: &str, count: usize) -> (r: Vec<LogEntry>)
        requires
            self.wf(),
        ensures
            entries_view(r@) == keep_last(self@.entries_of(session_id@), count as nat),
    {
        match self.find(session_id) {
            Some(i) => {
                proof {
                    lemma_index_of(buffer_views(self.buffers@), session_id@);
                }
                self.buffers[i].latest(count)
            },
            None => {
                let r: Vec<LogEntry> = Vec::new();
                assert(entries_view(r@) =~= Seq::<EntryView>::empty());
                r
            },
        }
    }

    /// Number of entries retained for session `session_id`.
    pub fn len_of(&self, session_id: &str) -> (r: usize)
        requires
            self.wf(),
        ensures
            r == self@.entries_of(session_id@).len(),
    {
        match self.find(session_id) {
            Some(i) => {
                proof {
                    lemma_index_of(buffer_views(self.buffers@), session_id@);
                }
                self.buffers[i].len()
            },
            None => 0,
        }
    }

    /// Records an entry in session `session_id` stamped with the current time.
    pub fn log(
        &mut self,
        session_id: &str,
        level: LogLevel,
        source: Option<String>,
        context: Option<String>,
        message: String,
    )
        requires
            old(self).wf(),
        ensures
            final(self).wf(),
            old(self)@.logged_at_some_time(
                final(self)@,
                session_id@,
                level,
                message@,
                opt_view(source),
                opt_view(context),
            ),
    {
        let ts = now_rfc3339();
        let ghost tsv = ts@;
        self.log_at(session_id, level, source, context, message, ts);
    }
}


/// A handle on the log of one session in a [`LogRegistry`].
///
/// Handles naming the same session share that session's buffer: whatever
/// one of them records, the others read.
#[derive(Debug, Clone, PartialEq, Eq)]
pub struct Logger {
    session_id: String,
}

impl Logger {
    /// Session named by the handle.
    pub closed spec fn sid(&self) -> Seq<char> {
        self.session_id@
    }

    /// A handle on session `session_id`; its buffer is created at the
    /// default capacity on the first write.
    pub fn new(session_id: &str) -> (l: Logger)
        ensures
            l.sid() == session_id@,
    {
        Logger { session_id: string_of(session_id) }
    }

    /// A handle on session `session_id`, whose buffer is replaced by an
    /// empty one keeping at most `capacity` entries.
    pub fn with_capacity(reg: &mut LogRegistry, session_id: &str, capacity: usize) -> (l: Logger)
        requires
            old(reg).wf(),
        ensures
            final(reg).wf(),
            l.sid() == session_id@,
            final(reg)@ == (RegistryState {
                buffers: old(reg)@.buffers.insert(
                    session_id@,
                    BufferState::fresh(session_id@, capacity as nat),
                ),
                ..old(reg)@
            }),
    {
        reg.reset_buffer(session_id, capacity);
        Logger::new(session_id)
    }

    pub fn session_id(&self) -> (r: &str)
        ensures
            r@ == self.sid(),
    {
        self.session_id.as_str()
    }

    /// Records `message` at `level`.
    pub fn log(&self, reg: &mut LogRegistry, level: LogLevel, message: &str)
        requires
            old(reg).wf(),
        ensures
            final(reg).wf(),
            old(reg)@.logged_at_some_time(final(reg)@, self.sid(), level, message@, None, None),
    {
        reg.log(self.session_id.as_str(), level, None, None, string_of(message));
    }

    pub fn debug(&self, reg: &mut LogRegistry, message: &str)
        requires
            old(reg).wf(),
        ensures
            final(reg).wf(),
            old(reg)@.logged_at_some_time(final(reg)@, self.sid(), LogLevel::Debug, message@, None, None),
    {
        self.log(reg, LogLevel::Debug, message);
    }

    pub fn info(&self, reg: &mut LogRegistry, message: &str)
        requires
            old(reg).wf(),
        ensures
            final(reg).wf(),
            old(reg)@.logged_at_some_time(final(reg)@, self.sid(), LogLevel::Info, message@, None, None),
    {
        self.log(reg, LogLevel::Info, message);
    }

    pub fn warn(&self, reg: &mut LogRegistry, message: &str)
        requires
            old(reg).wf(),
        ensures
            final(reg).wf(),
            old(reg)@.logged_at_some_time(final(reg)@, self.sid(), LogLevel::Warn, message@, None, None),
    {
        self.log(reg, LogLevel::Warn, message);
    }

    pub fn error(&self, reg: &mut LogRegistry, message: &str)
        requires
            old(reg).wf(),
        ensures
            final(reg).wf(),
            old(reg)@.logged_at_some_time(final(reg)@, self.sid(), LogLevel::Error, message@, None, None),
    {
        self.log(reg, LogLevel::Error, message);
    }

    /// Records `message` at `level`, tagged with the module `source`.
    pub fn log_with_source(&self, reg: &mut LogRegistry, level: LogLevel, source: &str, message: &str)
        requires
            old(reg).wf(),
        ensures
            final(reg).wf(),
            old(reg)@.logged_at_some_time(final(reg)@, self.sid(), level, message@, Some(source@), None),
    {
        reg.log(self.session_id.as_str(), level, Some(string_of(source)), None, string_of(message));
    }

    /// Records `message` at `level` with structured `context`.
    pub fn log_with_context(&self, reg: &mut LogRegistry, level: LogLevel, message: &str, context: &str)
        requires
            old(reg).wf(),
        ensures
            final(reg).wf(),
            old(reg)@.logged_at_some_time(final(reg)@, self.sid(), level, message@, None, Some(context@)),
    {
        reg.log(self.session_id.as_str(), level, None, Some(string_of(context)), string_of(message));
    }

    /// The entries of the session that `filter` selects, paged.
    pub fn get_logs(&self, reg: &LogRegistry, filter: &LogFilter) -> (b: LogBatch)
        requires
            reg.wf(),
        ensures
            is_query_result(b, reg@.entries_of(self.sid()), filter@),
    {
        reg.query(self.session_id.as_str(), filter)
    }

    /// The newest `count` entries of the session, oldest first.
    pub fn get_latest(&self, reg: &LogRegistry, count: usize) -> (r: Vec<LogEntry>)
        requires
            reg.wf(),
        ensures
            entries_view(r@) == keep_last(reg@.entries_of(self.sid()), count as nat),
    {
        reg.latest(self.session_id.as_str(), count)
    }

    /// Number of entries retained for the session.
    pub fn len(&self, reg: &LogRegistry) -> (r: usize)
        requires
            reg.wf(),
        ensures
            r == reg@.entries_of(self.sid()).len(),
    {
        reg.len_of(self.session_id.as_str())
    }

    pub fn is_empty(&self, reg: &LogRegistry) -> (r: bool)
        requires
            reg.wf(),
        ensures
            r == (reg@.entries_of(self.sid()).len() == 0),
    {
        reg.len_of(self.session_id.as_str()) == 0
    }

    /// Removes every entry of the session.
    pub fn clear(&self, reg: &mut LogRegistry)
        requires
            old(reg).wf(),
        ensures
            final(reg).wf(),
            final(reg)@ == old(reg)@.cleared(self.sid()),
    {
        reg.clear_session(self.session_id.as_str());
    }
}

} // verus!
