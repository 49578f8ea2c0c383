//! Laws of the session logs: what a write keeps, what a read gives back,
//! and which sessions a write touches.
use vstd::prelude::*;
use crate::log_entries::{entry_matches, matching, page, EntryView, FilterView, LogLevel};
use crate::logger::{BufferState, RegistryState};

verus! {

/// Law: a buffer never holds more entries than its capacity; a write adds
/// one entry and drops only the oldest one when the buffer was full.
pub proof fn lemma_write_respects_capacity(
    b: BufferState,
    level: LogLevel,
    message: Seq<char>,
    source: Option<Seq<char>>,
    context: Option<Seq<char>>,
    timestamp: Seq<char>,
)
    requires
        b.inv(),
    ensures
        b.logged(level, message, source, context, timestamp).inv(),
        b.logged(level, message, source, context, timestamp).entries.len() == if b.entries.len()
            < b.capacity {
            b.entries.len() + 1
        } else {
            b.capacity
        },
        b.capacity > 0 ==> b.logged(level, message, source, context, timestamp).entries.last()
            == b.next_entry(level, message, source, context, timestamp),
        b.entries.len() < b.capacity ==> b.logged(
            level,
            message,
            source,
            context,
            timestamp,
        ).entries.subrange(0, b.entries.len() as int) == b.entries,
        b.entries.len() == b.capacity && b.capacity > 0 ==> b.logged(
            level,
            message,
            source,
            context,
            timestamp,
        ).entries.subrange(0, b.capacity - 1) == b.entries.skip(1),
{
    let after = b.logged(level, message, source, context, timestamp);
    let pushed = b.entries.push(b.next_entry(level, message, source, context, timestamp));
    if b.entries.len() < b.capacity {
        assert(after.entries == pushed);
        assert(pushed.subrange(0, b.entries.len() as int) =~= b.entries);
    } else {
        assert(after.entries =~= pushed.skip(1));
        if b.capacity > 0 {
            assert(after.entries.subrange(0, b.capacity - 1) =~= b.entries.skip(1));
        }
    }
}

/// Law: a write to one session leaves every other session's entries as
/// they were, and the written session then ends with the new entry
/// (read-your-write), unless its capacity is zero.
pub proof fn lemma_write_isolation(
    r: RegistryState,
    k: Seq<char>,
    other: Seq<char>,
    level: LogLevel,
    message: Seq<char>,
    source: Option<Seq<char>>,
    context: Option<Seq<char>>,
    timestamp: Seq<char>,
)
    requires
        r.inv(),
        other != k,
    ensures
        r.logged(k, level, message, source, context, timestamp).entries_of(other) == r.entries_of(
            other,
        ),
        r.logged(k, level, message, source, context, timestamp).active_session == r.active_session,
        r.with_buffer(k).buffers[k].capacity > 0 ==> r.logged(
            k,
            level,
            message,
            source,
            context,
            timestamp,
        ).entries_of(k).last() == r.with_buffer(k).buffers[k].next_entry(
            level,
            message,
            source,
            context,
            timestamp,
        ),
{
    let s = r.with_buffer(k);
    assert(s.buffers.contains_key(k));
    if !r.buffers.contains_key(k) {
        assert(s.buffers[k].inv());
    }
    assert(s.buffers[k].inv());
    lemma_write_respects_capacity(s.buffers[k], level, message, source, context, timestamp);
}

/// A filter that selects everything and does not page.
pub open spec fn select_all() -> FilterView {
    FilterView { min_level: None, session_id: None, source: None, limit: None, offset: None }
}

/// Law: a query without conditions returns every retained entry, in order.
pub proof fn lemma_unfiltered_query_returns_all(s: Seq<EntryView>)
    ensures
        matching(s, select_all()) == s,
        page(matching(s, select_all()), select_all()) == s,
    decreases s.len(),
{
    if s.len() > 0 {
        lemma_unfiltered_query_returns_all(s.drop_last());
        assert(entry_matches(s.last(), select_all()));
        assert(s.drop_last().push(s.last()) =~= s);
    }
    assert(s.skip(0) =~= s);
}

/// Law: every entry a query returns passes the filter, and the query
/// counts exactly the entries that pass.
pub proof fn lemma_query_sound(s: Seq<EntryView>, f: FilterView)
    ensures
        forall|i: int|
            0 <= i < matching(s, f).len() ==> entry_matches(#[trigger] matching(s, f)[i], f),
        forall|i: int|
            0 <= i < page(matching(s, f), f).len() ==> entry_matches(
                #[trigger] page(matching(s, f), f)[i],
                f,
            ),
        page(matching(s, f), f).len() <= matching(s, f).len(),
    decreases s.len(),
{
    if s.len() > 0 {
        lemma_query_sound(s.drop_last(), f);
        let m = matching(s, f);
        let m0 = matching(s.drop_last(), f);
        assert forall|i: int| 0 <= i < m.len() implies entry_matches(#[trigger] m[i], f) by {
            if i < m0.len() {
                assert(m[i] == m0[i]);
            }
        }
    }
    let m = matching(s, f);
    let p = page(m, f);
    let off: nat = match f.offset {
        Some(o) => o,
        None => 0,
    };
    assert forall|i: int| 0 <= i < p.len() implies entry_matches(#[trigger] p[i], f) by {
        if off < m.len() {
            assert(p[i] == m[i + off]);
        }
    }
}

/// A filter that selects the entries at `l` or above.
pub open spec fn at_least(l: LogLevel) -> FilterView {
    FilterView { min_level: Some(l), ..select_all() }
}

/// Law: a level filter keeps only entries at or above its level.
pub proof fn lemma_level_filter(s: Seq<EntryView>, l: LogLevel)
    ensures
        forall|i: int|
            0 <= i < matching(s, at_least(l)).len() ==> crate::log_entries::level_rank(
                #[trigger] matching(s, at_least(l))[i].level,
            ) >= crate::log_entries::level_rank(l),
{
    lemma_query_sound(s, at_least(l));
}

/// Law: clearing a session empties it and leaves the other sessions alone.
pub proof fn lemma_clear_session(r: RegistryState, k: Seq<char>, other: Seq<char>)
    requires
        other != k,
    ensures
        r.cleared(k).entries_of(k).len() == 0,
        r.cleared(k).entries_of(other) == r.entries_of(other),
{
}

} // verus!
