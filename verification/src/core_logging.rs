//! The registry operations of the core logging module: the active session
//! and per-session queries, creating a session's buffer on first use.
use vstd::prelude::*;
use crate::log_entries::{entries_view, is_query_result, matching, page, LogBatch, LogEntry, LogFilter};
use crate::logger::{keep_last, LogRegistry, Logger, RegistryState};

verus! {

/// Makes `session_id` the session that logging without an explicit session
/// writes to.
pub fn set_active_session(reg: &mut LogRegistry, session_id: &str)
    requires
        old(reg).wf(),
    ensures
        final(reg).wf(),
        final(reg)@ == (RegistryState { active_session: session_id@, ..old(reg)@ }),
{
    reg.set_active_session(session_id);
}

/// The session that logging without an explicit session writes to.
pub fn get_active_session(reg: &LogRegistry) -> (r: String)
    ensures
        r@ == reg@.active_session,
{
    reg.active_session()
}

/// A handle on session `session_id`, whose buffer is created at the default
/// capacity when missing.
pub fn get_logger(reg: &mut LogRegistry, session_id: &str) -> (l: Logger)
    requires
        old(reg).wf(),
    ensures
        final(reg).wf(),
        final(reg)@ == old(reg)@.with_buffer(session_id@),
        l.sid() == session_id@,
{
    if !reg.contains(session_id) {
        reg.reset_buffer(session_id, crate::logger::DEFAULT_LOG_CAPACITY);
    }
    Logger::new(session_id)
}

/// Number of sessions that have a buffer.
pub fn logger_count(reg: &LogRegistry) -> (r: usize)
    requires
        reg.wf(),
    ensures
        r == reg@.buffers.dom().len(),
{
    reg.logger_count()
}

/// Removes every session's buffer.
pub fn clear_all_loggers(reg: &mut LogRegistry)
    requires
        old(reg).wf(),
    ensures
        final(reg).wf(),
        final(reg)@ == (RegistryState {
            buffers: Map::<Seq<char>, crate::logger::BufferState>::empty(),
            ..old(reg)@
        }),
{
    reg.clear_all();
}

/// The entries of session `session_id` that `filter` selects, paged; the
/// session's buffer is created when missing.
pub fn query_logs(reg: &mut LogRegistry, session_id: &str, filter: &LogFilter) -> (b: LogBatch)
    requires
        old(reg).wf(),
    ensures
        final(reg).wf(),
        final(reg)@ == old(reg)@.with_buffer(session_id@),
        is_query_result(b, old(reg)@.entries_of(session_id@), filter@),
{
    let logger = get_logger(reg, session_id);
    logger.get_logs(reg, filter)
}

/// The newest `count` entries of session `session_id`, oldest first; the
/// session's buffer is created when missing.
pub fn get_latest_logs(reg: &mut LogRegistry, session_id: &str, count: usize) -> (r: Vec<LogEntry>)
    requires
        old(reg).wf(),
    ensures
        final(reg).wf(),
        final(reg)@ == old(reg)@.with_buffer(session_id@),
        entries_view(r@) == keep_last(old(reg)@.entries_of(session_id@), count as nat),
{
    let logger = get_logger(reg, session_id);
    logger.get_latest(reg, count)
}

/// Removes the entries of session `session_id`; the session's buffer is
/// created when missing.
pub fn clear_logs(reg: &mut LogRegistry, session_id: &str)
    requires
        old(reg).wf(),
    ensures
        final(reg).wf(),
        final(reg)@ == old(reg)@.with_buffer(session_id@).cleared(session_id@),
{
    let logger = get_logger(reg, session_id);
    logger.clear(reg);
}

/// Access to the session logs of a [`LogRegistry`] for the application
/// layer: handles, counts, clearing and queries.
#[derive(Debug, Clone, Copy)]
pub struct AntikytheraLogProvider;

impl AntikytheraLogProvider {
    /// A handle on session `session_id`, whose buffer is created at the
    /// default capacity when missing.
    pub fn get_logger(&self, reg: &mut LogRegistry, session_id: &str) -> (l: Logger)
        requires
            old(reg).wf(),
        ensures
            final(reg).wf(),
            final(reg)@ == old(reg)@.with_buffer(session_id@),
            l.sid() == session_id@,
    {
        get_logger(reg, session_id)
    }

    /// Number of sessions that have a buffer.
    pub fn logger_count(&self, reg: &LogRegistry) -> (r: usize)
        requires
            reg.wf(),
        ensures
            r == reg@.buffers.dom().len(),
    {
        logger_count(reg)
    }

    /// Removes every session's buffer.
    pub fn clear_all_loggers(&self, reg: &mut LogRegistry)
        requires
            old(reg).wf(),
        ensures
            final(reg).wf(),
            final(reg)@ == (RegistryState {
                buffers: Map::<Seq<char>, crate::logger::BufferState>::empty(),
                ..old(reg)@
            }),
    {
        clear_all_loggers(reg);
    }

    /// The entries of session `session_id` that `filter` selects, paged.
    pub fn query_logs(&self, reg: &mut LogRegistry, session_id: &str, filter: &LogFilter) -> (r: Vec<LogEntry>)
        requires
            old(reg).wf(),
        ensures
            final(reg).wf(),
            final(reg)@ == old(reg)@.with_buffer(session_id@),
            entries_view(r@) == page(
                matching(old(reg)@.entries_of(session_id@), filter@),
                filter@,
            ),
    {
        let b = query_logs(reg, session_id, filter);
        b.entries
    }

    /// The newest `count` entries of session `session_id`, oldest first.
    pub fn get_latest_logs(&self, reg: &mut LogRegistry, session_id: &str, count: usize) -> (r: Vec<LogEntry>)
        requires
            old(reg).wf(),
        ensures
            final(reg).wf(),
            final(reg)@ == old(reg)@.with_buffer(session_id@),
            entries_view(r@) == keep_last(old(reg)@.entries_of(session_id@), count as nat),
    {
        get_latest_logs(reg, session_id, count)
    }
}

} // verus!
