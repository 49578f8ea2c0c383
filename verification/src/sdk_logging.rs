//! Logging of the SDK layer: a registry of its own, separate from the
//! core one, the logger of FFI and configuration operations, and queries
//! that never create a session.
use vstd::prelude::*;
use crate::log_entries::{entries_view, is_query_result, LogBatch, LogEntry, LogFilter, LogLevel};
use crate::logger::{keep_last, BufferState, LogRegistry, Logger, RegistryState, DEFAULT_LOG_CAPACITY};
use crate::text::{decimal, bool_text, push_bool, push_decimal, push_str, string_of};

verus! {

/// A handle on SDK session `session_id`, whose buffer is created at the
/// default capacity when missing.
pub fn get_sdk_logger(reg: &mut LogRegistry, session_id: &str) -> (l: Logger)
    requires
        old(reg).wf(),
    ensures
        final(reg).wf(),
        final(reg)@ == old(reg)@.with_buffer(session_id@),
        l.sid() == session_id@,
{
    if !reg.contains(session_id) {
        reg.reset_buffer(session_id, DEFAULT_LOG_CAPACITY);
    }
    Logger::new(session_id)
}

/// Removes every SDK session's buffer.
pub fn clear_sdk_loggers(reg: &mut LogRegistry)
    requires
        old(reg).wf(),
    ensures
        final(reg).wf(),
        final(reg)@ == (RegistryState { buffers: Map::<Seq<char>, BufferState>::empty(), ..old(reg)@ }),
{
    reg.clear_all();
}

/// The entries of SDK session `session_id` that `filter` selects, paged;
/// an empty batch when the session has no buffer.
pub fn query_sdk_logs(reg: &LogRegistry, session_id: &str, filter: &LogFilter) -> (b: LogBatch)
    requires
        reg.wf(),
    ensures
        is_query_result(b, reg@.entries_of(session_id@), filter@),
        !reg@.buffers.contains_key(session_id@) ==> b.total_count == 0 && b.entries@.len() == 0
            && !b.has_more,
{
    let b = reg.query(session_id, filter);
    proof {
        if !reg@.buffers.contains_key(session_id@) {
            assert(entries_view(b.entries@).len() == b.entries@.len());
        }
    }
    b
}

/// The batch that the JSON view of SDK session `session_id` is made of, or
/// `None` when the session has no buffer (its JSON is then the empty batch).
pub fn sdk_logs_for_json(reg: &LogRegistry, session_id: &str, filter: &LogFilter) -> (r: Option<LogBatch>)
    requires
        reg.wf(),
    ensures
        r is Some <==> reg@.buffers.contains_key(session_id@),
        r matches Some(b) ==> is_query_result(b, reg@.entries_of(session_id@), filter@),
{
    if reg.contains(session_id) {
        Some(reg.query(session_id, filter))
    } else {
        None
    }
}

/// The newest `count` entries of SDK session `session_id`, oldest first;
/// none when the session has no buffer.
pub fn get_latest_sdk_logs(reg: &LogRegistry, session_id: &str, count: usize) -> (r: Vec<LogEntry>)
    requires
        reg.wf(),
    ensures
        entries_view(r@) == keep_last(reg@.entries_of(session_id@), count as nat),
{
    reg.latest(session_id, count)
}

/// Removes the entries of SDK session `session_id` when it has a buffer.
pub fn clear_sdk_session_logs(reg: &mut LogRegistry, session_id: &str)
    requires
        old(reg).wf(),
    ensures
        final(reg).wf(),
        final(reg)@ == old(reg)@.cleared(session_id@),
{
    reg.clear_session(session_id);
}

/// Logger of FFI calls and configuration changes.
#[derive(Debug, Clone)]
pub struct ConfigFfiLogger {
    session_id: String,
}

impl ConfigFfiLogger {
    pub closed spec fn sid(&self) -> Seq<char> {
        self.session_id@
    }

    /// A logger for SDK session `session_id`, whose buffer is created when missing.
    pub fn new(reg: &mut LogRegistry, session_id: &str) -> (l: Self)
        requires
            old(reg).wf(),
        ensures
            final(reg).wf(),
            final(reg)@ == old(reg)@.with_buffer(session_id@),
            l.sid() == session_id@,
    {
        let _logger = get_sdk_logger(reg, session_id);
        ConfigFfiLogger { session_id: string_of(session_id) }
    }


    /// Records an FFI call with its JSON arguments (debug).
    pub fn ffi_call(&self, reg: &mut LogRegistry, function: &str, args: &str)
        requires
            old(reg).wf(),
        ensures
            final(reg).wf(),
            old(reg)@.logged_at_some_time(
                final(reg)@,
                self.sid(),
                LogLevel::Debug,
                "FFI call: "@ + function@,
                Some("ffi"@),
                Some("{\"function\": \""@ + function@ + "\", \"args\": "@ + args@ + "}"@),
            ),
    {
        let level = LogLevel::Debug;
        let mut m = string_of("FFI call: ");
        push_str(&mut m, function);
        assert(m@ =~= "FFI call: "@ + function@);
        let mut c = string_of("{\"function\": \"");
        push_str(&mut c, function);
        push_str(&mut c, "\", \"args\": ");
        push_str(&mut c, args);
        push_str(&mut c, "}");
        assert(c@ =~= "{\"function\": \""@ + function@ + "\", \"args\": "@ + args@ + "}"@);
        reg.log(self.session_id.as_str(), level, Some(string_of("ffi")), Some(c), m);
    }

    /// Records the result of an FFI call (debug).
    pub fn ffi_result(&self, reg: &mut LogRegistry, function: &str, success: bool, result_size: usize)
        requires
            old(reg).wf(),
        ensures
            final(reg).wf(),
            old(reg)@.logged_at_some_time(
                final(reg)@,
                self.sid(),
                LogLevel::Debug,
                "FFI result: "@ + function@,
                Some("ffi"@),
                Some("{\"function\": \""@ + function@ + "\", \"success\": "@ + bool_text(success) + ", \"result_size\": "@ + decimal(result_size as nat) + "}"@),
            ),
    {
        let level = LogLevel::Debug;
        let mut m = string_of("FFI result: ");
        push_str(&mut m, function);
        assert(m@ =~= "FFI result: "@ + function@);
        let mut c = string_of("{\"function\": \"");
        push_str(&mut c, function);
        push_str(&mut c, "\", \"success\": ");
        push_bool(&mut c, success);
        push_str(&mut c, ", \"result_size\": ");
        push_decimal(&mut c, result_size as u64);
        push_str(&mut c, "}");
        assert(c@ =~= "{\"function\": \""@ + function@ + "\", \"success\": "@ + bool_text(success) + ", \"result_size\": "@ + decimal(result_size as nat) + "}"@);
        reg.log(self.session_id.as_str(), level, Some(string_of("ffi")), Some(c), m);
    }

    /// Records a failed FFI call.
    pub fn ffi_error(&self, reg: &mut LogRegistry, function: &str, error: &str)
        requires
            old(reg).wf(),
        ensures
            final(reg).wf(),
            old(reg)@.logged_at_some_time(
                final(reg)@,
                self.sid(),
                LogLevel::Error,
                "FFI error: "@ + function@,
                Some("ffi"@),
                Some("{\"function\": \""@ + function@ + "\", \"error\": \""@ + error@ + "\"}"@),
            ),
    {
        let level = LogLevel::Error;
        let mut m = string_of("FFI error: ");
        push_str(&mut m, function);
        assert(m@ =~= "FFI error: "@ + function@);
        let mut c = string_of("{\"function\": \"");
        push_str(&mut c, function);
        push_str(&mut c, "\", \"error\": \"");
        push_str(&mut c, error);
        push_str(&mut c, "\"}");
        assert(c@ =~= "{\"function\": \""@ + function@ + "\", \"error\": \""@ + error@ + "\"}"@);
        reg.log(self.session_id.as_str(), level, Some(string_of("ffi")), Some(c), m);
    }

    /// Records a loaded configuration.
    pub fn config_loaded(&self, reg: &mut LogRegistry, source: &str, size: usize)
        requires
            old(reg).wf(),
        ensures
            final(reg).wf(),
            old(reg)@.logged_at_some_time(
                final(reg)@,
                self.sid(),
                LogLevel::Info,
                "Config loaded"@,
                Some("config"@),
                Some("{\"source\": \""@ + source@ + "\", \"size\": "@ + decimal(size as nat) + "}"@),
            ),
    {
        let level = LogLevel::Info;
        let mut m = string_of("Config loaded");
        assert(m@ =~= "Config loaded"@);
        let mut c = string_of("{\"source\": \"");
        push_str(&mut c, source);
        push_str(&mut c, "\", \"size\": ");
        push_decimal(&mut c, size as u64);
        push_str(&mut c, "}");
        assert(c@ =~= "{\"source\": \""@ + source@ + "\", \"size\": "@ + decimal(size as nat) + "}"@);
        reg.log(self.session_id.as_str(), level, Some(string_of("config")), Some(c), m);
    }

    /// Records a saved configuration.
    pub fn config_saved(&self, reg: &mut LogRegistry, path: &str, size: usize)
        requires
            old(reg).wf(),
        ensures
            final(reg).wf(),
            old(reg)@.logged_at_some_time(
                final(reg)@,
                self.sid(),
                LogLevel::Info,
                "Config saved"@,
                Some("config"@),
                Some("{\"path\": \""@ + path@ + "\", \"size\": "@ + decimal(size as nat) + "}"@),
            ),
    {
        let level = LogLevel::Info;
        let mut m = string_of("Config saved");
        assert(m@ =~= "Config saved"@);
        let mut c = string_of("{\"path\": \"");
        push_str(&mut c, path);
        push_str(&mut c, "\", \"size\": ");
        push_decimal(&mut c, size as u64);
        push_str(&mut c, "}");
        assert(c@ =~= "{\"path\": \""@ + path@ + "\", \"size\": "@ + decimal(size as nat) + "}"@);
        reg.log(self.session_id.as_str(), level, Some(string_of("config")), Some(c), m);
    }

    /// Records an added provider.
    pub fn provider_added(&self, reg: &mut LogRegistry, provider_id: &str)
        requires
            old(reg).wf(),
        ensures
            final(reg).wf(),
            old(reg)@.logged_at_some_time(
                final(reg)@,
                self.sid(),
                LogLevel::Info,
                "Provider added"@,
                Some("config"@),
                Some("{\"provider_id\": \""@ + provider_id@ + "\"}"@),
            ),
    {
        let level = LogLevel::Info;
        let mut m = string_of("Provider added");
        assert(m@ =~= "Provider added"@);
        let mut c = string_of("{\"provider_id\": \"");
        push_str(&mut c, provider_id);
        push_str(&mut c, "\"}");
        assert(c@ =~= "{\"provider_id\": \""@ + provider_id@ + "\"}"@);
        reg.log(self.session_id.as_str(), level, Some(string_of("config")), Some(c), m);
    }

    /// Records a removed provider.
    pub fn provider_removed(&self, reg: &mut LogRegistry, provider_id: &str)
        requires
            old(reg).wf(),
        ensures
            final(reg).wf(),
            old(reg)@.logged_at_some_time(
                final(reg)@,
                self.sid(),
                LogLevel::Info,
                "Provider removed"@,
                Some("config"@),
                Some("{\"provider_id\": \""@ + provider_id@ + "\"}"@),
            ),
    {
        let level = LogLevel::Info;
        let mut m = string_of("Provider removed");
        assert(m@ =~= "Provider removed"@);
        let mut c = string_of("{\"provider_id\": \"");
        push_str(&mut c, provider_id);
        push_str(&mut c, "\"}");
        assert(c@ =~= "{\"provider_id\": \""@ + provider_id@ + "\"}"@);
        reg.log(self.session_id.as_str(), level, Some(string_of("config")), Some(c), m);
    }

    /// Records an updated prompt.
    pub fn prompt_updated(&self, reg: &mut LogRegistry, prompt_name: &str)
        requires
            old(reg).wf(),
        ensures
            final(reg).wf(),
            old(reg)@.logged_at_some_time(
                final(reg)@,
                self.sid(),
                LogLevel::Info,
                "Prompt updated"@,
                Some("config"@),
                Some("{\"prompt_name\": \""@ + prompt_name@ + "\"}"@),
            ),
    {
        let level = LogLevel::Info;
        let mut m = string_of("Prompt updated");
        assert(m@ =~= "Prompt updated"@);
        let mut c = string_of("{\"prompt_name\": \"");
        push_str(&mut c, prompt_name);
        push_str(&mut c, "\"}");
        assert(c@ =~= "{\"prompt_name\": \""@ + prompt_name@ + "\"}"@);
        reg.log(self.session_id.as_str(), level, Some(string_of("config")), Some(c), m);
    }

    /// Records a changed agent setting.
    pub fn agent_config_changed(&self, reg: &mut LogRegistry, field: &str, value: &str)
        requires
            old(reg).wf(),
        ensures
            final(reg).wf(),
            old(reg)@.logged_at_some_time(
                final(reg)@,
                self.sid(),
                LogLevel::Info,
                "Agent config changed"@,
                Some("config"@),
                Some("{\"field\": \""@ + field@ + "\", \"value\": \""@ + value@ + "\"}"@),
            ),
    {
        let level = LogLevel::Info;
        let mut m = string_of("Agent config changed");
        assert(m@ =~= "Agent config changed"@);
        let mut c = string_of("{\"field\": \"");
        push_str(&mut c, field);
        push_str(&mut c, "\", \"value\": \"");
        push_str(&mut c, value);
        push_str(&mut c, "\"}");
        assert(c@ =~= "{\"field\": \""@ + field@ + "\", \"value\": \""@ + value@ + "\"}"@);
        reg.log(self.session_id.as_str(), level, Some(string_of("config")), Some(c), m);
    }

}

} // verus!
