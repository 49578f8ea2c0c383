//! Typed loggers for the core subsystems.  Each one writes to one session's
//! buffer and tags every entry with the subsystem it belongs to.
use vstd::prelude::*;
use crate::core_logging::get_logger;
use crate::log_entries::LogLevel;
use crate::logger::LogRegistry;
use crate::session_context::SessionContext;
use crate::text::{bool_text, decimal, push_bool, push_decimal, push_str, string_of};

verus! {

/// Logger of the configuration module.
#[derive(Debug, Clone)]
pub struct ConfigLogger {
    session_id: String,
}

impl ConfigLogger {
    /// Session the logger writes to.
    pub closed spec fn sid(&self) -> Seq<char> {
        self.session_id@
    }

    /// A logger for session `session_id`, whose buffer is created when missing.
    pub fn new(reg: &mut LogRegistry, session_id: &str) -> (l: Self)
        requires
            old(reg).wf(),
        ensures
            final(reg).wf(),
            final(reg)@ == old(reg)@.with_buffer(session_id@),
            l.sid() == session_id@,
    {
        let _logger = get_logger(reg, session_id);
        ConfigLogger { session_id: string_of(session_id) }
    }

    /// A logger for the session carried by `ctx`.
    pub fn from_context(reg: &mut LogRegistry, ctx: &SessionContext) -> (l: Self)
        requires
            old(reg).wf(),
        ensures
            final(reg).wf(),
            final(reg)@ == old(reg)@.with_buffer(ctx.sid()),
            l.sid() == ctx.sid(),
    {
        Self::new(reg, ctx.session_id())
    }

    pub fn session_id(&self) -> (r: &str)
        ensures
            r@ == self.sid(),
    {
        self.session_id.as_str()
    }

    /// Records `message` at debug level, tagged `config`.
    pub fn debug(&self, reg: &mut LogRegistry, message: &str)
        requires
            old(reg).wf(),
        ensures
            final(reg).wf(),
            old(reg)@.logged_at_some_time(
                final(reg)@,
                self.sid(),
                LogLevel::Debug,
                message@,
                Some("config"@),
                None,
            ),
    {
        let level = LogLevel::Debug;
        let mut m = String::new();
        push_str(&mut m, message);
        assert(m@ =~= message@);
        reg.log(self.session_id.as_str(), level, Some(string_of("config")), None, m);
    }

    /// Records `message` at info level, tagged `config`.
    pub fn info(&self, reg: &mut LogRegistry, message: &str)
        requires
            old(reg).wf(),
        ensures
            final(reg).wf(),
            old(reg)@.logged_at_some_time(
                final(reg)@,
                self.sid(),
                LogLevel::Info,
                message@,
                Some("config"@),
                None,
            ),
    {
        let level = LogLevel::Info;
        let mut m = String::new();
        push_str(&mut m, message);
        assert(m@ =~= message@);
        reg.log(self.session_id.as_str(), level, Some(string_of("config")), None, m);
    }

    /// Records `message` at warn level, tagged `config`.
    pub fn warn(&self, reg: &mut LogRegistry, message: &str)
        requires
            old(reg).wf(),
        ensures
            final(reg).wf(),
            old(reg)@.logged_at_some_time(
                final(reg)@,
                self.sid(),
                LogLevel::Warn,
                message@,
                Some("config"@),
                None,
            ),
    {
        let level = LogLevel::Warn;
        let mut m = String::new();
        push_str(&mut m, message);
        assert(m@ =~= message@);
        reg.log(self.session_id.as_str(), level, Some(string_of("config")), None, m);
    }

    /// Records `message` at error level, tagged `config`.
    pub fn error(&self, reg: &mut LogRegistry, message: &str)
        requires
            old(reg).wf(),
        ensures
            final(reg).wf(),
            old(reg)@.logged_at_some_time(
                final(reg)@,
                self.sid(),
                LogLevel::Error,
                message@,
                Some("config"@),
                None,
            ),
    {
        let level = LogLevel::Error;
        let mut m = String::new();
        push_str(&mut m, message);
        assert(m@ =~= message@);
        reg.log(self.session_id.as_str(), level, Some(string_of("config")), None, m);
    }

}

/// Logger of the agent runner: FSM runner, parser, context.
#[derive(Debug, Clone)]
pub struct AgentLogger {
    session_id: String,
}

impl AgentLogger {
    /// Session the logger writes to.
    pub closed spec fn sid(&self) -> Seq<char> {
        self.session_id@
    }

    /// A logger for session `session_id`, whose buffer is created when missing.
    pub fn new(reg: &mut LogRegistry, session_id: &str) -> (l: Self)
        requires
            old(reg).wf(),
        ensures
            final(reg).wf(),
            final(reg)@ == old(reg)@.with_buffer(session_id@),
            l.sid() == session_id@,
    {
        let _logger = get_logger(reg, session_id);
        AgentLogger { session_id: string_of(session_id) }
    }

    /// A logger for the session carried by `ctx`.
    pub fn from_context(reg: &mut LogRegistry, ctx: &SessionContext) -> (l: Self)
        requires
            old(reg).wf(),
        ensures
            final(reg).wf(),
            final(reg)@ == old(reg)@.with_buffer(ctx.sid()),
            l.sid() == ctx.sid(),
    {
        Self::new(reg, ctx.session_id())
    }

    pub fn session_id(&self) -> (r: &str)
        ensures
            r@ == self.sid(),
    {
        self.session_id.as_str()
    }

    /// Records `message` at debug level, tagged `agent`.
    pub fn debug(&self, reg: &mut LogRegistry, message: &str)
        requires
            old(reg).wf(),
        ensures
            final(reg).wf(),
            old(reg)@.logged_at_some_time(
                final(reg)@,
                self.sid(),
                LogLevel::Debug,
                message@,
                Some("agent"@),
                None,
            ),
    {
        let level = LogLevel::Debug;
        let mut m = String::new();
        push_str(&mut m, message);
        assert(m@ =~= message@);
        reg.log(self.session_id.as_str(), level, Some(string_of("agent")), None, m);
    }

    /// Records `message` at info level, tagged `agent`.
    pub fn info(&self, reg: &mut LogRegistry, message: &str)
        requires
            old(reg).wf(),
        ensures
            final(reg).wf(),
            old(reg)@.logged_at_some_time(
                final(reg)@,
                self.sid(),
                LogLevel::Info,
                message@,
                Some("agent"@),
                None,
            ),
    {
        let level = LogLevel::Info;
        let mut m = String::new();
        push_str(&mut m, message);
        assert(m@ =~= message@);
        reg.log(self.session_id.as_str(), level, Some(string_of("agent")), None, m);
    }

    /// Records `message` at warn level, tagged `agent`.
    pub fn warn(&self, reg: &mut LogRegistry, message: &str)
        requires
            old(reg).wf(),
        ensures
            final(reg).wf(),
            old(reg)@.logged_at_some_time(
                final(reg)@,
                self.sid(),
                LogLevel::Warn,
                message@,
                Some("agent"@),
                None,
            ),
    {
        let level = LogLevel::Warn;
        let mut m = String::new();
        push_str(&mut m, message);
        assert(m@ =~= message@);
        reg.log(self.session_id.as_str(), level, Some(string_of("agent")), None, m);
    }

    /// Records `message` at error level, tagged `agent`.
    pub fn error(&self, reg: &mut LogRegistry, message: &str)
        requires
            old(reg).wf(),
        ensures
            final(reg).wf(),
            old(reg)@.logged_at_some_time(
                final(reg)@,
                self.sid(),
                LogLevel::Error,
                message@,
                Some("agent"@),
                None,
            ),
    {
        let level = LogLevel::Error;
        let mut m = String::new();
        push_str(&mut m, message);
        assert(m@ =~= message@);
        reg.log(self.session_id.as_str(), level, Some(string_of("agent")), None, m);
    }

    /// Records a tool execution result (info on success, error otherwise).
    pub fn tool_result(&self, reg: &mut LogRegistry, tool: &str, success: bool, step: u32)
        requires
            old(reg).wf(),
        ensures
            final(reg).wf(),
            old(reg)@.logged_at_some_time(
                final(reg)@,
                self.sid(),
                if success { LogLevel::Info } else { LogLevel::Error },
                "Tool result: "@ + tool@ + " (step "@ + decimal(step as nat) + ")"@,
                Some("agent"@),
                Some("{\"tool\": \""@ + tool@ + "\", \"success\": "@ + bool_text(success) + ", \"step\": "@ + decimal(step as nat) + "}"@),
            ),
    {
        let level = if success { LogLevel::Info } else { LogLevel::Error };
        let mut m = string_of("Tool result: ");
        push_str(&mut m, tool);
        push_str(&mut m, " (step ");
        push_decimal(&mut m, step as u64);
        push_str(&mut m, ")");
        assert(m@ =~= "Tool result: "@ + tool@ + " (step "@ + decimal(step as nat) + ")"@);
        let mut c = string_of("{\"tool\": \"");
        push_str(&mut c, tool);
        push_str(&mut c, "\", \"success\": ");
        push_bool(&mut c, success);
        push_str(&mut c, ", \"step\": ");
        push_decimal(&mut c, step as u64);
        push_str(&mut c, "}");
        assert(c@ =~= "{\"tool\": \""@ + tool@ + "\", \"success\": "@ + bool_text(success) + ", \"step\": "@ + decimal(step as nat) + "}"@);
        reg.log(self.session_id.as_str(), level, Some(string_of("agent")), Some(c), m);
    }

    /// Records an agent step (debug).
    pub fn agent_step(&self, reg: &mut LogRegistry, step: u32, max_steps: u32)
        requires
            old(reg).wf(),
        ensures
            final(reg).wf(),
            old(reg)@.logged_at_some_time(
                final(reg)@,
                self.sid(),
                LogLevel::Debug,
                "Agent step "@ + decimal(step as nat) + "/"@ + decimal(max_steps as nat),
                Some("agent"@),
                None,
            ),
    {
        let level = LogLevel::Debug;
        let mut m = string_of("Agent step ");
        push_decimal(&mut m, step as u64);
        push_str(&mut m, "/");
        push_decimal(&mut m, max_steps as u64);
        assert(m@ =~= "Agent step "@ + decimal(step as nat) + "/"@ + decimal(max_steps as nat));
        reg.log(self.session_id.as_str(), level, Some(string_of("agent")), None, m);
    }

    /// Records the completion of an agent run.
    pub fn agent_complete(&self, reg: &mut LogRegistry, steps: u32)
        requires
            old(reg).wf(),
        ensures
            final(reg).wf(),
            old(reg)@.logged_at_some_time(
                final(reg)@,
                self.sid(),
                LogLevel::Info,
                "Agent completed in "@ + decimal(steps as nat) + " steps"@,
                Some("agent"@),
                None,
            ),
    {
        let level = LogLevel::Info;
        let mut m = string_of("Agent completed in ");
        push_decimal(&mut m, steps as u64);
        push_str(&mut m, " steps");
        assert(m@ =~= "Agent completed in "@ + decimal(steps as nat) + " steps"@);
        reg.log(self.session_id.as_str(), level, Some(string_of("agent")), None, m);
    }

}

/// Logger of the transports: HTTP, SSE, RPC, processes.
#[derive(Debug, Clone)]
pub struct TransportLogger {
    session_id: String,
}

impl TransportLogger {
    /// Session the logger writes to.
    pub closed spec fn sid(&self) -> Seq<char> {
        self.session_id@
    }

    /// A logger for session `session_id`, whose buffer is created when missing.
    pub fn new(reg: &mut LogRegistry, session_id: &str) -> (l: Self)
        requires
            old(reg).wf(),
        ensures
            final(reg).wf(),
            final(reg)@ == old(reg)@.with_buffer(session_id@),
            l.sid() == session_id@,
    {
        let _logger = get_logger(reg, session_id);
        TransportLogger { session_id: string_of(session_id) }
    }

    /// A logger for the session carried by `ctx`.
    pub fn from_context(reg: &mut LogRegistry, ctx: &SessionContext) -> (l: Self)
        requires
            old(reg).wf(),
        ensures
            final(reg).wf(),
            final(reg)@ == old(reg)@.with_buffer(ctx.sid()),
            l.sid() == ctx.sid(),
    {
        Self::new(reg, ctx.session_id())
    }

    pub fn session_id(&self) -> (r: &str)
        ensures
            r@ == self.sid(),
    {
        self.session_id.as_str()
    }

    /// Records `message` at debug level, tagged `transport`.
    pub fn debug(&self, reg: &mut LogRegistry, message: &str)
        requires
            old(reg).wf(),
        ensures
            final(reg).wf(),
            old(reg)@.logged_at_some_time(
                final(reg)@,
                self.sid(),
                LogLevel::Debug,
                message@,
                Some("transport"@),
                None,
            ),
    {
        let level = LogLevel::Debug;
        let mut m = String::new();
        push_str(&mut m, message);
        assert(m@ =~= message@);
        reg.log(self.session_id.as_str(), level, Some(string_of("transport")), None, m);
    }

    /// Records `message` at info level, tagged `transport`.
    pub fn info(&self, reg: &mut LogRegistry, message: &str)
        requires
            old(reg).wf(),
        ensures
            final(reg).wf(),
            old(reg)@.logged_at_some_time(
                final(reg)@,
                self.sid(),
                LogLevel::Info,
                message@,
                Some("transport"@),
                None,
            ),
    {
        let level = LogLevel::Info;
        let mut m = String::new();
        push_str(&mut m, message);
        assert(m@ =~= message@);
        reg.log(self.session_id.as_str(), level, Some(string_of("transport")), None, m);
    }

    /// Records `message` at warn level, tagged `transport`.
    pub fn warn(&self, reg: &mut LogRegistry, message: &str)
        requires
            old(reg).wf(),
        ensures
            final(reg).wf(),
            old(reg)@.logged_at_some_time(
                final(reg)@,
                self.sid(),
                LogLevel::Warn,
                message@,
                Some("transport"@),
                None,
            ),
    {
        let level = LogLevel::Warn;
        let mut m = String::new();
        push_str(&mut m, message);
        assert(m@ =~= message@);
        reg.log(self.session_id.as_str(), level, Some(string_of("transport")), None, m);
    }

    /// Records `message` at error level, tagged `transport`.
    pub fn error(&self, reg: &mut LogRegistry, message: &str)
        requires
            old(reg).wf(),
        ensures
            final(reg).wf(),
            old(reg)@.logged_at_some_time(
                final(reg)@,
                self.sid(),
                LogLevel::Error,
                message@,
                Some("transport"@),
                None,
            ),
    {
        let level = LogLevel::Error;
        let mut m = String::new();
        push_str(&mut m, message);
        assert(m@ =~= message@);
        reg.log(self.session_id.as_str(), level, Some(string_of("transport")), None, m);
    }

    /// Records a connection attempt.
    pub fn connect(&self, reg: &mut LogRegistry, server: &str)
        requires
            old(reg).wf(),
        ensures
            final(reg).wf(),
            old(reg)@.logged_at_some_time(
                final(reg)@,
                self.sid(),
                LogLevel::Info,
                "Connecting to: "@ + server@,
                Some("transport"@),
                None,
            ),
    {
        let level = LogLevel::Info;
        let mut m = string_of("Connecting to: ");
        push_str(&mut m, server);
        assert(m@ =~= "Connecting to: "@ + server@);
        reg.log(self.session_id.as_str(), level, Some(string_of("transport")), None, m);
    }

    /// Records a disconnection.
    pub fn disconnect(&self, reg: &mut LogRegistry, server: &str)
        requires
            old(reg).wf(),
        ensures
            final(reg).wf(),
            old(reg)@.logged_at_some_time(
                final(reg)@,
                self.sid(),
                LogLevel::Info,
                "Disconnected from: "@ + server@,
                Some("transport"@),
                None,
            ),
    {
        let level = LogLevel::Info;
        let mut m = string_of("Disconnected from: ");
        push_str(&mut m, server);
        assert(m@ =~= "Disconnected from: "@ + server@);
        reg.log(self.session_id.as_str(), level, Some(string_of("transport")), None, m);
    }

    /// Records a tool request (debug).
    pub fn tool_request(&self, reg: &mut LogRegistry, server: &str, tool: &str)
        requires
            old(reg).wf(),
        ensures
            final(reg).wf(),
            old(reg)@.logged_at_some_time(
                final(reg)@,
                self.sid(),
                LogLevel::Debug,
                "Tool request: "@ + server@ + "."@ + tool@ + " "@,
                Some("transport"@),
                None,
            ),
    {
        let level = LogLevel::Debug;
        let mut m = string_of("Tool request: ");
        push_str(&mut m, server);
        push_str(&mut m, ".");
        push_str(&mut m, tool);
        push_str(&mut m, " ");
        assert(m@ =~= "Tool request: "@ + server@ + "."@ + tool@ + " "@);
        reg.log(self.session_id.as_str(), level, Some(string_of("transport")), None, m);
    }

    /// Records a tool response (debug on success, error otherwise).
    pub fn tool_response(&self, reg: &mut LogRegistry, server: &str, tool: &str, success: bool)
        requires
            old(reg).wf(),
        ensures
            final(reg).wf(),
            old(reg)@.logged_at_some_time(
                final(reg)@,
                self.sid(),
                if success { LogLevel::Debug } else { LogLevel::Error },
                "Tool response: "@ + server@ + "."@ + tool@ + " (success: "@ + bool_text(success) + ")"@,
                Some("transport"@),
                None,
            ),
    {
        let level = if success { LogLevel::Debug } else { LogLevel::Error };
        let mut m = string_of("Tool response: ");
        push_str(&mut m, server);
        push_str(&mut m, ".");
        push_str(&mut m, tool);
        push_str(&mut m, " (success: ");
        push_bool(&mut m, success);
        push_str(&mut m, ")");
        assert(m@ =~= "Tool response: "@ + server@ + "."@ + tool@ + " (success: "@ + bool_text(success) + ")"@);
        reg.log(self.session_id.as_str(), level, Some(string_of("transport")), None, m);
    }

}

/// Logger of model provider API calls.
#[derive(Debug, Clone)]
pub struct ProviderLogger {
    session_id: String,
}

impl ProviderLogger {
    /// Session the logger writes to.
    pub closed spec fn sid(&self) -> Seq<char> {
        self.session_id@
    }

    /// A logger for session `session_id`, whose buffer is created when missing.
    pub fn new(reg: &mut LogRegistry, session_id: &str) -> (l: Self)
        requires
            old(reg).wf(),
        ensures
            final(reg).wf(),
            final(reg)@ == old(reg)@.with_buffer(session_id@),
            l.sid() == session_id@,
    {
        let _logger = get_logger(reg, session_id);
        ProviderLogger { session_id: string_of(session_id) }
    }

    /// A logger for the session carried by `ctx`.
    pub fn from_context(reg: &mut LogRegistry, ctx: &SessionContext) -> (l: Self)
        requires
            old(reg).wf(),
        ensures
            final(reg).wf(),
            final(reg)@ == old(reg)@.with_buffer(ctx.sid()),
            l.sid() == ctx.sid(),
    {
        Self::new(reg, ctx.session_id())
    }

    pub fn session_id(&self) -> (r: &str)
        ensures
            r@ == self.sid(),
    {
        self.session_id.as_str()
    }

    /// Records `message` at debug level, tagged `provider`.
    pub fn debug(&self, reg: &mut LogRegistry, message: &str)
        requires
            old(reg).wf(),
        ensures
            final(reg).wf(),
            old(reg)@.logged_at_some_time(
                final(reg)@,
                self.sid(),
                LogLevel::Debug,
                message@,
                Some("provider"@),
                None,
            ),
    {
        let level = LogLevel::Debug;
        let mut m = String::new();
        push_str(&mut m, message);
        assert(m@ =~= message@);
        reg.log(self.session_id.as_str(), level, Some(string_of("provider")), None, m);
    }

    /// Records `message` at info level, tagged `provider`.
    pub fn info(&self, reg: &mut LogRegistry, message: &str)
        requires
            old(reg).wf(),
        ensures
            final(reg).wf(),
            old(reg)@.logged_at_some_time(
                final(reg)@,
                self.sid(),
                LogLevel::Info,
                message@,
                Some("provider"@),
                None,
            ),
    {
        let level = LogLevel::Info;
        let mut m = String::new();
        push_str(&mut m, message);
        assert(m@ =~= message@);
        reg.log(self.session_id.as_str(), level, Some(string_of("provider")), None, m);
    }

    /// Records `message` at warn level, tagged `provider`.
    pub fn warn(&self, reg: &mut LogRegistry, message: &str)
        requires
            old(reg).wf(),
        ensures
            final(reg).wf(),
            old(reg)@.logged_at_some_time(
                final(reg)@,
                self.sid(),
                LogLevel::Warn,
                message@,
                Some("provider"@),
                None,
            ),
    {
        let level = LogLevel::Warn;
        let mut m = String::new();
        push_str(&mut m, message);
        assert(m@ =~= message@);
        reg.log(self.session_id.as_str(), level, Some(string_of("provider")), None, m);
    }

    /// Records `message` at error level, tagged `provider`.
    pub fn error(&self, reg: &mut LogRegistry, message: &str)
        requires
            old(reg).wf(),
        ensures
            final(reg).wf(),
            old(reg)@.logged_at_some_time(
                final(reg)@,
                self.sid(),
                LogLevel::Error,
                message@,
                Some("provider"@),
                None,
            ),
    {
        let level = LogLevel::Error;
        let mut m = String::new();
        push_str(&mut m, message);
        assert(m@ =~= message@);
        reg.log(self.session_id.as_str(), level, Some(string_of("provider")), None, m);
    }

    /// Records a provider API call (debug).
    pub fn api_call(&self, reg: &mut LogRegistry, provider: &str, model: &str)
        requires
            old(reg).wf(),
        ensures
            final(reg).wf(),
            old(reg)@.logged_at_some_time(
                final(reg)@,
                self.sid(),
                LogLevel::Debug,
                "API call: "@ + provider@ + " ("@ + model@ + ")"@,
                Some("provider"@),
                None,
            ),
    {
        let level = LogLevel::Debug;
        let mut m = string_of("API call: ");
        push_str(&mut m, provider);
        push_str(&mut m, " (");
        push_str(&mut m, model);
        push_str(&mut m, ")");
        assert(m@ =~= "API call: "@ + provider@ + " ("@ + model@ + ")"@);
        reg.log(self.session_id.as_str(), level, Some(string_of("provider")), None, m);
    }

    /// Records a provider API response, with the token count when known (debug).
    pub fn api_response(&self, reg: &mut LogRegistry, provider: &str, model: &str, tokens: Option<u32>)
        requires
            old(reg).wf(),
        ensures
            final(reg).wf(),
            old(reg)@.logged_at_some_time(
                final(reg)@,
                self.sid(),
                LogLevel::Debug,
                "API response: "@ + provider@ + " ("@ + model@ + ")"@ + (match tokens { Some(t) => ", "@ + decimal(t as nat) + " tokens"@, None => Seq::<char>::empty() }),
                Some("provider"@),
                None,
            ),
    {
        let level = LogLevel::Debug;
        let mut m = string_of("API response: ");
        push_str(&mut m, provider);
        push_str(&mut m, " (");
        push_str(&mut m, model);
        push_str(&mut m, ")");
        match tokens { Some(t) => { push_str(&mut m, ", "); push_decimal(&mut m, t as u64); push_str(&mut m, " tokens"); }, None => {} }
        assert(m@ =~= "API response: "@ + provider@ + " ("@ + model@ + ")"@ + (match tokens { Some(t) => ", "@ + decimal(t as nat) + " tokens"@, None => Seq::<char>::empty() }));
        reg.log(self.session_id.as_str(), level, Some(string_of("provider")), None, m);
    }

    /// Records a provider API error.
    pub fn api_error(&self, reg: &mut LogRegistry, provider: &str, error: &str)
        requires
            old(reg).wf(),
        ensures
            final(reg).wf(),
            old(reg)@.logged_at_some_time(
                final(reg)@,
                self.sid(),
                LogLevel::Error,
                "API error: "@ + provider@ + " ("@ + error@ + ")"@,
                Some("provider"@),
                None,
            ),
    {
        let level = LogLevel::Error;
        let mut m = string_of("API error: ");
        push_str(&mut m, provider);
        push_str(&mut m, " (");
        push_str(&mut m, error);
        push_str(&mut m, ")");
        assert(m@ =~= "API error: "@ + provider@ + " ("@ + error@ + ")"@);
        reg.log(self.session_id.as_str(), level, Some(string_of("provider")), None, m);
    }

}

/// Logger of server discovery, scanning and loading.
#[derive(Debug, Clone)]
pub struct DiscoveryLogger {
    session_id: String,
}

impl DiscoveryLogger {
    /// Session the logger writes to.
    pub closed spec fn sid(&self) -> Seq<char> {
        self.session_id@
    }

    /// A logger for session `session_id`, whose buffer is created when missing.
    pub fn new(reg: &mut LogRegistry, session_id: &str) -> (l: Self)
        requires
            old(reg).wf(),
        ensures
            final(reg).wf(),
            final(reg)@ == old(reg)@.with_buffer(session_id@),
            l.sid() == session_id@,
    {
        let _logger = get_logger(reg, session_id);
        DiscoveryLogger { session_id: string_of(session_id) }
    }

    /// A logger for the session carried by `ctx`.
    pub fn from_context(reg: &mut LogRegistry, ctx: &SessionContext) -> (l: Self)
        requires
            old(reg).wf(),
        ensures
            final(reg).wf(),
            final(reg)@ == old(reg)@.with_buffer(ctx.sid()),
            l.sid() == ctx.sid(),
    {
        Self::new(reg, ctx.session_id())
    }

    pub fn session_id(&self) -> (r: &str)
        ensures
            r@ == self.sid(),
    {
        self.session_id.as_str()
    }

    /// Records `message` at debug level, tagged `discovery`.
    pub fn debug(&self, reg: &mut LogRegistry, message: &str)
        requires
            old(reg).wf(),
        ensures
            final(reg).wf(),
            old(reg)@.logged_at_some_time(
                final(reg)@,
                self.sid(),
                LogLevel::Debug,
                message@,
                Some("discovery"@),
                None,
            ),
    {
        let level = LogLevel::Debug;
        let mut m = String::new();
        push_str(&mut m, message);
        assert(m@ =~= message@);
        reg.log(self.session_id.as_str(), level, Some(string_of("discovery")), None, m);
    }

    /// Records `message` at info level, tagged `discovery`.
    pub fn info(&self, reg: &mut LogRegistry, message: &str)
        requires
            old(reg).wf(),
        ensures
            final(reg).wf(),
            old(reg)@.logged_at_some_time(
                final(reg)@,
                self.sid(),
                LogLevel::Info,
                message@,
                Some("discovery"@),
                None,
            ),
    {
        let level = LogLevel::Info;
        let mut m = String::new();
        push_str(&mut m, message);
        assert(m@ =~= message@);
        reg.log(self.session_id.as_str(), level, Some(string_of("discovery")), None, m);
    }

    /// Records `message` at warn level, tagged `discovery`.
    pub fn warn(&self, reg: &mut LogRegistry, message: &str)
        requires
            old(reg).wf(),
        ensures
            final(reg).wf(),
            old(reg)@.logged_at_some_time(
                final(reg)@,
                self.sid(),
                LogLevel::Warn,
                message@,
                Some("discovery"@),
                None,
            ),
    {
        let level = LogLevel::Warn;
        let mut m = String::new();
        push_str(&mut m, message);
        assert(m@ =~= message@);
        reg.log(self.session_id.as_str(), level, Some(string_of("discovery")), None, m);
    }

    /// Records `message` at error level, tagged `discovery`.
    pub fn error(&self, reg: &mut LogRegistry, message: &str)
        requires
            old(reg).wf(),
        ensures
            final(reg).wf(),
            old(reg)@.logged_at_some_time(
                final(reg)@,
                self.sid(),
                LogLevel::Error,
                message@,
                Some("discovery"@),
                None,
            ),
    {
        let level = LogLevel::Error;
        let mut m = String::new();
        push_str(&mut m, message);
        assert(m@ =~= message@);
        reg.log(self.session_id.as_str(), level, Some(string_of("discovery")), None, m);
    }

}

/// Logger of STDIO command processing.
#[derive(Debug, Clone)]
pub struct StdioLogger {
    session_id: String,
}

impl StdioLogger {
    /// Session the logger writes to.
    pub closed spec fn sid(&self) -> Seq<char> {
        self.session_id@
    }

    /// A logger for session `session_id`, whose buffer is created when missing.
    pub fn new(reg: &mut LogRegistry, session_id: &str) -> (l: Self)
        requires
            old(reg).wf(),
        ensures
            final(reg).wf(),
            final(reg)@ == old(reg)@.with_buffer(session_id@),
            l.sid() == session_id@,
    {
        let _logger = get_logger(reg, session_id);
        StdioLogger { session_id: string_of(session_id) }
    }

    /// A logger for the session carried by `ctx`.
    pub fn from_context(reg: &mut LogRegistry, ctx: &SessionContext) -> (l: Self)
        requires
            old(reg).wf(),
        ensures
            final(reg).wf(),
            final(reg)@ == old(reg)@.with_buffer(ctx.sid()),
            l.sid() == ctx.sid(),
    {
        Self::new(reg, ctx.session_id())
    }

    pub fn session_id(&self) -> (r: &str)
        ensures
            r@ == self.sid(),
    {
        self.session_id.as_str()
    }

    /// Records `message` at debug level, tagged `stdio`.
    pub fn debug(&self, reg: &mut LogRegistry, message: &str)
        requires
            old(reg).wf(),
        ensures
            final(reg).wf(),
            old(reg)@.logged_at_some_time(
                final(reg)@,
                self.sid(),
                LogLevel::Debug,
                message@,
                Some("stdio"@),
                None,
            ),
    {
        let level = LogLevel::Debug;
        let mut m = String::new();
        push_str(&mut m, message);
        assert(m@ =~= message@);
        reg.log(self.session_id.as_str(), level, Some(string_of("stdio")), None, m);
    }

    /// Records `message` at info level, tagged `stdio`.
    pub fn info(&self, reg: &mut LogRegistry, message: &str)
        requires
            old(reg).wf(),
        ensures
            final(reg).wf(),
            old(reg)@.logged_at_some_time(
                final(reg)@,
                self.sid(),
                LogLevel::Info,
                message@,
                Some("stdio"@),
                None,
            ),
    {
        let level = LogLevel::Info;
        let mut m = String::new();
        push_str(&mut m, message);
        assert(m@ =~= message@);
        reg.log(self.session_id.as_str(), level, Some(string_of("stdio")), None, m);
    }

    /// Records `message` at warn level, tagged `stdio`.
    pub fn warn(&self, reg: &mut LogRegistry, message: &str)
        requires
            old(reg).wf(),
        ensures
            final(reg).wf(),
            old(reg)@.logged_at_some_time(
                final(reg)@,
                self.sid(),
                LogLevel::Warn,
                message@,
                Some("stdio"@),
                None,
            ),
    {
        let level = LogLevel::Warn;
        let mut m = String::new();
        push_str(&mut m, message);
        assert(m@ =~= message@);
        reg.log(self.session_id.as_str(), level, Some(string_of("stdio")), None, m);
    }

    /// Records `message` at error level, tagged `stdio`.
    pub fn error(&self, reg: &mut LogRegistry, message: &str)
        requires
            old(reg).wf(),
        ensures
            final(reg).wf(),
            old(reg)@.logged_at_some_time(
                final(reg)@,
                self.sid(),
                LogLevel::Error,
                message@,
                Some("stdio"@),
                None,
            ),
    {
        let level = LogLevel::Error;
        let mut m = String::new();
        push_str(&mut m, message);
        assert(m@ =~= message@);
        reg.log(self.session_id.as_str(), level, Some(string_of("stdio")), None, m);
    }

}

/// Logger of the chat service.
#[derive(Debug, Clone)]
pub struct ChatLogger {
    session_id: String,
}

impl ChatLogger {
    /// Session the logger writes to.
    pub closed spec fn sid(&self) -> Seq<char> {
        self.session_id@
    }

    /// A logger for session `session_id`, whose buffer is created when missing.
    pub fn new(reg: &mut LogRegistry, session_id: &str) -> (l: Self)
        requires
            old(reg).wf(),
        ensures
            final(reg).wf(),
            final(reg)@ == old(reg)@.with_buffer(session_id@),
            l.sid() == session_id@,
    {
        let _logger = get_logger(reg, session_id);
        ChatLogger { session_id: string_of(session_id) }
    }

    /// A logger for the session carried by `ctx`.
    pub fn from_context(reg: &mut LogRegistry, ctx: &SessionContext) -> (l: Self)
        requires
            old(reg).wf(),
        ensures
            final(reg).wf(),
            final(reg)@ == old(reg)@.with_buffer(ctx.sid()),
            l.sid() == ctx.sid(),
    {
        Self::new(reg, ctx.session_id())
    }

    pub fn session_id(&self) -> (r: &str)
        ensures
            r@ == self.sid(),
    {
        self.session_id.as_str()
    }

    /// Records `message` at debug level, tagged `chat`.
    pub fn debug(&self, reg: &mut LogRegistry, message: &str)
        requires
            old(reg).wf(),
        ensures
            final(reg).wf(),
            old(reg)@.logged_at_some_time(
                final(reg)@,
                self.sid(),
                LogLevel::Debug,
                message@,
                Some("chat"@),
                None,
            ),
    {
        let level = LogLevel::Debug;
        let mut m = String::new();
        push_str(&mut m, message);
        assert(m@ =~= message@);
        reg.log(self.session_id.as_str(), level, Some(string_of("chat")), None, m);
    }

    /// Records `message` at info level, tagged `chat`.
    pub fn info(&self, reg: &mut LogRegistry, message: &str)
        requires
            old(reg).wf(),
        ensures
            final(reg).wf(),
            old(reg)@.logged_at_some_time(
                final(reg)@,
                self.sid(),
                LogLevel::Info,
                message@,
                Some("chat"@),
                None,
            ),
    {
        let level = LogLevel::Info;
        let mut m = String::new();
        push_str(&mut m, message);
        assert(m@ =~= message@);
        reg.log(self.session_id.as_str(), level, Some(string_of("chat")), None, m);
    }

    /// Records `message` at warn level, tagged `chat`.
    pub fn warn(&self, reg: &mut LogRegistry, message: &str)
        requires
            old(reg).wf(),
        ensures
            final(reg).wf(),
            old(reg)@.logged_at_some_time(
                final(reg)@,
                self.sid(),
                LogLevel::Warn,
                message@,
                Some("chat"@),
                None,
            ),
    {
        let level = LogLevel::Warn;
        let mut m = String::new();
        push_str(&mut m, message);
        assert(m@ =~= message@);
        reg.log(self.session_id.as_str(), level, Some(string_of("chat")), None, m);
    }

    /// Records `message` at error level, tagged `chat`.
    pub fn error(&self, reg: &mut LogRegistry, message: &str)
        requires
            old(reg).wf(),
        ensures
            final(reg).wf(),
            old(reg)@.logged_at_some_time(
                final(reg)@,
                self.sid(),
                LogLevel::Error,
                message@,
                Some("chat"@),
                None,
            ),
    {
        let level = LogLevel::Error;
        let mut m = String::new();
        push_str(&mut m, message);
        assert(m@ =~= message@);
        reg.log(self.session_id.as_str(), level, Some(string_of("chat")), None, m);
    }

}

/// Logger of the WASM runtime.
#[derive(Debug, Clone)]
pub struct WasmLogger {
    session_id: String,
}

impl WasmLogger {
    /// Session the logger writes to.
    pub closed spec fn sid(&self) -> Seq<char> {
        self.session_id@
    }

    /// A logger for session `session_id`, whose buffer is created when missing.
    pub fn new(reg: &mut LogRegistry, session_id: &str) -> (l: Self)
        requires
            old(reg).wf(),
        ensures
            final(reg).wf(),
            final(reg)@ == old(reg)@.with_buffer(session_id@),
            l.sid() == session_id@,
    {
        let _logger = get_logger(reg, session_id);
        WasmLogger { session_id: string_of(session_id) }
    }

    /// A logger for the session carried by `ctx`.
    pub fn from_context(reg: &mut LogRegistry, ctx: &SessionContext) -> (l: Self)
        requires
            old(reg).wf(),
        ensures
            final(reg).wf(),
            final(reg)@ == old(reg)@.with_buffer(ctx.sid()),
            l.sid() == ctx.sid(),
    {
        Self::new(reg, ctx.session_id())
    }

    pub fn session_id(&self) -> (r: &str)
        ensures
            r@ == self.sid(),
    {
        self.session_id.as_str()
    }

    /// Records `message` at debug level, tagged `wasm`.
    pub fn debug(&self, reg: &mut LogRegistry, message: &str)
        requires
            old(reg).wf(),
        ensures
            final(reg).wf(),
            old(reg)@.logged_at_some_time(
                final(reg)@,
                self.sid(),
                LogLevel::Debug,
                message@,
                Some("wasm"@),
                None,
            ),
    {
        let level = LogLevel::Debug;
        let mut m = String::new();
        push_str(&mut m, message);
        assert(m@ =~= message@);
        reg.log(self.session_id.as_str(), level, Some(string_of("wasm")), None, m);
    }

    /// Records `message` at info level, tagged `wasm`.
    pub fn info(&self, reg: &mut LogRegistry, message: &str)
        requires
            old(reg).wf(),
        ensures
            final(reg).wf(),
            old(reg)@.logged_at_some_time(
                final(reg)@,
                self.sid(),
                LogLevel::Info,
                message@,
                Some("wasm"@),
                None,
            ),
    {
        let level = LogLevel::Info;
        let mut m = String::new();
        push_str(&mut m, message);
        assert(m@ =~= message@);
        reg.log(self.session_id.as_str(), level, Some(string_of("wasm")), None, m);
    }

    /// Records `message` at warn level, tagged `wasm`.
    pub fn warn(&self, reg: &mut LogRegistry, message: &str)
        requires
            old(reg).wf(),
        ensures
            final(reg).wf(),
            old(reg)@.logged_at_some_time(
                final(reg)@,
                self.sid(),
                LogLevel::Warn,
                message@,
                Some("wasm"@),
                None,
            ),
    {
        let level = LogLevel::Warn;
        let mut m = String::new();
        push_str(&mut m, message);
        assert(m@ =~= message@);
        reg.log(self.session_id.as_str(), level, Some(string_of("wasm")), None, m);
    }

    /// Records `message` at error level, tagged `wasm`.
    pub fn error(&self, reg: &mut LogRegistry, message: &str)
        requires
            old(reg).wf(),
        ensures
            final(reg).wf(),
            old(reg)@.logged_at_some_time(
                final(reg)@,
                self.sid(),
                LogLevel::Error,
                message@,
                Some("wasm"@),
                None,
            ),
    {
        let level = LogLevel::Error;
        let mut m = String::new();
        push_str(&mut m, message);
        assert(m@ =~= message@);
        reg.log(self.session_id.as_str(), level, Some(string_of("wasm")), None, m);
    }

}

/// Logger of retries and circuit breaking.
#[derive(Debug, Clone)]
pub struct ResilienceLogger {
    session_id: String,
}

impl ResilienceLogger {
    /// Session the logger writes to.
    pub closed spec fn sid(&self) -> Seq<char> {
        self.session_id@
    }

    /// A logger for session `session_id`, whose buffer is created when missing.
    pub fn new(reg: &mut LogRegistry, session_id: &str) -> (l: Self)
        requires
            old(reg).wf(),
        ensures
            final(reg).wf(),
            final(reg)@ == old(reg)@.with_buffer(session_id@),
            l.sid() == session_id@,
    {
        let _logger = get_logger(reg, session_id);
        ResilienceLogger { session_id: string_of(session_id) }
    }

    /// A logger for the session carried by `ctx`.
    pub fn from_context(reg: &mut LogRegistry, ctx: &SessionContext) -> (l: Self)
        requires
            old(reg).wf(),
        ensures
            final(reg).wf(),
            final(reg)@ == old(reg)@.with_buffer(ctx.sid()),
            l.sid() == ctx.sid(),
    {
        Self::new(reg, ctx.session_id())
    }

    pub fn session_id(&self) -> (r: &str)
        ensures
            r@ == self.sid(),
    {
        self.session_id.as_str()
    }

    /// Records `message` at debug level, tagged `resilience`.
    pub fn debug(&self, reg: &mut LogRegistry, message: &str)
        requires
            old(reg).wf(),
        ensures
            final(reg).wf(),
            old(reg)@.logged_at_some_time(
                final(reg)@,
                self.sid(),
                LogLevel::Debug,
                message@,
                Some("resilience"@),
                None,
            ),
    {
        let level = LogLevel::Debug;
        let mut m = String::new();
        push_str(&mut m, message);
        assert(m@ =~= message@);
        reg.log(self.session_id.as_str(), level, Some(string_of("resilience")), None, m);
    }

    /// Records `message` at info level, tagged `resilience`.
    pub fn info(&self, reg: &mut LogRegistry, message: &str)
        requires
            old(reg).wf(),
        ensures
            final(reg).wf(),
            old(reg)@.logged_at_some_time(
                final(reg)@,
                self.sid(),
                LogLevel::Info,
                message@,
                Some("resilience"@),
                None,
            ),
    {
        let level = LogLevel::Info;
        let mut m = String::new();
        push_str(&mut m, message);
        assert(m@ =~= message@);
        reg.log(self.session_id.as_str(), level, Some(string_of("resilience")), None, m);
    }

    /// Records `message` at warn level, tagged `resilience`.
    pub fn warn(&self, reg: &mut LogRegistry, message: &str)
        requires
            old(reg).wf(),
        ensures
            final(reg).wf(),
            old(reg)@.logged_at_some_time(
                final(reg)@,
                self.sid(),
                LogLevel::Warn,
                message@,
                Some("resilience"@),
                None,
            ),
    {
        let level = LogLevel::Warn;
        let mut m = String::new();
        push_str(&mut m, message);
        assert(m@ =~= message@);
        reg.log(self.session_id.as_str(), level, Some(string_of("resilience")), None, m);
    }

    /// Records `message` at error level, tagged `resilience`.
    pub fn error(&self, reg: &mut LogRegistry, message: &str)
        requires
            old(reg).wf(),
        ensures
            final(reg).wf(),
            old(reg)@.logged_at_some_time(
                final(reg)@,
                self.sid(),
                LogLevel::Error,
                message@,
                Some("resilience"@),
                None,
            ),
    {
        let level = LogLevel::Error;
        let mut m = String::new();
        push_str(&mut m, message);
        assert(m@ =~= message@);
        reg.log(self.session_id.as_str(), level, Some(string_of("resilience")), None, m);
    }

}

/// Logger of multi-agent orchestration.
#[derive(Debug, Clone)]
pub struct OrchestratorLogger {
    session_id: String,
}

impl OrchestratorLogger {
    /// Session the logger writes to.
    pub closed spec fn sid(&self) -> Seq<char> {
        self.session_id@
    }

    /// A logger for session `session_id`, whose buffer is created when missing.
    pub fn new(reg: &mut LogRegistry, session_id: &str) -> (l: Self)
        requires
            old(reg).wf(),
        ensures
            final(reg).wf(),
            final(reg)@ == old(reg)@.with_buffer(session_id@),
            l.sid() == session_id@,
    {
        let _logger = get_logger(reg, session_id);
        OrchestratorLogger { session_id: string_of(session_id) }
    }

    /// A logger for the session carried by `ctx`.
    pub fn from_context(reg: &mut LogRegistry, ctx: &SessionContext) -> (l: Self)
        requires
            old(reg).wf(),
        ensures
            final(reg).wf(),
            final(reg)@ == old(reg)@.with_buffer(ctx.sid()),
            l.sid() == ctx.sid(),
    {
        Self::new(reg, ctx.session_id())
    }

    pub fn session_id(&self) -> (r: &str)
        ensures
            r@ == self.sid(),
    {
        self.session_id.as_str()
    }

    /// Records `message` at debug level, tagged `orchestrator`.
    pub fn debug(&self, reg: &mut LogRegistry, message: &str)
        requires
            old(reg).wf(),
        ensures
            final(reg).wf(),
            old(reg)@.logged_at_some_time(
                final(reg)@,
                self.sid(),
                LogLevel::Debug,
                message@,
                Some("orchestrator"@),
                None,
            ),
    {
        let level = LogLevel::Debug;
        let mut m = String::new();
        push_str(&mut m, message);
        assert(m@ =~= message@);
        reg.log(self.session_id.as_str(), level, Some(string_of("orchestrator")), None, m);
    }

    /// Records `message` at info level, tagged `orchestrator`.
    pub fn info(&self, reg: &mut LogRegistry, message: &str)
        requires
            old(reg).wf(),
        ensures
            final(reg).wf(),
            old(reg)@.logged_at_some_time(
                final(reg)@,
                self.sid(),
                LogLevel::Info,
                message@,
                Some("orchestrator"@),
                None,
            ),
    {
        let level = LogLevel::Info;
        let mut m = String::new();
        push_str(&mut m, message);
        assert(m@ =~= message@);
        reg.log(self.session_id.as_str(), level, Some(string_of("orchestrator")), None, m);
    }

    /// Records `message` at warn level, tagged `orchestrator`.
    pub fn warn(&self, reg: &mut LogRegistry, message: &str)
        requires
            old(reg).wf(),
        ensures
            final(reg).wf(),
            old(reg)@.logged_at_some_time(
                final(reg)@,
                self.sid(),
                LogLevel::Warn,
                message@,
                Some("orchestrator"@),
                None,
            ),
    {
        let level = LogLevel::Warn;
        let mut m = String::new();
        push_str(&mut m, message);
        assert(m@ =~= message@);
        reg.log(self.session_id.as_str(), level, Some(string_of("orchestrator")), None, m);
    }

    /// Records `message` at error level, tagged `orchestrator`.
    pub fn error(&self, reg: &mut LogRegistry, message: &str)
        requires
            old(reg).wf(),
        ensures
            final(reg).wf(),
            old(reg)@.logged_at_some_time(
                final(reg)@,
                self.sid(),
                LogLevel::Error,
                message@,
                Some("orchestrator"@),
                None,
            ),
    {
        let level = LogLevel::Error;
        let mut m = String::new();
        push_str(&mut m, message);
        assert(m@ =~= message@);
        reg.log(self.session_id.as_str(), level, Some(string_of("orchestrator")), None, m);
    }

}

/// Logger of LLM streaming.
#[derive(Debug, Clone)]
pub struct StreamingLogger {
    session_id: String,
}

impl StreamingLogger {
    /// Session the logger writes to.
    pub closed spec fn sid(&self) -> Seq<char> {
        self.session_id@
    }

    /// A logger for session `session_id`, whose buffer is created when missing.
    pub fn new(reg: &mut LogRegistry, session_id: &str) -> (l: Self)
        requires
            old(reg).wf(),
        ensures
            final(reg).wf(),
            final(reg)@ == old(reg)@.with_buffer(session_id@),
            l.sid() == session_id@,
    {
        let _logger = get_logger(reg, session_id);
        StreamingLogger { session_id: string_of(session_id) }
    }

    /// A logger for the session carried by `ctx`.
    pub fn from_context(reg: &mut LogRegistry, ctx: &SessionContext) -> (l: Self)
        requires
            old(reg).wf(),
        ensures
            final(reg).wf(),
            final(reg)@ == old(reg)@.with_buffer(ctx.sid()),
            l.sid() == ctx.sid(),
    {
        Self::new(reg, ctx.session_id())
    }

    pub fn session_id(&self) -> (r: &str)
        ensures
            r@ == self.sid(),
    {
        self.session_id.as_str()
    }

    /// Records `message` at debug level, tagged `streaming`.
    pub fn debug(&self, reg: &mut LogRegistry, message: &str)
        requires
            old(reg).wf(),
        ensures
            final(reg).wf(),
            old(reg)@.logged_at_some_time(
                final(reg)@,
                self.sid(),
                LogLevel::Debug,
                message@,
                Some("streaming"@),
                None,
            ),
    {
        let level = LogLevel::Debug;
        let mut m = String::new();
        push_str(&mut m, message);
        assert(m@ =~= message@);
        reg.log(self.session_id.as_str(), level, Some(string_of("streaming")), None, m);
    }

    /// Records `message` at info level, tagged `streaming`.
    pub fn info(&self, reg: &mut LogRegistry, message: &str)
        requires
            old(reg).wf(),
        ensures
            final(reg).wf(),
            old(reg)@.logged_at_some_time(
                final(reg)@,
                self.sid(),
                LogLevel::Info,
                message@,
                Some("streaming"@),
                None,
            ),
    {
        let level = LogLevel::Info;
        let mut m = String::new();
        push_str(&mut m, message);
        assert(m@ =~= message@);
        reg.log(self.session_id.as_str(), level, Some(string_of("streaming")), None, m);
    }

    /// Records `message` at warn level, tagged `streaming`.
    pub fn warn(&self, reg: &mut LogRegistry, message: &str)
        requires
            old(reg).wf(),
        ensures
            final(reg).wf(),
            old(reg)@.logged_at_some_time(
                final(reg)@,
                self.sid(),
                LogLevel::Warn,
                message@,
                Some("streaming"@),
                None,
            ),
    {
        let level = LogLevel::Warn;
        let mut m = String::new();
        push_str(&mut m, message);
        assert(m@ =~= message@);
        reg.log(self.session_id.as_str(), level, Some(string_of("streaming")), None, m);
    }

    /// Records `message` at error level, tagged `streaming`.
    pub fn error(&self, reg: &mut LogRegistry, message: &str)
        requires
            old(reg).wf(),
        ensures
            final(reg).wf(),
            old(reg)@.logged_at_some_time(
                final(reg)@,
                self.sid(),
                LogLevel::Error,
                message@,
                Some("streaming"@),
                None,
            ),
    {
        let level = LogLevel::Error;
        let mut m = String::new();
        push_str(&mut m, message);
        assert(m@ =~= message@);
        reg.log(self.session_id.as_str(), level, Some(string_of("streaming")), None, m);
    }

    /// Records the start of a streaming session.
    pub fn session_start(&self, reg: &mut LogRegistry, mode: &str, session_id: &str)
        requires
            old(reg).wf(),
        ensures
            final(reg).wf(),
            old(reg)@.logged_at_some_time(
                final(reg)@,
                self.sid(),
                LogLevel::Info,
                "Streaming session started | mode="@ + mode@ + " session_id="@ + session_id@,
                Some("streaming"@),
                None,
            ),
    {
        let level = LogLevel::Info;
        let mut m = string_of("Streaming session started | mode=");
        push_str(&mut m, mode);
        push_str(&mut m, " session_id=");
        push_str(&mut m, session_id);
        assert(m@ =~= "Streaming session started | mode="@ + mode@ + " session_id="@ + session_id@);
        reg.log(self.session_id.as_str(), level, Some(string_of("streaming")), None, m);
    }

    /// Records the end of a streaming session.
    pub fn session_end(&self, reg: &mut LogRegistry, session_id: &str, total_events: usize)
        requires
            old(reg).wf(),
        ensures
            final(reg).wf(),
            old(reg)@.logged_at_some_time(
                final(reg)@,
                self.sid(),
                LogLevel::Info,
                "Streaming session ended | session_id="@ + session_id@ + " total_events="@ + decimal(total_events as nat),
                Some("streaming"@),
                None,
            ),
    {
        let level = LogLevel::Info;
        let mut m = string_of("Streaming session ended | session_id=");
        push_str(&mut m, session_id);
        push_str(&mut m, " total_events=");
        push_decimal(&mut m, total_events as u64);
        assert(m@ =~= "Streaming session ended | session_id="@ + session_id@ + " total_events="@ + decimal(total_events as nat));
        reg.log(self.session_id.as_str(), level, Some(string_of("streaming")), None, m);
    }

    /// Records an emitted token (debug).
    pub fn token_emitted(&self, reg: &mut LogRegistry, session_id: &str, content_len: usize)
        requires
            old(reg).wf(),
        ensures
            final(reg).wf(),
            old(reg)@.logged_at_some_time(
                final(reg)@,
                self.sid(),
                LogLevel::Debug,
                "Token emitted | session_id="@ + session_id@ + " content_len="@ + decimal(content_len as nat),
                Some("streaming"@),
                None,
            ),
    {
        let level = LogLevel::Debug;
        let mut m = string_of("Token emitted | session_id=");
        push_str(&mut m, session_id);
        push_str(&mut m, " content_len=");
        push_decimal(&mut m, content_len as u64);
        assert(m@ =~= "Token emitted | session_id="@ + session_id@ + " content_len="@ + decimal(content_len as nat));
        reg.log(self.session_id.as_str(), level, Some(string_of("streaming")), None, m);
    }

    /// Records a buffer flush (debug).
    pub fn buffer_flushed(&self, reg: &mut LogRegistry, session_id: &str, event_count: usize)
        requires
            old(reg).wf(),
        ensures
            final(reg).wf(),
            old(reg)@.logged_at_some_time(
                final(reg)@,
                self.sid(),
                LogLevel::Debug,
                "Buffer flushed | session_id="@ + session_id@ + " event_count="@ + decimal(event_count as nat),
                Some("streaming"@),
                None,
            ),
    {
        let level = LogLevel::Debug;
        let mut m = string_of("Buffer flushed | session_id=");
        push_str(&mut m, session_id);
        push_str(&mut m, " event_count=");
        push_decimal(&mut m, event_count as u64);
        assert(m@ =~= "Buffer flushed | session_id="@ + session_id@ + " event_count="@ + decimal(event_count as nat));
        reg.log(self.session_id.as_str(), level, Some(string_of("streaming")), None, m);
    }

    /// Records a buffer overflow (warning).
    pub fn buffer_overflow(&self, reg: &mut LogRegistry, session_id: &str, dropped: usize)
        requires
            old(reg).wf(),
        ensures
            final(reg).wf(),
            old(reg)@.logged_at_some_time(
                final(reg)@,
                self.sid(),
                LogLevel::Warn,
                "Buffer overflow | session_id="@ + session_id@ + " dropped="@ + decimal(dropped as nat),
                Some("streaming"@),
                None,
            ),
    {
        let level = LogLevel::Warn;
        let mut m = string_of("Buffer overflow | session_id=");
        push_str(&mut m, session_id);
        push_str(&mut m, " dropped=");
        push_decimal(&mut m, dropped as u64);
        assert(m@ =~= "Buffer overflow | session_id="@ + session_id@ + " dropped="@ + decimal(dropped as nat));
        reg.log(self.session_id.as_str(), level, Some(string_of("streaming")), None, m);
    }

    /// Records a tool event (debug).
    pub fn tool_event(&self, reg: &mut LogRegistry, session_id: &str, tool_name: &str, phase: &str)
        requires
            old(reg).wf(),
        ensures
            final(reg).wf(),
            old(reg)@.logged_at_some_time(
                final(reg)@,
                self.sid(),
                LogLevel::Debug,
                "Tool event | session_id="@ + session_id@ + " tool="@ + tool_name@ + " phase="@ + phase@,
                Some("streaming"@),
                None,
            ),
    {
        let level = LogLevel::Debug;
        let mut m = string_of("Tool event | session_id=");
        push_str(&mut m, session_id);
        push_str(&mut m, " tool=");
        push_str(&mut m, tool_name);
        push_str(&mut m, " phase=");
        push_str(&mut m, phase);
        assert(m@ =~= "Tool event | session_id="@ + session_id@ + " tool="@ + tool_name@ + " phase="@ + phase@);
        reg.log(self.session_id.as_str(), level, Some(string_of("streaming")), None, m);
    }

    /// Records a streaming error.
    pub fn stream_error(&self, reg: &mut LogRegistry, session_id: &str, error: &str)
        requires
            old(reg).wf(),
        ensures
            final(reg).wf(),
            old(reg)@.logged_at_some_time(
                final(reg)@,
                self.sid(),
                LogLevel::Error,
                "Stream error | session_id="@ + session_id@ + " error="@ + error@,
                Some("streaming"@),
                None,
            ),
    {
        let level = LogLevel::Error;
        let mut m = string_of("Stream error | session_id=");
        push_str(&mut m, session_id);
        push_str(&mut m, " error=");
        push_str(&mut m, error);
        assert(m@ =~= "Stream error | session_id="@ + session_id@ + " error="@ + error@);
        reg.log(self.session_id.as_str(), level, Some(string_of("streaming")), None, m);
    }

}

/// Logger of telemetry, metrics, audit and tracing.
#[derive(Debug, Clone)]
pub struct ObservabilityLogger {
    session_id: String,
}

impl ObservabilityLogger {
    /// Session the logger writes to.
    pub closed spec fn sid(&self) -> Seq<char> {
        self.session_id@
    }

    /// A logger for session `session_id`, whose buffer is created when missing.
    pub fn new(reg: &mut LogRegistry, session_id: &str) -> (l: Self)
        requires
            old(reg).wf(),
        ensures
            final(reg).wf(),
            final(reg)@ == old(reg)@.with_buffer(session_id@),
            l.sid() == session_id@,
    {
        let _logger = get_logger(reg, session_id);
        ObservabilityLogger { session_id: string_of(session_id) }
    }

    /// A logger for the session carried by `ctx`.
    pub fn from_context(reg: &mut LogRegistry, ctx: &SessionContext) -> (l: Self)
        requires
            old(reg).wf(),
        ensures
            final(reg).wf(),
            final(reg)@ == old(reg)@.with_buffer(ctx.sid()),
            l.sid() == ctx.sid(),
    {
        Self::new(reg, ctx.session_id())
    }

    pub fn session_id(&self) -> (r: &str)
        ensures
            r@ == self.sid(),
    {
        self.session_id.as_str()
    }

    /// Records `message` at debug level, tagged `observability`.
    pub fn debug(&self, reg: &mut LogRegistry, message: &str)
        requires
            old(reg).wf(),
        ensures
            final(reg).wf(),
            old(reg)@.logged_at_some_time(
                final(reg)@,
                self.sid(),
                LogLevel::Debug,
                message@,
                Some("observability"@),
                None,
            ),
    {
        let level = LogLevel::Debug;
        let mut m = String::new();
        push_str(&mut m, message);
        assert(m@ =~= message@);
        reg.log(self.session_id.as_str(), level, Some(string_of("observability")), None, m);
    }

    /// Records `message` at info level, tagged `observability`.
    pub fn info(&self, reg: &mut LogRegistry, message: &str)
        requires
            old(reg).wf(),
        ensures
            final(reg).wf(),
            old(reg)@.logged_at_some_time(
                final(reg)@,
                self.sid(),
                LogLevel::Info,
                message@,
                Some("observability"@),
                None,
            ),
    {
        let level = LogLevel::Info;
        let mut m = String::new();
        push_str(&mut m, message);
        assert(m@ =~= message@);
        reg.log(self.session_id.as_str(), level, Some(string_of("observability")), None, m);
    }

    /// Records `message` at warn level, tagged `observability`.
    pub fn warn(&self, reg: &mut LogRegistry, message: &str)
        requires
            old(reg).wf(),
        ensures
            final(reg).wf(),
            old(reg)@.logged_at_some_time(
                final(reg)@,
                self.sid(),
                LogLevel::Warn,
                message@,
                Some("observability"@),
                None,
            ),
    {
        let level = LogLevel::Warn;
        let mut m = String::new();
        push_str(&mut m, message);
        assert(m@ =~= message@);
        reg.log(self.session_id.as_str(), level, Some(string_of("observability")), None, m);
    }

    /// Records `message` at error level, tagged `observability`.
    pub fn error(&self, reg: &mut LogRegistry, message: &str)
        requires
            old(reg).wf(),
        ensures
            final(reg).wf(),
            old(reg)@.logged_at_some_time(
                final(reg)@,
                self.sid(),
                LogLevel::Error,
                message@,
                Some("observability"@),
                None,
            ),
    {
        let level = LogLevel::Error;
        let mut m = String::new();
        push_str(&mut m, message);
        assert(m@ =~= message@);
        reg.log(self.session_id.as_str(), level, Some(string_of("observability")), None, m);
    }

}

/// Logger of rate limiting, secrets and validation.
#[derive(Debug, Clone)]
pub struct SecurityLogger {
    session_id: String,
}

impl SecurityLogger {
    /// Session the logger writes to.
    pub closed spec fn sid(&self) -> Seq<char> {
        self.session_id@
    }

    /// A logger for session `session_id`, whose buffer is created when missing.
    pub fn new(reg: &mut LogRegistry, session_id: &str) -> (l: Self)
        requires
            old(reg).wf(),
        ensures
            final(reg).wf(),
            final(reg)@ == old(reg)@.with_buffer(session_id@),
            l.sid() == session_id@,
    {
        let _logger = get_logger(reg, session_id);
        SecurityLogger { session_id: string_of(session_id) }
    }

    /// A logger for the session carried by `ctx`.
    pub fn from_context(reg: &mut LogRegistry, ctx: &SessionContext) -> (l: Self)
        requires
            old(reg).wf(),
        ensures
            final(reg).wf(),
            final(reg)@ == old(reg)@.with_buffer(ctx.sid()),
            l.sid() == ctx.sid(),
    {
        Self::new(reg, ctx.session_id())
    }

    pub fn session_id(&self) -> (r: &str)
        ensures
            r@ == self.sid(),
    {
        self.session_id.as_str()
    }

    /// Records `message` at debug level, tagged `security`.
    pub fn debug(&self, reg: &mut LogRegistry, message: &str)
        requires
            old(reg).wf(),
        ensures
            final(reg).wf(),
            old(reg)@.logged_at_some_time(
                final(reg)@,
                self.sid(),
                LogLevel::Debug,
                message@,
                Some("security"@),
                None,
            ),
    {
        let level = LogLevel::Debug;
        let mut m = String::new();
        push_str(&mut m, message);
        assert(m@ =~= message@);
        reg.log(self.session_id.as_str(), level, Some(string_of("security")), None, m);
    }

    /// Records `message` at info level, tagged `security`.
    pub fn info(&self, reg: &mut LogRegistry, message: &str)
        requires
            old(reg).wf(),
        ensures
            final(reg).wf(),
            old(reg)@.logged_at_some_time(
                final(reg)@,
                self.sid(),
                LogLevel::Info,
                message@,
                Some("security"@),
                None,
            ),
    {
        let level = LogLevel::Info;
        let mut m = String::new();
        push_str(&mut m, message);
        assert(m@ =~= message@);
        reg.log(self.session_id.as_str(), level, Some(string_of("security")), None, m);
    }

    /// Records `message` at warn level, tagged `security`.
    pub fn warn(&self, reg: &mut LogRegistry, message: &str)
        requires
            old(reg).wf(),
        ensures
            final(reg).wf(),
            old(reg)@.logged_at_some_time(
                final(reg)@,
                self.sid(),
                LogLevel::Warn,
                message@,
                Some("security"@),
                None,
            ),
    {
        let level = LogLevel::Warn;
        let mut m = String::new();
        push_str(&mut m, message);
        assert(m@ =~= message@);
        reg.log(self.session_id.as_str(), level, Some(string_of("security")), None, m);
    }

    /// Records `message` at error level, tagged `security`.
    pub fn error(&self, reg: &mut LogRegistry, message: &str)
        requires
            old(reg).wf(),
        ensures
            final(reg).wf(),
            old(reg)@.logged_at_some_time(
                final(reg)@,
                self.sid(),
                LogLevel::Error,
                message@,
                Some("security"@),
                None,
            ),
    {
        let level = LogLevel::Error;
        let mut m = String::new();
        push_str(&mut m, message);
        assert(m@ =~= message@);
        reg.log(self.session_id.as_str(), level, Some(string_of("security")), None, m);
    }

    /// Records a rate limit check (debug when allowed, warning otherwise).
    pub fn rate_limit_check(&self, reg: &mut LogRegistry, session_id: &str, allowed: bool)
        requires
            old(reg).wf(),
        ensures
            final(reg).wf(),
            old(reg)@.logged_at_some_time(
                final(reg)@,
                self.sid(),
                if allowed { LogLevel::Debug } else { LogLevel::Warn },
                "Rate limit check | session="@ + session_id@ + " allowed="@ + bool_text(allowed),
                Some("security"@),
                None,
            ),
    {
        let level = if allowed { LogLevel::Debug } else { LogLevel::Warn };
        let mut m = string_of("Rate limit check | session=");
        push_str(&mut m, session_id);
        push_str(&mut m, " allowed=");
        push_bool(&mut m, allowed);
        assert(m@ =~= "Rate limit check | session="@ + session_id@ + " allowed="@ + bool_text(allowed));
        reg.log(self.session_id.as_str(), level, Some(string_of("security")), None, m);
    }

    /// Records an exceeded rate limit (warning).
    pub fn rate_limit_exceeded(&self, reg: &mut LogRegistry, session_id: &str, reason: &str)
        requires
            old(reg).wf(),
        ensures
            final(reg).wf(),
            old(reg)@.logged_at_some_time(
                final(reg)@,
                self.sid(),
                LogLevel::Warn,
                "Rate limit exceeded | session="@ + session_id@ + " reason="@ + reason@,
                Some("security"@),
                None,
            ),
    {
        let level = LogLevel::Warn;
        let mut m = string_of("Rate limit exceeded | session=");
        push_str(&mut m, session_id);
        push_str(&mut m, " reason=");
        push_str(&mut m, reason);
        assert(m@ =~= "Rate limit exceeded | session="@ + session_id@ + " reason="@ + reason@);
        reg.log(self.session_id.as_str(), level, Some(string_of("security")), None, m);
    }

    /// Records a stored secret (debug).
    pub fn secret_stored(&self, reg: &mut LogRegistry, id: &str)
        requires
            old(reg).wf(),
        ensures
            final(reg).wf(),
            old(reg)@.logged_at_some_time(
                final(reg)@,
                self.sid(),
                LogLevel::Debug,
                "Secret stored | id="@ + id@,
                Some("security"@),
                None,
            ),
    {
        let level = LogLevel::Debug;
        let mut m = string_of("Secret stored | id=");
        push_str(&mut m, id);
        assert(m@ =~= "Secret stored | id="@ + id@);
        reg.log(self.session_id.as_str(), level, Some(string_of("security")), None, m);
    }

    /// Records a retrieved secret (debug).
    pub fn secret_retrieved(&self, reg: &mut LogRegistry, id: &str)
        requires
            old(reg).wf(),
        ensures
            final(reg).wf(),
            old(reg)@.logged_at_some_time(
                final(reg)@,
                self.sid(),
                LogLevel::Debug,
                "Secret retrieved | id="@ + id@,
                Some("security"@),
                None,
            ),
    {
        let level = LogLevel::Debug;
        let mut m = string_of("Secret retrieved | id=");
        push_str(&mut m, id);
        assert(m@ =~= "Secret retrieved | id="@ + id@);
        reg.log(self.session_id.as_str(), level, Some(string_of("security")), None, m);
    }

    /// Records a rotated secret.
    pub fn secret_rotated(&self, reg: &mut LogRegistry, id: &str)
        requires
            old(reg).wf(),
        ensures
            final(reg).wf(),
            old(reg)@.logged_at_some_time(
                final(reg)@,
                self.sid(),
                LogLevel::Info,
                "Secret rotated | id="@ + id@,
                Some("security"@),
                None,
            ),
    {
        let level = LogLevel::Info;
        let mut m = string_of("Secret rotated | id=");
        push_str(&mut m, id);
        assert(m@ =~= "Secret rotated | id="@ + id@);
        reg.log(self.session_id.as_str(), level, Some(string_of("security")), None, m);
    }

    /// Records a deleted secret.
    pub fn secret_deleted(&self, reg: &mut LogRegistry, id: &str)
        requires
            old(reg).wf(),
        ensures
            final(reg).wf(),
            old(reg)@.logged_at_some_time(
                final(reg)@,
                self.sid(),
                LogLevel::Info,
                "Secret deleted | id="@ + id@,
                Some("security"@),
                None,
            ),
    {
        let level = LogLevel::Info;
        let mut m = string_of("Secret deleted | id=");
        push_str(&mut m, id);
        assert(m@ =~= "Secret deleted | id="@ + id@);
        reg.log(self.session_id.as_str(), level, Some(string_of("security")), None, m);
    }

    /// Records a secrets error.
    pub fn secret_error(&self, reg: &mut LogRegistry, id: &str, error: &str)
        requires
            old(reg).wf(),
        ensures
            final(reg).wf(),
            old(reg)@.logged_at_some_time(
                final(reg)@,
                self.sid(),
                LogLevel::Error,
                "Secret error | id="@ + id@ + " error="@ + error@,
                Some("security"@),
                None,
            ),
    {
        let level = LogLevel::Error;
        let mut m = string_of("Secret error | id=");
        push_str(&mut m, id);
        push_str(&mut m, " error=");
        push_str(&mut m, error);
        assert(m@ =~= "Secret error | id="@ + id@ + " error="@ + error@);
        reg.log(self.session_id.as_str(), level, Some(string_of("security")), None, m);
    }

    /// Records a cleanup task action (debug).
    pub fn cleanup_task(&self, reg: &mut LogRegistry, action: &str)
        requires
            old(reg).wf(),
        ensures
            final(reg).wf(),
            old(reg)@.logged_at_some_time(
                final(reg)@,
                self.sid(),
                LogLevel::Debug,
                "Cleanup task | action="@ + action@,
                Some("security"@),
                None,
            ),
    {
        let level = LogLevel::Debug;
        let mut m = string_of("Cleanup task | action=");
        push_str(&mut m, action);
        assert(m@ =~= "Cleanup task | action="@ + action@);
        reg.log(self.session_id.as_str(), level, Some(string_of("security")), None, m);
    }

}

} // verus!
