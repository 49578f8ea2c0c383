//! The agent runner's runtime: the default configuration, the sessions in
//! memory and how a host configures them, the streamed turns (preparing a
//! user turn, appending the model's chunks, committing its answer), the
//! registered tools, the events queued for the host and the per-session
//! counters.
use vstd::prelude::*;
use crate::agent_types::{
    default_context_policy, session_id_for_ms, to_core, transition_allowed, AgentConfig,
    AgentFsmState, AgentMessage, ContextPolicy, ContextSummary, ToolCall,
};
use crate::json::{copy_json, json_same, JsonValue};
use crate::processor::{
    self, plan_of, ActionPlan, build_llm_messages, llm_messages, llm_processed, pairs_view, parsed_response,
    role_content, role_content_message, tool_call_texts, tool_processed, AgentAction,
};
use crate::json_value::{compact_json, pretty_json, to_compact};
use crate::assoc::{has_key, keys_unique, lookup};
use crate::clock::now_unix_ms;
use crate::log_entries::LogLevel;
use crate::logger::{LogRegistry, Logger, RegistryState};
use crate::processor::AgentState;
use crate::runner::{session_id_text, AgentRunnerError, SessionIdGenerator};
use crate::session_store::{
    capacity_split, lemma_sweep_keeps_slots, opt_view, sweep_split, SessionSlot, SessionStore,
    DEFAULT_MAX_IN_MEMORY_SESSIONS,
};
use crate::streaming::{
    build_turn_system_prompt, tool_call_error, tools_block, tools_prompt_block, turn_system_prompt,
    validate_tool_call, CommitResult, PrepareUserTurnInput, PreparedTurn, StreamEvent,
    StreamEventKind, TelemetryCounters, TelemetrySnapshot, ToolDefinition,
};
use crate::text::{copy_string, decimal, push_decimal, push_str, str_eq, string_of};

verus! {

/// A host's configuration request: each field that is given replaces the
/// runtime's default; `session_id` names the session to create (a new id
/// is made when it is absent).
#[derive(Debug, Clone, Default)]
pub struct RunnerConfigInput {
    pub session_id: Option<String>,
    pub max_steps: Option<u32>,
    pub verbose: Option<bool>,
    pub auto_execute_tools: Option<bool>,
    pub session_timeout_secs: Option<u32>,
    pub max_in_memory_sessions: Option<usize>,
    pub context_policy: Option<ContextPolicy>,
}

/// The configuration `c` with the fields given in `input` replaced.
pub open spec fn configured(c: AgentConfig, input: RunnerConfigInput) -> AgentConfig {
    AgentConfig {
        max_steps: match input.max_steps {
            Some(v) => v,
            None => c.max_steps,
        },
        verbose: match input.verbose {
            Some(v) => v,
            None => c.verbose,
        },
        auto_execute_tools: match input.auto_execute_tools {
            Some(v) => v,
            None => c.auto_execute_tools,
        },
        session_timeout_secs: match input.session_timeout_secs {
            Some(v) => v,
            None => c.session_timeout_secs,
        },
        context_policy: match input.context_policy {
            Some(v) => v,
            None => c.context_policy,
        },
        ..c
    }
}

/// Whether `mid` is `before` with a session `id` in it: `before` itself
/// when it has one, or else `before` with a new session for `id` created
/// from `config` (whose idle timeout it takes).
pub open spec fn with_session(
    mid: Seq<(String, SessionSlot<AgentState>)>,
    before: Seq<(String, SessionSlot<AgentState>)>,
    id: Seq<char>,
    config: AgentConfig,
) -> bool {
    &&& has_key(before, id) ==> mid == before
    &&& !has_key(before, id) ==> {
        &&& mid.len() == before.len() + 1
        &&& mid.drop_last() == before
        &&& mid.last().0@ == id
        &&& mid.last().1.state.config.session_id@ == id
        &&& mid.last().1.state.config == (AgentConfig {
            session_id: mid.last().1.state.config.session_id,
            ..config
        })
        &&& mid.last().1.state.current_step == 0
        &&& mid.last().1.pending_llm_chunks == 0
        &&& mid.last().1.session_timeout_secs == config.session_timeout_secs
    }
}

/// Whether `s` is a fresh state for session `id` created from `defaults`.
pub open spec fn fresh_session_state(s: AgentState, id: Seq<char>, defaults: AgentConfig) -> bool {
    &&& s.session_id@ == id
    &&& s.config.session_id@ == id
    &&& s.config == (AgentConfig { session_id: s.config.session_id, ..defaults })
    &&& s.current_step == 0
    &&& s.message_history@.len() == 0
    &&& s.tool_results@.len() == 0
    &&& s.rolling_summary is None
    &&& s.fsm_state == AgentFsmState::Idle
}

/// Whether `prev` is a state that session `id` may be processed from, given
/// the sessions in memory `before` the call: the state it had there, or a
/// fresh one (where it was not there, or an idle sweep archived it).
pub open spec fn state_before(
    before: Seq<(String, SessionSlot<AgentState>)>,
    id: Seq<char>,
    defaults: AgentConfig,
    prev: AgentState,
) -> bool {
    match lookup(before, id) {
        Some(slot) => prev == slot.state || fresh_session_state(prev, id, defaults),
        None => fresh_session_state(prev, id, defaults),
    }
}

/// Whether the store `after` is `before` after an idle sweep at `now_ms`,
/// making sure session `id` is in memory (the sessions then being `mid`),
/// and changing at most that session's slot: every other session and
/// every record not made by the sweep are kept.
pub open spec fn touched_only_at(
    before: SessionStore<AgentState>,
    after: SessionStore<AgentState>,
    id: Seq<char>,
    defaults: AgentConfig,
    now_ms: i64,
    mid: Seq<(String, SessionSlot<AgentState>)>,
) -> bool {
    let swept = sweep_split(before.sessions(), now_ms);
    let p = crate::assoc::key_pos(mid, id);
    &&& with_session(mid, swept.0, id, defaults)
    &&& has_key(mid, id)
    &&& after.sessions().len() == mid.len()
    &&& forall|j: int| 0 <= j < mid.len() && j != p ==> #[trigger] after.sessions()[j] == mid[j]
    &&& after.sessions()[p as int].0 == mid[p as int].0
    &&& forall|k: Seq<char>|
        #![trigger lookup(after.records(), k)]
        !has_key(swept.1, k) ==> lookup(after.records(), k) == lookup(before.records(), k)
    &&& forall|k: Seq<char>|
        #![trigger lookup(after.records(), k)]
        has_key(swept.1, k) ==> (lookup(after.records(), k) matches Some(rec) && rec.reason@
            == "idle_timeout"@)
    &&& after.max_sessions() == before.max_sessions()
}

/// An idle sweep of `s0` giving `s1`, making sure session `id` is in
/// memory giving `s2`, then changing that session's slot alone giving `s3`,
/// touch only that session.
proof fn lemma_touched_only(
    s0: SessionStore<AgentState>,
    s1: SessionStore<AgentState>,
    s2: SessionStore<AgentState>,
    s3: SessionStore<AgentState>,
    id: Seq<char>,
    defaults: AgentConfig,
    now_ms: i64,
)
    requires
        s1.sessions() == sweep_split(s0.sessions(), now_ms).0,
        forall|k: Seq<char>|
            #![trigger lookup(s1.records(), k)]
            !has_key(sweep_split(s0.sessions(), now_ms).1, k) ==> lookup(s1.records(), k) == lookup(
                s0.records(),
                k,
            ),
        forall|k: Seq<char>|
            #![trigger lookup(s1.records(), k)]
            has_key(sweep_split(s0.sessions(), now_ms).1, k) ==> (lookup(s1.records(), k) matches Some(
                rec,
            ) && rec.reason@ == "idle_timeout"@),
        s1.max_sessions() == s0.max_sessions(),
        with_session(s2.sessions(), s1.sessions(), id, defaults),
        has_key(s2.sessions(), id),
        s2.records() == s1.records(),
        s2.max_sessions() == s1.max_sessions(),
        s3.sessions() == s2.sessions().update(
            crate::assoc::key_pos(s2.sessions(), id) as int,
            (
                s2.sessions()[crate::assoc::key_pos(s2.sessions(), id) as int].0,
                s3.sessions()[crate::assoc::key_pos(s2.sessions(), id) as int].1,
            ),
        ),
        s3.records() == s2.records(),
        s3.max_sessions() == s2.max_sessions(),
    ensures
        touched_only(s0, s3, id, defaults),
{
    let mid = s2.sessions();
    let p = crate::assoc::key_pos(mid, id);
    assert forall|j: int| 0 <= j < mid.len() && j != p implies #[trigger] s3.sessions()[j]
        == mid[j] by {}
    assert(touched_only_at(s0, s3, id, defaults, now_ms, mid));
}

/// The same as [`lemma_touched_only`], the sessions once `id` was in memory
/// being `mid`.
proof fn lemma_touched_only_mid(
    s0: SessionStore<AgentState>,
    s1: SessionStore<AgentState>,
    mid: Seq<(String, SessionSlot<AgentState>)>,
    s3: SessionStore<AgentState>,
    id: Seq<char>,
    defaults: AgentConfig,
    now_ms: i64,
)
    requires
        s1.sessions() == sweep_split(s0.sessions(), now_ms).0,
        forall|k: Seq<char>|
            #![trigger lookup(s1.records(), k)]
            !has_key(sweep_split(s0.sessions(), now_ms).1, k) ==> lookup(s1.records(), k) == lookup(
                s0.records(),
                k,
            ),
        forall|k: Seq<char>|
            #![trigger lookup(s1.records(), k)]
            has_key(sweep_split(s0.sessions(), now_ms).1, k) ==> (lookup(s1.records(), k) matches Some(
                rec,
            ) && rec.reason@ == "idle_timeout"@),
        s1.max_sessions() == s0.max_sessions(),
        with_session(mid, s1.sessions(), id, defaults),
        has_key(mid, id),
        s3.sessions() == mid.update(
            crate::assoc::key_pos(mid, id) as int,
            (mid[crate::assoc::key_pos(mid, id) as int].0, s3.sessions()[crate::assoc::key_pos(mid, id) as int].1),
        ),
        s3.records() == s1.records(),
        s3.max_sessions() == s1.max_sessions(),
    ensures
        touched_only(s0, s3, id, defaults),
{
    let p = crate::assoc::key_pos(mid, id);
    assert forall|j: int| 0 <= j < mid.len() && j != p implies #[trigger] s3.sessions()[j]
        == mid[j] by {}
    assert(touched_only_at(s0, s3, id, defaults, now_ms, mid));
}

/// Whether the store `after` is `before` with at most session `id`'s slot
/// changed, after an idle sweep at some time (see [`touched_only_at`]).
pub open spec fn touched_only(
    before: SessionStore<AgentState>,
    after: SessionStore<AgentState>,
    id: Seq<char>,
    defaults: AgentConfig,
) -> bool {
    exists|now_ms: i64, mid: Seq<(String, SessionSlot<AgentState>)>|
        #[trigger] touched_only_at(before, after, id, defaults, now_ms, mid)
}

/// After an idle sweep of `before` and making sure session `id` is in
/// memory, its state is one that `state_before` allows.
proof fn lemma_state_before(
    before: Seq<(String, SessionSlot<AgentState>)>,
    now_ms: i64,
    mid: Seq<(String, SessionSlot<AgentState>)>,
    id: Seq<char>,
    defaults: AgentConfig,
)
    requires
        keys_unique(before),
        has_key(sweep_split(before, now_ms).0, id) ==> mid == sweep_split(before, now_ms).0,
        !has_key(sweep_split(before, now_ms).0, id) ==> (lookup(mid, id) matches Some(slot)
            && fresh_session_state(slot.state, id, defaults)),
    ensures
        has_key(mid, id),
        state_before(before, id, defaults, lookup(mid, id)->0.state),
{
    lemma_sweep_keeps_slots(before, now_ms, id);
}

/// The agent runner's runtime.
pub struct AgentRunnerRuntime {
    store: SessionStore<AgentState>,
    default_config: AgentConfig,
    ids: SessionIdGenerator,
    /// The tools the host registered.
    known_tools: Vec<ToolDefinition>,
    /// The events not yet handed to the host, oldest first.
    events: Vec<StreamEvent>,
    /// The number of the last event queued for each session.
    event_seqs: Vec<(String, u64)>,
    /// The counters of each session.
    counters: Vec<(String, TelemetryCounters)>,
    /// The streamed text of each session not yet committed.
    chunks: Vec<(String, String)>,
    /// The correlation id of each session's latest event that had one.
    correlations: Vec<(String, Option<String>)>,
    /// The milliseconds each session spent preparing turns and committing
    /// answers, in all.
    latencies: Vec<(String, (u64, u64))>,
}

impl AgentRunnerRuntime {
    /// The configuration new sessions start from.
    pub closed spec fn defaults(&self) -> AgentConfig {
        self.default_config
    }

    /// The sessions in memory and the records of archived ones.
    pub closed spec fn sessions_spec(&self) -> SessionStore<AgentState> {
        self.store
    }

    pub open spec fn wf(&self) -> bool {
        self.sessions_spec().wf() && self.sessions_spec().max_sessions() > 0
    }

    /// The counter the next new session id is made from.
    pub closed spec fn id_counter(&self) -> u64 {
        self.ids.counter()
    }

    /// The tools the host registered.
    pub closed spec fn tools(&self) -> Seq<ToolDefinition> {
        self.known_tools@
    }

    /// The events not yet handed to the host, oldest first.
    pub closed spec fn queued_events(&self) -> Seq<StreamEvent> {
        self.events@
    }

    /// The correlation id of session `id`'s latest event that had one.
    pub closed spec fn last_correlation(&self, id: Seq<char>) -> Option<String> {
        match lookup(self.correlations@, id) {
            Some(c) => c,
            None => None,
        }
    }

    /// The number of the last event queued for session `id` (0 when none).
    pub closed spec fn last_seq(&self, id: Seq<char>) -> u64 {
        match lookup(self.event_seqs@, id) {
            Some(n) => n,
            None => 0,
        }
    }

    /// The milliseconds session `id` spent preparing turns and committing
    /// answers, in all.
    pub closed spec fn latency_of(&self, id: Seq<char>) -> (u64, u64) {
        match lookup(self.latencies@, id) {
            Some(l) => l,
            None => (0, 0),
        }
    }

    /// The counters of session `id` (all zero when it has none).
    pub closed spec fn counters_of(&self, id: Seq<char>) -> TelemetryCounters {
        counters_in(self.counters@, id)
    }

    /// The streamed text of session `id` not yet committed.
    pub closed spec fn pending_text(&self, id: Seq<char>) -> Seq<char> {
        match lookup(self.chunks@, id) {
            Some(t) => t@,
            None => Seq::empty(),
        }
    }

    /// Whether the tools, events, counters and streamed text of `self` are
    /// those of `other`.
    pub closed spec fn streams_kept(&self, other: Self) -> bool {
        &&& self.known_tools == other.known_tools
        &&& self.events == other.events
        &&& self.event_seqs == other.event_seqs
        &&& self.counters == other.counters
        &&& self.chunks == other.chunks
        &&& self.correlations == other.correlations
        &&& self.latencies == other.latencies
    }

    /// The sessions in memory and the records of archived ones.
    pub fn sessions(&self) -> (r: &SessionStore<AgentState>)
        ensures
            *r == self.sessions_spec(),
    {
        &self.store
    }

    /// A runtime with no session, the default configuration (for a default
    /// session created at `now_ms`) and room for 128 sessions.
    pub fn new_at(now_ms: i64) -> (r: AgentRunnerRuntime)
        ensures
            r.wf(),
            r.sessions_spec().sessions().len() == 0,
            r.sessions_spec().records().len() == 0,
            r.sessions_spec().max_sessions() == DEFAULT_MAX_IN_MEMORY_SESSIONS,
            r.defaults().max_steps == 10,
            !r.defaults().verbose,
            r.defaults().auto_execute_tools,
            r.defaults().session_timeout_secs == 300,
            r.defaults().session_id@ == session_id_for_ms(now_ms),
            r.defaults().context_policy == default_context_policy(),
            r.tools().len() == 0,
            r.queued_events().len() == 0,
            forall|id: Seq<char>| #[trigger] r.counters_of(id) == zero_counters(),
            forall|id: Seq<char>| #[trigger] r.pending_text(id) == Seq::<char>::empty(),
    {
        AgentRunnerRuntime {
            store: SessionStore::new(DEFAULT_MAX_IN_MEMORY_SESSIONS),
            default_config: AgentConfig::default_at(now_ms),
            ids: SessionIdGenerator::new(),
            known_tools: Vec::new(),
            events: Vec::new(),
            event_seqs: Vec::new(),
            counters: Vec::new(),
            chunks: Vec::new(),
            correlations: Vec::new(),
            latencies: Vec::new(),
        }
    }

    /// The runtime for a process starting now.
    pub fn new() -> (r: AgentRunnerRuntime)
        ensures
            r.wf(),
            r.sessions_spec().sessions().len() == 0,
            r.sessions_spec().records().len() == 0,
            r.sessions_spec().max_sessions() == DEFAULT_MAX_IN_MEMORY_SESSIONS,
            r.tools().len() == 0,
            r.queued_events().len() == 0,
    {
        AgentRunnerRuntime::new_at(now_unix_ms())
    }

    /// The configuration new sessions start from.
    pub fn default_config(&self) -> (r: &AgentConfig)
        ensures
            *r == self.defaults(),
    {
        &self.default_config
    }

    /// The context policy of a turn: the one the request gives, or else the
    /// runtime's default.
    pub fn resolve_policy(&self, requested: Option<ContextPolicy>) -> (r: ContextPolicy)
        ensures
            r == match requested {
                Some(p) => p,
                None => self.defaults().context_policy,
            },
    {
        match requested {
            Some(p) => p,
            None => self.default_config.context_policy,
        }
    }

    /// Makes `policy` the default context policy of later turns.
    pub fn set_context_policy(&mut self, reg: &mut LogRegistry, policy: ContextPolicy) -> (r: bool)
        requires
            old(reg).wf(),
        ensures
            r,
            final(self).defaults() == (AgentConfig { context_policy: policy, ..old(self).defaults() }),
            final(self).sessions_spec() == old(self).sessions_spec(),
            final(reg).wf(),
            old(reg)@.logged_at_some_time(
                final(reg)@,
                "runtime"@,
                LogLevel::Debug,
                "Context policy updated"@,
                Some("wasm_agent"@),
                None,
            ),
            final(self).streams_kept(*old(self)),
    {
        self.default_config.context_policy = policy;
        Logger::new("runtime").log_with_source(reg, LogLevel::Debug, "wasm_agent", "Context policy updated");
        true
    }

    /// The state of session `session_id` (see [`SessionStore::state_of`]).
    pub fn get_state(&self, reg: &mut LogRegistry, session_id: &str) -> (r: Result<
        &AgentState,
        AgentRunnerError,
    >)
        requires
            old(reg).wf(),
        ensures
            final(reg).wf(),
            has_key(self.sessions_spec().sessions(), session_id@) ==> (r matches Ok(st) && lookup(
                self.sessions_spec().sessions(),
                session_id@,
            )->0.state == *st),
            !has_key(self.sessions_spec().sessions(), session_id@) && has_key(
                self.sessions_spec().records(),
                session_id@,
            ) ==> r matches Err(AgentRunnerError::SessionArchived(_)),
            !has_key(self.sessions_spec().sessions(), session_id@) && !has_key(
                self.sessions_spec().records(),
                session_id@,
            ) ==> r matches Err(AgentRunnerError::SessionNotFound(_)),
    {
        self.store.state_of(reg, session_id)
    }

    /// Forgets session `session_id` and its archive record; tells whether
    /// it was in memory.
    pub fn reset_session(&mut self, session_id: &str) -> (removed: bool)
        requires
            old(self).wf(),
        ensures
            final(self).wf(),
            removed == has_key(old(self).sessions_spec().sessions(), session_id@),
            !has_key(final(self).sessions_spec().sessions(), session_id@),
            !has_key(final(self).sessions_spec().records(), session_id@),
            final(self).defaults() == old(self).defaults(),
            final(self).sessions_spec().sessions() == if removed {
                old(self).sessions_spec().sessions().remove(
                    crate::assoc::key_pos(old(self).sessions_spec().sessions(), session_id@) as int,
                )
            } else {
                old(self).sessions_spec().sessions()
            },
            forall|k: Seq<char>|
                #![trigger lookup(final(self).sessions_spec().records(), k)]
                k != session_id@ ==> lookup(final(self).sessions_spec().records(), k) == lookup(
                    old(self).sessions_spec().records(),
                    k,
                ),
            final(self).sessions_spec().max_sessions() == old(self).sessions_spec().max_sessions(),
            final(self).tools() == old(self).tools(),
            final(self).queued_events() == old(self).queued_events().filter(
                |e: StreamEvent| e.session_id@ != session_id@,
            ),
            forall|id: Seq<char>|
                #![trigger final(self).counters_of(id)]
                final(self).counters_of(id) == if id == session_id@ {
                    zero_counters()
                } else {
                    old(self).counters_of(id)
                },
            forall|id: Seq<char>|
                #![trigger final(self).pending_text(id)]
                final(self).pending_text(id) == if id == session_id@ {
                    Seq::<char>::empty()
                } else {
                    old(self).pending_text(id)
                },
            forall|id: Seq<char>|
                #![trigger final(self).last_seq(id)]
                final(self).last_seq(id) == if id == session_id@ {
                    0
                } else {
                    old(self).last_seq(id)
                },
            forall|id: Seq<char>|
                #![trigger final(self).last_correlation(id)]
                final(self).last_correlation(id) == if id == session_id@ {
                    None
                } else {
                    old(self).last_correlation(id)
                },
            forall|id: Seq<char>|
                #![trigger final(self).latency_of(id)]
                final(self).latency_of(id) == if id == session_id@ {
                    (0u64, 0u64)
                } else {
                    old(self).latency_of(id)
                },
    {
        let _ = self.drain_events(session_id);
        let ghost rt1 = *self;
        crate::assoc::put_entry(
            &mut self.counters,
            session_id,
            TelemetryCounters {
                turns_prepared: 0,
                llm_chunks: 0,
                llm_commits: 0,
                final_responses: 0,
                tool_requests: 0,
                llm_retries: 0,
                tool_results: 0,
                tool_errors: 0,
            },
        );
        crate::assoc::put_entry(&mut self.chunks, session_id, String::new());
        crate::assoc::put_entry(&mut self.event_seqs, session_id, 0);
        crate::assoc::put_entry(&mut self.correlations, session_id, None);
        crate::assoc::put_entry(&mut self.latencies, session_id, (0, 0));
        let ghost rt2 = *self;
        let removed = self.store.reset_session(session_id);
        proof {
            crate::assoc::lemma_key_pos(old(self).store.sessions(), session_id@);
            if removed {
                crate::assoc::lemma_lookup_after_remove(
                    old(self).store.sessions(),
                    crate::assoc::key_pos(old(self).store.sessions(), session_id@) as int,
                );
            }
            assert(lookup(self.store.records(), session_id@) is None);
        }
        proof {
            assert forall|id: Seq<char>| #[trigger] self.counters_of(id) == if id == session_id@ {
                zero_counters()
            } else {
                old(self).counters_of(id)
            } by {
                assert(rt1.counters_of(id) == old(self).counters_of(id));
                assert(self.counters == rt2.counters);
                assert(lookup(self.counters@, id) == lookup(self.counters@, id));
            }
            assert forall|id: Seq<char>| #[trigger] self.pending_text(id) == if id == session_id@ {
                Seq::<char>::empty()
            } else {
                old(self).pending_text(id)
            } by {
                assert(rt1.pending_text(id) == old(self).pending_text(id));
                assert(self.chunks == rt2.chunks);
                assert(lookup(self.chunks@, id) == lookup(self.chunks@, id));
            }
            assert forall|id: Seq<char>| #[trigger] self.last_seq(id) == if id == session_id@ {
                0
            } else {
                old(self).last_seq(id)
            } by {
                assert(self.event_seqs == rt2.event_seqs);
                assert(rt1.last_seq(id) == old(self).last_seq(id));
                assert(lookup(self.event_seqs@, id) == lookup(self.event_seqs@, id));
            }
            assert forall|id: Seq<char>| #[trigger] self.last_correlation(id) == if id == session_id@ {
                None
            } else {
                old(self).last_correlation(id)
            } by {
                assert(self.correlations == rt2.correlations);
                assert(rt1.last_correlation(id) == old(self).last_correlation(id));
                assert(lookup(self.correlations@, id) == lookup(self.correlations@, id));
            }
            assert forall|id: Seq<char>| #[trigger] self.latency_of(id) == if id == session_id@ {
                (0u64, 0u64)
            } else {
                old(self).latency_of(id)
            } by {
                assert(self.latencies == rt2.latencies);
                assert(rt1.latency_of(id) == old(self).latency_of(id));
                assert(lookup(self.latencies@, id) == lookup(self.latencies@, id));
            }
        }
        removed
    }

    /// Archives every session idle at `now_ms`, logging each archive and,
    /// when there were any, their number; gives the number archived.
    pub fn sweep_idle_sessions(&mut self, reg: &mut LogRegistry, now_ms: i64) -> (n: usize)
        requires
            old(self).wf(),
            old(reg).wf(),
        ensures
            final(self).wf(),
            final(reg).wf(),
            final(self).defaults() == old(self).defaults(),
            final(self).sessions_spec().sessions() == sweep_split(
                old(self).sessions_spec().sessions(),
                now_ms,
            ).0,
            n == sweep_split(old(self).sessions_spec().sessions(), now_ms).1.len(),
            forall|k: Seq<char>|
                #![trigger lookup(final(self).sessions_spec().records(), k)]
                !has_key(sweep_split(old(self).sessions_spec().sessions(), now_ms).1, k) ==> lookup(
                    final(self).sessions_spec().records(),
                    k,
                ) == lookup(old(self).sessions_spec().records(), k),
            forall|k: Seq<char>|
                #![trigger lookup(final(self).sessions_spec().records(), k)]
                has_key(sweep_split(old(self).sessions_spec().sessions(), now_ms).1, k) ==> (lookup(
                    final(self).sessions_spec().records(),
                    k,
                ) matches Some(rec) && rec.reason@ == "idle_timeout"@),
            sweep_logged(old(reg)@, final(reg)@, sweep_split(old(self).sessions_spec().sessions(), now_ms).1),
            final(self).sessions_spec().max_sessions() == old(self).sessions_spec().max_sessions(),
            final(self).streams_kept(*old(self)),
            final(self).id_counter() == old(self).id_counter(),
    {
        let swept = self.store.sweep_idle_sessions(now_ms);
        let ghost start = reg@;
        log_archived(reg, &swept, "idle_timeout");
        let ghost mid = reg@;
        if swept.len() > 0 {
            let mut m = string_of("Idle sweep archived ");
            push_decimal(&mut m, swept.len() as u64);
            push_str(&mut m, " sessions");
            Logger::new("runtime").log_with_source(reg, LogLevel::Info, "wasm_agent", m.as_str());
        }
        proof {
            assert(start.logged_events(mid, archive_events(swept@, "idle_timeout"@)));
            assert(archive_logged(start, reg@, swept@, "idle_timeout"@, "Idle sweep archived "@));
        }
        swept.len()
    }

    /// Sweeps idle sessions as of `now_ms`, or as of now when it is `None`.
    pub fn sweep_sessions(&mut self, reg: &mut LogRegistry, now_ms: Option<i64>) -> (n: usize)
        requires
            old(self).wf(),
            old(reg).wf(),
        ensures
            final(self).wf(),
            final(reg).wf(),
            now_ms matches Some(t) ==> final(self).sessions_spec().sessions() == sweep_split(
                old(self).sessions_spec().sessions(),
                t,
            ).0 && n == sweep_split(old(self).sessions_spec().sessions(), t).1.len() && sweep_logged(
                old(reg)@,
                final(reg)@,
                sweep_split(old(self).sessions_spec().sessions(), t).1,
            ),
            final(self).streams_kept(*old(self)),
    {
        let now = match now_ms {
            Some(t) => t,
            None => now_unix_ms(),
        };
        self.sweep_idle_sessions(reg, now)
    }

    /// Makes sure session `session_id` is in memory, creating it from the
    /// defaults (no log, no capacity pressure) when it is not.
    fn ensure_session(&mut self, session_id: &str)
        requires
            old(self).wf(),
        ensures
            final(self).wf(),
            final(self).defaults() == old(self).defaults(),
            has_key(final(self).sessions_spec().sessions(), session_id@),
            has_key(old(self).sessions_spec().sessions(), session_id@) ==> final(self).sessions_spec()
                == old(self).sessions_spec(),
            !has_key(old(self).sessions_spec().sessions(), session_id@) ==> (lookup(
                final(self).sessions_spec().sessions(),
                session_id@,
            ) matches Some(slot) && fresh_session_state(slot.state, session_id@, old(self).defaults())),
            with_session(
                final(self).sessions_spec().sessions(),
                old(self).sessions_spec().sessions(),
                session_id@,
                old(self).defaults(),
            ),
            final(self).sessions_spec().records() == old(self).sessions_spec().records(),
            final(self).sessions_spec().max_sessions() == old(self).sessions_spec().max_sessions(),
            final(self).streams_kept(*old(self)),
            final(self).ids == old(self).ids,
    {
        if !self.store.contains(session_id) {
            let mut config = self.default_config.duplicate();
            config.session_id = string_of(session_id);
            let timeout = config.session_timeout_secs;
            let now = now_unix_ms();
            let ghost before = self.store.sessions();
            let state = AgentState::new(config);
            let ghost st = state;
            self.store.ensure_session(session_id, state, now, timeout);
            proof {
                crate::assoc::lemma_lookup_after_push(before, self.store.sessions().last());
                assert(self.store.sessions() == before.push(self.store.sessions().last()));
                assert(self.store.sessions().last().1.state == st);
                crate::assoc::lemma_has_key_at(
                    self.store.sessions(),
                    session_id@,
                    self.store.sessions().len() - 1,
                );
            }
        }
    }

    /// Processes a model response for session `session_id`.
    ///
    /// Idle sessions are swept first; the session is created from the
    /// defaults when it is not in memory and marked as used.  When its
    /// machine is not streaming, the move to streaming is forced where the
    /// machine allows it (both logged).  Then the response is processed
    /// (see [`processor::process_llm_response`]); a failure is an internal
    /// error.
    pub fn process_llm_response_for_session(
        &mut self,
        reg: &mut LogRegistry,
        session_id: &str,
        llm_response_content: &str,
    ) -> (r: Result<AgentAction, AgentRunnerError>)
        requires
            old(self).wf(),
            old(reg).wf(),
        ensures
            final(self).wf(),
            final(reg).wf(),
            final(self).defaults() == old(self).defaults(),
            has_key(final(self).sessions_spec().sessions(), session_id@),
            touched_only(
                old(self).sessions_spec(),
                final(self).sessions_spec(),
                session_id@,
                old(self).defaults(),
            ),
            exists|prev: AgentState, r0: Result<AgentAction, String>|
                {
                    &&& state_before(
                        old(self).sessions_spec().sessions(),
                        session_id@,
                        old(self).defaults(),
                        prev,
                    )
                    &&& #[trigger] llm_processed(
                        AgentState {
                            fsm_state: forced(prev.fsm_state, AgentFsmState::LlmStreaming),
                            ..prev
                        },
                        lookup(final(self).sessions_spec().sessions(), session_id@)->0.state,
                        llm_response_content@,
                        parsed_response(llm_response_content@),
                        r0,
                    )
                    &&& r == internal_on_error(r0)
                },
            final(self).streams_kept(*old(self)),
    {
        let ghost before = self.store.sessions();
        let ghost store0 = self.store;
        let now = now_unix_ms();
        self.sweep_idle_sessions(reg, now);
        let ghost s1 = self.store;
        self.ensure_session(session_id);
        let ghost mid = self.store.sessions();
        let ghost s2 = self.store;
        proof {
            crate::assoc::lemma_key_pos(mid, session_id@);
            lemma_state_before(before, now, mid, session_id@, self.default_config);
        }
        let slot = match self.store.get_mut(session_id) {
            Some(slot) => slot,
            None => {
                return Err(AgentRunnerError::SessionNotFound(string_of(session_id)));
            },
        };
        slot.last_touched_ms = now_unix_ms();
        let logger = Logger::new(session_id);
        logger.log_with_source(reg, LogLevel::Debug, "wasm_agent", "Processing LLM response");
        let ghost prev = slot.state;
        guard_fsm(&mut slot.state, reg, &logger, AgentFsmState::LlmStreaming, "llm_streaming");
        let ghost guarded = slot.state;
        let r0 = processor::process_llm_response(&mut slot.state, reg, llm_response_content);
        let ghost after = slot.state;
        let ghost gr0 = r0;
        let r = match r0 {
            Ok(a) => Ok(a),
            Err(m) => Err(AgentRunnerError::Internal(m)),
        };
        proof {
            let i = crate::assoc::key_pos(mid, session_id@) as int;
            crate::assoc::lemma_lookup_after_set(mid, i, (mid[i].0, self.store.sessions()[i].1));
            assert(self.store.sessions() == mid.update(i, (mid[i].0, self.store.sessions()[i].1)));
            assert(lookup(self.store.sessions(), session_id@) == Some(self.store.sessions()[i].1));
            assert(self.store.sessions()[i].1.state == after);
            assert(guarded == (AgentState {
                fsm_state: forced(prev.fsm_state, AgentFsmState::LlmStreaming),
                ..prev
            }));
            assert(llm_processed(guarded, after, llm_response_content@, parsed_response(llm_response_content@), gr0));
            assert(llm_processed(
                AgentState { fsm_state: forced(prev.fsm_state, AgentFsmState::LlmStreaming), ..prev },
                lookup(self.sessions_spec().sessions(), session_id@)->0.state,
                llm_response_content@,
                parsed_response(llm_response_content@),
                gr0,
            ));
            assert(r == internal_on_error(gr0));
            lemma_touched_only(store0, s1, s2, self.store, session_id@, self.default_config, now);
        }
        r
    }

    /// Records the result of a tool call for session `session_id`.
    ///
    /// Idle sessions are swept first (and the tool result logged); the
    /// session is created from the defaults when it is not in memory and
    /// marked as used.  When its machine is not waiting for a tool result,
    /// the move there is forced where the machine allows it (both logged).
    /// Then the result is recorded (see [`processor::process_tool_result`])
    /// and a failed tool is logged as an error; a failure is an internal
    /// error, as is a session whose step counter is exhausted.  A recorded
    /// result is counted (with the failures) and queued as an event.  Gives
    /// the tool message.
    pub fn process_tool_result_for_session(
        &mut self,
        reg: &mut LogRegistry,
        session_id: &str,
        tool_name: &str,
        success: bool,
        output: JsonValue,
        error: Option<String>,
        correlation_id: Option<String>,
    ) -> (r: Result<String, AgentRunnerError>)
        requires
            old(self).wf(),
            old(reg).wf(),
        ensures
            final(self).wf(),
            final(reg).wf(),
            final(self).defaults() == old(self).defaults(),
            has_key(final(self).sessions_spec().sessions(), session_id@),
            touched_only(
                old(self).sessions_spec(),
                final(self).sessions_spec(),
                session_id@,
                old(self).defaults(),
            ),
            exists|prev: AgentState|
                {
                    &&& #[trigger] state_before(
                        old(self).sessions_spec().sessions(),
                        session_id@,
                        old(self).defaults(),
                        prev,
                    )
                    &&& prev.current_step == u32::MAX ==> (r matches Err(AgentRunnerError::Internal(m))
                        && m@ == "Step counter overflow"@)
                    &&& prev.current_step < u32::MAX ==> exists|r0: Result<String, String>|
                        {
                    &&& #[trigger] tool_processed(
                        AgentState {
                            fsm_state: forced(prev.fsm_state, AgentFsmState::ToolRequested),
                            ..prev
                        },
                        lookup(final(self).sessions_spec().sessions(), session_id@)->0.state,
                        tool_name@,
                        success,
                        output,
                        pretty_json(output),
                        error,
                        r0,
                    )
                    &&& r == internal_on_error(r0)
                        }
                },
            final(self).tools() == old(self).tools(),
            forall|id: Seq<char>| #[trigger] final(self).pending_text(id) == old(self).pending_text(id),
            queued(
                old(self).queued_events(),
                final(self).queued_events(),
                session_id@,
                if r is Ok {
                    seq![StreamEventKind::ToolResult]
                } else {
                    Seq::empty()
                },
            ),
            forall|id: Seq<char>|
                #![trigger final(self).counters_of(id)]
                final(self).counters_of(id) == if id == session_id@ && r is Ok {
                    tool_counted(old(self).counters_of(id), success)
                } else {
                    old(self).counters_of(id)
                },
            stamped(
                old(self).queued_events(),
                final(self).queued_events(),
                lookup(final(self).sessions_spec().sessions(), session_id@)->0.state.current_step,
                correlation_id,
            ),
            r is Ok ==> crate::json::str_field(final(self).queued_events().last().payload, "tool"@)
                == Some(tool_name@),
    {
        let ghost rt0 = *self;
        let r = self.record_tool_result_in_session(reg, session_id, tool_name, success, output, error);
        let ghost rt1 = *self;
        proof {
            assert(self.events@.take(self.events@.len() as int) =~= self.events@);
            assert forall|id: Seq<char>| #[trigger] rt1.counters_of(id) == rt0.counters_of(id) by {
                assert(rt1.counters == rt0.counters);
            }
        }
        if r.is_ok() {
            let step = match self.store.get(session_id) {
                Some(slot) => slot.state.current_step,
                None => 0,
            };
            self.bump(session_id, CounterKind::ToolResults);
            if !success {
                self.bump(session_id, CounterKind::ToolErrors);
            }
            let ghost rb = *self;
            let mut rest: Vec<(String, JsonValue)> = Vec::new();
            rest.push((string_of("success"), JsonValue::Bool(success)));
            let payload = payload_of("tool", text_value(tool_name), rest);
            self.emit_event(session_id, step, &correlation_id, StreamEventKind::ToolResult, payload);
            proof {
                assert forall|id: Seq<char>| #[trigger] self.counters_of(id) == rb.counters_of(id) by {
                    assert(self.counters == rb.counters);
                }
            }
        }
        r
    }

    /// Records the result of a tool call for session `session_id` (see
    /// [`Self::process_tool_result_for_session`]); nothing is queued or
    /// counted.
    #[verifier::rlimit(40)]
    fn record_tool_result_in_session(
        &mut self,
        reg: &mut LogRegistry,
        session_id: &str,
        tool_name: &str,
        success: bool,
        output: JsonValue,
        error: Option<String>,
    ) -> (r: Result<String, AgentRunnerError>)
        requires
            old(self).wf(),
            old(reg).wf(),
        ensures
            final(self).wf(),
            final(reg).wf(),
            final(self).defaults() == old(self).defaults(),
            has_key(final(self).sessions_spec().sessions(), session_id@),
            touched_only(
                old(self).sessions_spec(),
                final(self).sessions_spec(),
                session_id@,
                old(self).defaults(),
            ),
            exists|prev: AgentState|
                {
                    &&& #[trigger] state_before(
                        old(self).sessions_spec().sessions(),
                        session_id@,
                        old(self).defaults(),
                        prev,
                    )
                    &&& prev.current_step == u32::MAX ==> (r matches Err(AgentRunnerError::Internal(m))
                        && m@ == "Step counter overflow"@)
                    &&& prev.current_step < u32::MAX ==> exists|r0: Result<String, String>|
                        {
                    &&& #[trigger] tool_processed(
                        AgentState {
                            fsm_state: forced(prev.fsm_state, AgentFsmState::ToolRequested),
                            ..prev
                        },
                        lookup(final(self).sessions_spec().sessions(), session_id@)->0.state,
                        tool_name@,
                        success,
                        output,
                        pretty_json(output),
                        error,
                        r0,
                    )
                    &&& r == internal_on_error(r0)
                        }
                },
            final(self).streams_kept(*old(self)),
    {
        let ghost before = self.store.sessions();
        let ghost store0 = self.store;
        let now = now_unix_ms();
        self.sweep_idle_sessions(reg, now);
        let ghost s1 = self.store;
        let logger = Logger::new(session_id);
        let mut m = string_of("Processing tool result for '");
        push_str(&mut m, tool_name);
        push_str(&mut m, "'");
        logger.log_with_source(reg, LogLevel::Debug, "wasm_agent", m.as_str());
        self.ensure_session(session_id);
        let ghost mid = self.store.sessions();
        let ghost s2 = self.store;
        proof {
            crate::assoc::lemma_key_pos(mid, session_id@);
            lemma_state_before(before, now, mid, session_id@, self.default_config);
        }
        let slot = match self.store.get_mut(session_id) {
            Some(slot) => slot,
            None => {
                return Err(AgentRunnerError::SessionNotFound(string_of(session_id)));
            },
        };
        slot.last_touched_ms = now_unix_ms();
        let ghost prev = slot.state;
        guard_fsm(&mut slot.state, reg, &logger, AgentFsmState::ToolRequested, "tool_requested");
        if slot.state.current_step == u32::MAX {
            proof {
                let i = crate::assoc::key_pos(mid, session_id@) as int;
                crate::assoc::lemma_lookup_after_set(mid, i, (mid[i].0, self.store.sessions()[i].1));
            lemma_touched_only(store0, s1, s2, self.store, session_id@, self.default_config, now);
            }
            return Err(AgentRunnerError::Internal(string_of("Step counter overflow")));
        }
        let ghost guarded = slot.state;
        let failure_text = if success {
            None
        } else {
            let mut f = string_of("Tool '");
            push_str(&mut f, tool_name);
            push_str(&mut f, "' failed: ");
            match &error {
                Some(e) => push_str(&mut f, e.as_str()),
                None => push_str(&mut f, "unknown error"),
            }
            Some(f)
        };
        let ghost gerror = error;
        let r0 = processor::process_tool_result(
            &mut slot.state,
            reg,
            tool_name,
            success,
            output,
            error,
        );
        let ghost after = slot.state;
        let ghost gr0 = r0;
        let r = match r0 {
            Ok(t) => {
                match failure_text {
                    Some(f) => logger.log_with_source(reg, LogLevel::Error, "wasm_agent", f.as_str()),
                    None => {},
                }
                Ok(t)
            },
            Err(e) => Err(AgentRunnerError::Internal(e)),
        };
        proof {
            let i = crate::assoc::key_pos(mid, session_id@) as int;
            crate::assoc::lemma_lookup_after_set(mid, i, (mid[i].0, self.store.sessions()[i].1));
            assert(self.store.sessions() == mid.update(i, (mid[i].0, self.store.sessions()[i].1)));
            assert(lookup(self.store.sessions(), session_id@) == Some(self.store.sessions()[i].1));
            assert(self.store.sessions()[i].1.state == after);
            assert(tool_processed(
                AgentState { fsm_state: forced(prev.fsm_state, AgentFsmState::ToolRequested), ..prev },
                lookup(self.sessions_spec().sessions(), session_id@)->0.state,
                tool_name@,
                success,
                output,
                pretty_json(output),
                gerror,
                gr0,
            ));
            assert(r == internal_on_error(gr0));
            lemma_touched_only(store0, s1, s2, self.store, session_id@, self.default_config, now);
        }
        r
    }

    /// Applies a host's configuration and makes sure its session exists.
    ///
    /// The given fields replace the defaults (a capacity is at least 1).
    /// The session named by the request, or a new one, is created from the
    /// defaults when it is not in memory (logged as `Session created`),
    /// and then capacity pressure archives least recently used sessions,
    /// never this one.  Gives back the session's id.
    pub fn configure(&mut self, reg: &mut LogRegistry, input: RunnerConfigInput) -> (r: Result<
        String,
        AgentRunnerError,
    >)
        requires
            old(self).wf(),
            old(reg).wf(),
        ensures
            final(self).wf(),
            final(reg).wf(),
            final(self).defaults() == configured(old(self).defaults(), input),
            input.max_steps matches Some(v) ==> final(self).defaults().max_steps == v,
            input.max_steps is None ==> final(self).defaults().max_steps == old(self).defaults().max_steps,
            input.verbose matches Some(v) ==> final(self).defaults().verbose == v,
            input.verbose is None ==> final(self).defaults().verbose == old(self).defaults().verbose,
            input.auto_execute_tools matches Some(v) ==> final(self).defaults().auto_execute_tools == v,
            input.auto_execute_tools is None ==> final(self).defaults().auto_execute_tools == old(
                self,
            ).defaults().auto_execute_tools,
            input.session_timeout_secs matches Some(v) ==> final(self).defaults().session_timeout_secs
                == v,
            input.session_timeout_secs is None ==> final(self).defaults().session_timeout_secs == old(
                self,
            ).defaults().session_timeout_secs,
            input.context_policy matches Some(v) ==> final(self).defaults().context_policy == v,
            input.context_policy is None ==> final(self).defaults().context_policy == old(
                self,
            ).defaults().context_policy,
            final(self).sessions_spec().max_sessions() == match input.max_in_memory_sessions {
                Some(m) => if m == 0 {
                    1
                } else {
                    m as nat
                },
                None => old(self).sessions_spec().max_sessions(),
            },
            r matches Ok(id) && match input.session_id {
                Some(given) => id@ == given@,
                None => exists|nanos: i64, seq: u64| id@ == session_id_text(nanos, seq),
            },
            r matches Ok(id) && has_key(final(self).sessions_spec().sessions(), id@),
            r matches Ok(id) && (!has_key(old(self).sessions_spec().sessions(), id@) ==> (lookup(
                final(self).sessions_spec().sessions(),
                id@,
            ) matches Some(slot) && slot.session_timeout_secs == final(self).defaults().session_timeout_secs
                && slot.state.config.session_timeout_secs == final(self).defaults().session_timeout_secs)),
            r matches Ok(id) && configured_with(
                old(self).sessions_spec(),
                final(self).sessions_spec(),
                id@,
                configured(old(self).defaults(), input),
                old(reg)@,
                final(reg)@,
            ),
            final(self).streams_kept(*old(self)),
    {
        self.apply_config(&input);
        let session_id = match input.session_id {
            Some(id) => id,
            None => self.ids.new_session_id(),
        };
        let ghost d = self.defaults();
        let ghost before = self.store.sessions();
        let mid = self.ensure_configured_session(reg, &session_id);
        let ghost max = self.store.max_sessions();
        assert(capacity_split(mid@, Some(session_id@), max).0 == self.store.sessions());
        assert(with_session(mid@, before, session_id@, d));
        assert(configured_sessions(
            old(self).sessions_spec(),
            self.sessions_spec(),
            session_id@,
            d,
            old(reg)@,
            reg@,
            mid@,
        ));
        let r: Result<String, AgentRunnerError> = Ok(session_id);
        r
    }

    /// Replaces the defaults by the fields given in `input`.
    fn apply_config(&mut self, input: &RunnerConfigInput)
        requires
            old(self).wf(),
        ensures
            final(self).wf(),
            final(self).defaults() == configured(old(self).defaults(), *input),
            final(self).sessions_spec().sessions() == old(self).sessions_spec().sessions(),
            final(self).sessions_spec().records() == old(self).sessions_spec().records(),
            final(self).sessions_spec().max_sessions() == match input.max_in_memory_sessions {
                Some(m) => if m == 0 {
                    1
                } else {
                    m as nat
                },
                None => old(self).sessions_spec().max_sessions(),
            },
            final(self).ids == old(self).ids,
            final(self).streams_kept(*old(self)),
    {
        match input.max_steps {
            Some(v) => {
                self.default_config.max_steps = v;
            },
            None => {},
        }
        match input.verbose {
            Some(v) => {
                self.default_config.verbose = v;
            },
            None => {},
        }
        match input.auto_execute_tools {
            Some(v) => {
                self.default_config.auto_execute_tools = v;
            },
            None => {},
        }
        match input.session_timeout_secs {
            Some(v) => {
                self.default_config.session_timeout_secs = v;
            },
            None => {},
        }
        match input.max_in_memory_sessions {
            Some(v) => {
                self.store.set_max_in_memory_sessions(v);
            },
            None => {},
        }
        match input.context_policy {
            Some(p) => {
                self.default_config.context_policy = p;
            },
            None => {},
        }
    }

    /// Creates session `session_id` from the defaults when it is not in
    /// memory, then relieves capacity pressure sparing it; gives back the
    /// sessions as they were before the pressure was relieved.
    fn ensure_configured_session(&mut self, reg: &mut LogRegistry, session_id: &String) -> (mid:
        Ghost<Seq<(String, SessionSlot<AgentState>)>>)
        requires
            old(self).wf(),
            old(reg).wf(),
        ensures
            final(self).wf(),
            final(reg).wf(),
            final(self).defaults() == old(self).defaults(),
            final(self).sessions_spec().max_sessions() == old(self).sessions_spec().max_sessions(),
            final(self).ids == old(self).ids,
            with_session(
                mid@,
                old(self).sessions_spec().sessions(),
                session_id@,
                old(self).defaults(),
            ),
            final(self).sessions_spec().sessions() == capacity_split(
                mid@,
                Some(session_id@),
                final(self).sessions_spec().max_sessions(),
            ).0,
            has_key(final(self).sessions_spec().sessions(), session_id@),
            configure_logged(
                old(reg)@,
                final(reg)@,
                !has_key(old(self).sessions_spec().sessions(), session_id@),
                capacity_split(mid@, Some(session_id@), final(self).sessions_spec().max_sessions()).1,
            ),
            forall|k: Seq<char>|
                #![trigger lookup(final(self).sessions_spec().records(), k)]
                !has_key(
                    capacity_split(mid@, Some(session_id@), final(self).sessions_spec().max_sessions()).1,
                    k,
                ) ==> lookup(final(self).sessions_spec().records(), k) == lookup(
                    old(self).sessions_spec().records(),
                    k,
                ),
            forall|k: Seq<char>|
                #![trigger lookup(final(self).sessions_spec().records(), k)]
                has_key(
                    capacity_split(mid@, Some(session_id@), final(self).sessions_spec().max_sessions()).1,
                    k,
                ) ==> (lookup(final(self).sessions_spec().records(), k) matches Some(rec) && rec.reason@
                    == "capacity_pressure"@),
            !has_key(old(self).sessions_spec().sessions(), session_id@) ==> (lookup(
                final(self).sessions_spec().sessions(),
                session_id@,
            ) matches Some(slot) && slot.session_timeout_secs == old(self).defaults().session_timeout_secs
                && slot.state.config.session_timeout_secs == old(self).defaults().session_timeout_secs),
            final(self).streams_kept(*old(self)),
    {
        let mut config = self.default_config.duplicate();
        config.session_id = session_id.clone();
        let ghost before = self.store.sessions();
        if !self.store.contains(session_id.as_str()) {
            Logger::new("runtime").log_with_source(reg, LogLevel::Info, "wasm_agent", "Session created");
            let timeout = config.session_timeout_secs;
            let now = now_unix_ms();
            self.store.ensure_session(session_id.as_str(), AgentState::new(config), now, timeout);
            proof {
                crate::assoc::lemma_lookup_after_push(before, self.store.sessions().last());
                assert(self.store.sessions() == before.push(self.store.sessions().last()));
                crate::assoc::lemma_has_key_at(
                    self.store.sessions(),
                    session_id@,
                    self.store.sessions().len() - 1,
                );
            }
        }
        let ghost mid = self.store.sessions();
        assert(crate::assoc::keys_unique(mid));
        let ghost reg1 = reg@;
        let sid: &str = session_id.as_str();
        let evicted = self.store.enforce_capacity(Some(sid));
        assert(opt_view(Some(sid)) == Some(session_id@));
        log_archived(reg, &evicted, "capacity_pressure");
        let ghost reg2 = reg@;
        if evicted.len() > 0 {
            let mut m = string_of("Capacity pressure archived ");
            push_decimal(&mut m, evicted.len() as u64);
            push_str(&mut m, " sessions");
            Logger::new("runtime").log_with_source(reg, LogLevel::Info, "wasm_agent", m.as_str());
        }
        proof {
            assert(reg1.logged_events(reg2, archive_events(evicted@, "capacity_pressure"@)));
            assert(archive_logged(
                reg1,
                reg@,
                evicted@,
                "capacity_pressure"@,
                "Capacity pressure archived "@,
            ));
        }
        proof {
            crate::session_store::lemma_capacity_keeps_protected(
                mid,
                session_id@,
                self.store.max_sessions(),
            );
        }
        Ghost(mid)
    }
}

/// The machine state after forcing a move to `target`: `target` when the
/// machine allows the move, otherwise unchanged.
pub open spec fn forced(s: AgentFsmState, target: AgentFsmState) -> AgentFsmState {
    if transition_allowed(s, target) {
        target
    } else {
        s
    }
}

/// A processing result with its failure as an internal error.
pub open spec fn internal_on_error<T>(r: Result<T, String>) -> Result<T, AgentRunnerError> {
    match r {
        Ok(a) => Ok(a),
        Err(m) => Err(AgentRunnerError::Internal(m)),
    }
}

/// Forces the machine of `state` towards `target` when it is elsewhere,
/// logging the guard (warning) and the move (debug) to `logger`'s session.
fn guard_fsm(
    state: &mut AgentState,
    reg: &mut LogRegistry,
    logger: &Logger,
    target: AgentFsmState,
    target_name: &str,
)
    requires
        old(reg).wf(),
    ensures
        final(reg).wf(),
        *final(state) == (AgentState {
            fsm_state: forced(old(state).fsm_state, target),
            ..*old(state)
        }),
{
    if state.fsm_state != target {
        let before = state.fsm_state;
        let mut w = string_of("FSM guard: state is '");
        push_str(&mut w, before.to_string().as_str());
        push_str(&mut w, "' expected '");
        push_str(&mut w, target_name);
        push_str(&mut w, "', forcing transition");
        logger.log_with_source(reg, LogLevel::Warn, "wasm_agent", w.as_str());
        let _ = state.fsm_state.transition_to(target);
        let mut m = string_of("FSM transition (forced): ");
        push_str(&mut m, before.to_string().as_str());
        push_str(&mut m, " -> ");
        push_str(&mut m, state.fsm_state.to_string().as_str());
        logger.log_with_source(reg, LogLevel::Debug, "wasm_agent", m.as_str());
    }
}

/// The log entries recording the archiving of the sessions of `archived`,
/// in order: for each, in its own log (source `wasm_agent`), the reason,
/// then the machine state it left in.
pub open spec fn archive_events(
    archived: Seq<(String, SessionSlot<AgentState>)>,
    reason: Seq<char>,
) -> Seq<(Seq<char>, LogLevel, Seq<char>, Option<Seq<char>>)>
    decreases archived.len(),
{
    if archived.len() == 0 {
        Seq::empty()
    } else {
        let e = archived.last();
        archive_events(archived.drop_last(), reason).push(
            (e.0@, LogLevel::Info, "Session archived: "@ + reason, Some("wasm_agent"@)),
        ).push(
            (
                e.0@,
                LogLevel::Info,
                "Archiving session in FSM state: "@ + crate::fsm::state_name(
                    crate::agent_types::to_core(e.1.state.fsm_state),
                ),
                Some("wasm_agent"@),
            ),
        )
    }
}

/// Whether `after` is `before` with the archiving of the sessions of
/// `archived` for `reason` logged and then, when there were any, their
/// number in the `runtime` log, after `summary`.
pub open spec fn archive_logged(
    before: RegistryState,
    after: RegistryState,
    archived: Seq<(String, SessionSlot<AgentState>)>,
    reason: Seq<char>,
    summary: Seq<char>,
) -> bool {
    exists|mid: RegistryState|
        #[trigger] before.logged_events(mid, archive_events(archived, reason)) && if archived.len()
            > 0 {
            mid.logged_at_some_time(
                after,
                "runtime"@,
                LogLevel::Info,
                summary + decimal(archived.len()) + " sessions"@,
                Some("wasm_agent"@),
                None,
            )
        } else {
            after == mid
        }
}

/// Whether `after` is `before` with the archiving of the sessions of
/// `swept` by an idle sweep logged.
pub open spec fn sweep_logged(
    before: RegistryState,
    after: RegistryState,
    swept: Seq<(String, SessionSlot<AgentState>)>,
) -> bool {
    archive_logged(before, after, swept, "idle_timeout"@, "Idle sweep archived "@)
}

/// Whether `after` is `before` with, when a session was `created`, its
/// creation logged in the `runtime` log, then the archiving of the
/// sessions `evicted` by capacity pressure.
pub open spec fn configure_logged(
    before: RegistryState,
    after: RegistryState,
    created: bool,
    evicted: Seq<(String, SessionSlot<AgentState>)>,
) -> bool {
    exists|m: RegistryState|
        #[trigger] archive_logged(m, after, evicted, "capacity_pressure"@, "Capacity pressure archived "@)
            && if created {
            before.logged_at_some_time(
                m,
                "runtime"@,
                LogLevel::Info,
                "Session created"@,
                Some("wasm_agent"@),
                None,
            )
        } else {
            m == before
        }
}

/// Whether the store `after` (and the log `reg_after`) is what configuring
/// session `id` with `defaults` makes of the store `before` (and the log
/// `reg_before`), `mid` being the sessions once `id` is in memory: `id` is
/// created from `defaults` when missing, then capacity pressure sparing it
/// archives least recently used sessions, each logged and recorded as
/// archived for `capacity_pressure`; other records are kept.
pub open spec fn configured_sessions(
    before: SessionStore<AgentState>,
    after: SessionStore<AgentState>,
    id: Seq<char>,
    defaults: AgentConfig,
    reg_before: RegistryState,
    reg_after: RegistryState,
    mid: Seq<(String, SessionSlot<AgentState>)>,
) -> bool {
    let evicted = capacity_split(mid, Some(id), after.max_sessions()).1;
    &&& with_session(mid, before.sessions(), id, defaults)
    &&& after.sessions() == capacity_split(mid, Some(id), after.max_sessions()).0
    &&& configure_logged(reg_before, reg_after, !has_key(before.sessions(), id), evicted)
    &&& forall|k: Seq<char>|
        #![trigger lookup(after.records(), k)]
        !has_key(evicted, k) ==> lookup(after.records(), k) == lookup(before.records(), k)
    &&& forall|k: Seq<char>|
        #![trigger lookup(after.records(), k)]
        has_key(evicted, k) ==> (lookup(after.records(), k) matches Some(rec) && rec.reason@
            == "capacity_pressure"@)
}

/// Whether configuring session `id` with `defaults` made the store
/// `after` and the log `reg_after` of `before` and `reg_before` (see
/// [`configured_sessions`]), for some sessions once `id` was in memory.
pub open spec fn configured_with(
    before: SessionStore<AgentState>,
    after: SessionStore<AgentState>,
    id: Seq<char>,
    defaults: AgentConfig,
    reg_before: RegistryState,
    reg_after: RegistryState,
) -> bool {
    exists|mid: Seq<(String, SessionSlot<AgentState>)>|
        #[trigger] configured_sessions(before, after, id, defaults, reg_before, reg_after, mid)
}

/// Logs the archiving of each of `archived`, in order, to its own log
/// (source `wasm_agent`): the reason, then the machine state it left in.
#[verifier::rlimit(80)]
#[verifier::spinoff_prover]
pub fn log_archived(
    reg: &mut LogRegistry,
    archived: &Vec<(String, SessionSlot<AgentState>)>,
    reason: &str,
)
    requires
        old(reg).wf(),
    ensures
        final(reg).wf(),
        old(reg)@.logged_events(final(reg)@, archive_events(archived@, reason@)),
{
    let ghost start = reg@;
    proof {
        start.lemma_logged_no_events();
        assert(archived@.take(0) =~= Seq::<(String, SessionSlot<AgentState>)>::empty());
    }
    let mut i: usize = 0;
    while i < archived.len()
        invariant
            i <= archived.len(),
            reg.wf(),
            start.logged_events(reg@, archive_events(archived@.take(i as int), reason@)),
        decreases archived.len() - i,
    {
        let ghost r0 = reg@;
        let ghost prefix = archive_events(archived@.take(i as int), reason@);
        let logger = Logger::new(archived[i].0.as_str());
        let mut m = string_of("Session archived: ");
        push_str(&mut m, reason);
        logger.log_with_source(reg, LogLevel::Info, "wasm_agent", m.as_str());
        let ghost r1 = reg@;
        let mut f = string_of("Archiving session in FSM state: ");
        push_str(&mut f, archived[i].1.state.fsm_state.to_string().as_str());
        logger.log_with_source(reg, LogLevel::Info, "wasm_agent", f.as_str());
        proof {
            let e = archived@[i as int];
            let ev1 = (e.0@, LogLevel::Info, "Session archived: "@ + reason@, Some("wasm_agent"@));
            let ev2 = (
                e.0@,
                LogLevel::Info,
                "Archiving session in FSM state: "@ + crate::fsm::state_name(
                    crate::agent_types::to_core(e.1.state.fsm_state),
                ),
                Some("wasm_agent"@),
            );
            assert(prefix.push(ev1).drop_last() =~= prefix);
            start.lemma_logged_events_push(r0, r1, prefix.push(ev1));
            assert(prefix.push(ev1).push(ev2).drop_last() =~= prefix.push(ev1));
            start.lemma_logged_events_push(r1, reg@, prefix.push(ev1).push(ev2));
            assert(archived@.take(i + 1).drop_last() =~= archived@.take(i as int));
            assert(archived@.take(i + 1).last() == e);
            assert(archive_events(archived@.take(i + 1), reason@) =~= prefix.push(ev1).push(ev2));
        }
        i = i + 1;
    }
    proof {
        assert(archived@.take(archived.len() as int) =~= archived@);
    }
}

/// Counters all zero.
pub open spec fn zero_counters() -> TelemetryCounters {
    TelemetryCounters {
        turns_prepared: 0,
        llm_chunks: 0,
        llm_commits: 0,
        final_responses: 0,
        tool_requests: 0,
        llm_retries: 0,
        tool_results: 0,
        tool_errors: 0,
    }
}

/// The counters of session `id` in `m` (all zero when it has none).
pub open spec fn counters_in(m: Seq<(String, TelemetryCounters)>, id: Seq<char>) -> TelemetryCounters {
    match lookup(m, id) {
        Some(c) => c,
        None => zero_counters(),
    }
}

/// Which counter a thing that happened counts in.
#[derive(Debug, Clone, Copy, PartialEq, Eq, Structural)]
pub enum CounterKind {
    TurnsPrepared,
    LlmChunks,
    LlmCommits,
    FinalResponses,
    ToolRequests,
    LlmRetries,
    ToolResults,
    ToolErrors,
}

/// `n` plus one, staying at the largest value.
pub open spec fn sat_inc(n: u64) -> u64 {
    if n < u64::MAX {
        (n + 1) as u64
    } else {
        n
    }
}

/// `c` with the counter `k` raised by one.
pub open spec fn bumped(c: TelemetryCounters, k: CounterKind) -> TelemetryCounters {
    match k {
        CounterKind::TurnsPrepared => TelemetryCounters { turns_prepared: sat_inc(c.turns_prepared), ..c },
        CounterKind::LlmChunks => TelemetryCounters { llm_chunks: sat_inc(c.llm_chunks), ..c },
        CounterKind::LlmCommits => TelemetryCounters { llm_commits: sat_inc(c.llm_commits), ..c },
        CounterKind::FinalResponses => TelemetryCounters {
            final_responses: sat_inc(c.final_responses),
            ..c
        },
        CounterKind::ToolRequests => TelemetryCounters { tool_requests: sat_inc(c.tool_requests), ..c },
        CounterKind::LlmRetries => TelemetryCounters { llm_retries: sat_inc(c.llm_retries), ..c },
        CounterKind::ToolResults => TelemetryCounters { tool_results: sat_inc(c.tool_results), ..c },
        CounterKind::ToolErrors => TelemetryCounters { tool_errors: sat_inc(c.tool_errors), ..c },
    }
}

/// `c` with a tool result counted, and a failure when it did not succeed.
pub open spec fn tool_counted(c: TelemetryCounters, success: bool) -> TelemetryCounters {
    let counted = bumped(c, CounterKind::ToolResults);
    if success {
        counted
    } else {
        bumped(counted, CounterKind::ToolErrors)
    }
}

/// Whether `after` is `before` with events for session `id` of the kinds
/// `kinds` queued behind it, in order.
pub open spec fn queued(
    before: Seq<StreamEvent>,
    after: Seq<StreamEvent>,
    id: Seq<char>,
    kinds: Seq<StreamEventKind>,
) -> bool {
    &&& after.len() == before.len() + kinds.len()
    &&& after.take(before.len() as int) == before
    &&& forall|i: int|
        0 <= i < kinds.len() ==> (#[trigger] after.skip(before.len() as int)[i]).session_id@ == id
            && after.skip(before.len() as int)[i].kind == kinds[i]
}

/// Events queued in two goes are queued in one.
pub proof fn lemma_queued_trans(
    a: Seq<StreamEvent>,
    b: Seq<StreamEvent>,
    c: Seq<StreamEvent>,
    id: Seq<char>,
    k1: Seq<StreamEventKind>,
    k2: Seq<StreamEventKind>,
)
    requires
        queued(a, b, id, k1),
        queued(b, c, id, k2),
    ensures
        queued(a, c, id, k1 + k2),
{
    assert(c.take(a.len() as int) =~= a) by {
        assert forall|j: int| 0 <= j < a.len() implies c[j] == a[j] by {
            assert(c[j] == c.take(b.len() as int)[j]);
            assert(b[j] == b.take(a.len() as int)[j]);
        }
    }
    assert forall|i: int| 0 <= i < (k1 + k2).len() implies (#[trigger] c.skip(a.len() as int)[i]).session_id@
        == id && c.skip(a.len() as int)[i].kind == (k1 + k2)[i] by {
        if i < k1.len() {
            assert(c.skip(a.len() as int)[i] == c.take(b.len() as int)[a.len() + i]);
            assert(b.skip(a.len() as int)[i] == b[a.len() + i]);
        } else {
            assert(c.skip(a.len() as int)[i] == c.skip(b.len() as int)[i - k1.len()]);
        }
    }
}

/// Whether every event queued behind `before` in `after` is stamped with
/// step `step` and the correlation id `correlation_id`.
pub open spec fn stamped(
    before: Seq<StreamEvent>,
    after: Seq<StreamEvent>,
    step: u32,
    correlation_id: Option<String>,
) -> bool {
    forall|i: int|
        before.len() <= i < after.len() ==> (#[trigger] after[i]).step == step && after[i].correlation_id
            == correlation_id
}

/// Events stamped alike in two goes are stamped alike in one.
pub proof fn lemma_stamped_trans(
    a: Seq<StreamEvent>,
    b: Seq<StreamEvent>,
    c: Seq<StreamEvent>,
    step: u32,
    correlation_id: Option<String>,
)
    requires
        a.len() <= b.len() <= c.len(),
        c.take(b.len() as int) == b,
        stamped(a, b, step, correlation_id),
        stamped(b, c, step, correlation_id),
    ensures
        stamped(a, c, step, correlation_id),
{
    assert forall|i: int| a.len() <= i < c.len() implies (#[trigger] c[i]).step == step
        && c[i].correlation_id == correlation_id by {
        if i < b.len() {
            assert(c[i] == c.take(b.len() as int)[i]);
        }
    }
}

/// An object whose first member is `key` with value `first`, followed by
/// `rest`.
fn payload_of(key: &str, first: JsonValue, rest: Vec<(String, JsonValue)>) -> (r: JsonValue)
    ensures
        crate::json::field(r, key@) == Some(first),
{
    let mut m: Vec<(String, JsonValue)> = Vec::new();
    let ghost gf = first;
    m.push((string_of(key), first));
    let mut rest = rest;
    m.append(&mut rest);
    assert(m@[0].0@ == key@);
    assert(crate::assoc::key_pos(m@, key@) == 0);
    JsonValue::Object(m)
}

/// A JSON string of `t`.
fn text_value(t: &str) -> (r: JsonValue)
    ensures
        r matches JsonValue::String(s) && s@ == t@,
{
    JsonValue::String(string_of(t))
}

/// A JSON number of `n`.
fn number_value(n: u64) -> (r: JsonValue) {
    let mut t = String::new();
    push_decimal(&mut t, n);
    JsonValue::Number(t)
}

/// The kinds of the events that preparing a turn queues, the session's
/// machine having been in state `prev`.
pub open spec fn prepare_event_kinds(prev: AgentFsmState) -> Seq<StreamEventKind> {
    let moves = seq![
        StreamEventKind::FsmStateChanged,
        StreamEventKind::FsmStateChanged,
        StreamEventKind::UserTurnPrepared,
    ];
    if prev == AgentFsmState::Idle {
        moves
    } else {
        seq![StreamEventKind::FsmStateChanged] + moves
    }
}

/// The state a turn of session `id` starts from, given the sessions in
/// memory `before`: the session's state there, or a fresh one.
pub open spec fn turn_start(
    before: Seq<(String, SessionSlot<AgentState>)>,
    id: Seq<char>,
    defaults: AgentConfig,
    prev: AgentState,
) -> bool {
    match lookup(before, id) {
        Some(slot) => prev == slot.state,
        None => fresh_session_state(prev, id, defaults),
    }
}

/// Whether session `id` is archived and out of memory once idle sessions of
/// `st` are swept at `now_ms`.
pub open spec fn archived_after_sweep(st: SessionStore<AgentState>, id: Seq<char>, now_ms: i64) -> bool {
    let swept = sweep_split(st.sessions(), now_ms);
    &&& !has_key(swept.0, id)
    &&& (has_key(st.records(), id) || has_key(swept.1, id))
}

/// Whether the store `after` is `before` after an idle sweep at `now_ms`.
pub open spec fn swept_store(
    before: SessionStore<AgentState>,
    after: SessionStore<AgentState>,
    now_ms: i64,
) -> bool {
    let swept = sweep_split(before.sessions(), now_ms);
    &&& after.sessions() == swept.0
    &&& forall|k: Seq<char>|
        #![trigger lookup(after.records(), k)]
        !has_key(swept.1, k) ==> lookup(after.records(), k) == lookup(before.records(), k)
    &&& forall|k: Seq<char>|
        #![trigger lookup(after.records(), k)]
        has_key(swept.1, k) ==> (lookup(after.records(), k) matches Some(rec) && rec.reason@
            == "idle_timeout"@)
    &&& after.max_sessions() == before.max_sessions()
}

/// Whether `id` is the session of a turn requested for `requested`: that
/// session, or else a new id made from the id counter `counter`.
pub open spec fn turn_id(requested: Option<String>, id: Seq<char>, counter: u64) -> bool {
    match requested {
        Some(s) => id == s@,
        None => exists|nanos: i64| id == session_id_text(nanos, counter),
    }
}

/// Milliseconds from `started` to `ended`, zero when `ended` is not later.
fn elapsed_between(started: i64, ended: i64) -> (r: u64)
    ensures
        ended > started ==> r == if ended - started <= u64::MAX {
            (ended - started) as u64
        } else {
            u64::MAX
        },
        ended <= started ==> r == 0,
{
    if ended > started {
        let d: i128 = (ended as i128) - (started as i128);
        if d <= u64::MAX as i128 {
            d as u64
        } else {
            u64::MAX
        }
    } else {
        0
    }
}

/// The text of `t`, empty when there is none.
pub open spec fn opt_text(t: Option<String>) -> Seq<char> {
    match t {
        Some(s) => s@,
        None => Seq::empty(),
    }
}

/// The error text for a turn on a session that must be restored first.
pub open spec fn archived_turn_text(id: Seq<char>) -> Seq<char> {
    "Session '"@ + id + "' archived and not in RAM"@
}

/// Whether the store `after` is the store `before` once capacity pressure,
/// sparing session `id`, archived its least recently used sessions.
pub open spec fn relieved(
    before: SessionStore<AgentState>,
    after: SessionStore<AgentState>,
    id: Seq<char>,
) -> bool {
    let split = capacity_split(before.sessions(), Some(id), before.max_sessions());
    &&& after.sessions() == split.0
    &&& after.max_sessions() == before.max_sessions()
    &&& forall|k: Seq<char>|
        #![trigger lookup(after.records(), k)]
        !has_key(split.1, k) ==> lookup(after.records(), k) == lookup(before.records(), k)
    &&& forall|k: Seq<char>|
        #![trigger lookup(after.records(), k)]
        has_key(split.1, k) ==> (lookup(after.records(), k) matches Some(rec) && rec.reason@
            == "capacity_pressure"@)
}

/// A key of a store is still there after an idle sweep, kept or archived.
proof fn lemma_sweep_keys(s: Seq<(String, SessionSlot<AgentState>)>, now_ms: i64, k: Seq<char>)
    requires
        has_key(s, k),
    ensures
        has_key(sweep_split(s, now_ms).0, k) || has_key(sweep_split(s, now_ms).1, k),
    decreases s.len(),
{
    let r = sweep_split(s.drop_last(), now_ms);
    crate::assoc::lemma_key_pos(s, k);
    let p = crate::assoc::key_pos(s, k) as int;
    if p == s.len() - 1 {
        if crate::session_store::is_idle(s.last().1, now_ms) {
            crate::assoc::lemma_has_key_at(r.1.push(s.last()), k, r.1.len() as int);
        } else {
            crate::assoc::lemma_has_key_at(r.0.push(s.last()), k, r.0.len() as int);
        }
    } else {
        assert(s.drop_last()[p] == s[p]);
        crate::assoc::lemma_has_key_at(s.drop_last(), k, p);
        lemma_sweep_keys(s.drop_last(), now_ms, k);
        if has_key(r.0, k) {
            crate::assoc::lemma_key_pos(r.0, k);
            let q = crate::assoc::key_pos(r.0, k) as int;
            assert(r.0.push(s.last())[q] == r.0[q]);
            assert(r.0.push(s.last())[q].0@ == k);
            crate::assoc::lemma_has_key_at(r.0.push(s.last()), k, q);
        } else {
            crate::assoc::lemma_key_pos(r.1, k);
            let q = crate::assoc::key_pos(r.1, k) as int;
            assert(r.1.push(s.last())[q] == r.1[q]);
            assert(r.1.push(s.last())[q].0@ == k);
            crate::assoc::lemma_has_key_at(r.1.push(s.last()), k, q);
        }
    }
}

impl AgentRunnerRuntime {
    /// Queues an event of `kind` for session `session_id` at step `step`,
    /// numbered after the session's last event.
    fn emit_event(
        &mut self,
        session_id: &str,
        step: u32,
        correlation_id: &Option<String>,
        kind: StreamEventKind,
        payload: JsonValue,
    )
        ensures
            queued(old(self).queued_events(), final(self).queued_events(), session_id@, seq![kind]),
            stamped(old(self).queued_events(), final(self).queued_events(), step, *correlation_id),
            final(self).queued_events().last().payload == payload,
            final(self).queued_events().last().seq == sat_inc(old(self).last_seq(session_id@)),
            forall|id: Seq<char>|
                #![trigger final(self).last_seq(id)]
                final(self).last_seq(id) == if id == session_id@ {
                    sat_inc(old(self).last_seq(id))
                } else {
                    old(self).last_seq(id)
                },
            forall|id: Seq<char>|
                #![trigger final(self).last_correlation(id)]
                final(self).last_correlation(id) == if id == session_id@ && correlation_id.is_some() {
                    *correlation_id
                } else {
                    old(self).last_correlation(id)
                },
            final(self).store == old(self).store,
            final(self).default_config == old(self).default_config,
            final(self).ids == old(self).ids,
            final(self).known_tools == old(self).known_tools,
            final(self).counters == old(self).counters,
            final(self).chunks == old(self).chunks,
            final(self).latencies == old(self).latencies,
    {
        match correlation_id {
            Some(c) => crate::assoc::put_entry(&mut self.correlations, session_id, Some(copy_string(c))),
            None => {},
        }
        let i = crate::assoc::key_index(&self.event_seqs, session_id);
        let last = if i < self.event_seqs.len() {
            proof {
                crate::assoc::lemma_key_pos(self.event_seqs@, session_id@);
            }
            self.event_seqs[i].1
        } else {
            0
        };
        let seq = if last < u64::MAX {
            last + 1
        } else {
            last
        };
        crate::assoc::put_entry(&mut self.event_seqs, session_id, seq);
        let correlation = match correlation_id {
            Some(c) => Some(copy_string(c)),
            None => None,
        };
        let ghost before = self.events@;
        self.events.push(
            StreamEvent {
                seq,
                session_id: string_of(session_id),
                step,
                correlation_id: correlation,
                kind,
                payload,
            },
        );
        assert(self.events@.take(before.len() as int) =~= before);
        assert(self.events@.skip(before.len() as int)[0] == self.events@.last());
    }

    /// Raises counter `k` of session `session_id` by one.
    fn bump(&mut self, session_id: &str, k: CounterKind)
        ensures
            forall|id: Seq<char>|
                #![trigger final(self).counters_of(id)]
                final(self).counters_of(id) == if id == session_id@ {
                    bumped(old(self).counters_of(session_id@), k)
                } else {
                    old(self).counters_of(id)
                },
            final(self).store == old(self).store,
            final(self).default_config == old(self).default_config,
            final(self).ids == old(self).ids,
            final(self).known_tools == old(self).known_tools,
            final(self).events == old(self).events,
            final(self).event_seqs == old(self).event_seqs,
            final(self).chunks == old(self).chunks,
            final(self).correlations == old(self).correlations,
            final(self).latencies == old(self).latencies,
    {
        let i = crate::assoc::key_index(&self.counters, session_id);
        let c = if i < self.counters.len() {
            proof {
                crate::assoc::lemma_key_pos(self.counters@, session_id@);
            }
            self.counters[i].1
        } else {
            TelemetryCounters {
                turns_prepared: 0,
                llm_chunks: 0,
                llm_commits: 0,
                final_responses: 0,
                tool_requests: 0,
                llm_retries: 0,
                tool_results: 0,
                tool_errors: 0,
            }
        };
        assert(c == counters_in(self.counters@, session_id@));
        let b = match k {
            CounterKind::TurnsPrepared => TelemetryCounters {
                turns_prepared: c.turns_prepared.saturating_add(1),
                ..c
            },
            CounterKind::LlmChunks => TelemetryCounters { llm_chunks: c.llm_chunks.saturating_add(1), ..c },
            CounterKind::LlmCommits => TelemetryCounters {
                llm_commits: c.llm_commits.saturating_add(1),
                ..c
            },
            CounterKind::FinalResponses => TelemetryCounters {
                final_responses: c.final_responses.saturating_add(1),
                ..c
            },
            CounterKind::ToolRequests => TelemetryCounters {
                tool_requests: c.tool_requests.saturating_add(1),
                ..c
            },
            CounterKind::LlmRetries => TelemetryCounters {
                llm_retries: c.llm_retries.saturating_add(1),
                ..c
            },
            CounterKind::ToolResults => TelemetryCounters {
                tool_results: c.tool_results.saturating_add(1),
                ..c
            },
            CounterKind::ToolErrors => TelemetryCounters {
                tool_errors: c.tool_errors.saturating_add(1),
                ..c
            },
        };
        assert(b == bumped(c, k));
        crate::assoc::put_entry(&mut self.counters, session_id, b);
    }

    /// Replaces the registered tools by `tools`, logging their number in the
    /// `runtime` log; gives that number.
    pub fn register_tools(&mut self, reg: &mut LogRegistry, tools: Vec<ToolDefinition>) -> (n: u32)
        requires
            old(reg).wf(),
        ensures
            final(reg).wf(),
            final(self).tools() == tools@,
            n == tools@.len() as u32,
            final(self).wf() == old(self).wf(),
            final(self).sessions_spec() == old(self).sessions_spec(),
            final(self).defaults() == old(self).defaults(),
            final(self).queued_events() == old(self).queued_events(),
            forall|id: Seq<char>| #[trigger] final(self).counters_of(id) == old(self).counters_of(id),
            forall|id: Seq<char>| #[trigger] final(self).pending_text(id) == old(self).pending_text(id),
            old(reg)@.logged_at_some_time(
                final(reg)@,
                "runtime"@,
                LogLevel::Info,
                decimal(tools@.len()) + " tools registered"@,
                Some("wasm_agent"@),
                None,
            ),
    {
        let count = tools.len();
        self.known_tools = tools;
        let mut m = String::new();
        push_decimal(&mut m, count as u64);
        push_str(&mut m, " tools registered");
        Logger::new("runtime").log_with_source(reg, LogLevel::Info, "wasm_agent", m.as_str());
        count as u32
    }

    /// The block presenting the registered tools in a system prompt, empty
    /// when none is registered.
    pub fn get_tools_prompt(&self) -> (r: String)
        ensures
            r@ == match tools_block(self.tools()) {
                Some(b) => b,
                None => Seq::empty(),
            },
    {
        match tools_prompt_block(&self.known_tools) {
            Some(b) => b,
            None => String::new(),
        }
    }

    /// The counters of session `session_id`.
    pub fn get_telemetry_snapshot(&self, session_id: &str) -> (r: TelemetrySnapshot)
        ensures
            r.session_id@ == session_id@,
            r.counters == self.counters_of(session_id@),
            r.correlation_id == self.last_correlation(session_id@),
            (r.total_prepare_latency_ms, r.total_commit_latency_ms) == self.latency_of(session_id@),
            r.fsm_state@ == match lookup(self.sessions_spec().sessions(), session_id@) {
                Some(slot) => crate::fsm::state_name(crate::agent_types::to_core(slot.state.fsm_state)),
                None => Seq::empty(),
            },
    {
        let i = crate::assoc::key_index(&self.counters, session_id);
        let counters = if i < self.counters.len() {
            self.counters[i].1
        } else {
            TelemetryCounters {
                turns_prepared: 0,
                llm_chunks: 0,
                llm_commits: 0,
                final_responses: 0,
                tool_requests: 0,
                llm_retries: 0,
                tool_results: 0,
                tool_errors: 0,
            }
        };
        let j = crate::assoc::key_index(&self.correlations, session_id);
        let correlation_id = if j < self.correlations.len() {
            match &self.correlations[j].1 {
                Some(c) => Some(copy_string(c)),
                None => None,
            }
        } else {
            None
        };
        let k = crate::assoc::key_index(&self.latencies, session_id);
        let (prepare, commit) = if k < self.latencies.len() {
            self.latencies[k].1
        } else {
            (0, 0)
        };
        let fsm_state = match self.store.get(session_id) {
            Some(slot) => slot.state.fsm_state.to_string(),
            None => String::new(),
        };
        TelemetrySnapshot {
            session_id: string_of(session_id),
            correlation_id,
            counters,
            total_prepare_latency_ms: prepare,
            total_commit_latency_ms: commit,
            fsm_state,
        }
    }

    /// Adds `ms` to the time session `session_id` spent preparing turns
    /// (or, when `commit`, committing answers), staying at the largest
    /// value.
    fn add_latency(&mut self, session_id: &str, commit: bool, ms: u64)
        ensures
            forall|id: Seq<char>| id != session_id@ ==> #[trigger] final(self).latency_of(id) == old(self).latency_of(id),
            final(self).store == old(self).store,
            final(self).default_config == old(self).default_config,
            final(self).ids == old(self).ids,
            final(self).known_tools == old(self).known_tools,
            final(self).events == old(self).events,
            final(self).event_seqs == old(self).event_seqs,
            final(self).counters == old(self).counters,
            final(self).chunks == old(self).chunks,
            final(self).correlations == old(self).correlations,
    {
        let k = crate::assoc::key_index(&self.latencies, session_id);
        let (prepare, done) = if k < self.latencies.len() {
            self.latencies[k].1
        } else {
            (0, 0)
        };
        let v = if commit {
            (prepare, done.saturating_add(ms))
        } else {
            (prepare.saturating_add(ms), done)
        };
        crate::assoc::put_entry(&mut self.latencies, session_id, v);
    }

    /// Hands out the events queued for session `session_id`, oldest first;
    /// the events of other sessions stay queued, in order.
    pub fn drain_events(&mut self, session_id: &str) -> (r: Vec<StreamEvent>)
        ensures
            r@ == old(self).queued_events().filter(|e: StreamEvent| e.session_id@ == session_id@),
            final(self).queued_events() == old(self).queued_events().filter(
                |e: StreamEvent| e.session_id@ != session_id@,
            ),
            final(self).sessions_spec() == old(self).sessions_spec(),
            final(self).defaults() == old(self).defaults(),
            final(self).tools() == old(self).tools(),
            forall|id: Seq<char>| #[trigger] final(self).counters_of(id) == old(self).counters_of(id),
            forall|id: Seq<char>| #[trigger] final(self).pending_text(id) == old(self).pending_text(id),
            forall|id: Seq<char>| #[trigger] final(self).last_seq(id) == old(self).last_seq(id),
            forall|id: Seq<char>| #[trigger] final(self).last_correlation(id) == old(self).last_correlation(id),
            forall|id: Seq<char>| #[trigger] final(self).latency_of(id) == old(self).latency_of(id),
    {
        let ghost all = self.events@;
        let ghost mine = |e: StreamEvent| e.session_id@ == session_id@;
        let ghost others = |e: StreamEvent| e.session_id@ != session_id@;
        let n = self.events.len();
        let mut taken: Vec<StreamEvent> = Vec::new();
        let mut i: usize = 0;
        let mut j: usize = 0;
        proof {
            assert(all.take(0) =~= Seq::<StreamEvent>::empty());
            reveal(Seq::filter);
            assert(all.take(0).filter(mine) =~= Seq::<StreamEvent>::empty());
            assert(all.take(0).filter(others) =~= Seq::<StreamEvent>::empty());
            assert(self.events@ =~= all.take(0).filter(others) + all.skip(0));
        }
        while j < n
            invariant
                n == all.len(),
                j <= all.len(),
                i == all.take(j as int).filter(others).len(),
                taken@ == all.take(j as int).filter(mine),
                self.events@ == all.take(j as int).filter(others) + all.skip(j as int),
                mine == (|e: StreamEvent| e.session_id@ == session_id@),
                others == (|e: StreamEvent| e.session_id@ != session_id@),
                self.store == old(self).store,
                self.default_config == old(self).default_config,
                self.known_tools == old(self).known_tools,
                self.counters == old(self).counters,
                self.chunks == old(self).chunks,
                self.event_seqs == old(self).event_seqs,
                self.correlations == old(self).correlations,
                self.latencies == old(self).latencies,
            decreases all.len() - j,
        {
            proof {
                assert(all.take(j + 1) =~= all.take(j as int).push(all[j as int]));
                all.take(j as int).lemma_filter_push(all[j as int], mine);
                all.take(j as int).lemma_filter_push(all[j as int], others);
                assert(self.events@[i as int] == all[j as int]);
                assert(all.skip(j + 1) =~= all.skip(j as int).drop_first());
            }
            if str_eq(self.events[i].session_id.as_str(), session_id) {
                let e = self.events.remove(i);
                taken.push(e);
                proof {
                    assert(self.events@ =~= all.take(j + 1).filter(others) + all.skip(j + 1));
                }
            } else {
                proof {
                    assert(self.events@ =~= all.take(j + 1).filter(others) + all.skip(j + 1));
                }
                i = i + 1;
            }
            j = j + 1;
        }
        proof {
            assert(all.take(all.len() as int) =~= all);
            assert(all.skip(all.len() as int) =~= Seq::<StreamEvent>::empty());
            assert(self.events@ =~= all.filter(others));
        }
        taken
    }

    /// Relieves capacity pressure sparing session `session_id`: least
    /// recently used sessions are archived, each logged, then their number.
    fn relieve_capacity(&mut self, reg: &mut LogRegistry, session_id: &str)
        requires
            old(self).wf(),
            old(reg).wf(),
        ensures
            final(self).wf(),
            final(reg).wf(),
            relieved(old(self).sessions_spec(), final(self).sessions_spec(), session_id@),
            final(self).default_config == old(self).default_config,
            final(self).ids == old(self).ids,
            final(self).streams_kept(*old(self)),
    {
        let evicted = self.store.enforce_capacity(Some(session_id));
        assert(opt_view(Some(session_id)) == Some(session_id@));
        log_archived(reg, &evicted, "capacity_pressure");
        if evicted.len() > 0 {
            let mut m = string_of("Capacity pressure archived ");
            push_decimal(&mut m, evicted.len() as u64);
            push_str(&mut m, " sessions");
            Logger::new("runtime").log_with_source(reg, LogLevel::Info, "wasm_agent", m.as_str());
        }
    }

    /// Queues the two restore events of a turn refused because session
    /// `session_id` is archived, logs the refusal and gives the error.
    fn refuse_archived_turn(
        &mut self,
        reg: &mut LogRegistry,
        session_id: &str,
        correlation_id: &Option<String>,
        reason: String,
        archived_at_ms: i64,
    ) -> (e: AgentRunnerError)
        requires
            old(reg).wf(),
        ensures
            final(reg).wf(),
            e matches AgentRunnerError::SessionArchived(m) && m@ == archived_turn_text(session_id@),
            queued(
                old(self).queued_events(),
                final(self).queued_events(),
                session_id@,
                seq![StreamEventKind::SessionRestoreRequested, StreamEventKind::SessionRestoreProgress],
            ),
            stamped(old(self).queued_events(), final(self).queued_events(), 0, *correlation_id),
            final(self).store == old(self).store,
            final(self).default_config == old(self).default_config,
            final(self).ids == old(self).ids,
            final(self).known_tools == old(self).known_tools,
            final(self).counters == old(self).counters,
            final(self).chunks == old(self).chunks,
    {
        let ghost e0 = self.events@;
        let mut rest: Vec<(String, JsonValue)> = Vec::new();
        let mut at = String::new();
        crate::text::push_signed_decimal(&mut at, archived_at_ms);
        rest.push((string_of("archived_at_ms"), JsonValue::Number(at)));
        let requested = payload_of("reason", text_value(reason.as_str()), rest);
        self.emit_event(session_id, 0, correlation_id, StreamEventKind::SessionRestoreRequested, requested);
        let ghost e1 = self.events@;
        let mut rest: Vec<(String, JsonValue)> = Vec::new();
        rest.push((string_of("percent"), number_value(0)));
        rest.push(
            (string_of("message"), text_value("Host load_state required before this turn can continue")),
        );
        let progress = payload_of("stage", text_value("requested"), rest);
        self.emit_event(session_id, 0, correlation_id, StreamEventKind::SessionRestoreProgress, progress);
        proof {
            lemma_stamped_trans(e0, e1, self.events@, 0, *correlation_id);
            lemma_queued_trans(
                e0,
                e1,
                self.events@,
                session_id@,
                seq![StreamEventKind::SessionRestoreRequested],
                seq![StreamEventKind::SessionRestoreProgress],
            );
            assert(seq![StreamEventKind::SessionRestoreRequested] + seq![
                StreamEventKind::SessionRestoreProgress,
            ] =~= seq![StreamEventKind::SessionRestoreRequested, StreamEventKind::SessionRestoreProgress]);
        }
        Logger::new(session_id).log_with_source(
            reg,
            LogLevel::Warn,
            "wasm_agent",
            "Session archived, restore required before turn",
        );
        let mut m = string_of("Session '");
        push_str(&mut m, session_id);
        push_str(&mut m, "' archived and not in RAM");
        AgentRunnerError::SessionArchived(m)
    }

    /// Makes sure session `session_id` is in memory, marks it as used at
    /// `now_ms`, resets its machine to idle when it is elsewhere and moves
    /// it to streaming, each step logged.  Gives the session's step, whether
    /// it was reset, its machine state before, the texts of the two moves,
    /// and (as ghosts) its state before and the sessions once it was in
    /// memory.
    fn start_turn(&mut self, reg: &mut LogRegistry, session_id: &str, now_ms: i64) -> (r: (
        u32,
        AgentFsmState,
        String,
        String,
        Ghost<(AgentState, Seq<(String, SessionSlot<AgentState>)>)>,
    ))
        requires
            old(self).wf(),
            old(reg).wf(),
        ensures
            final(self).wf(),
            final(reg).wf(),
            final(self).default_config == old(self).default_config,
            final(self).ids == old(self).ids,
            final(self).streams_kept(*old(self)),
            ({
                let (step, prev_fsm, t1, t2, g) = r;
                let prev = g@.0;
                let mid = g@.1;
                let p = crate::assoc::key_pos(mid, session_id@);
                &&& match lookup(old(self).sessions_spec().sessions(), session_id@) {
                    Some(slot) => prev == slot.state,
                    None => fresh_session_state(prev, session_id@, old(self).defaults()),
                }
                &&& step == prev.current_step
                &&& prev_fsm == prev.fsm_state
                &&& with_session(mid, old(self).sessions_spec().sessions(), session_id@, old(self).defaults())
                &&& has_key(mid, session_id@)
                &&& final(self).sessions_spec().sessions() == mid.update(
                    p as int,
                    (mid[p as int].0, final(self).sessions_spec().sessions()[p as int].1),
                )
                &&& final(self).sessions_spec().sessions()[p as int].1.state == (AgentState {
                    fsm_state: AgentFsmState::LlmStreaming,
                    ..prev
                })
                &&& lookup(final(self).sessions_spec().sessions(), session_id@) == Some(
                    final(self).sessions_spec().sessions()[p as int].1,
                )
                &&& final(self).sessions_spec().records() == old(self).sessions_spec().records()
                &&& final(self).sessions_spec().max_sessions() == old(self).sessions_spec().max_sessions()
            }),
    {
        let ghost before = self.store.sessions();
        self.ensure_session(session_id);
        let ghost mid = self.store.sessions();
        proof {
            crate::assoc::lemma_key_pos(mid, session_id@);
        }
        let logger = Logger::new(session_id);
        let slot = match self.store.get_mut(session_id) {
            Some(slot) => slot,
            None => {
                proof {
                    assert(false);
                }
                return (0, AgentFsmState::Idle, String::new(), String::new(), Ghost((arbitrary(), mid)));
            },
        };
        slot.last_touched_ms = now_ms;
        let ghost prev = slot.state;
        let prev_fsm = slot.state.fsm_state;
        if prev_fsm != AgentFsmState::Idle {
            let mut w = string_of("Session in non-idle FSM state '");
            push_str(&mut w, prev_fsm.to_string().as_str());
            push_str(&mut w, "', resetting to idle for fresh turn");
            logger.log_with_source(reg, LogLevel::Warn, "wasm_agent", w.as_str());
            slot.state.fsm_state = AgentFsmState::Idle;
        }
        let mut t1 = slot.state.fsm_state.to_string();
        let _ = slot.state.fsm_state.transition_to(AgentFsmState::UserTurnPrepared);
        push_str(&mut t1, " -> ");
        push_str(&mut t1, slot.state.fsm_state.to_string().as_str());
        let mut m1 = string_of("FSM transition: ");
        push_str(&mut m1, t1.as_str());
        logger.log_with_source(reg, LogLevel::Debug, "wasm_agent", m1.as_str());
        let mut t2 = slot.state.fsm_state.to_string();
        let _ = slot.state.fsm_state.transition_to(AgentFsmState::LlmStreaming);
        push_str(&mut t2, " -> ");
        push_str(&mut t2, slot.state.fsm_state.to_string().as_str());
        let mut m2 = string_of("FSM transition: ");
        push_str(&mut m2, t2.as_str());
        logger.log_with_source(reg, LogLevel::Debug, "wasm_agent", m2.as_str());
        let step = slot.state.current_step;
        proof {
            let i = crate::assoc::key_pos(mid, session_id@) as int;
            crate::assoc::lemma_lookup_after_set(mid, i, (mid[i].0, self.store.sessions()[i].1));
            lemma_sweep_keeps_slots(before, now_ms, session_id@);
        }
        (step, prev_fsm, t1, t2, Ghost((prev, mid)))
    }

    /// Queues the events of a prepared turn for session `session_id` (a
    /// reset when its machine was not idle, the two moves, the prepared
    /// turn) and counts the turn.
    fn queue_turn_events(
        &mut self,
        session_id: &str,
        step: u32,
        correlation_id: &Option<String>,
        prev_fsm: AgentFsmState,
        message_count: usize,
    )
        ensures
            queued(
                old(self).queued_events(),
                final(self).queued_events(),
                session_id@,
                prepare_event_kinds(prev_fsm),
            ),
            stamped(old(self).queued_events(), final(self).queued_events(), step, *correlation_id),
            forall|id: Seq<char>|
                #![trigger final(self).counters_of(id)]
                final(self).counters_of(id) == if id == session_id@ {
                    bumped(old(self).counters_of(id), CounterKind::TurnsPrepared)
                } else {
                    old(self).counters_of(id)
                },
            final(self).store == old(self).store,
            final(self).default_config == old(self).default_config,
            final(self).ids == old(self).ids,
            final(self).known_tools == old(self).known_tools,
            final(self).chunks == old(self).chunks,
    {
        let ghost e0 = self.events@;
        let reset = prev_fsm != AgentFsmState::Idle;
        if reset {
            let mut rest: Vec<(String, JsonValue)> = Vec::new();
            rest.push((string_of("new_state"), text_value("idle")));
            rest.push((string_of("reason"), text_value("fresh_turn_reset")));
            let d = payload_of("previous_state", text_value(prev_fsm.to_string().as_str()), rest);
            self.emit_event(session_id, step, correlation_id, StreamEventKind::FsmStateChanged, d);
        }
        let ghost e1 = self.events@;
        let mut rest: Vec<(String, JsonValue)> = Vec::new();
        rest.push((string_of("to"), text_value("user_turn_prepared")));
        let d1 = payload_of("from", text_value("idle"), rest);
        self.emit_event(session_id, step, correlation_id, StreamEventKind::FsmStateChanged, d1);
        let ghost e2 = self.events@;
        let mut rest: Vec<(String, JsonValue)> = Vec::new();
        rest.push((string_of("to"), text_value("llm_streaming")));
        let d2 = payload_of("from", text_value("user_turn_prepared"), rest);
        self.emit_event(session_id, step, correlation_id, StreamEventKind::FsmStateChanged, d2);
        let ghost e3 = self.events@;
        self.bump(session_id, CounterKind::TurnsPrepared);
        let ghost rtb = *self;
        let d = payload_of("messages_count", number_value(message_count as u64), Vec::new());
        self.emit_event(session_id, step, correlation_id, StreamEventKind::UserTurnPrepared, d);
        proof {
            if !reset {
                assert(stamped(e0, e1, step, *correlation_id));
            }
            lemma_stamped_trans(e0, e1, e2, step, *correlation_id);
            lemma_stamped_trans(e0, e2, e3, step, *correlation_id);
            lemma_stamped_trans(e0, e3, self.events@, step, *correlation_id);
            assert forall|id: Seq<char>| #[trigger] self.counters_of(id) == rtb.counters_of(id) by {
                assert(self.counters == rtb.counters);
            }
            let k0: Seq<StreamEventKind> = if reset {
                seq![StreamEventKind::FsmStateChanged]
            } else {
                Seq::empty()
            };
            if !reset {
                assert(e1 =~= e0);
                assert(e0.take(e0.len() as int) =~= e0);
                assert(queued(e0, e1, session_id@, k0));
            }
            lemma_queued_trans(e0, e1, e2, session_id@, k0, seq![StreamEventKind::FsmStateChanged]);
            lemma_queued_trans(
                e0,
                e2,
                e3,
                session_id@,
                k0 + seq![StreamEventKind::FsmStateChanged],
                seq![StreamEventKind::FsmStateChanged],
            );
            lemma_queued_trans(
                e0,
                e3,
                self.events@,
                session_id@,
                k0 + seq![StreamEventKind::FsmStateChanged] + seq![StreamEventKind::FsmStateChanged],
                seq![StreamEventKind::UserTurnPrepared],
            );
            assert(k0 + seq![StreamEventKind::FsmStateChanged] + seq![StreamEventKind::FsmStateChanged]
                + seq![StreamEventKind::UserTurnPrepared] =~= prepare_event_kinds(prev_fsm));
        }
    }

    /// The messages for the model of a turn of session `session_id` (the
    /// system prompt, the history, the user's prompt) and a copy of its
    /// rolling summary.
    fn turn_messages(&self, session_id: &str, system_prompt: &String, prompt: &String) -> (r: (
        Vec<Vec<(String, String)>>,
        Option<ContextSummary>,
    ))
        requires
            has_key(self.sessions_spec().sessions(), session_id@),
        ensures
            ({
                let st = lookup(self.sessions_spec().sessions(), session_id@)->0.state;
                &&& r.0@.map_values(|m: Vec<(String, String)>| pairs_view(m@)) == llm_messages(
                    system_prompt@,
                    st,
                    tool_call_texts(st.message_history@),
                ).push(role_content("user"@, prompt@))
                &&& match st.rolling_summary {
                    Some(s) => r.1 matches Some(h) && h.version == s.version && h.text@ == s.text@
                        && h.source_messages == s.source_messages,
                    None => r.1 is None,
                }
            }),
    {
        let slot = match self.store.get(session_id) {
            Some(slot) => slot,
            None => {
                return (Vec::new(), None);
            },
        };
        let mut messages = build_llm_messages(system_prompt.as_str(), &slot.state);
        let ghost built = messages@;
        messages.push(role_content_message(string_of("user"), copy_string(prompt)));
        proof {
            assert(messages@.map_values(|m: Vec<(String, String)>| pairs_view(m@)) =~= built.map_values(
                |m: Vec<(String, String)>| pairs_view(m@),
            ).push(role_content("user"@, prompt@)));
        }
        let summary = match &slot.state.rolling_summary {
            Some(s) => Some(
                ContextSummary {
                    version: s.version,
                    text: copy_string(&s.text),
                    source_messages: s.source_messages,
                },
            ),
            None => None,
        };
        (messages, summary)
    }

    /// Prepares a user turn for the model.
    ///
    /// Idle sessions are swept at `now_ms` first.  A session that is
    /// archived and not in memory must be restored by the host first: two
    /// restore events are queued and the turn is refused.  Otherwise the
    /// session (created from the defaults when missing) is marked as used,
    /// its machine is reset to idle when it is elsewhere and moved to
    /// streaming, the messages for the model are built (the system prompt
    /// with the tools block, the history, the user's prompt), the turn is
    /// counted, and capacity pressure is relieved sparing the session.
    #[verifier::rlimit(100)]
    pub fn prepare_user_turn(
        &mut self,
        reg: &mut LogRegistry,
        input: PrepareUserTurnInput,
        now_ms: i64,
    ) -> (r: Result<PreparedTurn, AgentRunnerError>)
        requires
            old(self).wf(),
            old(reg).wf(),
        ensures
            final(self).wf(),
            final(reg).wf(),
            final(self).defaults() == old(self).defaults(),
            final(self).tools() == old(self).tools(),
            forall|id: Seq<char>| #[trigger] final(self).pending_text(id) == old(self).pending_text(id),
            exists|id: Seq<char>|
                {
                    &&& #[trigger] turn_id(input.session_id, id, old(self).id_counter())
                    &&& (r is Err <==> archived_after_sweep(old(self).sessions_spec(), id, now_ms))
                    &&& r matches Ok(p) ==> p.session_id@ == id
                    &&& r matches Err(e) ==> {
                        &&& e matches AgentRunnerError::SessionArchived(m) && m@ == archived_turn_text(id)
                        &&& queued(
                            old(self).queued_events(),
                            final(self).queued_events(),
                            id,
                            seq![
                                StreamEventKind::SessionRestoreRequested,
                                StreamEventKind::SessionRestoreProgress,
                            ],
                        )
                    }
                },
            r matches Err(e) ==> {
                &&& swept_store(old(self).sessions_spec(), final(self).sessions_spec(), now_ms)
                &&& stamped(old(self).queued_events(), final(self).queued_events(), 0, input.correlation_id)
                &&& forall|id: Seq<char>|
                    #[trigger] final(self).counters_of(id) == old(self).counters_of(id)
            },
            r matches Ok(p) ==> exists|prev: AgentState, pre: SessionStore<AgentState>|
                {
                    &&& #[trigger] turn_start(
                        old(self).sessions_spec().sessions(),
                        p.session_id@,
                        old(self).defaults(),
                        prev,
                    )
                    &&& touched_only(old(self).sessions_spec(), pre, p.session_id@, old(self).defaults())
                    &&& #[trigger] relieved(pre, final(self).sessions_spec(), p.session_id@)
                    &&& lookup(final(self).sessions_spec().sessions(), p.session_id@) matches Some(slot)
                        && slot.state == (AgentState { fsm_state: AgentFsmState::LlmStreaming, ..prev })
                    &&& prepared_fits(p, input, prev, old(self).tools())
                    &&& queued(
                        old(self).queued_events(),
                        final(self).queued_events(),
                        p.session_id@,
                        prepare_event_kinds(prev.fsm_state),
                    )
                    &&& stamped(old(self).queued_events(), final(self).queued_events(), p.step, input.correlation_id)
                    &&& forall|id: Seq<char>|
                        #![trigger final(self).counters_of(id)]
                        final(self).counters_of(id) == if id == p.session_id@ {
                            bumped(old(self).counters_of(id), CounterKind::TurnsPrepared)
                        } else {
                            old(self).counters_of(id)
                        }
                },
    {
        let started = now_unix_ms();
        let ghost store0 = self.store;
        let ghost input0 = input;
        let ghost rt0 = *self;
        let PrepareUserTurnInput {
            session_id: requested,
            prompt,
            system_prompt: base_prompt,
            force_json,
            metadata_json,
            correlation_id,
            context_policy: _,
        } = input;
        self.sweep_idle_sessions(reg, now_ms);
        let ghost s1 = self.store;
        let system_prompt = build_turn_system_prompt(&base_prompt, &self.known_tools);
        let session_id: String = match requested {
            Some(s) => s,
            None => self.ids.new_session_id(),
        };
        let sid: &str = session_id.as_str();
        proof {
            assert(turn_id(input0.session_id, session_id@, rt0.id_counter()));
        }
        Logger::new(sid).log_with_source(reg, LogLevel::Info, "wasm_agent", "Preparing user turn");
        let in_memory = self.store.contains(sid);
        let reason: Option<(String, i64)> = match self.store.archived_record(sid) {
            Some(rec) => Some((copy_string(&rec.reason), rec.archived_at_ms)),
            None => None,
        };
        proof {
            assert(lookup(s1.records(), session_id@) == lookup(s1.records(), session_id@));
            if has_key(store0.sessions(), session_id@) {
                lemma_sweep_keys(store0.sessions(), now_ms, session_id@);
            }
            lemma_sweep_keeps_slots(store0.sessions(), now_ms, session_id@);
        }
        if !in_memory && reason.is_some() {
            let (why, at) = match reason {
                Some(t) => t,
                None => (String::new(), 0),
            };
            let e = self.refuse_archived_turn(reg, sid, &correlation_id, why, at);
            return Err(e);
        }
        let (step, prev_fsm, _t1, _t2, g) = self.start_turn(reg, sid, now_ms);
        let ghost prev = g@.0;
        let ghost mid = g@.1;
        let ghost s3 = self.store;
        proof {
            lemma_touched_only_mid(store0, s1, mid, s3, session_id@, self.default_config, now_ms);
        }
        let (messages, summary_handoff) = self.turn_messages(sid, &system_prompt, &prompt);
        let ghost rq0 = *self;
        self.queue_turn_events(sid, step, &correlation_id, prev_fsm, messages.len());
        let ghost rq1 = *self;
        self.relieve_capacity(reg, sid);
        proof {
            crate::assoc::lemma_key_pos(mid, session_id@);
            crate::session_store::lemma_capacity_keeps_protected(
                s3.sessions(),
                session_id@,
                s3.max_sessions(),
            );
        }
        let ghost rl = *self;
        let spent = elapsed_between(started, now_unix_ms());
        self.add_latency(sid, false, spent);
        proof {
            assert forall|id: Seq<char>| #[trigger] self.counters_of(id) == rl.counters_of(id) by {
                assert(self.counters == rl.counters);
            }
            assert forall|id: Seq<char>| #[trigger] self.pending_text(id) == rl.pending_text(id) by {
                assert(self.chunks == rl.chunks);
            }
        }
        let p = PreparedTurn {
            session_id,
            step,
            prompt,
            system_prompt,
            force_json: match force_json {
                Some(b) => b,
                None => false,
            },
            metadata_json,
            correlation_id,
            summary_handoff,
            messages,
        };
        proof {
            assert(turn_start(store0.sessions(), p.session_id@, self.default_config, prev));
            assert(relieved(s3, self.sessions_spec(), p.session_id@));
            assert(prepared_fits(p, input0, prev, rt0.tools()));
            assert(touched_only(rt0.sessions_spec(), s3, p.session_id@, rt0.defaults()));
            assert(lookup(self.sessions_spec().sessions(), p.session_id@) matches Some(slot)
                && slot.state == (AgentState { fsm_state: AgentFsmState::LlmStreaming, ..prev }));
            assert(queued(rt0.queued_events(), self.queued_events(), p.session_id@, prepare_event_kinds(prev.fsm_state)));
            assert(turn_start(rt0.sessions_spec().sessions(), p.session_id@, rt0.defaults(), prev));
            assert forall|id: Seq<char>| #[trigger] self.counters_of(id) == rq1.counters_of(id) by {
                assert(self.counters == rq1.counters);
            }
            assert forall|id: Seq<char>| #[trigger] rq0.counters_of(id) == rt0.counters_of(id) by {
                assert(rq0.counters == rt0.counters);
            }
            assert(forall|id: Seq<char>|
                #![trigger self.counters_of(id)]
                self.counters_of(id) == if id == p.session_id@ {
                    bumped(rt0.counters_of(id), CounterKind::TurnsPrepared)
                } else {
                    rt0.counters_of(id)
                });
            assert(prepared_fits(p, input0, prev, rt0.tools()));
        }
        Ok(p)
    }

    /// The events not yet handed to the host, oldest first.
    pub fn pending_events(&self) -> (r: &Vec<StreamEvent>)
        ensures
            r@ == self.queued_events(),
    {
        &self.events
    }

    /// A new session id (see [`SessionIdGenerator::new_session_id`]),
    /// made from the same counter as the ids of sessions created without
    /// one.
    pub fn new_session_id(&mut self) -> (id: String)
        ensures
            exists|nanos: i64| id@ == session_id_text(nanos, old(self).id_counter()),
            final(self).id_counter() == if old(self).id_counter() == u64::MAX {
                0
            } else {
                (old(self).id_counter() + 1) as u64
            },
            final(self).sessions_spec() == old(self).sessions_spec(),
            final(self).defaults() == old(self).defaults(),
            final(self).streams_kept(*old(self)),
    {
        let id = self.ids.new_session_id();
        proof {
            let nanos = choose|n: i64| id@ == session_id_text(n, old(self).ids.counter());
            assert(id@ == session_id_text(nanos, old(self).id_counter()));
        }
        id
    }

    /// The tools the host registered.
    pub fn known_tools(&self) -> (r: &Vec<ToolDefinition>)
        ensures
            r@ == self.tools(),
    {
        &self.known_tools
    }

    /// The streamed text of session `session_id` not yet committed.
    fn pending_chunk_text(&self, session_id: &str) -> (r: String)
        ensures
            r@ == self.pending_text(session_id@),
    {
        let i = crate::assoc::key_index(&self.chunks, session_id);
        if i < self.chunks.len() {
            copy_string(&self.chunks[i].1)
        } else {
            String::new()
        }
    }

    /// Appends a streamed chunk of the model's answer to session
    /// `session_id`.
    ///
    /// Idle sessions are swept first; the session is created from the
    /// defaults when it is not in memory and marked as used.  The first
    /// chunk after a prepared turn moves the machine to streaming (logged
    /// and queued as an event).  The chunk is kept until the answer is
    /// committed, counted, and queued as an event.
    #[verifier::rlimit(40)]
    pub fn append_llm_chunk(
        &mut self,
        reg: &mut LogRegistry,
        session_id: &str,
        chunk: &str,
        correlation_id: Option<String>,
    ) -> (r: bool)
        requires
            old(self).wf(),
            old(reg).wf(),
        ensures
            r,
            final(self).wf(),
            final(reg).wf(),
            final(self).defaults() == old(self).defaults(),
            final(self).tools() == old(self).tools(),
            touched_only(
                old(self).sessions_spec(),
                final(self).sessions_spec(),
                session_id@,
                old(self).defaults(),
            ),
            exists|prev: AgentState|
                {
                    &&& #[trigger] state_before(
                        old(self).sessions_spec().sessions(),
                        session_id@,
                        old(self).defaults(),
                        prev,
                    )
                    &&& lookup(final(self).sessions_spec().sessions(), session_id@)->0.state == (
                    AgentState {
                        fsm_state: if prev.fsm_state == AgentFsmState::UserTurnPrepared {
                            AgentFsmState::LlmStreaming
                        } else {
                            prev.fsm_state
                        },
                        ..prev
                    })
                    &&& queued(
                        old(self).queued_events(),
                        final(self).queued_events(),
                        session_id@,
                        if prev.fsm_state == AgentFsmState::UserTurnPrepared {
                            seq![StreamEventKind::FsmStateChanged, StreamEventKind::LlmChunk]
                        } else {
                            seq![StreamEventKind::LlmChunk]
                        },
                    )
                },
            crate::json::str_field(final(self).queued_events().last().payload, "chunk"@) == Some(chunk@),
            stamped(
                old(self).queued_events(),
                final(self).queued_events(),
                lookup(final(self).sessions_spec().sessions(), session_id@)->0.state.current_step,
                correlation_id,
            ),
            forall|id: Seq<char>|
                #![trigger final(self).pending_text(id)]
                final(self).pending_text(id) == if id == session_id@ {
                    old(self).pending_text(id) + chunk@
                } else {
                    old(self).pending_text(id)
                },
            forall|id: Seq<char>|
                #![trigger final(self).counters_of(id)]
                final(self).counters_of(id) == if id == session_id@ {
                    bumped(old(self).counters_of(id), CounterKind::LlmChunks)
                } else {
                    old(self).counters_of(id)
                },
    {
        let ghost store0 = self.store;
        let ghost rt0 = *self;
        let now = now_unix_ms();
        self.sweep_idle_sessions(reg, now);
        let ghost s1 = self.store;
        self.ensure_session(session_id);
        let ghost mid = self.store.sessions();
        let ghost s2 = self.store;
        proof {
            crate::assoc::lemma_key_pos(mid, session_id@);
            lemma_state_before(store0.sessions(), now, mid, session_id@, self.default_config);
        }
        let logger = Logger::new(session_id);
        let slot = match self.store.get_mut(session_id) {
            Some(slot) => slot,
            None => {
                proof {
                    assert(false);
                }
                return true;
            },
        };
        slot.last_touched_ms = now_unix_ms();
        let ghost prev = slot.state;
        let moved = slot.state.fsm_state == AgentFsmState::UserTurnPrepared;
        let mut t = string_of("user_turn_prepared -> ");
        if moved {
            let _ = slot.state.fsm_state.transition_to(AgentFsmState::LlmStreaming);
            push_str(&mut t, slot.state.fsm_state.to_string().as_str());
            let mut m = string_of("FSM transition: ");
            push_str(&mut m, t.as_str());
            logger.log_with_source(reg, LogLevel::Debug, "wasm_agent", m.as_str());
        }
        slot.pending_llm_chunks = slot.pending_llm_chunks.saturating_add(1);
        let step = slot.state.current_step;
        let ghost s3 = self.store;
        proof {
            let i = crate::assoc::key_pos(mid, session_id@) as int;
            crate::assoc::lemma_lookup_after_set(mid, i, (mid[i].0, self.store.sessions()[i].1));
            assert(self.store.sessions() == mid.update(i, (mid[i].0, self.store.sessions()[i].1)));
            lemma_touched_only(store0, s1, s2, self.store, session_id@, self.default_config, now);
        }
        let ghost e0 = self.events@;
        if moved {
            let mut rest: Vec<(String, JsonValue)> = Vec::new();
            rest.push((string_of("to"), text_value("llm_streaming")));
            let d = payload_of("from", text_value("user_turn_prepared"), rest);
            self.emit_event(session_id, step, &correlation_id, StreamEventKind::FsmStateChanged, d);
        }
        let ghost e1 = self.events@;
        let ghost rc0 = *self;
        let mut text = self.pending_chunk_text(session_id);
        push_str(&mut text, chunk);
        crate::assoc::put_entry(&mut self.chunks, session_id, text);
        self.bump(session_id, CounterKind::LlmChunks);
        let ghost rb = *self;
        let d = payload_of("chunk", text_value(chunk), Vec::new());
        self.emit_event(session_id, step, &correlation_id, StreamEventKind::LlmChunk, d);
        proof {
            let k0: Seq<StreamEventKind> = if moved {
                seq![StreamEventKind::FsmStateChanged]
            } else {
                Seq::empty()
            };
            if !moved {
                assert(e1 =~= e0);
                assert(e0.take(e0.len() as int) =~= e0);
                assert(queued(e0, e1, session_id@, k0));
            }
            lemma_queued_trans(e0, e1, self.events@, session_id@, k0, seq![StreamEventKind::LlmChunk]);
            lemma_stamped_trans(e0, e1, self.events@, step, correlation_id);
            assert(k0 + seq![StreamEventKind::LlmChunk] =~= if prev.fsm_state
                == AgentFsmState::UserTurnPrepared {
                seq![StreamEventKind::FsmStateChanged, StreamEventKind::LlmChunk]
            } else {
                seq![StreamEventKind::LlmChunk]
            });
            assert(state_before(rt0.sessions_spec().sessions(), session_id@, rt0.defaults(), prev));
            assert forall|id: Seq<char>| #[trigger] self.counters_of(id) == rb.counters_of(id) by {
                assert(self.counters == rb.counters);
            }
            assert forall|id: Seq<char>| #[trigger] rc0.counters_of(id) == rt0.counters_of(id) by {
                assert(rc0.counters == rt0.counters);
            }
            assert forall|id: Seq<char>| #[trigger] self.pending_text(id) == if id == session_id@ {
                rt0.pending_text(id) + chunk@
            } else {
                rt0.pending_text(id)
            } by {
                assert(self.chunks == rb.chunks);
                assert(rc0.chunks == rt0.chunks);
                assert(lookup(self.chunks@, id) == lookup(self.chunks@, id));
            }
        }
        true
    }

    /// Commits the model's answer `llm_response` to the turn `prepared`.
    ///
    /// Idle sessions are swept at `now_ms` first; the session is created from the
    /// defaults when it is not in memory and marked as used.  The answer is
    /// committed to its state (see [`commit_outcome`]); then it is counted
    /// and queued as events (with the answer or the tool asked for), and
    /// the session's streamed text is dropped.
    #[verifier::rlimit(100)]
    #[verifier::spinoff_prover]
    pub fn commit_llm_response(
        &mut self,
        reg: &mut LogRegistry,
        prepared: &PreparedTurn,
        llm_response: &str,
        now_ms: i64,
    ) -> (r: Result<CommitResult, AgentRunnerError>)
        requires
            old(self).wf(),
            old(reg).wf(),
        ensures
            final(self).wf(),
            final(reg).wf(),
            final(self).defaults() == old(self).defaults(),
            final(self).tools() == old(self).tools(),
            exists|mid: Seq<(String, SessionSlot<AgentState>)>|
                #[trigger] touched_only_at(
                    old(self).sessions_spec(),
                    final(self).sessions_spec(),
                    prepared.session_id@,
                    old(self).defaults(),
                    now_ms,
                    mid,
                ),
            exists|prev: AgentState|
                {
                    &&& #[trigger] state_before(
                        old(self).sessions_spec().sessions(),
                        prepared.session_id@,
                        old(self).defaults(),
                        prev,
                    )
                    &&& commit_outcome(
                        prev,
                        lookup(final(self).sessions_spec().sessions(), prepared.session_id@)->0.state,
                        prepared.prompt@,
                        llm_response@,
                        old(self).tools(),
                        r,
                    )
                },
            queued(
                old(self).queued_events(),
                final(self).queued_events(),
                prepared.session_id@,
                commit_event_kinds(r),
            ),
            stamped(
                old(self).queued_events(),
                final(self).queued_events(),
                lookup(final(self).sessions_spec().sessions(), prepared.session_id@)->0.state.current_step,
                prepared.correlation_id,
            ),
            r matches Ok(c) ==> (c.action@ == "final"@ ==> crate::json::str_field(
                final(self).queued_events().last().payload,
                "content"@,
            ) == Some(opt_text(c.content))),
            r matches Ok(c) ==> (c.action@ == "call_tool"@ ==> crate::json::str_field(
                final(self).queued_events().last().payload,
                "tool"@,
            ) == Some(opt_text(c.tool_name))),
            forall|id: Seq<char>|
                #![trigger final(self).counters_of(id)]
                final(self).counters_of(id) == if id == prepared.session_id@ {
                    commit_counted(old(self).counters_of(id), r)
                } else {
                    old(self).counters_of(id)
                },
            forall|id: Seq<char>|
                #![trigger final(self).pending_text(id)]
                final(self).pending_text(id) == if id == prepared.session_id@ && r is Ok {
                    Seq::<char>::empty()
                } else {
                    old(self).pending_text(id)
                },
    {
        let started = now_unix_ms();
        let ghost store0 = self.store;
        let ghost rt0 = *self;
        let now = now_ms;
        self.sweep_idle_sessions(reg, now);
        let ghost s1 = self.store;
        let sid: &str = prepared.session_id.as_str();
        let logger = Logger::new(sid);
        logger.log_with_source(reg, LogLevel::Debug, "wasm_agent", "Committing LLM response");
        self.ensure_session(sid);
        let ghost mid = self.store.sessions();
        let ghost s2 = self.store;
        proof {
            crate::assoc::lemma_key_pos(mid, sid@);
            lemma_state_before(store0.sessions(), now, mid, sid@, self.default_config);
        }
        let slot = match self.store.get_mut(sid) {
            Some(slot) => slot,
            None => {
                proof {
                    assert(false);
                }
                return Err(AgentRunnerError::SessionNotFound(string_of(sid)));
            },
        };
        slot.last_touched_ms = now_ms;
        let ghost prev = slot.state;
        let r = commit_on_state(&mut slot.state, reg, &logger, &self.known_tools, &prepared.prompt, llm_response);
        if r.is_ok() {
            slot.pending_llm_chunks = 0;
        }
        let step = slot.state.current_step;
        proof {
            let i = crate::assoc::key_pos(mid, sid@) as int;
            crate::assoc::lemma_lookup_after_set(mid, i, (mid[i].0, self.store.sessions()[i].1));
            assert(self.store.sessions() == mid.update(i, (mid[i].0, self.store.sessions()[i].1)));
            lemma_touched_only(store0, s1, s2, self.store, sid@, self.default_config, now);
            assert(touched_only_at(store0, self.store, sid@, self.default_config, now_ms, s2.sessions()));
            assert(state_before(rt0.sessions_spec().sessions(), sid@, rt0.defaults(), prev));
        }
        let ghost e0 = self.events@;
        let ghost rc0 = *self;
        match &r {
            Ok(c) => {
                self.bump(sid, CounterKind::LlmCommits);
                let ghost rb1 = *self;
                let d = payload_of("length", number_value(llm_response.len() as u64), Vec::new());
                self.emit_event(sid, step, &prepared.correlation_id, StreamEventKind::LlmCommitted, d);
                proof {
                    assert forall|id: Seq<char>| #[trigger] self.counters_of(id) == rb1.counters_of(id) by {
                        assert(self.counters == rb1.counters);
                    }
                }
                let ghost e1 = self.events@;
                if str_eq(c.action.as_str(), "final") {
                    self.bump(sid, CounterKind::FinalResponses);
                    let ghost rb2 = *self;
                    let content = match &c.content {
                        Some(t) => text_value(t.as_str()),
                        None => JsonValue::String(String::new()),
                    };
                    let ghost gcontent = content;
                    let detail = payload_of("content", content, Vec::new());
                    self.emit_event(sid, step, &prepared.correlation_id, StreamEventKind::FinalResponse, detail);
                    proof {
                        assert(crate::json::field(self.events@.last().payload, "content"@) == Some(gcontent));
                        assert(crate::json::str_field(self.events@.last().payload, "content"@) == Some(
                            opt_text(c.content),
                        ));
                        reveal_strlit("final");
                        reveal_strlit("call_tool");
                        assert("final"@ != "call_tool"@) by {
                            assert("final"@.len() != "call_tool"@.len());
                        }

                        lemma_stamped_trans(e0, e1, self.events@, step, prepared.correlation_id);
                        assert forall|id: Seq<char>| #[trigger] self.counters_of(id) == rb2.counters_of(id) by {
                            assert(self.counters == rb2.counters);
                        }
                        lemma_queued_trans(
                            e0,
                            e1,
                            self.events@,
                            sid@,
                            seq![StreamEventKind::LlmCommitted],
                            seq![StreamEventKind::FinalResponse],
                        );
                        assert(seq![StreamEventKind::LlmCommitted] + seq![StreamEventKind::FinalResponse]
                            =~= seq![StreamEventKind::LlmCommitted, StreamEventKind::FinalResponse]);
                    }
                } else if str_eq(c.action.as_str(), "call_tool") {
                    self.bump(sid, CounterKind::ToolRequests);
                    let ghost rb2 = *self;
                    let tool = match &c.tool_name {
                        Some(t) => text_value(t.as_str()),
                        None => JsonValue::String(String::new()),
                    };
                    let mut rest: Vec<(String, JsonValue)> = Vec::new();
                    match &c.tool_input {
                        Some(input) => rest.push((string_of("input"), copy_json(input))),
                        None => {},
                    }
                    let ghost gtool = tool;
                    let detail = payload_of("tool", tool, rest);
                    self.emit_event(sid, step, &prepared.correlation_id, StreamEventKind::ToolRequested, detail);
                    proof {
                        assert(crate::json::field(self.events@.last().payload, "tool"@) == Some(gtool));
                        assert(crate::json::str_field(self.events@.last().payload, "tool"@) == Some(
                            opt_text(c.tool_name),
                        ));

                        lemma_stamped_trans(e0, e1, self.events@, step, prepared.correlation_id);
                        assert forall|id: Seq<char>| #[trigger] self.counters_of(id) == rb2.counters_of(id) by {
                            assert(self.counters == rb2.counters);
                        }
                        lemma_queued_trans(
                            e0,
                            e1,
                            self.events@,
                            sid@,
                            seq![StreamEventKind::LlmCommitted],
                            seq![StreamEventKind::ToolRequested],
                        );
                        assert(seq![StreamEventKind::LlmCommitted] + seq![StreamEventKind::ToolRequested]
                            =~= seq![StreamEventKind::LlmCommitted, StreamEventKind::ToolRequested]);
                    }
                } else {
                    self.bump(sid, CounterKind::LlmRetries);
                }
                let mut m = string_of("LLM response committed: action=");
                push_str(&mut m, c.action.as_str());
                logger.log_with_source(reg, LogLevel::Debug, "wasm_agent", m.as_str());
                let ghost rb = *self;
                crate::assoc::put_entry(&mut self.chunks, sid, String::new());
                proof {
                    assert(self.events == rb.events);
                    assert forall|id: Seq<char>| #[trigger] self.counters_of(id) == rb.counters_of(id) by {
                        assert(self.counters == rb.counters);
                    }
                    assert forall|id: Seq<char>| #[trigger] self.pending_text(id) == if id == sid@ {
                        Seq::<char>::empty()
                    } else {
                        rt0.pending_text(id)
                    } by {
                        assert(rb.chunks == rt0.chunks);
                        assert(lookup(self.chunks@, id) == lookup(self.chunks@, id));
                    }
                }
            },
            Err(AgentRunnerError::ToolFailed(_)) => {
                self.bump(sid, CounterKind::LlmCommits);
                let ghost rb1 = *self;
                let d = payload_of("length", number_value(llm_response.len() as u64), Vec::new());
                self.emit_event(sid, step, &prepared.correlation_id, StreamEventKind::LlmCommitted, d);
                proof {
                    assert forall|id: Seq<char>| #[trigger] self.counters_of(id) == rb1.counters_of(id) by {
                        assert(self.counters == rb1.counters);
                    }
                }
            },
            Err(_) => {
                proof {
                    assert(e0.take(e0.len() as int) =~= e0);
                }
            },
        }
        proof {
            assert forall|id: Seq<char>| #[trigger] rc0.counters_of(id) == rt0.counters_of(id) by {
                assert(rc0.counters == rt0.counters);
            }
        }
        let ghost rl = *self;
        let spent = elapsed_between(started, now_unix_ms());
        self.add_latency(sid, true, spent);
        proof {
            assert forall|id: Seq<char>| #[trigger] self.counters_of(id) == rl.counters_of(id) by {
                assert(self.counters == rl.counters);
            }
            assert forall|id: Seq<char>| #[trigger] self.pending_text(id) == rl.pending_text(id) by {
                assert(self.chunks == rl.chunks);
            }
        }
        r
    }

    /// Commits the streamed text of the turn `prepared` as the model's
    /// answer (see [`Self::commit_llm_response`]).
    pub fn commit_llm_stream(&mut self, reg: &mut LogRegistry, prepared: &PreparedTurn, now_ms: i64) -> (r: Result<
        CommitResult,
        AgentRunnerError,
    >)
        requires
            old(self).wf(),
            old(reg).wf(),
        ensures
            final(self).wf(),
            final(reg).wf(),
            final(self).defaults() == old(self).defaults(),
            exists|mid: Seq<(String, SessionSlot<AgentState>)>|
                #[trigger] touched_only_at(
                    old(self).sessions_spec(),
                    final(self).sessions_spec(),
                    prepared.session_id@,
                    old(self).defaults(),
                    now_ms,
                    mid,
                ),
            exists|prev: AgentState|
                {
                    &&& #[trigger] state_before(
                        old(self).sessions_spec().sessions(),
                        prepared.session_id@,
                        old(self).defaults(),
                        prev,
                    )
                    &&& commit_outcome(
                        prev,
                        lookup(final(self).sessions_spec().sessions(), prepared.session_id@)->0.state,
                        prepared.prompt@,
                        old(self).pending_text(prepared.session_id@),
                        old(self).tools(),
                        r,
                    )
                },
            queued(
                old(self).queued_events(),
                final(self).queued_events(),
                prepared.session_id@,
                commit_event_kinds(r),
            ),
            forall|id: Seq<char>|
                #![trigger final(self).counters_of(id)]
                final(self).counters_of(id) == if id == prepared.session_id@ {
                    commit_counted(old(self).counters_of(id), r)
                } else {
                    old(self).counters_of(id)
                },
            forall|id: Seq<char>|
                #![trigger final(self).pending_text(id)]
                final(self).pending_text(id) == if id == prepared.session_id@ && r is Ok {
                    Seq::<char>::empty()
                } else {
                    old(self).pending_text(id)
                },
    {
        let text = self.pending_chunk_text(prepared.session_id.as_str());
        self.commit_llm_response(reg, prepared, text.as_str(), now_ms)
    }
}

/// Whether `p` is the turn prepared for `input` from a session in state
/// `prev`, with the tools `tools` registered.
pub open spec fn prepared_fits(
    p: PreparedTurn,
    input: PrepareUserTurnInput,
    prev: AgentState,
    tools: Seq<ToolDefinition>,
) -> bool {
    &&& p.step == prev.current_step
    &&& p.prompt == input.prompt
    &&& p.system_prompt@ == turn_system_prompt(input.system_prompt, tools)
    &&& p.force_json == match input.force_json {
        Some(b) => b,
        None => false,
    }
    &&& p.metadata_json == input.metadata_json
    &&& p.correlation_id == input.correlation_id
    &&& p.messages@.map_values(|m: Vec<(String, String)>| pairs_view(m@)) == llm_messages(
        p.system_prompt@,
        prev,
        tool_call_texts(prev.message_history@),
    ).push(role_content("user"@, input.prompt@))
    &&& match prev.rolling_summary {
        Some(s) => p.summary_handoff matches Some(h) && h.version == s.version && h.text@ == s.text@
            && h.source_messages == s.source_messages,
        None => p.summary_handoff is None,
    }
}

/// Whether `after` is `before` with one message appended to its history,
/// from `role` with `content`, carrying the tool call `call` (a name,
/// arguments and step) where there is one, and no tool result.
pub open spec fn message_added(
    before: AgentState,
    after: AgentState,
    role: Seq<char>,
    content: Seq<char>,
    call: Option<(Seq<char>, JsonValue, u32)>,
) -> bool {
    let m = after.message_history@.last();
    &&& after == (AgentState { message_history: after.message_history, ..before })
    &&& after.message_history@.len() == before.message_history@.len() + 1
    &&& after.message_history@.drop_last() == before.message_history@
    &&& m.role@ == role
    &&& m.content@ == content
    &&& m.tool_result is None
    &&& match call {
        None => m.tool_call is None,
        Some((name, arguments, step)) => m.tool_call matches Some(c) && c.name@ == name && json_same(
            arguments,
            c.arguments,
        ) && c.step_id == step,
    }
}

/// The text of a final answer: the string itself, or else its JSON text.
pub open spec fn answer_text(response: JsonValue) -> Seq<char> {
    match response {
        JsonValue::String(t) => t@,
        other => compact_json(other),
    }
}

/// Whether `c` reports action `action` of the session in state `st`, with
/// `content` and the tool call `tool` where there are ones.
pub open spec fn commit_fits(
    c: CommitResult,
    st: AgentState,
    action: Seq<char>,
    content: Option<Seq<char>>,
    tool: Option<(Seq<char>, JsonValue)>,
) -> bool {
    &&& c.session_id@ == st.session_id@
    &&& c.step == st.current_step
    &&& c.action@ == action
    &&& match content {
        None => c.content is None,
        Some(t) => c.content matches Some(x) && x@ == t,
    }
    &&& match tool {
        None => c.tool_name is None && c.tool_input is None,
        Some((name, input)) => c.tool_name matches Some(x) && x@ == name && c.tool_input == Some(input),
    }
    &&& c.fsm_state@ == crate::fsm::state_name(to_core(st.fsm_state))
}

/// Whether `after` and `r` are what committing the model's answer `text`
/// to a turn with user prompt `prompt`, the tools `tools` registered, makes
/// of the session state `before`: the user's message is added, the machine
/// is forced to streaming, the answer is processed (see
/// [`llm_processed`]); then a final answer is added as the assistant's
/// message, a tool call that fits the registered tools is added as the
/// assistant's message with the call, one that does not is refused, and a
/// retry adds nothing.
pub open spec fn commit_outcome(
    before: AgentState,
    after: AgentState,
    prompt: Seq<char>,
    text: Seq<char>,
    tools: Seq<ToolDefinition>,
    r: Result<CommitResult, AgentRunnerError>,
) -> bool {
    exists|st1: AgentState, st2: AgentState, r0: Result<AgentAction, String>|
        {
            &&& #[trigger] message_added(before, st1, "user"@, prompt, None)
            &&& #[trigger] llm_processed(
                AgentState { fsm_state: forced(st1.fsm_state, AgentFsmState::LlmStreaming), ..st1 },
                st2,
                text,
                parsed_response(text),
                r0,
            )
            &&& match r0 {
                Err(m) => r == Err::<CommitResult, AgentRunnerError>(AgentRunnerError::Internal(m))
                    && after == st2,
                Ok(AgentAction::Final { response }) => message_added(
                    st2,
                    after,
                    "assistant"@,
                    answer_text(response),
                    None,
                ) && (r matches Ok(c) && commit_fits(c, after, "final"@, Some(answer_text(response)), None)),
                Ok(AgentAction::CallTool { tool, input }) => match tool_call_error(tools, tool@, input) {
                    Some(e) => (r matches Err(AgentRunnerError::ToolFailed(m)) && m@ == e) && after == st2,
                    None => message_added(
                        st2,
                        after,
                        "assistant"@,
                        "call_tool:"@ + tool@,
                        Some((tool@, input, st2.current_step)),
                    ) && (r matches Ok(c) && commit_fits(c, after, "call_tool"@, None, Some((tool@, input)))),
                },
                Ok(AgentAction::Retry { error }) => after == st2 && (r matches Ok(c) && commit_fits(
                    c,
                    after,
                    "retry"@,
                    Some(error@),
                    None,
                )),
            }
        }
}

/// The counters `c` of a session once committing gave `r`: a processed
/// answer counts as committed, and then as a final answer, a tool request
/// or a retry.
pub open spec fn commit_counted(c: TelemetryCounters, r: Result<CommitResult, AgentRunnerError>) -> TelemetryCounters {
    match r {
        Ok(x) => {
            let committed = bumped(c, CounterKind::LlmCommits);
            if x.action@ == "final"@ {
                bumped(committed, CounterKind::FinalResponses)
            } else if x.action@ == "call_tool"@ {
                bumped(committed, CounterKind::ToolRequests)
            } else {
                bumped(committed, CounterKind::LlmRetries)
            }
        },
        Err(AgentRunnerError::ToolFailed(_)) => bumped(c, CounterKind::LlmCommits),
        Err(_) => c,
    }
}

/// The kinds of the events that committing queues, given its result.
pub open spec fn commit_event_kinds(r: Result<CommitResult, AgentRunnerError>) -> Seq<StreamEventKind> {
    match r {
        Ok(c) => if c.action@ == "final"@ {
            seq![StreamEventKind::LlmCommitted, StreamEventKind::FinalResponse]
        } else if c.action@ == "call_tool"@ {
            seq![StreamEventKind::LlmCommitted, StreamEventKind::ToolRequested]
        } else {
            seq![StreamEventKind::LlmCommitted]
        },
        Err(AgentRunnerError::ToolFailed(_)) => seq![StreamEventKind::LlmCommitted],
        Err(_) => Seq::empty(),
    }
}

/// Commits the model's answer `text` to `state` for a turn with user
/// prompt `prompt` (see [`commit_outcome`]), logging to `logger`'s session.
fn commit_on_state(
    state: &mut AgentState,
    reg: &mut LogRegistry,
    logger: &Logger,
    tools: &Vec<ToolDefinition>,
    prompt: &String,
    text: &str,
) -> (r: Result<CommitResult, AgentRunnerError>)
    requires
        old(reg).wf(),
    ensures
        final(reg).wf(),
        commit_outcome(*old(state), *final(state), prompt@, text@, tools@, r),
{
    let ghost s0 = *state;
    state.add_message(
        AgentMessage {
            role: string_of("user"),
            content: copy_string(prompt),
            tool_call: None,
            tool_result: None,
        },
    );
    let ghost st1 = *state;
    guard_fsm(state, reg, logger, AgentFsmState::LlmStreaming, "llm_streaming");
    let r0 = processor::process_llm_response(state, reg, text);
    let ghost st2 = *state;
    let ghost gr0 = r0;
    proof {
        assert(st1.message_history@.drop_last() =~= s0.message_history@);
        assert(message_added(s0, st1, "user"@, prompt@, None));
    }
    match r0 {
        Err(m) => {
            let r = Err(AgentRunnerError::Internal(m));
            proof {
                assert(commit_outcome(s0, *state, prompt@, text@, tools@, r)) by {
                    assert(message_added(s0, st1, "user"@, prompt@, None));
                }
            }
            r
        },
        Ok(AgentAction::Final { response }) => {
            let content = match &response {
                JsonValue::String(t) => copy_string(t),
                other => to_compact(other),
            };
            state.add_message(
                AgentMessage {
                    role: string_of("assistant"),
                    content: copy_string(&content),
                    tool_call: None,
                    tool_result: None,
                },
            );
            let r = Ok(
                CommitResult {
                    session_id: copy_string(&state.session_id),
                    step: state.current_step,
                    action: string_of("final"),
                    content: Some(content),
                    tool_name: None,
                    tool_input: None,
                    fsm_state: state.fsm_state.to_string(),
                },
            );
            proof {
                assert(state.message_history@.drop_last() =~= st2.message_history@);
                assert(message_added(st2, *state, "assistant"@, answer_text(response), None));
                assert(commit_outcome(s0, *state, prompt@, text@, tools@, r)) by {
                    assert(message_added(s0, st1, "user"@, prompt@, None));
                }
            }
            r
        },
        Ok(AgentAction::CallTool { tool, input }) => {
            match validate_tool_call(tools, tool.as_str(), &input) {
                Err(e) => {
                    let mut m = string_of("Tool validation failed for '");
                    push_str(&mut m, tool.as_str());
                    push_str(&mut m, "': ");
                    push_str(&mut m, e.as_str());
                    logger.log_with_source(reg, LogLevel::Error, "wasm_agent", m.as_str());
                    let r = Err(AgentRunnerError::ToolFailed(e));
                    proof {
                        assert(commit_outcome(s0, *state, prompt@, text@, tools@, r)) by {
                            assert(message_added(s0, st1, "user"@, prompt@, None));
                        }
                    }
                    r
                },
                Ok(()) => {
                    let mut c = string_of("call_tool:");
                    push_str(&mut c, tool.as_str());
                    let step = state.current_step;
                    let arguments = copy_json(&input);
                    state.add_message(
                        AgentMessage {
                            role: string_of("assistant"),
                            content: c,
                            tool_call: Some(ToolCall { name: copy_string(&tool), arguments, step_id: step }),
                            tool_result: None,
                        },
                    );
                    let ghost gtool = tool;
                    let ghost ginput = input;
                    let r = Ok(
                        CommitResult {
                            session_id: copy_string(&state.session_id),
                            step: state.current_step,
                            action: string_of("call_tool"),
                            content: None,
                            tool_name: Some(tool),
                            tool_input: Some(input),
                            fsm_state: state.fsm_state.to_string(),
                        },
                    );
                    proof {
                        assert(state.message_history@.drop_last() =~= st2.message_history@);
                        assert(message_added(
                            st2,
                            *state,
                            "assistant"@,
                            "call_tool:"@ + gtool@,
                            Some((gtool@, ginput, st2.current_step)),
                        ));
                        assert(commit_outcome(s0, *state, prompt@, text@, tools@, r)) by {
                            assert(message_added(s0, st1, "user"@, prompt@, None));
                        }
                    }
                    r
                },
            }
        },
        Ok(AgentAction::Retry { error }) => {
            let r = Ok(
                CommitResult {
                    session_id: copy_string(&state.session_id),
                    step: state.current_step,
                    action: string_of("retry"),
                    content: Some(error),
                    tool_name: None,
                    tool_input: None,
                    fsm_state: state.fsm_state.to_string(),
                },
            );
            proof {
                assert(commit_outcome(s0, *state, prompt@, text@, tools@, r)) by {
                    assert(message_added(s0, st1, "user"@, prompt@, None));
                }
            }
            r
        },
    }
}

/// Committing a final answer to a prepared turn (the session streaming,
/// with steps left) records the user's prompt and then the answer as the
/// assistant's message, ends the session's turn in the final state, and
/// reports the answer.
pub proof fn lemma_commit_final_answer(
    st: AgentState,
    after: AgentState,
    prompt: Seq<char>,
    text: Seq<char>,
    tools: Seq<ToolDefinition>,
    r: Result<CommitResult, AgentRunnerError>,
    response: JsonValue,
)
    requires
        st.fsm_state == AgentFsmState::LlmStreaming,
        st.current_step < st.config.max_steps,
        plan_of(parsed_response(text)) == (ActionPlan::Final { response }),
        commit_outcome(st, after, prompt, text, tools, r),
    ensures
        after.message_history@.len() == st.message_history@.len() + 2,
        after.message_history@.take(st.message_history@.len() as int) == st.message_history@,
        after.message_history@[st.message_history@.len() as int].role@ == "user"@,
        after.message_history@[st.message_history@.len() as int].content@ == prompt,
        after.message_history@.last().role@ == "assistant"@,
        after.message_history@.last().content@ == answer_text(response),
        after.fsm_state == AgentFsmState::Final,
        after.current_step == st.current_step,
        r matches Ok(c) && c.action@ == "final"@ && (c.content matches Some(t) && t@ == answer_text(
            response,
        )),
{
    let (st1, st2, r0) = choose|st1: AgentState, st2: AgentState, r0: Result<AgentAction, String>|
        {
            &&& #[trigger] message_added(st, st1, "user"@, prompt, None)
            &&& #[trigger] llm_processed(
                AgentState { fsm_state: forced(st1.fsm_state, AgentFsmState::LlmStreaming), ..st1 },
                st2,
                text,
                parsed_response(text),
                r0,
            )
            &&& match r0 {
                Err(m) => r == Err::<CommitResult, AgentRunnerError>(AgentRunnerError::Internal(m))
                    && after == st2,
                Ok(AgentAction::Final { response }) => message_added(
                    st2,
                    after,
                    "assistant"@,
                    answer_text(response),
                    None,
                ) && (r matches Ok(c) && commit_fits(c, after, "final"@, Some(answer_text(response)), None)),
                Ok(AgentAction::CallTool { tool, input }) => match tool_call_error(tools, tool@, input) {
                    Some(e) => (r matches Err(AgentRunnerError::ToolFailed(m)) && m@ == e) && after == st2,
                    None => message_added(
                        st2,
                        after,
                        "assistant"@,
                        "call_tool:"@ + tool@,
                        Some((tool@, input, st2.current_step)),
                    ) && (r matches Ok(c) && commit_fits(c, after, "call_tool"@, None, Some((tool@, input)))),
                },
                Ok(AgentAction::Retry { error }) => after == st2 && (r matches Ok(c) && commit_fits(
                    c,
                    after,
                    "retry"@,
                    Some(error@),
                    None,
                )),
            }
        };
    assert(st1.fsm_state == AgentFsmState::LlmStreaming);
    assert(!transition_allowed(AgentFsmState::LlmStreaming, AgentFsmState::LlmStreaming));
    assert(st2 == after_plan_final(st1, response));
    let n = st.message_history@.len() as int;
    assert(after.message_history@.drop_last() == st2.message_history@);
    assert(st2.message_history@ == st1.message_history@);
    assert(st1.message_history@.drop_last() == st.message_history@);
    assert(after.message_history@[n] == st1.message_history@[n]);
    assert(after.message_history@.take(n) =~= st.message_history@) by {
        assert forall|j: int| 0 <= j < n implies after.message_history@[j] == st.message_history@[j] by {
            assert(after.message_history@[j] == after.message_history@.drop_last()[j]);
            assert(st1.message_history@[j] == st1.message_history@.drop_last()[j]);
        }
    }
}

/// `state` after a committed final answer `response`: the final state,
/// the step unchanged.
pub open spec fn after_plan_final(state: AgentState, response: JsonValue) -> AgentState {
    crate::processor::after_plan(
        AgentState { fsm_state: AgentFsmState::LlmStreaming, ..state },
        ActionPlan::Final { response },
    )
}

/// Once the events of session `id` have been handed out, none of its
/// events is left to hand out again.
pub proof fn lemma_drained_twice(events: Seq<StreamEvent>, id: Seq<char>)
    ensures
        events.filter(|e: StreamEvent| e.session_id@ != id).filter(
            |e: StreamEvent| e.session_id@ == id,
        ).len() == 0,
    decreases events.len(),
{
    let mine = |e: StreamEvent| e.session_id@ == id;
    let others = |e: StreamEvent| e.session_id@ != id;
    if events.len() == 0 {
        reveal(Seq::filter);
        assert(events.filter(others) =~= events);
        assert(events.filter(others).filter(mine) =~= events);
    } else {
        let p = events.drop_last();
        let x = events.last();
        lemma_drained_twice(p, id);
        assert(events =~= p.push(x));
        p.lemma_filter_push(x, others);
        if others(x) {
            p.filter(others).lemma_filter_push(x, mine);
        }
    }
}

/// Once `tools` are registered (see [`AgentRunnerRuntime::register_tools`],
/// which replaces the earlier ones), the tools prompt is empty exactly when
/// no tool was registered, and otherwise opens with the tools heading and
/// names each tool.
pub proof fn lemma_registered_tools_prompt(tools: Seq<ToolDefinition>)
    ensures
        tools_block(tools) is None <==> tools.len() == 0,
        tools.len() > 0 ==> tools_block(tools) == Some(
            "Available tools:"@ + crate::streaming::tool_lines(tools),
        ),
{
}

} // verus!
