//! Errors of the WASM agent runner and the ids of its sessions.
use vstd::prelude::*;
use crate::clock::now_timestamp_nanos;
use crate::text::{
    decimal, digit_char, last_index_of, push_char, push_decimal, push_signed_decimal, push_str,
    signed_decimal, string_of,
};

verus! {

/// Errors raised by the agent runner.
#[derive(Debug, Clone)]
pub enum AgentRunnerError {
    SessionNotFound(String),
    SessionArchived(String),
    ValidationFailed(String),
    ToolFailed(String),
    ConfigurationFailed(String),
    Internal(String),
}

/// Text of an error.
pub open spec fn runner_error_text(e: AgentRunnerError) -> Seq<char> {
    match e {
        AgentRunnerError::SessionNotFound(s) => "Session not found: "@ + s@,
        AgentRunnerError::SessionArchived(s) => "Session archived: "@ + s@,
        AgentRunnerError::ValidationFailed(s) => "Validation failed: "@ + s@,
        AgentRunnerError::ToolFailed(s) => "Tool failed: "@ + s@,
        AgentRunnerError::ConfigurationFailed(s) => "Configuration failed: "@ + s@,
        AgentRunnerError::Internal(s) => "Internal error: "@ + s@,
    }
}

impl AgentRunnerError {
    /// Human-readable text of the error.
    pub fn to_string(&self) -> (r: String)
        ensures
            r@ == runner_error_text(*self),
    {
        let (prefix, detail) = match self {
            AgentRunnerError::SessionNotFound(s) => ("Session not found: ", s),
            AgentRunnerError::SessionArchived(s) => ("Session archived: ", s),
            AgentRunnerError::ValidationFailed(s) => ("Validation failed: ", s),
            AgentRunnerError::ToolFailed(s) => ("Tool failed: ", s),
            AgentRunnerError::ConfigurationFailed(s) => ("Configuration failed: ", s),
            AgentRunnerError::Internal(s) => ("Internal error: ", s),
        };
        let mut r = string_of(prefix);
        push_str(&mut r, detail.as_str());
        r
    }
}

impl From<String> for AgentRunnerError {
    /// Any message becomes an internal error.
    fn from(msg: String) -> (e: AgentRunnerError)
        ensures
            e == AgentRunnerError::Internal(msg),
    {
        AgentRunnerError::Internal(msg)
    }
}

impl vstd::std_specs::convert::FromSpecImpl<String> for AgentRunnerError {
    open spec fn obeys_from_spec() -> bool {
        true
    }

    open spec fn from_spec(v: String) -> AgentRunnerError {
        AgentRunnerError::Internal(v)
    }
}

/// Id of the session made at time `nanos` with counter value `seq`.
pub open spec fn session_id_text(nanos: i64, seq: u64) -> Seq<char> {
    "session-"@ + signed_decimal(nanos as int) + seq!['-'] + decimal(seq as nat)
}

/// Source of session ids: the creation time and a counter that makes ids
/// made in the same instant distinct.
#[derive(Debug)]
pub struct SessionIdGenerator {
    next: u64,
}

impl SessionIdGenerator {
    /// Value of the counter for the next id.
    pub closed spec fn counter(&self) -> u64 {
        self.next
    }

    pub fn new() -> (g: SessionIdGenerator)
        ensures
            g.counter() == 0,
    {
        SessionIdGenerator { next: 0 }
    }

    /// The id for time `nanos` and the current counter value; the counter
    /// advances (wrapping after `u64::MAX`).
    pub fn session_id_at(&mut self, nanos: i64) -> (id: String)
        ensures
            id@ == session_id_text(nanos, old(self).counter()),
            final(self).counter() == if old(self).counter() == u64::MAX {
                0
            } else {
                (old(self).counter() + 1) as u64
            },
    {
        let seq = self.next;
        self.next = if self.next == u64::MAX {
            0
        } else {
            self.next + 1
        };
        let mut id = string_of("session-");
        push_signed_decimal(&mut id, nanos);
        push_char(&mut id, '-');
        push_decimal(&mut id, seq);
        assert(id@ =~= session_id_text(nanos, seq));
        id
    }

    /// A new session id: `session-<nanoseconds>-<counter>`.
    pub fn new_session_id(&mut self) -> (id: String)
        ensures
            exists|nanos: i64| id@ == session_id_text(nanos, old(self).counter()),
            final(self).counter() == if old(self).counter() == u64::MAX {
                0
            } else {
                (old(self).counter() + 1) as u64
            },
    {
        let t = now_timestamp_nanos();
        self.session_id_at(t)
    }
}

/// Digits are distinct characters.
proof fn lemma_digit_char_injective(a: nat, b: nat)
    requires
        a < 10,
        b < 10,
        digit_char(a) == digit_char(b),
    ensures
        a == b,
{
}

proof fn lemma_decimal_len(n: nat)
    ensures
        decimal(n).len() >= 1,
        n < 10 <==> decimal(n).len() == 1,
    decreases n,
{
    if n >= 10 {
        lemma_decimal_len(n / 10);
    }
}

/// Different numbers have different decimal texts.
pub proof fn lemma_decimal_injective(a: nat, b: nat)
    requires
        decimal(a) == decimal(b),
    ensures
        a == b,
    decreases a,
{
    lemma_decimal_len(a);
    lemma_decimal_len(b);
    if a >= 10 && b >= 10 {
        assert(decimal(a).last() == digit_char(a % 10));
        assert(decimal(b).last() == digit_char(b % 10));
        lemma_digit_char_injective(a % 10, b % 10);
        assert(decimal(a).drop_last() == decimal(a / 10));
        assert(decimal(b).drop_last() == decimal(b / 10));
        lemma_decimal_injective(a / 10, b / 10);
    } else if a < 10 && b < 10 {
        assert(decimal(a)[0] == digit_char(a));
        assert(decimal(b)[0] == digit_char(b));
        lemma_digit_char_injective(a, b);
    }
}

proof fn lemma_decimal_no_dash(n: nat)
    ensures
        forall|i: int| 0 <= i < decimal(n).len() ==> decimal(n)[i] != '-',
    decreases n,
{
    if n >= 10 {
        lemma_decimal_no_dash(n / 10);
        assert forall|i: int| 0 <= i < decimal(n).len() implies decimal(n)[i] != '-' by {
            if i < decimal(n).len() - 1 {
                assert(decimal(n)[i] == decimal(n / 10)[i]);
            }
        }
    }
}

proof fn lemma_last_dash(p: Seq<char>, d: Seq<char>)
    requires
        forall|i: int| 0 <= i < d.len() ==> d[i] != '-',
    ensures
        last_index_of(p.push('-') + d, '-') == p.len(),
    decreases d.len(),
{
    if d.len() == 0 {
        assert(p.push('-') + d =~= p.push('-'));
    } else {
        assert((p.push('-') + d).drop_last() =~= p.push('-') + d.drop_last());
        lemma_last_dash(p, d.drop_last());
    }
}

/// Law: session ids made with different counter values differ, whatever
/// the times at which they were made; so a generator never repeats an id
/// before its counter wraps.
pub proof fn lemma_session_ids_distinct(n1: i64, s1: u64, n2: i64, s2: u64)
    requires
        s1 != s2,
    ensures
        session_id_text(n1, s1) != session_id_text(n2, s2),
{
    let p1 = "session-"@ + signed_decimal(n1 as int);
    let p2 = "session-"@ + signed_decimal(n2 as int);
    let d1 = decimal(s1 as nat);
    let d2 = decimal(s2 as nat);
    lemma_decimal_no_dash(s1 as nat);
    lemma_decimal_no_dash(s2 as nat);
    assert(session_id_text(n1, s1) =~= p1.push('-') + d1);
    assert(session_id_text(n2, s2) =~= p2.push('-') + d2);
    lemma_last_dash(p1, d1);
    lemma_last_dash(p2, d2);
    if session_id_text(n1, s1) == session_id_text(n2, s2) {
        let t = session_id_text(n1, s1);
        assert(p1.len() == p2.len());
        assert(t.skip((p1.len() + 1) as int) =~= d1);
        assert(t.skip((p2.len() + 1) as int) =~= d2);
        lemma_decimal_injective(s1 as nat, s2 as nat);
    }
}

} // verus!
