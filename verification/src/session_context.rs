//! Carries a session id through the call stack so that logging can be
//! attributed to the right session.
use vstd::prelude::*;
use crate::logger::LogRegistry;
use crate::text::{copy_string, string_of};

verus! {

/// A session id carried through execution, with a fallback to the
/// registry's active session when it is empty.
#[derive(Debug, Clone)]
pub struct SessionContext {
    session_id: String,
}

impl SessionContext {
    pub closed spec fn sid(&self) -> Seq<char> {
        self.session_id@
    }

    /// A context for `session_id`.
    pub fn new(session_id: &str) -> (c: SessionContext)
        ensures
            c.sid() == session_id@,
    {
        SessionContext { session_id: string_of(session_id) }
    }

    /// A context for the registry's active session.
    pub fn from_active(reg: &LogRegistry) -> (c: SessionContext)
        ensures
            c.sid() == reg@.active_session,
    {
        SessionContext { session_id: reg.active_session() }
    }

    /// The stored session id, or the registry's active session when the
    /// stored id is empty.
    pub fn or_active(self, reg: &LogRegistry) -> (r: String)
        ensures
            r@ == if self.sid().len() == 0 {
                reg@.active_session
            } else {
                self.sid()
            },
    {
        if self.session_id.as_str().is_empty() {
            reg.active_session()
        } else {
            self.session_id
        }
    }

    pub fn session_id(&self) -> (r: &str)
        ensures
            r@ == self.sid(),
    {
        self.session_id.as_str()
    }

    /// The session id, consuming the context.
    pub fn into_session_id(self) -> (r: String)
        ensures
            r@ == self.sid(),
    {
        self.session_id
    }

    /// A copy of the context.
    pub fn duplicate(&self) -> (r: SessionContext)
        ensures
            r.sid() == self.sid(),
    {
        SessionContext { session_id: copy_string(&self.session_id) }
    }
}

} // verus!
