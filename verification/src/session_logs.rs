//! Export and import of the logs of sessions, with the checks that an
//! imported export must pass.
use vstd::prelude::*;
use crate::clock::now_rfc3339;
use crate::log_entries::{opt_view, LogEntry};
use crate::text::{decimal, push_decimal, push_str, string_of};

verus! {

/// Format version of session log exports.
pub const SESSION_LOG_EXPORT_VERSION: u32 = 1;

/// Format version of batch log exports.
pub const BATCH_LOG_EXPORT_VERSION: u32 = 1;

/// The logs of one session, exported.
#[derive(Debug, Clone)]
pub struct SessionLogExport {
    /// Export format version.
    pub version: u32,
    pub session_id: String,
    pub logs: Vec<LogEntry>,
    /// Time of the export, RFC 3339.
    pub exported_at: String,
    pub notes: Option<String>,
}

/// Index of the first log whose session id differs from `sid`, or `logs.len()`.
pub open spec fn first_foreign_log(logs: Seq<LogEntry>, sid: Seq<char>) -> int
    decreases logs.len(),
{
    if logs.len() == 0 {
        0
    } else if logs[0].session_id matches Some(s) && s@ != sid {
        0
    } else {
        1 + first_foreign_log(logs.drop_first(), sid)
    }
}

proof fn lemma_first_foreign_log(logs: Seq<LogEntry>, sid: Seq<char>)
    ensures
        0 <= first_foreign_log(logs, sid) <= logs.len(),
        forall|j: int|
            0 <= j < first_foreign_log(logs, sid) ==> !((#[trigger] logs[j]).session_id matches Some(s)
                && s@ != sid),
        first_foreign_log(logs, sid) < logs.len() ==> (logs[first_foreign_log(logs, sid)].session_id matches Some(
            s,
        ) && s@ != sid),
    decreases logs.len(),
{
    if logs.len() > 0 && !(logs[0].session_id matches Some(s) && s@ != sid) {
        lemma_first_foreign_log(logs.drop_first(), sid);
        assert forall|j: int| 0 <= j < first_foreign_log(logs, sid) implies !((#[trigger] logs[j]).session_id matches Some(
            s,
        ) && s@ != sid) by {
            if j > 0 {
                assert(logs[j] == logs.drop_first()[j - 1]);
            }
        }
    }
}

/// The error an imported session export is refused with, or `None`.
pub open spec fn session_export_error(e: SessionLogExport) -> Option<Seq<char>> {
    if e.version != SESSION_LOG_EXPORT_VERSION {
        Some(
            "Unsupported export version: "@ + decimal(e.version as nat) + ". Expected: "@ + decimal(
                SESSION_LOG_EXPORT_VERSION as nat,
            ),
        )
    } else if first_foreign_log(e.logs@, e.session_id@) < e.logs@.len() {
        Some(
            "Session ID mismatch: export has '"@ + e.session_id@ + "', log has '"@
                + e.logs@[first_foreign_log(e.logs@, e.session_id@)].session_id.unwrap()@ + "'"@,
        )
    } else {
        None
    }
}

impl SessionLogExport {
    /// An export of `logs` for `session_id`, made at `exported_at`.
    pub fn from_logs_at(session_id: &str, logs: Vec<LogEntry>, exported_at: String) -> (e:
        SessionLogExport)
        ensures
            e.version == SESSION_LOG_EXPORT_VERSION,
            e.session_id@ == session_id@,
            e.logs == logs,
            e.exported_at == exported_at,
            e.notes is None,
    {
        SessionLogExport {
            version: SESSION_LOG_EXPORT_VERSION,
            session_id: string_of(session_id),
            logs,
            exported_at,
            notes: None,
        }
    }

    /// An export of `logs` for `session_id`, made now.
    pub fn from_logs(session_id: &str, logs: Vec<LogEntry>) -> (e: SessionLogExport)
        ensures
            e.version == SESSION_LOG_EXPORT_VERSION,
            e.session_id@ == session_id@,
            e.logs == logs,
            e.notes is None,
    {
        SessionLogExport::from_logs_at(session_id, logs, now_rfc3339())
    }

    /// The export with notes attached.
    pub fn with_notes(self, notes: &str) -> (e: SessionLogExport)
        ensures
            opt_view(e.notes) == Some(notes@),
            e == (SessionLogExport { notes: e.notes, ..self }),
    {
        SessionLogExport { notes: Some(string_of(notes)), ..self }
    }

    /// Number of exported entries.
    pub fn log_count(&self) -> (r: usize)
        ensures
            r == self.logs@.len(),
    {
        self.logs.len()
    }

    /// The exported entries.
    pub fn into_logs(self) -> (r: Vec<LogEntry>)
        ensures
            r == self.logs,
    {
        self.logs
    }

    /// Checks a decoded export: its version must be the current one, and
    /// every entry that names a session must name the export's session.
    pub fn check_import(self) -> (r: Result<SessionLogExport, String>)
        ensures
            match session_export_error(self) {
                None => r == Ok::<SessionLogExport, String>(self),
                Some(msg) => r matches Err(m) && m@ == msg,
            },
    {
        if self.version != SESSION_LOG_EXPORT_VERSION {
            let mut m = string_of("Unsupported export version: ");
            push_decimal(&mut m, self.version as u64);
            push_str(&mut m, ". Expected: ");
            push_decimal(&mut m, SESSION_LOG_EXPORT_VERSION as u64);
            return Err(m);
        }
        proof {
            lemma_first_foreign_log(self.logs@, self.session_id@);
        }
        let mut i: usize = 0;
        while i < self.logs.len()
            invariant
                i <= self.logs@.len(),
                self.version == SESSION_LOG_EXPORT_VERSION,
                forall|j: int|
                    0 <= j < i ==> !((#[trigger] self.logs@[j]).session_id matches Some(s) && s@
                        != self.session_id@),
                0 <= first_foreign_log(self.logs@, self.session_id@) <= self.logs@.len(),
                forall|j: int|
                    0 <= j < first_foreign_log(self.logs@, self.session_id@) ==> !((
                    #[trigger] self.logs@[j]).session_id matches Some(s) && s@ != self.session_id@),
                first_foreign_log(self.logs@, self.session_id@) < self.logs@.len() ==> (
                self.logs@[first_foreign_log(self.logs@, self.session_id@)].session_id matches Some(
                    s,
                ) && s@ != self.session_id@),
            decreases self.logs@.len() - i,
        {
            if let Some(s) = &self.logs[i].session_id {
                if *s != self.session_id {
                    let ghost f = first_foreign_log(self.logs@, self.session_id@);
                    assert(f == i) by {
                        if f < i {
                            assert(!(self.logs@[f].session_id matches Some(s) && s@
                                != self.session_id@));
                        }
                    }
                    let mut m = string_of("Session ID mismatch: export has '");
                    push_str(&mut m, self.session_id.as_str());
                    push_str(&mut m, "', log has '");
                    push_str(&mut m, s.as_str());
                    push_str(&mut m, "'");
                    assert(m@ =~= "Session ID mismatch: export has '"@ + self.session_id@
                        + "', log has '"@ + s@ + "'"@);
                    return Err(m);
                }
            }
            i = i + 1;
        }
        assert(first_foreign_log(self.logs@, self.session_id@) == self.logs@.len());
        Ok(self)
    }
}

/// Several session exports, exported together.
#[derive(Debug, Clone)]
pub struct BatchLogExport {
    pub version: u32,
    pub sessions: Vec<SessionLogExport>,
    pub exported_at: String,
    pub notes: Option<String>,
}

/// Number of entries in all the exports of `s`.
pub open spec fn total_logs(s: Seq<SessionLogExport>) -> int
    decreases s.len(),
{
    if s.len() == 0 {
        0
    } else {
        total_logs(s.drop_last()) + s.last().logs@.len()
    }
}

proof fn lemma_total_logs_prefix(s: Seq<SessionLogExport>, i: int)
    requires
        0 <= i <= s.len(),
    ensures
        0 <= total_logs(s.take(i)) <= total_logs(s),
    decreases s.len() - i,
{
    if i < s.len() {
        lemma_total_logs_prefix(s, i + 1);
        assert(s.take(i + 1).drop_last() =~= s.take(i));
    } else {
        assert(s.take(i) =~= s);
    }
    lemma_total_logs_nonneg(s.take(i));
}

proof fn lemma_total_logs_nonneg(s: Seq<SessionLogExport>)
    ensures
        total_logs(s) >= 0,
    decreases s.len(),
{
    if s.len() > 0 {
        lemma_total_logs_nonneg(s.drop_last());
    }
}

/// Index of the first export of `s` whose version is not the current one,
/// or `s.len()`.
pub open spec fn first_bad_version(s: Seq<SessionLogExport>) -> int
    decreases s.len(),
{
    if s.len() == 0 {
        0
    } else if s[0].version != SESSION_LOG_EXPORT_VERSION {
        0
    } else {
        1 + first_bad_version(s.drop_first())
    }
}

proof fn lemma_first_bad_version(s: Seq<SessionLogExport>)
    ensures
        0 <= first_bad_version(s) <= s.len(),
        forall|j: int|
            0 <= j < first_bad_version(s) ==> (#[trigger] s[j]).version == SESSION_LOG_EXPORT_VERSION,
        first_bad_version(s) < s.len() ==> s[first_bad_version(s)].version
            != SESSION_LOG_EXPORT_VERSION,
    decreases s.len(),
{
    if s.len() > 0 && s[0].version == SESSION_LOG_EXPORT_VERSION {
        lemma_first_bad_version(s.drop_first());
        assert forall|j: int| 0 <= j < first_bad_version(s) implies (#[trigger] s[j]).version
            == SESSION_LOG_EXPORT_VERSION by {
            if j > 0 {
                assert(s[j] == s.drop_first()[j - 1]);
            }
        }
    }
}

/// The error an imported batch export is refused with, or `None`.
pub open spec fn batch_export_error(b: BatchLogExport) -> Option<Seq<char>> {
    if b.version != BATCH_LOG_EXPORT_VERSION {
        Some(
            "Unsupported export version: "@ + decimal(b.version as nat) + ". Expected: "@ + decimal(
                BATCH_LOG_EXPORT_VERSION as nat,
            ),
        )
    } else if first_bad_version(b.sessions@) < b.sessions@.len() {
        Some(
            "Session log version mismatch: "@ + decimal(
                b.sessions@[first_bad_version(b.sessions@)].version as nat,
            ) + " vs expected "@ + decimal(SESSION_LOG_EXPORT_VERSION as nat),
        )
    } else {
        None
    }
}

impl BatchLogExport {
    /// A batch of `sessions`, made at `exported_at`.
    pub fn from_session_logs_at(sessions: Vec<SessionLogExport>, exported_at: String) -> (b:
        BatchLogExport)
        ensures
            b.version == BATCH_LOG_EXPORT_VERSION,
            b.sessions == sessions,
            b.exported_at == exported_at,
            b.notes is None,
    {
        BatchLogExport { version: BATCH_LOG_EXPORT_VERSION, sessions, exported_at, notes: None }
    }

    /// A batch of `sessions`, made now.
    pub fn from_session_logs(sessions: Vec<SessionLogExport>) -> (b: BatchLogExport)
        ensures
            b.version == BATCH_LOG_EXPORT_VERSION,
            b.sessions == sessions,
            b.notes is None,
    {
        BatchLogExport::from_session_logs_at(sessions, now_rfc3339())
    }

    /// The batch with notes attached.
    pub fn with_notes(self, notes: &str) -> (b: BatchLogExport)
        ensures
            opt_view(b.notes) == Some(notes@),
            b == (BatchLogExport { notes: b.notes, ..self }),
    {
        BatchLogExport { notes: Some(string_of(notes)), ..self }
    }

    /// Number of session exports.
    pub fn session_count(&self) -> (r: usize)
        ensures
            r == self.sessions@.len(),
    {
        self.sessions.len()
    }

    /// Number of entries over all session exports.
    pub fn total_log_count(&self) -> (r: usize)
        requires
            total_logs(self.sessions@) <= usize::MAX,
        ensures
            r == total_logs(self.sessions@),
    {
        let mut total: usize = 0;
        let mut i: usize = 0;
        while i < self.sessions.len()
            invariant
                i <= self.sessions@.len(),
                total == total_logs(self.sessions@.take(i as int)),
                total_logs(self.sessions@) <= usize::MAX,
            decreases self.sessions@.len() - i,
        {
            proof {
                lemma_total_logs_prefix(self.sessions@, i + 1);
                assert(self.sessions@.take(i + 1).drop_last() =~= self.sessions@.take(i as int));
            }
            total = total + self.sessions[i].logs.len();
            i = i + 1;
        }
        assert(self.sessions@.take(self.sessions@.len() as int) =~= self.sessions@);
        total
    }

    /// The session exports.
    pub fn into_sessions(self) -> (r: Vec<SessionLogExport>)
        ensures
            r == self.sessions,
    {
        self.sessions
    }

    /// Checks a decoded batch: its version and the version of every
    /// session export in it must be the current ones.
    pub fn check_import(self) -> (r: Result<BatchLogExport, String>)
        ensures
            match batch_export_error(self) {
                None => r == Ok::<BatchLogExport, String>(self),
                Some(msg) => r matches Err(m) && m@ == msg,
            },
    {
        if self.version != BATCH_LOG_EXPORT_VERSION {
            let mut m = string_of("Unsupported export version: ");
            push_decimal(&mut m, self.version as u64);
            push_str(&mut m, ". Expected: ");
            push_decimal(&mut m, BATCH_LOG_EXPORT_VERSION as u64);
            return Err(m);
        }
        proof {
            lemma_first_bad_version(self.sessions@);
        }
        let mut i: usize = 0;
        while i < self.sessions.len()
            invariant
                i <= self.sessions@.len(),
                self.version == BATCH_LOG_EXPORT_VERSION,
                forall|j: int|
                    0 <= j < i ==> (#[trigger] self.sessions@[j]).version == SESSION_LOG_EXPORT_VERSION,
                0 <= first_bad_version(self.sessions@) <= self.sessions@.len(),
                forall|j: int|
                    0 <= j < first_bad_version(self.sessions@) ==> (#[trigger] self.sessions@[j]).version
                        == SESSION_LOG_EXPORT_VERSION,
                first_bad_version(self.sessions@) < self.sessions@.len() ==> self.sessions@[first_bad_version(
                    self.sessions@,
                )].version != SESSION_LOG_EXPORT_VERSION,
            decreases self.sessions@.len() - i,
        {
            let v = self.sessions[i].version;
            if v != SESSION_LOG_EXPORT_VERSION {
                let ghost f = first_bad_version(self.sessions@);
                assert(f == i) by {
                    if f < i {
                        assert(self.sessions@[f].version == SESSION_LOG_EXPORT_VERSION);
                    }
                }
                let mut m = string_of("Session log version mismatch: ");
                push_decimal(&mut m, v as u64);
                push_str(&mut m, " vs expected ");
                push_decimal(&mut m, SESSION_LOG_EXPORT_VERSION as u64);
                return Err(m);
            }
            i = i + 1;
        }
        assert(first_bad_version(self.sessions@) == self.sessions@.len());
        Ok(self)
    }
}

} // verus!
