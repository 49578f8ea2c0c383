//! Log records and the queries over them: levels, entries, filters and
//! result batches.
use vstd::prelude::*;
use crate::text::{chars_eq_ignore_ascii_case, chars_of, copy_opt_string, copy_string, eq_ignore_ascii_case, push_str, string_of};

verus! {

/// Severity of a log entry, ordered `Debug < Info < Warn < Error`.
#[derive(Debug, Clone, Copy, PartialEq, Eq, Hash, Structural)]
pub enum LogLevel {
    Debug,
    Info,
    Warn,
    Error,
}

/// Position of a level in the severity order.
pub open spec fn level_rank(l: LogLevel) -> nat {
    match l {
        LogLevel::Debug => 0,
        LogLevel::Info => 1,
        LogLevel::Warn => 2,
        LogLevel::Error => 3,
    }
}

/// Lower-case name of a level.
pub open spec fn level_name(l: LogLevel) -> Seq<char> {
    match l {
        LogLevel::Debug => "debug"@,
        LogLevel::Info => "info"@,
        LogLevel::Warn => "warn"@,
        LogLevel::Error => "error"@,
    }
}

/// The level whose name is `s`, ignoring ASCII case.
pub open spec fn parse_level(s: Seq<char>) -> Option<LogLevel> {
    if eq_ignore_ascii_case(s, "debug"@) {
        Some(LogLevel::Debug)
    } else if eq_ignore_ascii_case(s, "info"@) {
        Some(LogLevel::Info)
    } else if eq_ignore_ascii_case(s, "warn"@) {
        Some(LogLevel::Warn)
    } else if eq_ignore_ascii_case(s, "error"@) {
        Some(LogLevel::Error)
    } else {
        None
    }
}

impl LogLevel {
    /// Position of the level in the severity order.
    pub fn rank(&self) -> (r: u8)
        ensures
            r as nat == level_rank(*self),
    {
        match self {
            LogLevel::Debug => 0,
            LogLevel::Info => 1,
            LogLevel::Warn => 2,
            LogLevel::Error => 3,
        }
    }

    /// Lower-case name of the level.
    pub fn as_str(&self) -> (r: &'static str)
        ensures
            r@ == level_name(*self),
    {
        match self {
            LogLevel::Debug => "debug",
            LogLevel::Info => "info",
            LogLevel::Warn => "warn",
            LogLevel::Error => "error",
        }
    }

    /// Lower-case name of the level as an owned string.
    pub fn to_string(&self) -> (r: String)
        ensures
            r@ == level_name(*self),
    {
        string_of(self.as_str())
    }

    /// Parses a level name, ignoring ASCII case.
    pub fn parse(s: &str) -> (r: Option<LogLevel>)
        ensures
            r == parse_level(s@),
    {
        let v = chars_of(s);
        if chars_eq_ignore_ascii_case(&v, &chars_of("debug")) {
            Some(LogLevel::Debug)
        } else if chars_eq_ignore_ascii_case(&v, &chars_of("info")) {
            Some(LogLevel::Info)
        } else if chars_eq_ignore_ascii_case(&v, &chars_of("warn")) {
            Some(LogLevel::Warn)
        } else if chars_eq_ignore_ascii_case(&v, &chars_of("error")) {
            Some(LogLevel::Error)
        } else {
            None
        }
    }
}

impl core::str::FromStr for LogLevel {
    type Err = String;

    fn from_str(s: &str) -> (r: Result<LogLevel, String>)
        ensures
            match parse_level(s@) {
                Some(l) => r == Ok::<LogLevel, String>(l),
                None => r matches Err(e) && e@ == "Invalid log level: "@ + s@,
            },
    {
        match LogLevel::parse(s) {
            Some(l) => Ok(l),
            None => {
                let mut e = string_of("Invalid log level: ");
                push_str(&mut e, s);
                Err(e)
            },
        }
    }
}

/// The text of an optional string.
pub open spec fn opt_view(o: Option<String>) -> Option<Seq<char>> {
    match o {
        Some(s) => Some(s@),
        None => None,
    }
}

/// One recorded log message.
#[derive(Debug, Clone)]
pub struct LogEntry {
    pub level: LogLevel,
    pub message: String,
    /// RFC 3339 time at which the entry was recorded.
    pub timestamp: String,
    pub session_id: Option<String>,
    /// Module that produced the entry.
    pub source: Option<String>,
    /// Structured (JSON) context attached to the entry.
    pub context: Option<String>,
    /// Position of the entry in its session's log.
    pub sequence: u64,
}

/// Content of a log entry.
pub struct EntryView {
    pub level: LogLevel,
    pub message: Seq<char>,
    pub timestamp: Seq<char>,
    pub session_id: Option<Seq<char>>,
    pub source: Option<Seq<char>>,
    pub context: Option<Seq<char>>,
    pub sequence: nat,
}

impl View for LogEntry {
    type V = EntryView;

    open spec fn view(&self) -> EntryView {
        EntryView {
            level: self.level,
            message: self.message@,
            timestamp: self.timestamp@,
            session_id: opt_view(self.session_id),
            source: opt_view(self.source),
            context: opt_view(self.context),
            sequence: self.sequence as nat,
        }
    }
}

/// Contents of a sequence of entries.
pub open spec fn entries_view(s: Seq<LogEntry>) -> Seq<EntryView> {
    s.map_values(|e: LogEntry| e@)
}

impl LogEntry {
    /// A copy of the entry.
    pub fn duplicate(&self) -> (r: LogEntry)
        ensures
            r@ == self@,
    {
        LogEntry {
            level: self.level,
            message: copy_string(&self.message),
            timestamp: copy_string(&self.timestamp),
            session_id: copy_opt_string(&self.session_id),
            source: copy_opt_string(&self.source),
            context: copy_opt_string(&self.context),
            sequence: self.sequence,
        }
    }
}

/// Copies `v[from..to]`.
pub fn copy_entries(v: &Vec<LogEntry>, from: usize, to: usize) -> (r: Vec<LogEntry>)
    requires
        from <= to <= v.len(),
    ensures
        entries_view(r@) == entries_view(v@).subrange(from as int, to as int),
{
    let mut r: Vec<LogEntry> = Vec::new();
    let mut i: usize = from;
    while i < to
        invariant
            from <= i <= to <= v.len(),
            entries_view(r@) == entries_view(v@).subrange(from as int, i as int),
        decreases to - i,
    {
        let e = v[i].duplicate();
        let ghost old_r = r@;
        assert(entries_view(old_r).len() == old_r.len());
        assert(old_r.len() == i - from);
        r.push(e);
        assert(r@ == old_r.push(e));
        assert forall|k: int| 0 <= k < r@.len() implies entries_view(r@)[k] == entries_view(v@).subrange(from as int, i + 1)[k] by {
            if k < old_r.len() {
                assert(entries_view(r@)[k] == entries_view(old_r)[k]);
            } else {
                assert(k == old_r.len());
                assert(entries_view(r@)[k] == e@);
                assert(e@ == v@[i as int]@);
                assert(entries_view(v@).subrange(from as int, i + 1)[k] == entries_view(v@)[i as int]);
            }
        }
        assert(entries_view(r@) =~= entries_view(v@).subrange(from as int, i + 1));
        i = i + 1;
    }
    r
}

/// Which entries a query selects and which page of them it returns.
#[derive(Debug, Clone)]
pub struct LogFilter {
    /// Lowest level included.
    pub min_level: Option<LogLevel>,
    /// Only entries of this session.
    pub session_id: Option<String>,
    /// Only entries from this source module.
    pub source: Option<String>,
    /// Largest number of entries returned.
    pub limit: Option<usize>,
    /// Number of matching entries skipped before the page starts.
    pub offset: Option<usize>,
}

/// Content of a filter.
pub struct FilterView {
    pub min_level: Option<LogLevel>,
    pub session_id: Option<Seq<char>>,
    pub source: Option<Seq<char>>,
    pub limit: Option<nat>,
    pub offset: Option<nat>,
}

pub open spec fn opt_nat(o: Option<usize>) -> Option<nat> {
    match o {
        Some(n) => Some(n as nat),
        None => None,
    }
}

impl View for LogFilter {
    type V = FilterView;

    open spec fn view(&self) -> FilterView {
        FilterView {
            min_level: self.min_level,
            session_id: opt_view(self.session_id),
            source: opt_view(self.source),
            limit: opt_nat(self.limit),
            offset: opt_nat(self.offset),
        }
    }
}

/// Whether an entry passes the level, session and source conditions of a filter.
pub open spec fn entry_matches(e: EntryView, f: FilterView) -> bool {
    &&& (f.min_level matches Some(l) ==> level_rank(e.level) >= level_rank(l))
    &&& (f.session_id matches Some(s) ==> e.session_id == Some(s))
    &&& (f.source matches Some(s) ==> e.source == Some(s))
}

/// The entries of `s` that pass `f`, in order.
pub open spec fn matching(s: Seq<EntryView>, f: FilterView) -> Seq<EntryView>
    decreases s.len(),
{
    if s.len() == 0 {
        Seq::empty()
    } else if entry_matches(s.last(), f) {
        matching(s.drop_last(), f).push(s.last())
    } else {
        matching(s.drop_last(), f)
    }
}

/// The page of `m` selected by the filter's offset and limit.
pub open spec fn page(m: Seq<EntryView>, f: FilterView) -> Seq<EntryView> {
    let off: nat = match f.offset {
        Some(o) => o,
        None => 0,
    };
    let rest = if off >= m.len() {
        Seq::<EntryView>::empty()
    } else {
        m.skip(off as int)
    };
    match f.limit {
        Some(l) => if l < rest.len() {
            rest.take(l as int)
        } else {
            rest
        },
        None => rest,
    }
}

/// Whether matching entries remain after the page.
pub open spec fn more_after_page(m: Seq<EntryView>, f: FilterView) -> bool {
    let off: nat = match f.offset {
        Some(o) => o,
        None => 0,
    };
    off + page(m, f).len() < m.len()
}

impl LogFilter {
    /// A filter that selects every entry.
    pub fn new() -> (f: LogFilter)
        ensures
            f@.min_level is None,
            f@.session_id is None,
            f@.source is None,
            f@.limit is None,
            f@.offset is None,
    {
        LogFilter { min_level: None, session_id: None, source: None, limit: None, offset: None }
    }

    /// Selects only entries at `level` or above.
    pub fn min_level(self, level: LogLevel) -> (f: LogFilter)
        ensures
            f@ == (FilterView { min_level: Some(level), ..self@ }),
    {
        LogFilter { min_level: Some(level), ..self }
    }

    /// Selects only entries of `session_id`.
    pub fn session(self, session_id: &str) -> (f: LogFilter)
        ensures
            f@ == (FilterView { session_id: Some(session_id@), ..self@ }),
    {
        LogFilter { session_id: Some(string_of(session_id)), ..self }
    }

    /// Selects only entries from `source`.
    pub fn source(self, source: &str) -> (f: LogFilter)
        ensures
            f@ == (FilterView { source: Some(source@), ..self@ }),
    {
        LogFilter { source: Some(string_of(source)), ..self }
    }

    /// Returns at most `limit` entries.
    pub fn limit(self, limit: usize) -> (f: LogFilter)
        ensures
            f@ == (FilterView { limit: Some(limit as nat), ..self@ }),
    {
        LogFilter { limit: Some(limit), ..self }
    }

    /// Skips the first `offset` matching entries.
    pub fn offset(self, offset: usize) -> (f: LogFilter)
        ensures
            f@ == (FilterView { offset: Some(offset as nat), ..self@ }),
    {
        LogFilter { offset: Some(offset), ..self }
    }

    /// Whether `e` passes the level, session and source conditions.
    pub fn matches(&self, e: &LogEntry) -> (r: bool)
        ensures
            r == entry_matches(e@, self@),
    {
        let level_ok = match self.min_level {
            Some(l) => e.level.rank() >= l.rank(),
            None => true,
        };
        let session_ok = match &self.session_id {
            Some(s) => match &e.session_id {
                Some(es) => *es == *s,
                None => false,
            },
            None => true,
        };
        let source_ok = match &self.source {
            Some(s) => match &e.source {
                Some(es) => *es == *s,
                None => false,
            },
            None => true,
        };
        level_ok && session_ok && source_ok
    }
}

/// One page of query results.
#[derive(Debug, Clone)]
pub struct LogBatch {
    /// The entries of the page, oldest first.
    pub entries: Vec<LogEntry>,
    /// Number of entries that matched the filter, before paging.
    pub total_count: usize,
    /// Whether matching entries follow the page.
    pub has_more: bool,
}

impl LogBatch {
    pub fn new(entries: Vec<LogEntry>, total_count: usize, has_more: bool) -> (b: LogBatch)
        ensures
            b.entries == entries,
            b.total_count == total_count,
            b.has_more == has_more,
    {
        LogBatch { entries, total_count, has_more }
    }
}

/// Whether a batch is the result of querying entries `s` with filter `f`.
pub open spec fn is_query_result(b: LogBatch, s: Seq<EntryView>, f: FilterView) -> bool {
    &&& entries_view(b.entries@) == page(matching(s, f), f)
    &&& b.total_count == matching(s, f).len()
    &&& b.has_more == more_after_page(matching(s, f), f)
}

pub proof fn lemma_matching_len(s: Seq<EntryView>, f: FilterView)
    ensures
        matching(s, f).len() <= s.len(),
    decreases s.len(),
{
    if s.len() > 0 {
        lemma_matching_len(s.drop_last(), f);
    }
}

/// Runs a query over `v`.
pub fn query_entries(v: &Vec<LogEntry>, filter: &LogFilter) -> (b: LogBatch)
    ensures
        is_query_result(b, entries_view(v@), filter@),
{
    // Select the matching entries, in order.
    let mut selected: Vec<LogEntry> = Vec::new();
    let mut i: usize = 0;
    while i < v.len()
        invariant
            i <= v.len(),
            entries_view(selected@) == matching(entries_view(v@).take(i as int), filter@),
            selected@.len() <= i,
        decreases v.len() - i,
    {
        let ghost before = entries_view(v@).take(i as int);
        assert(entries_view(v@).take(i + 1).drop_last() =~= before);
        assert(entries_view(v@).take(i + 1).last() == v@[i as int]@);
        if filter.matches(&v[i]) {
            let e = v[i].duplicate();
            selected.push(e);
            assert(entries_view(selected@) =~= matching(entries_view(v@).take(i + 1), filter@));
        } else {
            assert(entries_view(selected@) =~= matching(entries_view(v@).take(i + 1), filter@));
        }
        i = i + 1;
    }
    assert(entries_view(v@).take(v.len() as int) =~= entries_view(v@));
    let ghost m = matching(entries_view(v@), filter@);
    assert(entries_view(selected@) == m);
    let total = selected.len();
    let off: usize = match filter.offset {
        Some(o) => o,
        None => 0,
    };
    let start: usize = if off >= total { total } else { off };
    let avail: usize = total - start;
    let count: usize = match filter.limit {
        Some(l) => if l < avail { l } else { avail },
        None => avail,
    };
    let entries = copy_entries(&selected, start, start + count);
    proof {
        let rest = if off >= m.len() { Seq::<EntryView>::empty() } else { m.skip(off as int) };
        assert(rest =~= m.subrange(start as int, total as int));
        assert(page(m, filter@) =~= m.subrange(start as int, (start + count) as int));
    }
    let has_more = off < total && off + count < total;
    LogBatch { entries, total_count: total, has_more }
}

} // verus!
