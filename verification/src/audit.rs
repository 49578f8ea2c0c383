//! Audit records of policy decisions, tool executions and model requests,
//! kept in an in-memory trail.
use vstd::prelude::*;
use crate::clock::now_unix_ms;
use crate::text::{copy_opt_string, copy_string, str_eq, string_of};

verus! {

/// Category of an audited event.
#[derive(Debug, Clone, Copy, PartialEq, Eq, Structural)]
pub enum AuditCategory {
    PolicyDecision,
    ToolExecution,
    ModelRequest,
}

/// The category named by `s` in an audit sink call; unknown names count as
/// policy decisions.
pub open spec fn category_from_name(s: Seq<char>) -> AuditCategory {
    if s == "policy_decision"@ {
        AuditCategory::PolicyDecision
    } else if s == "tool_execution"@ {
        AuditCategory::ToolExecution
    } else if s == "model_request"@ {
        AuditCategory::ModelRequest
    } else {
        AuditCategory::PolicyDecision
    }
}

/// Whether no key occurs twice in `v`.
pub open spec fn keys_unique(v: Seq<(String, String)>) -> bool {
    forall|i: int, j: int|
        0 <= i < v.len() && 0 <= j < v.len() && i != j ==> (#[trigger] v[i]).0@ != (#[trigger] v[j]).0@
}

/// Position of key `k` in `v`, or -1.
pub open spec fn key_index(v: Seq<(String, String)>, k: Seq<char>) -> int
    decreases v.len(),
{
    if v.len() == 0 {
        -1
    } else if v.last().0@ == k {
        v.len() - 1
    } else {
        key_index(v.drop_last(), k)
    }
}

/// The key/value pairs of `v` as a map of texts.
pub open spec fn details_map(v: Seq<(String, String)>) -> Map<Seq<char>, Seq<char>> {
    Map::new(|k: Seq<char>| key_index(v, k) >= 0, |k: Seq<char>| v[key_index(v, k)].1@)
}

proof fn lemma_key_index(v: Seq<(String, String)>, k: Seq<char>)
    ensures
        -1 <= key_index(v, k) < v.len(),
        key_index(v, k) >= 0 ==> v[key_index(v, k)].0@ == k,
        key_index(v, k) == -1 ==> forall|j: int| 0 <= j < v.len() ==> v[j].0@ != k,
    decreases v.len(),
{
    if v.len() > 0 && v.last().0@ != k {
        lemma_key_index(v.drop_last(), k);
        if key_index(v, k) == -1 {
            assert forall|j: int| 0 <= j < v.len() implies v[j].0@ != k by {
                if j < v.len() - 1 {
                    assert(v.drop_last()[j] == v[j]);
                }
            }
        }
    }
}

proof fn lemma_key_index_update(v: Seq<(String, String)>, i: int, p: (String, String), k: Seq<char>)
    requires
        0 <= i < v.len(),
        p.0@ == v[i].0@,
    ensures
        key_index(v.update(i, p), k) == key_index(v, k),
    decreases v.len(),
{
    let u = v.update(i, p);
    if i == v.len() - 1 {
        assert(u.drop_last() =~= v.drop_last());
    } else {
        assert(u.drop_last() =~= v.drop_last().update(i, p));
        lemma_key_index_update(v.drop_last(), i, p, k);
    }
}

/// A structured audit record emitted at a runtime checkpoint.
#[derive(Debug, Clone)]
pub struct AuditRecord {
    pub category: AuditCategory,
    pub action: String,
    pub allowed: bool,
    pub correlation_id: Option<String>,
    /// Unix time in milliseconds at which the record was made.
    pub timestamp_ms: u64,
    /// Extra key/value details; no key occurs twice.
    pub details: Vec<(String, String)>,
}

/// Whether two records hold the same values.
pub open spec fn same_record(a: AuditRecord, b: AuditRecord) -> bool {
    &&& a.category == b.category
    &&& a.action@ == b.action@
    &&& a.allowed == b.allowed
    &&& crate::log_entries::opt_view(a.correlation_id) == crate::log_entries::opt_view(b.correlation_id)
    &&& a.timestamp_ms == b.timestamp_ms
    &&& a.details@.len() == b.details@.len()
    &&& forall|i: int|
        0 <= i < a.details@.len() ==> (#[trigger] a.details@[i]).0@ == b.details@[i].0@
            && a.details@[i].1@ == b.details@[i].1@
}

impl AuditRecord {
    /// A record stamped with the given time and no details.
    pub fn new_at(
        category: AuditCategory,
        action: &str,
        allowed: bool,
        correlation_id: Option<String>,
        timestamp_ms: u64,
    ) -> (r: AuditRecord)
        ensures
            r.category == category,
            r.action@ == action@,
            r.allowed == allowed,
            r.correlation_id == correlation_id,
            r.timestamp_ms == timestamp_ms,
            r.details@.len() == 0,
    {
        AuditRecord {
            category,
            action: string_of(action),
            allowed,
            correlation_id,
            timestamp_ms,
            details: Vec::new(),
        }
    }

    /// A record stamped with the current time and no details.
    pub fn new(
        category: AuditCategory,
        action: &str,
        allowed: bool,
        correlation_id: Option<String>,
    ) -> (r: AuditRecord)
        ensures
            r.category == category,
            r.action@ == action@,
            r.allowed == allowed,
            r.correlation_id == correlation_id,
            r.details@.len() == 0,
    {
        let ms = now_unix_ms();
        let t: u64 = if ms < 0 {
            0
        } else {
            ms as u64
        };
        AuditRecord::new_at(category, action, allowed, correlation_id, t)
    }

    /// The record with detail `key` set to `value` (replacing an earlier
    /// value of that key).
    pub fn with_detail(self, key: &str, value: &str) -> (r: AuditRecord)
        requires
            keys_unique(self.details@),
        ensures
            keys_unique(r.details@),
            details_map(r.details@) == details_map(self.details@).insert(key@, value@),
            r.category == self.category,
            r.action == self.action,
            r.allowed == self.allowed,
            r.correlation_id == self.correlation_id,
            r.timestamp_ms == self.timestamp_ms,
    {
        let mut rec = self;
        let ghost old_v = rec.details@;
        let mut i: usize = 0;
        let mut found: Option<usize> = None;
        while i < rec.details.len()
            invariant
                i <= rec.details@.len(),
                rec.details@ == old_v,
                found is None ==> forall|j: int| 0 <= j < i ==> old_v[j].0@ != key@,
                found matches Some(f) ==> f < old_v.len() && old_v[f as int].0@ == key@,
            decreases rec.details@.len() - i,
        {
            if found.is_none() && str_eq(rec.details[i].0.as_str(), key) {
                found = Some(i);
            }
            i = i + 1;
        }
        proof {
            lemma_key_index(old_v, key@);
        }
        match found {
            Some(f) => {
                let _old = rec.details.remove(f);
                rec.details.insert(f, (string_of(key), string_of(value)));
                proof {
                    let p = rec.details@[f as int];
                    assert(rec.details@ =~= old_v.update(f as int, p));
                    assert forall|k: Seq<char>| key_index(rec.details@, k) == key_index(old_v, k) by {
                        lemma_key_index_update(old_v, f as int, p, k);
                    }
                    assert(key_index(old_v, key@) == f) by {
                        lemma_key_index(old_v, key@);
                        if key_index(old_v, key@) != f {
                            let ki = key_index(old_v, key@);
                            assert(old_v[ki].0@ == old_v[f as int].0@);
                        }
                    }
                    assert forall|k: Seq<char>| #[trigger] details_map(rec.details@).contains_key(k)
                        implies details_map(rec.details@)[k] == details_map(old_v).insert(key@, value@)[k] by {
                        lemma_key_index(old_v, k);
                    }
                    assert forall|k: Seq<char>| details_map(rec.details@).contains_key(k) <==>
                        #[trigger] details_map(old_v).insert(key@, value@).contains_key(k) by {
                        lemma_key_index(old_v, k);
                    }
                    assert(details_map(rec.details@) =~= details_map(old_v).insert(key@, value@));
                    assert forall|x: int, y: int|
                        0 <= x < rec.details@.len() && 0 <= y < rec.details@.len() && x != y implies
                        (#[trigger] rec.details@[x]).0@ != (#[trigger] rec.details@[y]).0@ by {
                        assert(old_v[x].0@ != old_v[y].0@);
                    }
                }
            },
            None => {
                rec.details.push((string_of(key), string_of(value)));
                proof {
                    let v = rec.details@;
                    assert(v.drop_last() =~= old_v);
                    assert forall|k: Seq<char>| key_index(v, k) == (if k == key@ {
                        old_v.len() as int
                    } else {
                        key_index(old_v, k)
                    }) by {}
                    assert forall|k: Seq<char>| #[trigger] details_map(v).contains_key(k)
                        implies details_map(v)[k] == details_map(old_v).insert(key@, value@)[k] by {
                        lemma_key_index(old_v, k);
                        if k != key@ {
                            assert(v[key_index(old_v, k)] == old_v[key_index(old_v, k)]);
                        }
                    }
                    assert forall|k: Seq<char>| details_map(v).contains_key(k) <==>
                        #[trigger] details_map(old_v).insert(key@, value@).contains_key(k) by {
                        lemma_key_index(old_v, k);
                    }
                    assert(details_map(v) =~= details_map(old_v).insert(key@, value@));
                    assert forall|x: int, y: int|
                        0 <= x < v.len() && 0 <= y < v.len() && x != y implies
                        (#[trigger] v[x]).0@ != (#[trigger] v[y]).0@ by {
                        if x < old_v.len() && y < old_v.len() {
                            assert(old_v[x].0@ != old_v[y].0@);
                        } else if x < old_v.len() {
                            assert(v[x] == old_v[x]);
                        } else {
                            assert(v[y] == old_v[y]);
                        }
                    }
                }
            },
        }
        rec
    }

    /// A copy of the record.
    pub fn duplicate(&self) -> (r: AuditRecord)
        ensures
            same_record(r, *self),
    {
        let mut details: Vec<(String, String)> = Vec::new();
        let mut i: usize = 0;
        while i < self.details.len()
            invariant
                i <= self.details@.len(),
                details@.len() == i,
                forall|j: int|
                    0 <= j < i ==> (#[trigger] details@[j]).0@ == self.details@[j].0@
                        && details@[j].1@ == self.details@[j].1@,
            decreases self.details@.len() - i,
        {
            let (k, v) = (&self.details[i].0, &self.details[i].1);
            details.push((copy_string(k), copy_string(v)));
            i = i + 1;
        }
        AuditRecord {
            category: self.category,
            action: copy_string(&self.action),
            allowed: self.allowed,
            correlation_id: copy_opt_string(&self.correlation_id),
            timestamp_ms: self.timestamp_ms,
            details,
        }
    }
}

/// Copies of every record of `v` in category `c`, in order.
pub open spec fn records_in(v: Seq<AuditRecord>, c: AuditCategory) -> Seq<AuditRecord>
    decreases v.len(),
{
    if v.len() == 0 {
        Seq::empty()
    } else if v.last().category == c {
        records_in(v.drop_last(), c).push(v.last())
    } else {
        records_in(v.drop_last(), c)
    }
}

/// Whether two record sequences hold the same values, record by record.
pub open spec fn same_records(a: Seq<AuditRecord>, b: Seq<AuditRecord>) -> bool {
    a.len() == b.len() && forall|i: int| 0 <= i < a.len() ==> same_record(#[trigger] a[i], b[i])
}

/// An in-memory audit trail.
#[derive(Debug, Clone)]
pub struct AuditTrail {
    records: Vec<AuditRecord>,
}

impl AuditTrail {
    /// The records of the trail, oldest first.
    pub closed spec fn records(&self) -> Seq<AuditRecord> {
        self.records@
    }

    /// An empty trail.
    pub fn new() -> (t: AuditTrail)
        ensures
            t.records().len() == 0,
    {
        AuditTrail { records: Vec::new() }
    }

    /// Adds a record at the end of the trail.
    pub fn append(&mut self, record: AuditRecord)
        ensures
            final(self).records() == old(self).records().push(record),
    {
        self.records.push(record);
    }

    /// Copies of every record, oldest first.
    pub fn snapshot(&self) -> (r: Vec<AuditRecord>)
        ensures
            same_records(r@, self.records()),
    {
        let mut r: Vec<AuditRecord> = Vec::new();
        let mut i: usize = 0;
        while i < self.records.len()
            invariant
                i <= self.records@.len(),
                same_records(r@, self.records@.take(i as int)),
            decreases self.records@.len() - i,
        {
            r.push(self.records[i].duplicate());
            i = i + 1;
        }
        assert(self.records@.take(self.records@.len() as int) =~= self.records@);
        r
    }

    /// Copies of the records in `category`, oldest first.
    pub fn by_category(&self, category: AuditCategory) -> (r: Vec<AuditRecord>)
        ensures
            same_records(r@, records_in(self.records(), category)),
    {
        let mut r: Vec<AuditRecord> = Vec::new();
        let mut i: usize = 0;
        while i < self.records.len()
            invariant
                i <= self.records@.len(),
                same_records(r@, records_in(self.records@.take(i as int), category)),
            decreases self.records@.len() - i,
        {
            assert(self.records@.take(i + 1).drop_last() =~= self.records@.take(i as int));
            if self.records[i].category == category {
                r.push(self.records[i].duplicate());
            }
            i = i + 1;
        }
        assert(self.records@.take(self.records@.len() as int) =~= self.records@);
        r
    }

    /// Removes every record.
    pub fn clear(&mut self)
        ensures
            final(self).records().len() == 0,
    {
        self.records.clear();
    }

    /// Records an event reported through the audit sink: the category is
    /// read from its name, and the details are added in order, later keys
    /// replacing earlier ones.
    pub fn record_event(
        &mut self,
        category: &str,
        action: &str,
        allowed: bool,
        details: Vec<(String, String)>,
    )
        ensures
            final(self).records().len() == old(self).records().len() + 1,
            final(self).records().drop_last() == old(self).records(),
            final(self).records().last().category == category_from_name(category@),
            final(self).records().last().action@ == action@,
            final(self).records().last().allowed == allowed,
            final(self).records().last().correlation_id is None,
            keys_unique(final(self).records().last().details@),
            details_map(final(self).records().last().details@) == fold_details(
                details@,
                details@.len() as int,
            ),
    {
        let c = if str_eq(category, "policy_decision") {
            AuditCategory::PolicyDecision
        } else if str_eq(category, "tool_execution") {
            AuditCategory::ToolExecution
        } else if str_eq(category, "model_request") {
            AuditCategory::ModelRequest
        } else {
            AuditCategory::PolicyDecision
        };
        let mut record = AuditRecord::new(c, action, allowed, None);
        assert(details_map(record.details@) =~= Map::<Seq<char>, Seq<char>>::empty());
        let mut i: usize = 0;
        while i < details.len()
            invariant
                i <= details@.len(),
                keys_unique(record.details@),
                details_map(record.details@) == fold_details(details@, i as int),
                record.category == c,
                record.action@ == action@,
                record.allowed == allowed,
                record.correlation_id is None,
            decreases details@.len() - i,
        {
            record = record.with_detail(details[i].0.as_str(), details[i].1.as_str());
            i = i + 1;
        }
        let ghost old_records = self.records@;
        self.records.push(record);
        assert(self.records@.drop_last() =~= old_records);
    }
}

/// The details map after adding the first `n` pairs of `v` in order.
pub open spec fn fold_details(v: Seq<(String, String)>, n: int) -> Map<Seq<char>, Seq<char>>
    decreases n,
{
    if n <= 0 {
        Map::empty()
    } else {
        fold_details(v, n - 1).insert(v[n - 1].0@, v[n - 1].1@)
    }
}

/// Receiver of audit events.
pub trait AuditSink {
    /// Records an audit event.
    fn record_event(
        &mut self,
        category: &str,
        action: &str,
        allowed: bool,
        details: Vec<(String, String)>,
    );
}

impl AuditSink for AuditTrail {
    fn record_event(
        &mut self,
        category: &str,
        action: &str,
        allowed: bool,
        details: Vec<(String, String)>,
    )
        ensures
            final(self).records().len() == old(self).records().len() + 1,
            final(self).records().drop_last() == old(self).records(),
            final(self).records().last().category == category_from_name(category@),
            final(self).records().last().action@ == action@,
            final(self).records().last().allowed == allowed,
            final(self).records().last().correlation_id is None,
            keys_unique(final(self).records().last().details@),
            details_map(final(self).records().last().details@) == fold_details(
                details@,
                details@.len() as int,
            ),
    {
        AuditTrail::record_event(self, category, action, allowed, details);
    }
}

/// Tracing spans.
pub trait TracingHook {
    /// Starts a span and returns its id.
    fn start_span(&mut self, name: &str, attributes: Vec<(String, String)>) -> String;

    /// Ends a span with a status.
    fn end_span(&mut self, span_id: &str, status: &str);
}

} // verus!
