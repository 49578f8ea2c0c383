//! Rate limiting of requests per session over three sliding windows (a
//! minute, an hour and a day) with a burst allowance, and a limit on the
//! number of sessions tracked at once.
//!
//! Time is given in milliseconds; the limiter keeps the time of each
//! request still inside its window.
use vstd::prelude::*;
use crate::log_entries::LogLevel;
use crate::logger::LogRegistry;
use crate::module_loggers::SecurityLogger;
use crate::text::{bool_text, decimal, push_decimal, push_str, str_eq, string_of};

verus! {

/// Settings of the rate limiter.
#[derive(Debug, Clone, Copy, PartialEq, Eq, Structural)]
pub struct RateLimitConfig {
    /// Whether requests are limited at all.
    pub enabled: bool,
    pub requests_per_minute: u32,
    pub requests_per_hour: u32,
    pub requests_per_day: u32,
    /// Requests allowed above each window's limit.
    pub burst_allowance: u32,
    /// Most sessions tracked at once.
    pub max_concurrent_sessions: u32,
    /// Seconds between two sweeps of inactive sessions.
    pub cleanup_interval_secs: u32,
}

impl Default for RateLimitConfig {
    fn default() -> (c: RateLimitConfig)
        ensures
            c.enabled,
            c.requests_per_minute == 60,
            c.requests_per_hour == 1000,
            c.requests_per_day == 10000,
            c.burst_allowance == 10,
            c.max_concurrent_sessions == 100,
            c.cleanup_interval_secs == 60,
    {
        RateLimitConfig {
            enabled: true,
            requests_per_minute: 60,
            requests_per_hour: 1000,
            requests_per_day: 10000,
            burst_allowance: 10,
            max_concurrent_sessions: 100,
            cleanup_interval_secs: 60,
        }
    }
}

/// Why a request was refused.
#[derive(Debug, Clone, Copy, PartialEq, Eq, Structural)]
pub enum RateLimitError {
    /// A window already holds as many requests as it allows.
    LimitExceeded { limit: u32, current: u32, window_secs: u64 },
    /// The session is new and the limiter already tracks as many sessions
    /// as it allows.
    TooManyConcurrentSessions { max: u32, current: u32 },
}

/// Text of a refusal.
pub open spec fn rate_limit_error_text(e: RateLimitError) -> Seq<char> {
    match e {
        RateLimitError::LimitExceeded { limit, current, window_secs } => "Rate limit exceeded: "@
            + decimal(current as nat) + "/"@ + decimal(limit as nat) + " requests per "@ + decimal(
            window_secs as nat,
        ) + "s"@,
        RateLimitError::TooManyConcurrentSessions { max, current } => "Too many concurrent sessions: "@
            + decimal(current as nat) + "/"@ + decimal(max as nat),
    }
}

impl RateLimitError {
    pub fn to_string(&self) -> (r: String)
        ensures
            r@ == rate_limit_error_text(*self),
    {
        match self {
            RateLimitError::LimitExceeded { limit, current, window_secs } => {
                let mut s = string_of("Rate limit exceeded: ");
                push_decimal(&mut s, *current as u64);
                push_str(&mut s, "/");
                push_decimal(&mut s, *limit as u64);
                push_str(&mut s, " requests per ");
                push_decimal(&mut s, *window_secs);
                push_str(&mut s, "s");
                s
            },
            RateLimitError::TooManyConcurrentSessions { max, current } => {
                let mut s = string_of("Too many concurrent sessions: ");
                push_decimal(&mut s, *current as u64);
                push_str(&mut s, "/");
                push_decimal(&mut s, *max as u64);
                s
            },
        }
    }
}

/// Milliseconds from `t` to `now`, zero when `t` is later.
pub open spec fn elapsed_ms(now: u64, t: u64) -> nat {
    if now >= t {
        (now - t) as nat
    } else {
        0
    }
}

/// The request times of `s` that are still inside a window of
/// `window_secs` seconds at time `now`, in order.
pub open spec fn recent(s: Seq<u64>, now: u64, window_secs: nat) -> Seq<u64>
    decreases s.len(),
{
    if s.len() == 0 {
        Seq::empty()
    } else if elapsed_ms(now, s.last()) < window_secs * 1000 {
        recent(s.drop_last(), now, window_secs).push(s.last())
    } else {
        recent(s.drop_last(), now, window_secs)
    }
}

pub proof fn lemma_recent_len(s: Seq<u64>, now: u64, w: nat)
    ensures
        recent(s, now, w).len() <= s.len(),
    decreases s.len(),
{
    if s.len() > 0 {
        lemma_recent_len(s.drop_last(), now, w);
    }
}

/// Content of one window.
pub struct WindowState {
    /// Times of the requests counted, oldest first.
    pub requests: Seq<u64>,
    pub window_secs: nat,
    pub max_requests: nat,
    pub burst_allowance: nat,
}

impl WindowState {
    /// Number of requests the window allows.
    pub open spec fn effective_limit(self) -> nat {
        self.max_requests + self.burst_allowance
    }

    pub open spec fn inv(self) -> bool {
        self.requests.len() <= self.effective_limit()
    }

    /// The window after a request at `now`, and whether it was allowed:
    /// requests that left the window are forgotten, and the request is
    /// counted only when the window still has room.
    pub open spec fn checked(self, now: u64) -> (WindowState, Result<(), RateLimitError>) {
        let r = recent(self.requests, now, self.window_secs);
        if r.len() >= self.effective_limit() {
            (
                WindowState { requests: r, ..self },
                Err(
                    RateLimitError::LimitExceeded {
                        limit: self.max_requests as u32,
                        current: r.len() as u32,
                        window_secs: self.window_secs as u64,
                    },
                ),
            )
        } else {
            (WindowState { requests: r.push(now), ..self }, Ok(()))
        }
    }
}

/// One sliding window.
#[derive(Debug, Clone)]
pub struct TimeWindow {
    requests: Vec<u64>,
    window_secs: u64,
    max_requests: u32,
    burst_allowance: u32,
}

impl View for TimeWindow {
    type V = WindowState;

    closed spec fn view(&self) -> WindowState {
        WindowState {
            requests: self.requests@,
            window_secs: self.window_secs as nat,
            max_requests: self.max_requests as nat,
            burst_allowance: self.burst_allowance as nat,
        }
    }
}

impl TimeWindow {
    pub closed spec fn wf(&self) -> bool {
        self.window_secs <= u32::MAX
    }

    /// An empty window of `window_secs` seconds.
    pub fn new(window_secs: u32, max_requests: u32, burst_allowance: u32) -> (w: TimeWindow)
        ensures
            w.wf(),
            w@.requests.len() == 0,
            w@.window_secs == window_secs,
            w@.max_requests == max_requests,
            w@.burst_allowance == burst_allowance,
    {
        TimeWindow { requests: Vec::new(), window_secs: window_secs as u64, max_requests, burst_allowance }
    }

    /// Counts a request at `now` when the window has room.
    pub fn check(&mut self, now: u64) -> (r: Result<(), RateLimitError>)
        requires
            old(self).wf(),
        ensures
            final(self).wf(),
            (final(self)@, r) == old(self)@.checked(now),
    {
        let window_ms: u64 = self.window_secs * 1000;
        let mut kept: Vec<u64> = Vec::new();
        let mut i: usize = 0;
        while i < self.requests.len()
            invariant
                i <= self.requests@.len(),
                window_ms == self.window_secs * 1000,
                kept@ == recent(self.requests@.take(i as int), now, self.window_secs as nat),
            decreases self.requests@.len() - i,
        {
            let t = self.requests[i];
            let e: u64 = if now >= t {
                now - t
            } else {
                0
            };
            assert(self.requests@.take(i + 1).drop_last() =~= self.requests@.take(i as int));
            if e < window_ms {
                kept.push(t);
            }
            i = i + 1;
        }
        assert(self.requests@.take(self.requests@.len() as int) =~= self.requests@);
        let limit: u64 = self.max_requests as u64 + self.burst_allowance as u64;
        if kept.len() as u64 >= limit {
            let current: u32 = kept.len() as u32;
            self.requests = kept;
            return Err(
                RateLimitError::LimitExceeded {
                    limit: self.max_requests,
                    current,
                    window_secs: self.window_secs,
                },
            );
        }
        kept.push(now);
        self.requests = kept;
        Ok(())
    }

    /// Forgets every request.
    pub fn reset(&mut self)
        requires
            old(self).wf(),
        ensures
            final(self).wf(),
            final(self)@ == (WindowState { requests: Seq::empty(), ..old(self)@ }),
    {
        self.requests.clear();
    }

    /// Number of requests counted.
    pub fn request_count(&self) -> (r: u32)
        ensures
            r == self@.requests.len() as u32,
    {
        self.requests.len() as u32
    }
}

/// Law: a window never counts more requests than its limit plus burst
/// allowance, and it refuses a request exactly when, after forgetting the
/// requests that left it, it already holds that many.
pub proof fn lemma_window_bounded(w: WindowState, now: u64)
    requires
        w.inv(),
    ensures
        w.checked(now).0.inv(),
        w.checked(now).1 is Err <==> recent(w.requests, now, w.window_secs).len()
            >= w.effective_limit(),
        w.checked(now).1 is Ok ==> w.checked(now).0.requests.last() == now,
{
    lemma_recent_len(w.requests, now, w.window_secs);
}

/// Content of the limits of one session.
pub struct SessionState {
    pub session_id: Seq<char>,
    pub minute: WindowState,
    pub hour: WindowState,
    pub day: WindowState,
    /// Time of the last request checked.
    pub last_activity: u64,
}

/// The limits of one session.
#[derive(Debug, Clone)]
pub struct SessionLimits {
    session_id: String,
    minute_window: TimeWindow,
    hour_window: TimeWindow,
    day_window: TimeWindow,
    last_activity: u64,
}

impl View for SessionLimits {
    type V = SessionState;

    closed spec fn view(&self) -> SessionState {
        SessionState {
            session_id: self.session_id@,
            minute: self.minute_window@,
            hour: self.hour_window@,
            day: self.day_window@,
            last_activity: self.last_activity,
        }
    }
}

impl SessionLimits {
    pub closed spec fn wf(&self) -> bool {
        self.minute_window.wf() && self.hour_window.wf() && self.day_window.wf()
    }
}

/// Usage counters of one session.
#[derive(Debug, Clone, Copy, PartialEq, Eq, Structural)]
pub struct SessionUsage {
    pub requests_per_minute: u32,
    pub requests_per_hour: u32,
    pub requests_per_day: u32,
    /// Time, in milliseconds, of the last request checked.
    pub last_activity: u64,
}

/// A fresh window state.
pub open spec fn fresh_window(secs: nat, max: nat, burst: nat) -> WindowState {
    WindowState { requests: Seq::empty(), window_secs: secs, max_requests: max, burst_allowance: burst }
}

/// The limits a new session starts with under `c`.
pub open spec fn fresh_session(k: Seq<char>, c: RateLimitConfig, now: u64) -> SessionState {
    SessionState {
        session_id: k,
        minute: fresh_window(60, c.requests_per_minute as nat, c.burst_allowance as nat),
        hour: fresh_window(3600, c.requests_per_hour as nat, c.burst_allowance as nat),
        day: fresh_window(86400, c.requests_per_day as nat, c.burst_allowance as nat),
        last_activity: now,
    }
}

/// The session after a request at `now` and the answer: the minute
/// window is checked first, then the hour, then the day; a refusal stops
/// the checks (windows already checked keep the request).
pub open spec fn session_checked(s: SessionState, now: u64) -> (SessionState, Result<(), RateLimitError>) {
    let s1 = SessionState { last_activity: now, ..s };
    let (m, rm) = s1.minute.checked(now);
    if rm is Err {
        (SessionState { minute: m, ..s1 }, rm)
    } else {
        let (h, rh) = s1.hour.checked(now);
        if rh is Err {
            (SessionState { minute: m, hour: h, ..s1 }, rh)
        } else {
            let (d, rd) = s1.day.checked(now);
            (SessionState { minute: m, hour: h, day: d, ..s1 }, rd)
        }
    }
}

/// Content of the limiter.
pub struct LimiterState {
    pub config: RateLimitConfig,
    pub sessions: Map<Seq<char>, SessionState>,
    /// Number of sessions tracked.
    pub session_count: nat,
}

impl LimiterState {
    /// The limiter after checking a request of session `k` at `now`, and
    /// the answer.
    pub open spec fn checked(self, k: Seq<char>, now: u64) -> (LimiterState, Result<(), RateLimitError>) {
        if !self.config.enabled {
            (self, Ok(()))
        } else if self.session_count >= self.config.max_concurrent_sessions
            && !self.sessions.contains_key(k) {
            (
                self,
                Err(
                    RateLimitError::TooManyConcurrentSessions {
                        max: self.config.max_concurrent_sessions,
                        current: self.session_count as u32,
                    },
                ),
            )
        } else {
            let (was_new, s0) = if self.sessions.contains_key(k) {
                (false, self.sessions[k])
            } else {
                (true, fresh_session(k, self.config, now))
            };
            let (s1, r) = session_checked(s0, now);
            (
                LimiterState {
                    sessions: self.sessions.insert(k, s1),
                    session_count: if was_new {
                        self.session_count + 1
                    } else {
                        self.session_count
                    },
                    ..self
                },
                r,
            )
        }
    }
}

/// Index of the last session of `v` with id `k`, or -1.
pub open spec fn session_index(v: Seq<SessionState>, k: Seq<char>) -> int
    decreases v.len(),
{
    if v.len() == 0 {
        -1
    } else if v.last().session_id == k {
        v.len() - 1
    } else {
        session_index(v.drop_last(), k)
    }
}

pub open spec fn session_ids_unique(v: Seq<SessionState>) -> bool {
    forall|i: int, j: int|
        0 <= i < v.len() && 0 <= j < v.len() && i != j ==> #[trigger] v[i].session_id
            != #[trigger] v[j].session_id
}

pub open spec fn sessions_map(v: Seq<SessionState>) -> Map<Seq<char>, SessionState> {
    Map::new(|k: Seq<char>| session_index(v, k) >= 0, |k: Seq<char>| v[session_index(v, k)])
}

proof fn lemma_session_index(v: Seq<SessionState>, k: Seq<char>)
    ensures
        -1 <= session_index(v, k) < v.len(),
        session_index(v, k) >= 0 ==> v[session_index(v, k)].session_id == k,
        forall|j: int| session_index(v, k) < j < v.len() ==> v[j].session_id != k,
    decreases v.len(),
{
    if v.len() > 0 && v.last().session_id != k {
        lemma_session_index(v.drop_last(), k);
        assert forall|j: int| session_index(v, k) < j < v.len() implies v[j].session_id != k by {
            if j < v.len() - 1 {
                assert(v.drop_last()[j] == v[j]);
            }
        }
    }
}

proof fn lemma_session_index_unique(v: Seq<SessionState>, k: Seq<char>)
    requires
        session_ids_unique(v),
    ensures
        forall|j: int| 0 <= j < v.len() && v[j].session_id == k ==> session_index(v, k) == j,
{
    lemma_session_index(v, k);
    if session_index(v, k) >= 0 {
        let i = session_index(v, k);
        assert forall|j: int| 0 <= j < v.len() && v[j].session_id == k implies i == j by {
            if i != j {
                assert(v[i].session_id != v[j].session_id);
            }
        }
    }
}

proof fn lemma_session_index_update(v: Seq<SessionState>, i: int, s: SessionState, k: Seq<char>)
    requires
        0 <= i < v.len(),
        s.session_id == v[i].session_id,
    ensures
        session_index(v.update(i, s), k) == session_index(v, k),
    decreases v.len(),
{
    let u = v.update(i, s);
    if i == v.len() - 1 {
        assert(u.drop_last() =~= v.drop_last());
    } else {
        assert(u.drop_last() =~= v.drop_last().update(i, s));
        lemma_session_index_update(v.drop_last(), i, s, k);
    }
}

proof fn lemma_sessions_update(v: Seq<SessionState>, i: int, s: SessionState)
    requires
        0 <= i < v.len(),
        session_ids_unique(v),
        s.session_id == v[i].session_id,
    ensures
        session_ids_unique(v.update(i, s)),
        sessions_map(v.update(i, s)) == sessions_map(v).insert(s.session_id, s),
{
    let u = v.update(i, s);
    assert forall|k: Seq<char>| session_index(u, k) == session_index(v, k) by {
        lemma_session_index_update(v, i, s, k);
    }
    lemma_session_index_unique(v, s.session_id);
    assert forall|k: Seq<char>| #[trigger] sessions_map(u).contains_key(k) implies sessions_map(u)[k]
        == sessions_map(v).insert(s.session_id, s)[k] by {
        lemma_session_index(v, k);
        if k != s.session_id {
            assert(session_index(v, k) != i);
        }
    }
    assert forall|k: Seq<char>| sessions_map(u).contains_key(k) <==> #[trigger] sessions_map(v).insert(
        s.session_id,
        s,
    ).contains_key(k) by {
        if k == s.session_id {
            assert(v[i].session_id == k);
        }
    }
    assert(sessions_map(u) =~= sessions_map(v).insert(s.session_id, s));
    assert forall|x: int, y: int| 0 <= x < u.len() && 0 <= y < u.len() && x != y implies #[trigger] u[x].session_id
        != #[trigger] u[y].session_id by {
        assert(v[x].session_id != v[y].session_id);
    }
}

proof fn lemma_sessions_push(v: Seq<SessionState>, s: SessionState)
    requires
        session_ids_unique(v),
        !sessions_map(v).contains_key(s.session_id),
    ensures
        session_ids_unique(v.push(s)),
        sessions_map(v.push(s)) == sessions_map(v).insert(s.session_id, s),
{
    let u = v.push(s);
    assert(u.drop_last() =~= v);
    lemma_session_index(v, s.session_id);
    assert forall|k: Seq<char>| #[trigger] sessions_map(u).contains_key(k) implies sessions_map(u)[k]
        == sessions_map(v).insert(s.session_id, s)[k] by {
        lemma_session_index(v, k);
        if k != s.session_id {
            assert(u[session_index(v, k)] == v[session_index(v, k)]);
        }
    }
    assert forall|k: Seq<char>| sessions_map(u).contains_key(k) <==> #[trigger] sessions_map(v).insert(
        s.session_id,
        s,
    ).contains_key(k) by {}
    assert(sessions_map(u) =~= sessions_map(v).insert(s.session_id, s));
    assert forall|x: int, y: int| 0 <= x < u.len() && 0 <= y < u.len() && x != y implies #[trigger] u[x].session_id
        != #[trigger] u[y].session_id by {
        if x < v.len() && y < v.len() {
            assert(v[x].session_id != v[y].session_id);
        } else if x < v.len() {
            assert(u[x] == v[x]);
            assert(session_index(v, s.session_id) == -1);
        } else {
            assert(u[y] == v[y]);
            assert(session_index(v, s.session_id) == -1);
        }
    }
}

pub open spec fn session_views(v: Seq<SessionLimits>) -> Seq<SessionState> {
    v.map_values(|s: SessionLimits| s@)
}

proof fn lemma_sessions_map_len(v: Seq<SessionState>)
    requires
        session_ids_unique(v),
    ensures
        sessions_map(v).dom().finite(),
        sessions_map(v).dom().len() == v.len(),
{
    let ids = v.map_values(|s: SessionState| s.session_id);
    assert forall|i: int, j: int| 0 <= i < ids.len() && 0 <= j < ids.len() && i != j implies ids[i]
        != ids[j] by {
        assert(v[i].session_id != v[j].session_id);
    }
    assert(ids.no_duplicates());
    ids.unique_seq_to_set();
    assert forall|k: Seq<char>| sessions_map(v).dom().contains(k) <==> ids.to_set().contains(k) by {
        lemma_session_index(v, k);
        lemma_session_index_unique(v, k);
        if ids.to_set().contains(k) {
            let j = choose|j: int| 0 <= j < ids.len() && ids[j] == k;
            assert(v[j].session_id == k);
        }
        if sessions_map(v).dom().contains(k) {
            assert(ids[session_index(v, k)] == k);
        }
    }
    assert(sessions_map(v).dom() =~= ids.to_set());
}

/// Rate limiter over all sessions.
pub struct RateLimiter {
    config: RateLimitConfig,
    log: SecurityLogger,
    sessions: Vec<SessionLimits>,
    /// The monotonic clock reading the limiter's times count from.
    origin: std::time::Instant,
}

impl View for RateLimiter {
    type V = LimiterState;

    closed spec fn view(&self) -> LimiterState {
        LimiterState {
            config: self.config,
            sessions: sessions_map(session_views(self.sessions@)),
            session_count: self.sessions@.len(),
        }
    }
}

impl RateLimiter {
    pub closed spec fn wf(&self) -> bool {
        &&& session_ids_unique(session_views(self.sessions@))
        &&& forall|i: int| 0 <= i < self.sessions@.len() ==> (#[trigger] self.sessions@[i]).wf()
    }

    /// Session whose log records the limiter's decisions.
    pub closed spec fn log_session(&self) -> Seq<char> {
        self.log.sid()
    }

    /// A limiter with no sessions, logging to the registry's active session.
    pub fn new(reg: &mut LogRegistry, config: RateLimitConfig) -> (l: RateLimiter)
        requires
            old(reg).wf(),
        ensures
            final(reg).wf(),
            final(reg)@ == old(reg)@.with_buffer(old(reg)@.active_session),
            l.wf(),
            l@.config == config,
            l@.sessions == Map::<Seq<char>, SessionState>::empty(),
            l@.session_count == 0,
            l.log_session() == old(reg)@.active_session,
            limits_follow_config(l@),
    {
        let active = reg.active_session();
        let log = SecurityLogger::new(reg, active.as_str());
        let l = RateLimiter { config, log, sessions: Vec::new(), origin: crate::clock::instant_now() };
        assert(l@.sessions =~= Map::<Seq<char>, SessionState>::empty());
        l
    }

    /// A limiter with the default settings.
    pub fn from_config(reg: &mut LogRegistry) -> (l: RateLimiter)
        requires
            old(reg).wf(),
        ensures
            final(reg).wf(),
            l.wf(),
            l@.sessions == Map::<Seq<char>, SessionState>::empty(),
            l@.session_count == 0,
            l@.config.enabled,
            l@.config.requests_per_minute == 60,
            l@.config.requests_per_hour == 1000,
            l@.config.requests_per_day == 10000,
            l@.config.burst_allowance == 10,
            l@.config.max_concurrent_sessions == 100,
            limits_follow_config(l@),
    {
        RateLimiter::new(reg, RateLimitConfig::default())
    }

    /// Position of session `session_id`.
    fn find(&self, session_id: &str) -> (r: Option<usize>)
        requires
            self.wf(),
        ensures
            match r {
                Some(i) => i < self.sessions@.len() && self.sessions@[i as int]@.session_id
                    == session_id@,
                None => !self@.sessions.contains_key(session_id@),
            },
            r is Some <==> self@.sessions.contains_key(session_id@),
    {
        let ghost v = session_views(self.sessions@);
        let mut i: usize = self.sessions.len();
        assert(v.take(v.len() as int) =~= v);
        while i > 0
            invariant
                i <= self.sessions@.len(),
                v == session_views(self.sessions@),
                session_index(v, session_id@) == session_index(v.take(i as int), session_id@),
            decreases i,
        {
            if str_eq(self.sessions[i - 1].session_id.as_str(), session_id) {
                assert(v.take(i as int).last() == v[i - 1]);
                proof {
                    lemma_session_index(v, session_id@);
                }
                return Some(i - 1);
            }
            assert(v.take(i as int).drop_last() =~= v.take(i - 1));
            i = i - 1;
        }
        None
    }

    /// Checks a request of `session_id` at time `now` (milliseconds),
    /// without logging.
    pub fn check_at(&mut self, session_id: &str, now: u64) -> (r: Result<(), RateLimitError>)
        requires
            old(self).wf(),
        ensures
            final(self).wf(),
            (final(self)@, r) == old(self)@.checked(session_id@, now),
            final(self).log_session() == old(self).log_session(),
            limits_follow_config(old(self)@) ==> limits_follow_config(final(self)@),
    {
        proof {
            if limits_follow_config(self@) {
                lemma_checked_follows_config(self@, session_id@, now);
            }
        }
        if !self.config.enabled {
            return Ok(());
        }
        let found = self.find(session_id);
        if self.sessions.len() as u64 >= self.config.max_concurrent_sessions as u64 && found.is_none() {
            return Err(
                RateLimitError::TooManyConcurrentSessions {
                    max: self.config.max_concurrent_sessions,
                    current: self.sessions.len() as u32,
                },
            );
        }
        let ghost old_v = session_views(self.sessions@);
        let (mut s, idx) = match found {
            Some(i) => {
                let s = self.sessions.remove(i);
                (s, i)
            },
            None => {
                let s = SessionLimits {
                    session_id: string_of(session_id),
                    minute_window: TimeWindow::new(
                        60,
                        self.config.requests_per_minute,
                        self.config.burst_allowance,
                    ),
                    hour_window: TimeWindow::new(
                        3600,
                        self.config.requests_per_hour,
                        self.config.burst_allowance,
                    ),
                    day_window: TimeWindow::new(
                        86400,
                        self.config.requests_per_day,
                        self.config.burst_allowance,
                    ),
                    last_activity: now,
                };
                (s, self.sessions.len())
            },
        };
        let ghost s0 = s@;
        proof {
            match found {
                Some(i) => {
                    lemma_session_index_unique(old_v, session_id@);
                    assert(old_v[i as int] == old(self).sessions@[i as int]@);
                    assert(s0 == old(self)@.sessions[session_id@]);
                },
                None => {
                    assert(s0.minute.requests =~= Seq::<u64>::empty());
                    assert(s0.hour.requests =~= Seq::<u64>::empty());
                    assert(s0.day.requests =~= Seq::<u64>::empty());
                    assert(s0 == fresh_session(session_id@, old(self)@.config, now));
                },
            }
        }
        s.last_activity = now;
        let mut r = s.minute_window.check(now);
        if r.is_ok() {
            r = s.hour_window.check(now);
            if r.is_ok() {
                r = s.day_window.check(now);
            }
        }
        assert((s@, r) == session_checked(s0, now));
        let ghost s1 = s@;
        self.sessions.insert(idx, s);
        proof {
            match found {
                Some(i) => {
                    let v = session_views(self.sessions@);
                    assert(v =~= old_v.update(i as int, s1));
                    lemma_sessions_update(old_v, i as int, s1);
                    assert(self.sessions@.len() == old(self).sessions@.len());
                    assert forall|x: int| 0 <= x < self.sessions@.len() implies (#[trigger] self.sessions@[x]).wf() by {
                        if x != i {
                            assert(self.sessions@[x] == old(self).sessions@[x]);
                        }
                    }
                },
                None => {
                    let v = session_views(self.sessions@);
                    assert(v =~= old_v.push(s1));
                    lemma_sessions_push(old_v, s1);
                    assert forall|x: int| 0 <= x < self.sessions@.len() implies (#[trigger] self.sessions@[x]).wf() by {
                        if x < old_v.len() {
                            assert(self.sessions@[x] == old(self).sessions@[x]);
                        }
                    }
                },
            }
        }
        r
    }

    /// Checks a request of `session_id` now, and logs the decision: a
    /// refusal as exceeded (warning, with its reason), an allowed request as
    /// an allowed check (debug).
    pub fn check(&mut self, reg: &mut LogRegistry, session_id: &str) -> (r: Result<(), RateLimitError>)
        requires
            old(self).wf(),
            old(reg).wf(),
        ensures
            final(self).wf(),
            final(reg).wf(),
            exists|now: u64| (final(self)@, r) == old(self)@.checked(session_id@, now),
            limits_follow_config(old(self)@) ==> limits_follow_config(final(self)@),
            old(self)@.config.enabled ==> match r {
                Ok(()) => old(reg)@.logged_at_some_time(
                    final(reg)@,
                    old(self).log_session(),
                    LogLevel::Debug,
                    "Rate limit check | session="@ + session_id@ + " allowed="@ + bool_text(true),
                    Some("security"@),
                    None,
                ),
                Err(e) => old(reg)@.logged_at_some_time(
                    final(reg)@,
                    old(self).log_session(),
                    LogLevel::Warn,
                    "Rate limit exceeded | session="@ + session_id@ + " reason="@ + limiter_reason(e),
                    Some("security"@),
                    None,
                ),
            },
            !old(self)@.config.enabled ==> final(reg)@ == old(reg)@,
    {
        let now = crate::clock::millis_since(&self.origin);
        if !self.config.enabled {
            return self.check_at(session_id, now);
        }
        let r = self.check_at(session_id, now);
        match &r {
            Ok(()) => self.log.rate_limit_check(reg, session_id, true),
            Err(e) => {
                match e {
                    RateLimitError::TooManyConcurrentSessions { .. } => {
                        self.log.rate_limit_exceeded(reg, session_id, "too many concurrent sessions")
                    },
                    RateLimitError::LimitExceeded { .. } => {
                        let reason = e.to_string();
                        self.log.rate_limit_exceeded(reg, session_id, reason.as_str())
                    },
                }
            },
        }
        r
    }

    /// Usage counters of `session_id`, if it is tracked.
    pub fn get_usage(&self, session_id: &str) -> (u: Option<SessionUsage>)
        requires
            self.wf(),
        ensures
            u is Some <==> self@.sessions.contains_key(session_id@),
            u matches Some(x) ==> {
                let s = self@.sessions[session_id@];
                &&& x.requests_per_minute == s.minute.requests.len() as u32
                &&& x.requests_per_hour == s.hour.requests.len() as u32
                &&& x.requests_per_day == s.day.requests.len() as u32
                &&& x.last_activity == s.last_activity
            },
    {
        match self.find(session_id) {
            Some(i) => {
                proof {
                    lemma_session_index_unique(session_views(self.sessions@), session_id@);
                    assert(session_views(self.sessions@)[i as int] == self.sessions@[i as int]@);
                    assert(self@.sessions[session_id@] == self.sessions@[i as int]@);
                }
                let s = &self.sessions[i];
                Some(
                    SessionUsage {
                        requests_per_minute: s.minute_window.request_count(),
                        requests_per_hour: s.hour_window.request_count(),
                        requests_per_day: s.day_window.request_count(),
                        last_activity: s.last_activity,
                    },
                )
            },
            None => None,
        }
    }

    /// Forgets the requests of `session_id` (when tracked).
    pub fn reset_session(&mut self, session_id: &str)
        requires
            old(self).wf(),
        ensures
            final(self).wf(),
            final(self)@.config == old(self)@.config,
            final(self)@.session_count == old(self)@.session_count,
            final(self).log_session() == old(self).log_session(),
            !old(self)@.sessions.contains_key(session_id@) ==> final(self)@ == old(self)@,
            old(self)@.sessions.contains_key(session_id@) ==> final(self)@.sessions == old(
                self,
            )@.sessions.insert(
                session_id@,
                SessionState {
                    minute: WindowState {
                        requests: Seq::empty(),
                        ..old(self)@.sessions[session_id@].minute
                    },
                    hour: WindowState { requests: Seq::empty(), ..old(self)@.sessions[session_id@].hour },
                    day: WindowState { requests: Seq::empty(), ..old(self)@.sessions[session_id@].day },
                    ..old(self)@.sessions[session_id@]
                },
            ),
    {
        match self.find(session_id) {
            Some(i) => {
                let ghost old_v = session_views(self.sessions@);
                proof {
                    lemma_session_index_unique(old_v, session_id@);
                    assert(old_v[i as int] == old(self).sessions@[i as int]@);
                    assert(old(self)@.sessions[session_id@] == old_v[i as int]);
                }
                let mut s = self.sessions.remove(i);
                s.minute_window.reset();
                s.hour_window.reset();
                s.day_window.reset();
                let ghost s1 = s@;
                self.sessions.insert(i, s);
                proof {
                    let v = session_views(self.sessions@);
                    assert(v =~= old_v.update(i as int, s1));
                    lemma_sessions_update(old_v, i as int, s1);
                    assert forall|x: int| 0 <= x < self.sessions@.len() implies (#[trigger] self.sessions@[x]).wf() by {
                        if x != i {
                            assert(self.sessions@[x] == old(self).sessions@[x]);
                        }
                    }
                }
            },
            None => {},
        }
    }

    /// Stops tracking `session_id`.
    pub fn remove_session(&mut self, session_id: &str)
        requires
            old(self).wf(),
        ensures
            final(self).wf(),
            final(self)@.config == old(self)@.config,
            final(self)@.sessions == old(self)@.sessions.remove(session_id@),
            final(self).log_session() == old(self).log_session(),
    {
        match self.find(session_id) {
            Some(i) => {
                let ghost old_v = session_views(self.sessions@);
                proof {
                    lemma_session_index_unique(old_v, session_id@);
                }
                let _s = self.sessions.remove(i);
                proof {
                    let v = session_views(self.sessions@);
                    assert(v =~= old_v.remove(i as int));
                    lemma_sessions_remove(old_v, i as int);
                    assert forall|x: int| 0 <= x < self.sessions@.len() implies (#[trigger] self.sessions@[x]).wf() by {
                        if x < i {
                            assert(self.sessions@[x] == old(self).sessions@[x]);
                        } else {
                            assert(self.sessions@[x] == old(self).sessions@[x + 1]);
                        }
                    }
                }
            },
            None => {
                assert(self@.sessions =~= old(self)@.sessions.remove(session_id@));
            },
        }
    }

    /// Number of sessions tracked.
    pub fn active_session_count(&self) -> (r: usize)
        requires
            self.wf(),
        ensures
            r == self@.session_count,
            r == self@.sessions.dom().len(),
    {
        proof {
            lemma_sessions_map_len(session_views(self.sessions@));
        }
        self.sessions.len()
    }

    /// Drops the sessions inactive for five minutes as of now, on the
    /// limiter's monotonic clock (see [`Self::cleanup_at`]); every session
    /// kept is kept as it was.
    pub fn cleanup(&mut self)
        requires
            old(self).wf(),
        ensures
            final(self).wf(),
            final(self)@.config == old(self)@.config,
            final(self).log_session() == old(self).log_session(),
            forall|k: Seq<char>| #[trigger]
                final(self)@.sessions.contains_key(k) ==> old(self)@.sessions.contains_key(k)
                    && final(self)@.sessions[k] == old(self)@.sessions[k],
    {
        let now = crate::clock::millis_since(&self.origin);
        self.cleanup_at(now);
    }

    /// Stops tracking the sessions without a request in the last five
    /// minutes before `now`.
    pub fn cleanup_at(&mut self, now: u64)
        requires
            old(self).wf(),
        ensures
            final(self).wf(),
            final(self)@.config == old(self)@.config,
            final(self).log_session() == old(self).log_session(),
            forall|k: Seq<char>| #[trigger]
                final(self)@.sessions.contains_key(k) <==> old(self)@.sessions.contains_key(k)
                    && elapsed_ms(now, old(self)@.sessions[k].last_activity) < 300_000,
            forall|k: Seq<char>| #[trigger]
                final(self)@.sessions.contains_key(k) ==> final(self)@.sessions[k] == old(
                    self,
                )@.sessions[k],
    {
        let ghost old_v = session_views(self.sessions@);
        let mut kept: Vec<SessionLimits> = Vec::new();
        let mut old_sessions: Vec<SessionLimits> = Vec::new();
        std::mem::swap(&mut old_sessions, &mut self.sessions);
        assert(old_sessions@ == old(self).sessions@);
        let mut i: usize = 0;
        while i < old_sessions.len()
            invariant
                i <= old_sessions@.len(),
                old_v == session_views(old_sessions@),
                session_ids_unique(old_v),
                forall|x: int| 0 <= x < old_sessions@.len() ==> (#[trigger] old_sessions@[x]).wf(),
                forall|x: int| 0 <= x < kept@.len() ==> (#[trigger] kept@[x]).wf(),
                session_ids_unique(session_views(kept@)),
                forall|k: Seq<char>| #[trigger]
                    sessions_map(session_views(kept@)).contains_key(k) <==> sessions_map(
                        old_v.take(i as int),
                    ).contains_key(k) && elapsed_ms(
                        now,
                        sessions_map(old_v.take(i as int))[k].last_activity,
                    ) < 300_000,
                forall|k: Seq<char>| #[trigger]
                    sessions_map(session_views(kept@)).contains_key(k) ==> sessions_map(
                        session_views(kept@),
                    )[k] == sessions_map(old_v.take(i as int))[k],
            decreases old_sessions@.len() - i,
        {
            let ghost pre = old_v.take(i as int);
            let ghost post = old_v.take(i + 1);
            proof {
                assert(post =~= pre.push(old_v[i as int]));
                assert(session_ids_unique(pre));
                assert(!sessions_map(pre).contains_key(old_v[i as int].session_id)) by {
                    lemma_session_index(pre, old_v[i as int].session_id);
                    if session_index(pre, old_v[i as int].session_id) >= 0 {
                        let j = session_index(pre, old_v[i as int].session_id);
                        assert(old_v[j].session_id != old_v[i as int].session_id);
                    }
                }
                lemma_sessions_push(pre, old_v[i as int]);
            }
            let la = old_sessions[i].last_activity;
            let e: u64 = if now >= la {
                now - la
            } else {
                0
            };
            if e < 300_000 {
                let ghost kv = session_views(kept@);
                let s = clone_limits(&old_sessions[i]);
                proof {
                    assert(!sessions_map(kv).contains_key(s@.session_id));
                    lemma_sessions_push(kv, s@);
                }
                kept.push(s);
                assert(session_views(kept@) =~= kv.push(s@));
            }
            i = i + 1;
        }
        assert(old_v.take(old_v.len() as int) =~= old_v);
        self.sessions = kept;
    }

    /// The settings in use.
    pub fn config(&self) -> (c: &RateLimitConfig)
        ensures
            *c == self@.config,
    {
        &self.config
    }

    /// Replaces the settings, logging whether limiting is enabled.
    pub fn update_config(&mut self, reg: &mut LogRegistry, config: RateLimitConfig)
        requires
            old(self).wf(),
            old(reg).wf(),
        ensures
            final(self).wf(),
            final(self)@ == (LimiterState { config, ..old(self)@ }),
            final(self).log_session() == old(self).log_session(),
            final(reg).wf(),
            old(reg)@.logged_at_some_time(
                final(reg)@,
                old(self).log_session(),
                LogLevel::Info,
                "Rate limiter config updated | enabled="@ + bool_text(config.enabled),
                Some("security"@),
                None,
            ),
    {
        let mut m = string_of("Rate limiter config updated | enabled=");
        crate::text::push_bool(&mut m, config.enabled);
        self.log.info(reg, m.as_str());
        self.config = config;
    }
}

/// The reason logged for a refusal.
pub open spec fn limiter_reason(e: RateLimitError) -> Seq<char> {
    match e {
        RateLimitError::TooManyConcurrentSessions { .. } => "too many concurrent sessions"@,
        RateLimitError::LimitExceeded { .. } => rate_limit_error_text(e),
    }
}

fn clone_window(w: &TimeWindow) -> (r: TimeWindow)
    ensures
        r@ == w@,
        r.wf() == w.wf(),
{
    TimeWindow {
        requests: w.requests.clone(),
        window_secs: w.window_secs,
        max_requests: w.max_requests,
        burst_allowance: w.burst_allowance,
    }
}

fn clone_limits(s: &SessionLimits) -> (r: SessionLimits)
    ensures
        r@ == s@,
        r.wf() == s.wf(),
{
    SessionLimits {
        session_id: s.session_id.clone(),
        minute_window: clone_window(&s.minute_window),
        hour_window: clone_window(&s.hour_window),
        day_window: clone_window(&s.day_window),
        last_activity: s.last_activity,
    }
}

proof fn lemma_sessions_remove(v: Seq<SessionState>, i: int)
    requires
        0 <= i < v.len(),
        session_ids_unique(v),
    ensures
        session_ids_unique(v.remove(i)),
        sessions_map(v.remove(i)) == sessions_map(v).remove(v[i].session_id),
{
    let u = v.remove(i);
    let k0 = v[i].session_id;
    assert forall|x: int, y: int| 0 <= x < u.len() && 0 <= y < u.len() && x != y implies #[trigger] u[x].session_id
        != #[trigger] u[y].session_id by {
        let xo = if x < i { x } else { x + 1 };
        let yo = if y < i { y } else { y + 1 };
        assert(u[x] == v[xo] && u[y] == v[yo]);
        assert(v[xo].session_id != v[yo].session_id);
    }
    assert forall|k: Seq<char>| sessions_map(u).contains_key(k) <==> #[trigger] sessions_map(v).remove(
        k0,
    ).contains_key(k) by {
        lemma_session_index(u, k);
        lemma_session_index(v, k);
        lemma_session_index_unique(v, k);
        lemma_session_index_unique(u, k);
        if sessions_map(u).contains_key(k) {
            let j = session_index(u, k);
            let jo = if j < i { j } else { j + 1 };
            assert(u[j] == v[jo]);
            assert(jo != i);
        }
        if sessions_map(v).remove(k0).contains_key(k) {
            let j = session_index(v, k);
            assert(j != i);
            let ju = if j < i { j } else { j - 1 };
            assert(u[ju] == v[j]);
        }
    }
    assert forall|k: Seq<char>| #[trigger] sessions_map(u).contains_key(k) implies sessions_map(u)[k]
        == sessions_map(v).remove(k0)[k] by {
        lemma_session_index(u, k);
        lemma_session_index(v, k);
        lemma_session_index_unique(v, k);
        let j = session_index(u, k);
        let jo = if j < i { j } else { j + 1 };
        assert(u[j] == v[jo]);
    }
    assert(sessions_map(u) =~= sessions_map(v).remove(k0));
}

/// Law: a disabled limiter allows every request and changes nothing; a
/// check never makes the limiter track more sessions than it allows unless
/// it already did, a refused new session leaves the limiter unchanged, and
/// a session's windows stay within their limits.
pub proof fn lemma_limiter_check(l: LimiterState, k: Seq<char>, now: u64)
    requires
        forall|j: Seq<char>| #[trigger] l.sessions.contains_key(j) ==> l.sessions[j].minute.inv()
            && l.sessions[j].hour.inv() && l.sessions[j].day.inv(),
    ensures
        !l.config.enabled ==> l.checked(k, now) == (l, Ok::<(), RateLimitError>(())),
        l.checked(k, now).0.session_count <= if l.session_count
            >= l.config.max_concurrent_sessions {
            l.session_count
        } else {
            l.config.max_concurrent_sessions as nat
        },
        l.checked(k, now).1 matches Err(RateLimitError::TooManyConcurrentSessions { .. }) ==> l.checked(
            k,
            now,
        ).0 == l,
        forall|j: Seq<char>| #[trigger]
            l.checked(k, now).0.sessions.contains_key(j) ==> l.checked(k, now).0.sessions[j].minute.inv()
                && l.checked(k, now).0.sessions[j].hour.inv() && l.checked(
                k,
                now,
            ).0.sessions[j].day.inv(),
{
    if l.config.enabled && !(l.session_count >= l.config.max_concurrent_sessions
        && !l.sessions.contains_key(k)) {
        let s0 = if l.sessions.contains_key(k) {
            l.sessions[k]
        } else {
            fresh_session(k, l.config, now)
        };
        let s1 = SessionState { last_activity: now, ..s0 };
        lemma_window_bounded(s1.minute, now);
        lemma_window_bounded(s1.hour, now);
        lemma_window_bounded(s1.day, now);
    }
}


/// Whether every session that `l` tracks counts its requests against the
/// configured limits: 60 s for `requests_per_minute`, 3600 s for
/// `requests_per_hour`, 86400 s for `requests_per_day`, each with the
/// configured burst allowance on top.
pub open spec fn limits_follow_config(l: LimiterState) -> bool {
    forall|k: Seq<char>|
        #![trigger l.sessions[k]]
        l.sessions.contains_key(k) ==> {
            let s = l.sessions[k];
            &&& s.minute.window_secs == 60
            &&& s.minute.max_requests == l.config.requests_per_minute as nat
            &&& s.minute.burst_allowance == l.config.burst_allowance as nat
            &&& s.hour.window_secs == 3600
            &&& s.hour.max_requests == l.config.requests_per_hour as nat
            &&& s.hour.burst_allowance == l.config.burst_allowance as nat
            &&& s.day.window_secs == 86400
            &&& s.day.max_requests == l.config.requests_per_day as nat
            &&& s.day.burst_allowance == l.config.burst_allowance as nat
        }
}

/// A checked request never changes the limits a session is held to: when
/// every tracked session follows the configuration before, every one does
/// after, whichever session asked and whatever the answer.
pub proof fn lemma_checked_follows_config(l: LimiterState, k: Seq<char>, now: u64)
    requires
        limits_follow_config(l),
    ensures
        limits_follow_config(l.checked(k, now).0),
{
    let l2 = l.checked(k, now).0;
    assert forall|j: Seq<char>| #[trigger] l2.sessions.contains_key(j) implies {
        let s = l2.sessions[j];
        &&& s.minute.window_secs == 60
        &&& s.minute.max_requests == l2.config.requests_per_minute as nat
        &&& s.minute.burst_allowance == l2.config.burst_allowance as nat
        &&& s.hour.window_secs == 3600
        &&& s.hour.max_requests == l2.config.requests_per_hour as nat
        &&& s.hour.burst_allowance == l2.config.burst_allowance as nat
        &&& s.day.window_secs == 86400
        &&& s.day.max_requests == l2.config.requests_per_day as nat
        &&& s.day.burst_allowance == l2.config.burst_allowance as nat
    } by {
        if j != k {
            assert(l.sessions.contains_key(j));
            assert(l2.sessions[j] == l.sessions[j]);
        }
    }
}

/// The first request of a session that the limiter lets in starts its
/// minute, hour and day windows at `requests_per_minute`,
/// `requests_per_hour` and `requests_per_day` (each with the burst
/// allowance), over 60, 3600 and 86400 seconds.
pub proof fn lemma_new_session_limits(l: LimiterState, k: Seq<char>, now: u64)
    requires
        l.config.enabled,
        !l.sessions.contains_key(k),
        l.session_count < l.config.max_concurrent_sessions,
    ensures
        l.checked(k, now).0.sessions.contains_key(k),
        ({
            let s = l.checked(k, now).0.sessions[k];
            &&& s.minute.window_secs == 60
            &&& s.minute.max_requests == l.config.requests_per_minute as nat
            &&& s.hour.window_secs == 3600
            &&& s.hour.max_requests == l.config.requests_per_hour as nat
            &&& s.day.window_secs == 86400
            &&& s.day.max_requests == l.config.requests_per_day as nat
            &&& s.minute.burst_allowance == l.config.burst_allowance as nat
            &&& s.hour.burst_allowance == l.config.burst_allowance as nat
            &&& s.day.burst_allowance == l.config.burst_allowance as nat
        }),
{
}

/// A request is allowed when the session fits (it is tracked, or there is
/// room for one more session) and, over the last minute, hour and day, it
/// has sent fewer requests than the configured limit plus the burst
/// allowance (a session not yet tracked has sent none; each limit plus
/// burst is then at least one).
pub proof fn lemma_allowed_under_limits(l: LimiterState, k: Seq<char>, now: u64)
    requires
        limits_follow_config(l),
        l.sessions.contains_key(k) || l.session_count < l.config.max_concurrent_sessions,
        0 < l.config.requests_per_minute + l.config.burst_allowance,
        0 < l.config.requests_per_hour + l.config.burst_allowance,
        0 < l.config.requests_per_day + l.config.burst_allowance,
        l.sessions.contains_key(k) ==> recent(l.sessions[k].minute.requests, now, 60).len()
            < l.config.requests_per_minute + l.config.burst_allowance,
        l.sessions.contains_key(k) ==> recent(l.sessions[k].hour.requests, now, 3600).len()
            < l.config.requests_per_hour + l.config.burst_allowance,
        l.sessions.contains_key(k) ==> recent(l.sessions[k].day.requests, now, 86400).len()
            < l.config.requests_per_day + l.config.burst_allowance,
    ensures
        l.checked(k, now).1 is Ok,
{
    if l.sessions.contains_key(k) {
        let s = l.sessions[k];
        assert(s.minute.window_secs == 60);
    }
}

/// A tracked session that has already sent the configured limit plus the
/// burst allowance within the last minute, hour or day is refused.
pub proof fn lemma_refused_at_limits(l: LimiterState, k: Seq<char>, now: u64)
    requires
        limits_follow_config(l),
        l.config.enabled,
        l.sessions.contains_key(k),
        recent(l.sessions[k].minute.requests, now, 60).len() >= l.config.requests_per_minute
            + l.config.burst_allowance || recent(l.sessions[k].hour.requests, now, 3600).len()
            >= l.config.requests_per_hour + l.config.burst_allowance || recent(
            l.sessions[k].day.requests,
            now,
            86400,
        ).len() >= l.config.requests_per_day + l.config.burst_allowance,
    ensures
        l.checked(k, now).1 is Err,
{
    let s = l.sessions[k];
    assert(s.minute.window_secs == 60 && s.hour.window_secs == 3600 && s.day.window_secs == 86400);
}

} // verus!
