//! What the stdio MCP client decides about the JSON-RPC messages a server
//! sends it: requests of the server, responses to the client's requests
//! and notifications.  Writing to the process and waking the waiting
//! callers are left to the transport; here are the decisions and what they
//! log.
use vstd::prelude::*;
use crate::assoc::{lemma_key_pos_unique, lookup};
use crate::json::{field, get_field, get_str_field, is_empty_object, str_field, take_field, JsonValue};
use crate::module_loggers::TransportLogger;
use crate::logger::LogRegistry;
use crate::text::{
    chars_of, decimal, is_ascii_digit, push_decimal, push_str, str_eq, string_of, substring, trim,
    trimmed,
};

verus! {

// ---------------------------------------------------------------------------
// Integers written as JSON numbers
// ---------------------------------------------------------------------------

/// Value of an ASCII digit.
pub open spec fn digit_value(c: char) -> int {
    (c as int) - ('0' as int)
}

/// Whether every character of `s` is an ASCII digit.
pub open spec fn all_digits(s: Seq<char>) -> bool {
    forall|i: int| 0 <= i < s.len() ==> is_ascii_digit(#[trigger] s[i])
}

/// The value of a run of decimal digits.
pub open spec fn digits_value(s: Seq<char>) -> int
    decreases s.len(),
{
    if s.len() == 0 {
        0
    } else {
        digits_value(s.drop_last()) * 10 + digit_value(s.last())
    }
}

/// The integer a number's text writes: digits, with a leading '-' when
/// negative; nothing for any other text (fractions and exponents among
/// them).
pub open spec fn integer_text_value(t: Seq<char>) -> Option<int> {
    if t.len() > 0 && t[0] == '-' {
        let d = t.drop_first();
        if d.len() > 0 && all_digits(d) {
            Some(-digits_value(d))
        } else {
            None
        }
    } else if t.len() > 0 && all_digits(t) {
        Some(digits_value(t))
    } else {
        None
    }
}

/// The value of `v` as an `i64`: a number whose text is an integer that
/// fits; nothing for anything else.
pub open spec fn json_i64(v: JsonValue) -> Option<i64> {
    match v {
        JsonValue::Number(t) => match integer_text_value(t@) {
            Some(x) => if i64::MIN <= x <= i64::MAX {
                Some(x as i64)
            } else {
                None
            },
            None => None,
        },
        _ => None,
    }
}

proof fn lemma_digits_value_grows(s: Seq<char>, k: int)
    requires
        all_digits(s),
        0 <= k <= s.len(),
    ensures
        0 <= digits_value(s.take(k)) <= digits_value(s),
    decreases s.len(),
{
    if s.len() > 0 {
        if k == s.len() {
            assert(s.take(k) =~= s);
            lemma_digits_value_grows(s.drop_last(), k - 1);
            assert(s.drop_last().take(k - 1) =~= s.drop_last());
        } else {
            lemma_digits_value_grows(s.drop_last(), k);
            assert(s.drop_last().take(k) =~= s.take(k));
            assert(s.drop_last().take(s.len() - 1) =~= s.drop_last());
            lemma_digits_value_grows(s.drop_last(), s.len() - 1);
        }
        assert(is_ascii_digit(s.last()));
    }
}

/// The value of the number `v` as an `i64` (`serde_json::Value::as_i64`
/// on the number's text).
pub fn as_i64(v: &JsonValue) -> (r: Option<i64>)
    ensures
        r == json_i64(*v),
{
    let t = match v {
        JsonValue::Number(t) => t,
        _ => {
            return None;
        },
    };
    let cs = chars_of(t.as_str());
    let n = cs.len();
    if n == 0 {
        return None;
    }
    let negative = cs[0] == '-';
    let start: usize = if negative {
        1
    } else {
        0
    };
    if start == n {
        return None;
    }
    let ghost d = cs@.subrange(start as int, n as int);
    let mut acc: i128 = 0;
    let mut i: usize = start;
    while i < n
        invariant
            start <= i <= n,
            start < n,
            negative == (cs@[0] == '-'),
            start == (if negative {
                1usize
            } else {
                0usize
            }),
            cs@ == t@,
            *v == JsonValue::Number(*t),
            n == cs@.len(),
            d == cs@.subrange(start as int, n as int),
            all_digits(d.take(i - start)),
            acc == digits_value(d.take(i - start)),
            0 <= acc <= 0x8000_0000_0000_0000,
        decreases n - i,
    {
        let c = cs[i];
        if !('0' <= c && c <= '9') {
            proof {
                assert(d[i - start] == c);
                assert(!all_digits(d));
                if negative {
                    assert(t@.drop_first() =~= d);
                } else {
                    assert(t@ =~= d);
                }
                assert(integer_text_value(t@) is None);
            }
            return None;
        }
        let dv = (c as u32 - '0' as u32) as i128;
        let next = acc * 10 + dv;
        proof {
            let k = i - start;
            assert(d.take(k + 1).drop_last() =~= d.take(k));
            assert(d.take(k + 1).last() == c);
            assert(all_digits(d.take(k + 1))) by {
                assert forall|j: int| 0 <= j < k + 1 implies is_ascii_digit(#[trigger] d.take(k + 1)[j]) by {
                    if j < k {
                        assert(d.take(k + 1)[j] == d.take(k)[j]);
                    }
                }
            }
        }
        if next > 0x8000_0000_0000_0000 {
            // Any longer run of digits only grows, so the text cannot fit.
            let mut j: usize = i + 1;
            while j < n
                invariant
                    start <= i < j <= n,
                    start < n,
                    negative == (cs@[0] == '-'),
                    start == (if negative {
                        1usize
                    } else {
                        0usize
                    }),
                    cs@ == t@,
                    *v == JsonValue::Number(*t),
            *v == JsonValue::Number(*t),
                    n == cs@.len(),
                    d == cs@.subrange(start as int, n as int),
                    all_digits(d.take(j - start)),
                    digits_value(d.take(i + 1 - start)) > 0x8000_0000_0000_0000,
                decreases n - j,
            {
                let c2 = cs[j];
                if !('0' <= c2 && c2 <= '9') {
                    proof {
                        assert(d[j - start] == c2);
                        assert(!all_digits(d));
                        if negative {
                            assert(t@.drop_first() =~= d);
                        } else {
                            assert(t@ =~= d);
                        }
                        assert(integer_text_value(t@) is None);
                    }
                    return None;
                }
                proof {
                    let k = j - start;
                    assert forall|m: int| 0 <= m < k + 1 implies is_ascii_digit(#[trigger] d.take(k + 1)[m]) by {
                        if m < k {
                            assert(d.take(k + 1)[m] == d.take(k)[m]);
                        }
                    }
                }
                j = j + 1;
            }
            proof {
                assert(d.take(n - start) =~= d);
                lemma_digits_value_grows(d, i + 1 - start);
                if negative {
                    assert(t@.drop_first() =~= d);
                } else {
                    assert(t@ =~= d);
                }
            }
            return None;
        }
        acc = next;
        i = i + 1;
    }
    proof {
        assert(d.take(n - start) =~= d);
        if negative {
            assert(t@.drop_first() =~= d);
        } else {
            assert(t@ =~= d);
        }
    }
    if negative {
        Some((0 - acc) as i64)
    } else if acc <= 0x7fff_ffff_ffff_ffff {
        Some(acc as i64)
    } else {
        None
    }
}

// ---------------------------------------------------------------------------
// Messages the client writes
// ---------------------------------------------------------------------------

/// Whether `v` is an object with exactly `n` members.
pub open spec fn object_of_size(v: JsonValue, n: nat) -> bool {
    v matches JsonValue::Object(m) && m@.len() == n
}

/// The pair at `i` is found by its key when the keys before it start with
/// other characters.
proof fn lemma_member_at(m: Seq<(String, JsonValue)>, i: int)
    requires
        0 <= i < m.len(),
        forall|j: int|
            0 <= j <= i ==> (#[trigger] m[j]).0@.len() > 0,
        forall|j: int| 0 <= j < i ==> (#[trigger] m[j]).0@[0] != m[i].0@[0],
    ensures
        lookup(m, m[i].0@) == Some(m[i].1),
{
    assert forall|j: int| 0 <= j < i implies (#[trigger] m[j]).0@ != m[i].0@ by {
        assert(m[j].0@[0] != m[i].0@[0]);
    }
    lemma_key_pos_unique(m, m[i].0@, i);
}

/// The id of the client's request number `counter`.
pub open spec fn request_id_text(counter: u64) -> Seq<char> {
    "req-"@ + decimal(counter as nat)
}

/// The id of the client's request number `counter`: `req-` and the number.
pub fn request_id(counter: u64) -> (r: String)
    ensures
        r@ == request_id_text(counter),
{
    let mut r = string_of("req-");
    push_decimal(&mut r, counter);
    r
}

/// Requests numbered differently have different ids.
pub proof fn lemma_request_ids_distinct(a: u64, b: u64)
    requires
        a != b,
    ensures
        request_id_text(a) != request_id_text(b),
{
    if request_id_text(a) == request_id_text(b) {
        let p = "req-"@;
        assert(decimal(a as nat) =~= request_id_text(a).subrange(p.len() as int, request_id_text(a).len() as int));
        assert(decimal(b as nat) =~= request_id_text(b).subrange(p.len() as int, request_id_text(b).len() as int));
        crate::runner::lemma_decimal_injective(a as nat, b as nat);
    }
}

/// The request `{"jsonrpc": "2.0", "id": id, "method": method, "params": params}`.
pub fn request_message(id: &str, method: &str, params: JsonValue) -> (r: JsonValue)
    ensures
        object_of_size(r, 4),
        str_field(r, "jsonrpc"@) == Some("2.0"@),
        str_field(r, "id"@) == Some(id@),
        str_field(r, "method"@) == Some(method@),
        field(r, "params"@) == Some(params),
{
    let ghost gp = params;
    let mut m: Vec<(String, JsonValue)> = Vec::new();
    m.push((string_of("jsonrpc"), JsonValue::String(string_of("2.0"))));
    m.push((string_of("id"), JsonValue::String(string_of(id))));
    m.push((string_of("method"), JsonValue::String(string_of(method))));
    m.push((string_of("params"), params));
    proof {
        reveal_strlit("jsonrpc");
        reveal_strlit("id");
        reveal_strlit("method");
        reveal_strlit("params");
        lemma_member_at(m@, 0);
        lemma_member_at(m@, 1);
        lemma_member_at(m@, 2);
        lemma_member_at(m@, 3);
    }
    JsonValue::Object(m)
}

/// The notification `{"jsonrpc": "2.0", "method": method, "params": params}`.
pub fn notification_message(method: &str, params: JsonValue) -> (r: JsonValue)
    ensures
        object_of_size(r, 3),
        str_field(r, "jsonrpc"@) == Some("2.0"@),
        str_field(r, "method"@) == Some(method@),
        field(r, "params"@) == Some(params),
{
    let mut m: Vec<(String, JsonValue)> = Vec::new();
    m.push((string_of("jsonrpc"), JsonValue::String(string_of("2.0"))));
    m.push((string_of("method"), JsonValue::String(string_of(method))));
    m.push((string_of("params"), params));
    proof {
        reveal_strlit("jsonrpc");
        reveal_strlit("method");
        reveal_strlit("params");
        lemma_member_at(m@, 0);
        lemma_member_at(m@, 1);
        lemma_member_at(m@, 2);
    }
    JsonValue::Object(m)
}

/// The reply `{"jsonrpc": "2.0", key: body, "id": id}` to a request of the
/// server, where `key` is `result` or `error`.
fn reply_message(id: JsonValue, key: &str, body: JsonValue) -> (r: JsonValue)
    requires
        key@ == "result"@ || key@ == "error"@,
    ensures
        object_of_size(r, 3),
        str_field(r, "jsonrpc"@) == Some("2.0"@),
        field(r, key@) == Some(body),
        field(r, "id"@) == Some(id),
{
    let mut m: Vec<(String, JsonValue)> = Vec::new();
    m.push((string_of("jsonrpc"), JsonValue::String(string_of("2.0"))));
    m.push((string_of(key), body));
    m.push((string_of("id"), id));
    proof {
        reveal_strlit("jsonrpc");
        reveal_strlit("result");
        reveal_strlit("error");
        reveal_strlit("id");
        lemma_member_at(m@, 0);
        lemma_member_at(m@, 1);
        lemma_member_at(m@, 2);
    }
    JsonValue::Object(m)
}

/// The successful reply `{"jsonrpc": "2.0", "result": result, "id": id}`.
pub fn response_message(id: JsonValue, result: JsonValue) -> (r: JsonValue)
    ensures
        object_of_size(r, 3),
        str_field(r, "jsonrpc"@) == Some("2.0"@),
        field(r, "result"@) == Some(result),
        field(r, "id"@) == Some(id),
{
    proof {
        reveal_strlit("result");
    }
    reply_message(id, "result", result)
}

/// The failed reply `{"jsonrpc": "2.0", "error": error, "id": id}`.
pub fn error_message(id: JsonValue, error: JsonValue) -> (r: JsonValue)
    ensures
        object_of_size(r, 3),
        str_field(r, "jsonrpc"@) == Some("2.0"@),
        field(r, "error"@) == Some(error),
        field(r, "id"@) == Some(id),
{
    proof {
        reveal_strlit("error");
    }
    reply_message(id, "error", error)
}

/// The parameters of a `tools/call` request: the tool's name and its
/// arguments, with `null` arguments sent as an empty object.
pub fn tool_call_params(tool: &str, arguments: JsonValue) -> (r: JsonValue)
    ensures
        object_of_size(r, 2),
        str_field(r, "name"@) == Some(tool@),
        arguments is Null ==> (field(r, "arguments"@) matches Some(a) && is_empty_object(a)),
        !(arguments is Null) ==> field(r, "arguments"@) == Some(arguments),
{
    let args = match arguments {
        JsonValue::Null => JsonValue::Object(Vec::new()),
        other => other,
    };
    let mut m: Vec<(String, JsonValue)> = Vec::new();
    m.push((string_of("name"), JsonValue::String(string_of(tool))));
    m.push((string_of("arguments"), args));
    proof {
        reveal_strlit("name");
        reveal_strlit("arguments");
        lemma_member_at(m@, 0);
        lemma_member_at(m@, 1);
    }
    JsonValue::Object(m)
}

/// What a response to one of the client's requests carries back: its
/// `result` member, or `null`.
pub fn response_result(response: JsonValue) -> (r: JsonValue)
    ensures
        r == match field(response, "result"@) {
            Some(x) => x,
            None => JsonValue::Null,
        },
{
    match take_field(response, "result") {
        Some(x) => x,
        None => JsonValue::Null,
    }
}

// ---------------------------------------------------------------------------
// Lines and messages the server sends
// ---------------------------------------------------------------------------

/// What the client does with a line the server printed.
#[derive(Debug, PartialEq, Eq, Structural)]
pub enum LineAction {
    /// Nothing: the line is blank, or an ANSI-coloured log line.
    Skip,
    /// Read it as a JSON message.
    Parse,
}

/// What the client does with the line `raw`: blank lines and lines that
/// start (once trimmed) with an escape character are skipped, the latter
/// with a debug entry in the log of server `server`; the rest are read as
/// JSON.
pub open spec fn line_action(raw: Seq<char>) -> LineAction {
    if trim(raw).len() == 0 || trim(raw)[0] == '\u{1b}' {
        LineAction::Skip
    } else {
        LineAction::Parse
    }
}

/// The debug text for a skipped log line.
pub open spec fn skipped_line_text(server: Seq<char>, trimmed_line: Seq<char>) -> Seq<char> {
    "skipping non-JSON ANSI log line from MCP server | server="@ + server + " line="@ + trimmed_line
}

/// Decides what to do with the line `raw` printed by server `server`,
/// logging a skipped ANSI log line through `logger`.
pub fn classify_line(reg: &mut LogRegistry, logger: &TransportLogger, server: &str, raw: &str) -> (r:
    LineAction)
    requires
        old(reg).wf(),
    ensures
        final(reg).wf(),
        r == line_action(raw@),
        trim(raw@).len() == 0 || r is Parse ==> final(reg)@ == old(reg)@,
        trim(raw@).len() > 0 && r is Skip ==> old(reg)@.logged_at_some_time(
            final(reg)@,
            logger.sid(),
            crate::log_entries::LogLevel::Debug,
            skipped_line_text(server@, trim(raw@)),
            Some("transport"@),
            None,
        ),
{
    let cs = chars_of(raw);
    let t = trimmed(&cs);
    if t.len() == 0 {
        return LineAction::Skip;
    }
    if t[0] == '\u{1b}' {
        let mut m = string_of("skipping non-JSON ANSI log line from MCP server | server=");
        push_str(&mut m, server);
        push_str(&mut m, " line=");
        let line = substring(&t, 0, t.len());
        assert(t@.subrange(0, t.len() as int) =~= t@);
        push_str(&mut m, line.as_str());
        logger.debug(reg, m.as_str());
        return LineAction::Skip;
    }
    LineAction::Parse
}

/// The kinds of message a server sends.
#[derive(Debug, PartialEq, Eq, Structural)]
pub enum InboundKind {
    /// A request of the server: it has an `id` and a `method`.
    ServerRequest,
    /// A response to a request of the client: an `id` and no `method`.
    Response,
    /// A notification: a `method` and no `id`.
    Notification,
    /// Anything else, which the client ignores.
    Ignored,
}

/// The kind of the message `v`.
pub open spec fn inbound_kind(v: JsonValue) -> InboundKind {
    if field(v, "id"@) is Some {
        if field(v, "method"@) is Some {
            InboundKind::ServerRequest
        } else {
            InboundKind::Response
        }
    } else if field(v, "method"@) is Some {
        InboundKind::Notification
    } else {
        InboundKind::Ignored
    }
}

/// The kind of the message `value`.
pub fn classify_inbound(value: &JsonValue) -> (k: InboundKind)
    ensures
        k == inbound_kind(*value),
{
    let has_id = get_field(value, "id").is_some();
    let has_method = get_field(value, "method").is_some();
    if has_id {
        if has_method {
            InboundKind::ServerRequest
        } else {
            InboundKind::Response
        }
    } else if has_method {
        InboundKind::Notification
    } else {
        InboundKind::Ignored
    }
}

/// The key under which the client waits for the response with id `id`: a
/// string id itself, a number's text; other ids match no request.
pub open spec fn response_key_text(id: JsonValue) -> Option<Seq<char>> {
    match id {
        JsonValue::String(s) => Some(s@),
        JsonValue::Number(n) => Some(n@),
        _ => None,
    }
}

/// The key under which the client waits for the response with id `id`.
pub fn response_key(id: &JsonValue) -> (r: Option<String>)
    ensures
        match r {
            Some(k) => response_key_text(*id) == Some(k@),
            None => response_key_text(*id) is None,
        },
{
    match id {
        JsonValue::String(s) => Some(s.clone()),
        JsonValue::Number(n) => Some(n.clone()),
        _ => None,
    }
}

/// What a response tells the request that waits for it.
#[derive(Debug, PartialEq)]
pub enum ResponseOutcome {
    /// The request succeeded; the whole response.
    Success(JsonValue),
    /// The server answered with a JSON-RPC error.
    RpcError { code: i64, message: String },
    /// The response has an `error` member that is not an object.
    MissingErrorPayload,
}

/// The code of a JSON-RPC error object; -32000 when it has none that fits
/// an `i64`.
pub open spec fn rpc_error_code(err: JsonValue) -> i64 {
    match field(err, "code"@) {
        Some(c) => match json_i64(c) {
            Some(x) => x,
            None => -32000i64,
        },
        None => -32000i64,
    }
}

/// The message of a JSON-RPC error object; `unknown error` when it has no
/// string message.
pub open spec fn rpc_error_message(err: JsonValue) -> Seq<char> {
    match str_field(err, "message"@) {
        Some(m) => m,
        None => "unknown error"@,
    }
}

/// Whether `o` is what the response `value` tells the waiting request: an
/// error when it has an `error` member (its code and message when that is
/// an object), success with the whole response otherwise.
pub open spec fn is_outcome(value: JsonValue, o: ResponseOutcome) -> bool {
    match field(value, "error"@) {
        None => o == ResponseOutcome::Success(value),
        Some(e) => if e is Object {
            o matches ResponseOutcome::RpcError { code, message } && code == rpc_error_code(e)
                && message@ == rpc_error_message(e)
        } else {
            o is MissingErrorPayload
        },
    }
}

/// What the response `value` tells the waiting request.
pub fn response_outcome(value: JsonValue) -> (r: ResponseOutcome)
    ensures
        is_outcome(value, r),
{
    let outcome = match get_field(&value, "error") {
        None => None,
        Some(e) => {
            if matches!(e, JsonValue::Object(_)) {
                let code = match get_field(e, "code") {
                    Some(c) => match as_i64(c) {
                        Some(x) => x,
                        None => -32000,
                    },
                    None => -32000,
                };
                let message = match get_str_field(e, "message") {
                    Some(m) => m.clone(),
                    None => string_of("unknown error"),
                };
                Some(ResponseOutcome::RpcError { code, message })
            } else {
                Some(ResponseOutcome::MissingErrorPayload)
            }
        },
    };
    match outcome {
        Some(o) => o,
        None => ResponseOutcome::Success(value),
    }
}

/// Position of the first `key` in `pending`, or its length.
pub open spec fn pending_pos(pending: Seq<String>, key: Seq<char>) -> int
    decreases pending.len(),
{
    if pending.len() == 0 {
        0
    } else if pending[0]@ == key {
        0
    } else {
        1 + pending_pos(pending.drop_first(), key)
    }
}

proof fn lemma_pending_pos(pending: Seq<String>, key: Seq<char>, i: int)
    requires
        0 <= i <= pending.len(),
        forall|j: int| 0 <= j < i ==> (#[trigger] pending[j])@ != key,
        i < pending.len() ==> pending[i]@ == key,
    ensures
        pending_pos(pending, key) == i,
    decreases pending.len(),
{
    if pending.len() > 0 && i > 0 {
        assert forall|j: int| 0 <= j < i - 1 implies (#[trigger] pending.drop_first()[j])@ != key by {
            assert(pending.drop_first()[j] == pending[j + 1]);
        }
        assert(pending[0]@ != key);
        lemma_pending_pos(pending.drop_first(), key, i - 1);
    }
}

/// The debug text for a response nobody waits for.
pub open spec fn unknown_response_text(server: Seq<char>, key: Seq<char>) -> Seq<char> {
    "received response for unknown request | server="@ + server + " response_id="@ + key
}

/// Matches the response `value` with id `id` against the keys of the
/// requests still waiting (`pending`): when one waits under the response's
/// key, it stops waiting and is handed the outcome; a response whose id is
/// no key is dropped silently, one nobody waits for with a debug entry
/// through `logger`.
pub fn handle_response(
    reg: &mut LogRegistry,
    logger: &TransportLogger,
    server: &str,
    pending: &mut Vec<String>,
    id: &JsonValue,
    value: JsonValue,
) -> (r: Option<(String, ResponseOutcome)>)
    requires
        old(reg).wf(),
    ensures
        final(reg).wf(),
        match response_key_text(*id) {
            None => r is None && final(pending)@ == old(pending)@ && final(reg)@ == old(reg)@,
            Some(k) => if pending_pos(old(pending)@, k) < old(pending)@.len() {
                &&& final(pending)@ == old(pending)@.remove(pending_pos(old(pending)@, k))
                &&& final(reg)@ == old(reg)@
                &&& r matches Some((key, outcome)) && key@ == k && is_outcome(value, outcome)
            } else {
                &&& r is None
                &&& final(pending)@ == old(pending)@
                &&& old(reg)@.logged_at_some_time(
                    final(reg)@,
                    logger.sid(),
                    crate::log_entries::LogLevel::Debug,
                    unknown_response_text(server@, k),
                    Some("transport"@),
                    None,
                )
            },
        },
{
    let key = match response_key(id) {
        Some(k) => k,
        None => {
            return None;
        },
    };
    let mut i: usize = 0;
    while i < pending.len() && !str_eq(pending[i].as_str(), key.as_str())
        invariant
            i <= pending.len(),
            forall|j: int| 0 <= j < i ==> (#[trigger] pending@[j])@ != key@,
        decreases pending.len() - i,
    {
        i = i + 1;
    }
    proof {
        lemma_pending_pos(pending@, key@, i as int);
    }
    if i < pending.len() {
        pending.remove(i);
        let outcome = response_outcome(value);
        Some((key, outcome))
    } else {
        let mut m = string_of("received response for unknown request | server=");
        push_str(&mut m, server);
        push_str(&mut m, " response_id=");
        push_str(&mut m, key.as_str());
        logger.debug(reg, m.as_str());
        None
    }
}

// ---------------------------------------------------------------------------
// Requests and notifications of the server
// ---------------------------------------------------------------------------

/// What the client answers to a request of the server.
#[derive(Debug, PartialEq)]
pub enum ServerRequest {
    /// `ping`.
    Ping,
    /// `elicitation/create`, with its parameters (`null` when absent).
    ElicitationCreate(JsonValue),
    /// Any other method, which the client does not implement.
    Unsupported(String),
}

/// The method a request names; empty when it names none as a string.
pub open spec fn request_method(v: JsonValue) -> Seq<char> {
    match str_field(v, "method"@) {
        Some(m) => m,
        None => Seq::empty(),
    }
}

/// Reads the request `value` of the server.
pub fn server_request(value: JsonValue) -> (r: ServerRequest)
    ensures
        request_method(value) == "ping"@ ==> r is Ping,
        request_method(value) == "elicitation/create"@ ==> r == ServerRequest::ElicitationCreate(
            match field(value, "params"@) {
                Some(p) => p,
                None => JsonValue::Null,
            },
        ),
        request_method(value) != "ping"@ && request_method(value) != "elicitation/create"@ ==> (
        r matches ServerRequest::Unsupported(m) && m@ == request_method(value)),
{
    proof {
        reveal_strlit("ping");
        reveal_strlit("elicitation/create");
    }
    let method = match get_str_field(&value, "method") {
        Some(m) => m.clone(),
        None => String::new(),
    };
    assert(method@ == request_method(value));
    if str_eq(method.as_str(), "ping") {
        assert("ping"@ != "elicitation/create"@) by {
            assert("ping"@.len() != "elicitation/create"@.len());
        }
        ServerRequest::Ping
    } else if str_eq(method.as_str(), "elicitation/create") {
        let params = match take_field(value, "params") {
            Some(p) => p,
            None => JsonValue::Null,
        };
        ServerRequest::ElicitationCreate(params)
    } else {
        ServerRequest::Unsupported(method)
    }
}

/// The result of a `ping`: `{"ok": true}`.
pub fn ping_result() -> (r: JsonValue)
    ensures
        object_of_size(r, 1),
        field(r, "ok"@) == Some(JsonValue::Bool(true)),
{
    let mut m: Vec<(String, JsonValue)> = Vec::new();
    m.push((string_of("ok"), JsonValue::Bool(true)));
    proof {
        lemma_key_pos_unique(m@, "ok"@, 0);
    }
    JsonValue::Object(m)
}

/// The client's acceptance of an elicitation whose message (read from the
/// request's parameters) is `message`: `{"action": "accept", "content":
/// {...}}`, the content holding the message trimmed, when that is not
/// empty.
pub fn build_elicitation_ack(message: Option<String>) -> (r: JsonValue)
    ensures
        object_of_size(r, 2),
        str_field(r, "action"@) == Some("accept"@),
        field(r, "content"@) matches Some(c) && c is Object && match message {
            Some(t) if trim(t@).len() > 0 => object_of_size(c, 1) && str_field(c, "message"@) == Some(
                trim(t@),
            ),
            _ => object_of_size(c, 0),
        },
{
    let mut content: Vec<(String, JsonValue)> = Vec::new();
    match &message {
        Some(t) => {
            let cs = chars_of(t.as_str());
            let tr = trimmed(&cs);
            if tr.len() > 0 {
                let text = substring(&tr, 0, tr.len());
                proof {
                    assert(tr@.subrange(0, tr.len() as int) =~= tr@);
                }
                content.push((string_of("message"), JsonValue::String(text)));
                proof {
                    lemma_key_pos_unique(content@, "message"@, 0);
                }
            }
        },
        None => {},
    }
    let mut m: Vec<(String, JsonValue)> = Vec::new();
    m.push((string_of("action"), JsonValue::String(string_of("accept"))));
    m.push((string_of("content"), JsonValue::Object(content)));
    proof {
        reveal_strlit("action");
        reveal_strlit("content");
        lemma_member_at(m@, 0);
        lemma_member_at(m@, 1);
    }
    JsonValue::Object(m)
}

/// The text of the error the client answers to an unsupported method.
pub open spec fn unsupported_method_text(method: Seq<char>) -> Seq<char> {
    "client does not implement method '"@ + method + "'"@
}

/// The warning logged for an unsupported method.
pub open spec fn unsupported_request_warning(server: Seq<char>, method: Seq<char>) -> Seq<char> {
    "server sent unsupported request | server="@ + server + " method="@ + method
}

/// The error the client answers to a request for `method`, which it does
/// not implement: `{"code": -32601, "message": ...}`, after a warning
/// through `logger`.
pub fn unsupported_request_error(
    reg: &mut LogRegistry,
    logger: &TransportLogger,
    server: &str,
    method: &str,
) -> (r: JsonValue)
    requires
        old(reg).wf(),
    ensures
        final(reg).wf(),
        old(reg)@.logged_at_some_time(
            final(reg)@,
            logger.sid(),
            crate::log_entries::LogLevel::Warn,
            unsupported_request_warning(server@, method@),
            Some("transport"@),
            None,
        ),
        object_of_size(r, 2),
        field(r, "code"@) matches Some(c) && json_i64(c) == Some(-32601i64),
        str_field(r, "message"@) == Some(unsupported_method_text(method@)),
{
    let mut w = string_of("server sent unsupported request | server=");
    push_str(&mut w, server);
    push_str(&mut w, " method=");
    push_str(&mut w, method);
    logger.warn(reg, w.as_str());
    let mut text = string_of("client does not implement method '");
    push_str(&mut text, method);
    push_str(&mut text, "'");
    let code = JsonValue::Number(string_of("-32601"));
    let mut m: Vec<(String, JsonValue)> = Vec::new();
    m.push((string_of("code"), code));
    m.push((string_of("message"), JsonValue::String(text)));
    proof {
        reveal_strlit("code");
        reveal_strlit("message");
        reveal_strlit("-32601");
        lemma_member_at(m@, 0);
        lemma_member_at(m@, 1);
        let d = "-32601"@.drop_first();
        assert(d =~= seq!['3', '2', '6', '0', '1']);
        assert(all_digits(d));
        assert(digits_value(d) == 32601) by {
            reveal_with_fuel(digits_value, 6);
        }
    }
    JsonValue::Object(m)
}

/// The method whose notification tells that the server's tools changed.
pub open spec fn tools_changed_method() -> Seq<char> {
    "notifications/tools/list_changed"@
}

/// The debug text for a notification.
pub open spec fn notification_text(server: Seq<char>, method: Seq<char>) -> Seq<char> {
    "received notification from server | server="@ + server + " method="@ + method
}

/// Handles the notification `value` of server `server`: one naming its
/// method as a string is logged at debug level through `logger`; gives
/// whether it asks the client to read the server's tools again.
pub fn handle_notification(
    reg: &mut LogRegistry,
    logger: &TransportLogger,
    server: &str,
    value: &JsonValue,
) -> (refresh: bool)
    requires
        old(reg).wf(),
    ensures
        final(reg).wf(),
        refresh == (str_field(*value, "method"@) == Some(tools_changed_method())),
        match str_field(*value, "method"@) {
            Some(m) => old(reg)@.logged_at_some_time(
                final(reg)@,
                logger.sid(),
                crate::log_entries::LogLevel::Debug,
                notification_text(server@, m),
                Some("transport"@),
                None,
            ),
            None => final(reg)@ == old(reg)@,
        },
{
    match get_str_field(value, "method") {
        Some(method) => {
            let mut t = string_of("received notification from server | server=");
            push_str(&mut t, server);
            push_str(&mut t, " method=");
            push_str(&mut t, method.as_str());
            logger.debug(reg, t.as_str());
            str_eq(method.as_str(), "notifications/tools/list_changed")
        },
        None => false,
    }
}

/// The parameters of the `initialize` request of a client named `name` at
/// version `version`: the protocol version, the client's name, version and
/// title, and its interest in changes of the tool list.
pub fn initialize_params(name: &str, version: &str) -> (r: JsonValue)
    ensures
        object_of_size(r, 3),
        str_field(r, "protocolVersion"@) == Some(crate::tool_server::PROTOCOL_VERSION@),
        field(r, "clientInfo"@) matches Some(info) && object_of_size(info, 3) && str_field(
            info,
            "name"@,
        ) == Some(name@) && str_field(info, "version"@) == Some(version@) && str_field(
            info,
            "title"@,
        ) == Some("CBT MCP Client"@),
        field(r, "capabilities"@) matches Some(caps) && object_of_size(caps, 1) && (field(
            caps,
            "tools"@,
        ) matches Some(tools) && object_of_size(tools, 1) && field(tools, "listChanged"@) == Some(
            JsonValue::Bool(true),
        )),
{
    let mut info: Vec<(String, JsonValue)> = Vec::new();
    info.push((string_of("name"), JsonValue::String(string_of(name))));
    info.push((string_of("version"), JsonValue::String(string_of(version))));
    info.push((string_of("title"), JsonValue::String(string_of("CBT MCP Client"))));
    let mut tools: Vec<(String, JsonValue)> = Vec::new();
    tools.push((string_of("listChanged"), JsonValue::Bool(true)));
    let mut caps: Vec<(String, JsonValue)> = Vec::new();
    caps.push((string_of("tools"), JsonValue::Object(tools)));
    let mut m: Vec<(String, JsonValue)> = Vec::new();
    m.push((string_of("protocolVersion"), JsonValue::String(string_of(crate::tool_server::PROTOCOL_VERSION))));
    m.push((string_of("clientInfo"), JsonValue::Object(info)));
    m.push((string_of("capabilities"), JsonValue::Object(caps)));
    proof {
        reveal_strlit("name");
        reveal_strlit("version");
        reveal_strlit("title");
        reveal_strlit("protocolVersion");
        reveal_strlit("clientInfo");
        reveal_strlit("capabilities");
        lemma_member_at(info@, 0);
        lemma_member_at(info@, 1);
        lemma_member_at(info@, 2);
        lemma_key_pos_unique(tools@, "listChanged"@, 0);
        lemma_key_pos_unique(caps@, "tools"@, 0);
        lemma_member_at(m@, 0);
        lemma_member_at(m@, 1);
        assert(m@[1].0@ != m@[2].0@) by {
            assert(m@[1].0@[1] != m@[2].0@[1]);
        }
        assert(m@[0].0@ != m@[2].0@) by {
            assert(m@[0].0@[0] != m@[2].0@[0]);
        }
        lemma_key_pos_unique(m@, m@[2].0@, 2);
    }
    JsonValue::Object(m)
}

/// The instructions a server gives in its `initialize` result, when it
/// gives them as a string.
pub fn server_instructions(init_result: &JsonValue) -> (r: Option<String>)
    ensures
        match r {
            Some(t) => str_field(*init_result, "instructions"@) == Some(t@),
            None => str_field(*init_result, "instructions"@) is None,
        },
{
    match get_str_field(init_result, "instructions") {
        Some(t) => Some(t.clone()),
        None => None,
    }
}

} // verus!
