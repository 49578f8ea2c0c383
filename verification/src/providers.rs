//! The decisions a model provider client makes around its HTTP exchange:
//! how conversation roles map to each API's roles, where the system
//! instruction goes, whether JSON output is asked for, what an answer
//! with a failing status comes to, and what is read from a successful one.
use vstd::prelude::*;
use crate::json::{field, get_field, get_str_field, str_field, JsonValue};
use crate::jsonrpc::{as_i64, json_i64};
use crate::text::{copy_string, push_str, string_of};

verus! {

/// Who a conversation message comes from.
#[derive(Debug, Clone, Copy, PartialEq, Eq, Structural)]
pub enum MessageRole {
    System,
    User,
    Assistant,
    ToolResult,
}

/// The role name the OpenAI chat API uses for `role`; tool results are
/// sent as the user's.
pub open spec fn openai_role_name(role: MessageRole) -> Seq<char> {
    match role {
        MessageRole::System => "system"@,
        MessageRole::User => "user"@,
        MessageRole::Assistant => "assistant"@,
        MessageRole::ToolResult => "user"@,
    }
}

/// The role name the OpenAI chat API uses for `role`.
pub fn openai_role(role: MessageRole) -> (r: String)
    ensures
        r@ == openai_role_name(role),
{
    match role {
        MessageRole::System => string_of("system"),
        MessageRole::User => string_of("user"),
        MessageRole::Assistant => string_of("assistant"),
        MessageRole::ToolResult => string_of("user"),
    }
}

/// The messages for the OpenAI chat API: each message's role name and
/// content, in order.
pub fn openai_messages(messages: &Vec<(MessageRole, String)>) -> (r: Vec<(String, String)>)
    ensures
        r@.len() == messages@.len(),
        forall|i: int|
            0 <= i < messages@.len() ==> (#[trigger] r@[i]).0@ == openai_role_name(messages@[i].0)
                && r@[i].1@ == messages@[i].1@,
{
    let mut r: Vec<(String, String)> = Vec::new();
    let mut i: usize = 0;
    while i < messages.len()
        invariant
            i <= messages@.len(),
            r@.len() == i,
            forall|j: int|
                0 <= j < i ==> (#[trigger] r@[j]).0@ == openai_role_name(messages@[j].0) && r@[j].1@
                    == messages@[j].1@,
        decreases messages.len() - i,
    {
        r.push((openai_role(messages[i].0), copy_string(&messages[i].1)));
        i = i + 1;
    }
    r
}

/// The system instruction for the Gemini API: the content of the last
/// system message, where there is one.
pub open spec fn gemini_system(messages: Seq<(MessageRole, String)>) -> Option<Seq<char>>
    decreases messages.len(),
{
    if messages.len() == 0 {
        None
    } else if messages.last().0 == MessageRole::System {
        Some(messages.last().1@)
    } else {
        gemini_system(messages.drop_last())
    }
}

/// The contents for the Gemini API: every message but the system ones, in
/// order, with role `user` (tool results included) or `model`.
pub open spec fn gemini_contents(messages: Seq<(MessageRole, String)>) -> Seq<(Seq<char>, Seq<char>)>
    decreases messages.len(),
{
    if messages.len() == 0 {
        Seq::empty()
    } else {
        let rest = gemini_contents(messages.drop_last());
        let (role, text) = messages.last();
        match role {
            MessageRole::System => rest,
            MessageRole::Assistant => rest.push(("model"@, text@)),
            _ => rest.push(("user"@, text@)),
        }
    }
}

/// Splits `messages` for the Gemini API: the system instruction and the
/// contents (see [`gemini_system`], [`gemini_contents`]).
pub fn gemini_request_parts(messages: &Vec<(MessageRole, String)>) -> (r: (
    Option<String>,
    Vec<(String, String)>,
))
    ensures
        match gemini_system(messages@) {
            Some(t) => r.0 matches Some(s) && s@ == t,
            None => r.0 is None,
        },
        r.1@.map_values(|c: (String, String)| (c.0@, c.1@)) == gemini_contents(messages@),
{
    let mut system: Option<String> = None;
    let mut contents: Vec<(String, String)> = Vec::new();
    let mut i: usize = 0;
    proof {
        assert(messages@.take(0) =~= Seq::<(MessageRole, String)>::empty());
        assert(contents@.map_values(|c: (String, String)| (c.0@, c.1@)) =~= Seq::<(Seq<char>, Seq<char>)>::empty());
    }
    while i < messages.len()
        invariant
            i <= messages@.len(),
            match gemini_system(messages@.take(i as int)) {
                Some(t) => system matches Some(s) && s@ == t,
                None => system is None,
            },
            contents@.map_values(|c: (String, String)| (c.0@, c.1@)) == gemini_contents(
                messages@.take(i as int),
            ),
        decreases messages.len() - i,
    {
        proof {
            assert(messages@.take(i + 1).drop_last() =~= messages@.take(i as int));
            assert(messages@.take(i + 1).last() == messages@[i as int]);
        }
        let ghost before = contents@;
        match messages[i].0 {
            MessageRole::System => {
                system = Some(copy_string(&messages[i].1));
            },
            MessageRole::Assistant => {
                contents.push((string_of("model"), copy_string(&messages[i].1)));
                proof {
                    assert(contents@.map_values(|c: (String, String)| (c.0@, c.1@)) =~= before.map_values(
                        |c: (String, String)| (c.0@, c.1@),
                    ).push(("model"@, messages@[i as int].1@)));
                }
            },
            _ => {
                contents.push((string_of("user"), copy_string(&messages[i].1)));
                proof {
                    assert(contents@.map_values(|c: (String, String)| (c.0@, c.1@)) =~= before.map_values(
                        |c: (String, String)| (c.0@, c.1@),
                    ).push(("user"@, messages@[i as int].1@)));
                }
            },
        }
        i = i + 1;
    }
    proof {
        assert(messages@.take(messages.len() as int) =~= messages@);
    }
    (system, contents)
}

/// Whether the request parameters `params` ask for JSON output: they have
/// a string `output_format`.
pub fn wants_json_output(params: &JsonValue) -> (r: bool)
    ensures
        r == (str_field(*params, "output_format"@) is Some),
{
    crate::json::get_str_field(params, "output_format").is_some()
}

/// Why a provider call failed.
#[derive(Debug, PartialEq)]
pub enum ProviderFailure {
    /// The provider has no usable API key.
    MissingApiKey,
    /// The call failed, for this reason.
    Network(String),
}

/// The text of a failing status with no error message from the API:
/// `HTTP <status>: <body>`.
pub open spec fn http_failure_text(status_text: Seq<char>, body: Seq<char>) -> Seq<char> {
    "HTTP "@ + status_text + ": "@ + body
}

/// What a failing answer comes to: the API's error message where the body
/// carried one, else the status and the body.
pub open spec fn failure_of(api_message: Option<String>, status_text: Seq<char>, body: Seq<char>) -> Seq<char> {
    match api_message {
        Some(m) => m@,
        None => http_failure_text(status_text, body),
    }
}

/// The failure of an answer with `status`, where `success` tells whether
/// it is a success status: for OpenAI, 429 is a rate limit and 401 a
/// missing key; another failing status gives the API's error message
/// `api_message` (read from the body) or the status text and the body.
pub fn openai_failure(
    status: u16,
    success: bool,
    api_message: Option<String>,
    status_text: &str,
    body: &str,
) -> (r: Option<ProviderFailure>)
    ensures
        status == 429 ==> (r matches Some(ProviderFailure::Network(m)) && m@ == "Rate limited by API"@),
        status == 401 ==> r == Some(ProviderFailure::MissingApiKey),
        status != 429 && status != 401 && success ==> r is None,
        status != 429 && status != 401 && !success ==> (r matches Some(ProviderFailure::Network(m))
            && m@ == failure_of(api_message, status_text@, body@)),
{
    if status == 429 {
        return Some(ProviderFailure::Network(string_of("Rate limited by API")));
    }
    if status == 401 {
        return Some(ProviderFailure::MissingApiKey);
    }
    if success {
        return None;
    }
    Some(ProviderFailure::Network(failure_text(api_message, status_text, body)))
}

/// The failure of an answer for Gemini: a failing status gives the API's
/// error message `api_message` or the status text and the body.
pub fn gemini_failure(success: bool, api_message: Option<String>, status_text: &str, body: &str) -> (r:
    Option<ProviderFailure>)
    ensures
        success ==> r is None,
        !success ==> (r matches Some(ProviderFailure::Network(m)) && m@ == failure_of(
            api_message,
            status_text@,
            body@,
        )),
{
    if success {
        return None;
    }
    Some(ProviderFailure::Network(failure_text(api_message, status_text, body)))
}

/// The text of a failing answer (see [`failure_of`]).
fn failure_text(api_message: Option<String>, status_text: &str, body: &str) -> (r: String)
    ensures
        r@ == failure_of(api_message, status_text@, body@),
{
    match api_message {
        Some(m) => m,
        None => {
            let mut t = string_of("HTTP ");
            push_str(&mut t, status_text);
            push_str(&mut t, ": ");
            push_str(&mut t, body);
            t
        },
    }
}

/// The first item of the array member `key` of `v`, where there is one.
pub open spec fn first_of(v: JsonValue, key: Seq<char>) -> Option<JsonValue> {
    match field(v, key) {
        Some(JsonValue::Array(a)) => if a@.len() > 0 {
            Some(a@[0])
        } else {
            None
        },
        _ => None,
    }
}

/// The count that the number `v` gives, where it is a non-negative
/// integer; 0 otherwise (and where there is none).
pub open spec fn count_of(v: Option<JsonValue>) -> u64 {
    match v {
        Some(n) => match json_i64(n) {
            Some(x) => if x >= 0 {
                x as u64
            } else {
                0
            },
            None => 0,
        },
        None => 0,
    }
}

/// The text of the optional text `t`, empty when none.
pub open spec fn text_or_empty(t: Option<Seq<char>>) -> Seq<char> {
    match t {
        Some(x) => x,
        None => Seq::empty(),
    }
}

/// What an OpenAI chat completion `c` answers: the content of the first
/// choice's message (empty when none), and the total tokens of its usage
/// (0 when not given).
pub open spec fn openai_reply_of(c: JsonValue) -> (Seq<char>, u64) {
    let content = match first_of(c, "choices"@) {
        Some(choice) => match field(choice, "message"@) {
            Some(m) => text_or_empty(str_field(m, "content"@)),
            None => Seq::empty(),
        },
        None => Seq::empty(),
    };
    let tokens = match field(c, "usage"@) {
        Some(u) => count_of(field(u, "total_tokens"@)),
        None => 0,
    };
    (content, tokens)
}

/// What a Gemini answer `g` gives: the text of the first part of the first
/// candidate's content (empty when none), and the total token count of its
/// usage metadata (0 when not given).
pub open spec fn gemini_reply_of(g: JsonValue) -> (Seq<char>, u64) {
    let content = match first_of(g, "candidates"@) {
        Some(cand) => match field(cand, "content"@) {
            Some(c) => match first_of(c, "parts"@) {
                Some(p) => text_or_empty(str_field(p, "text"@)),
                None => Seq::empty(),
            },
            None => Seq::empty(),
        },
        None => Seq::empty(),
    };
    let tokens = match field(g, "usageMetadata"@) {
        Some(u) => count_of(field(u, "totalTokenCount"@)),
        None => 0,
    };
    (content, tokens)
}

/// The first item of the array member `key` of `v`.
fn first_item<'a>(v: &'a JsonValue, key: &str) -> (r: Option<&'a JsonValue>)
    ensures
        match first_of(*v, key@) {
            Some(x) => r == Some(&x),
            None => r is None,
        },
{
    match get_field(v, key) {
        Some(JsonValue::Array(a)) => if a.len() > 0 {
            Some(&a[0])
        } else {
            None
        },
        _ => None,
    }
}

/// The count the number `v` gives (see [`count_of`]).
fn read_count(v: Option<&JsonValue>) -> (r: u64)
    ensures
        r == count_of(match v {
            Some(x) => Some(*x),
            None => None,
        }),
{
    match v {
        Some(n) => match as_i64(n) {
            Some(x) => if x >= 0 {
                x as u64
            } else {
                0
            },
            None => 0,
        },
        None => 0,
    }
}

/// The string member `key` of `v`, empty when there is none.
fn text_member(v: &JsonValue, key: &str) -> (r: String)
    ensures
        r@ == text_or_empty(str_field(*v, key@)),
{
    match get_str_field(v, key) {
        Some(t) => copy_string(t),
        None => String::new(),
    }
}

/// Reads what an OpenAI chat completion answers (see [`openai_reply_of`]).
pub fn openai_reply(completion: &JsonValue) -> (r: (String, u64))
    ensures
        (r.0@, r.1) == openai_reply_of(*completion),
{
    let content = match first_item(completion, "choices") {
        Some(choice) => match get_field(choice, "message") {
            Some(m) => text_member(m, "content"),
            None => String::new(),
        },
        None => String::new(),
    };
    let tokens = match get_field(completion, "usage") {
        Some(u) => read_count(get_field(u, "total_tokens")),
        None => 0,
    };
    (content, tokens)
}

/// Reads what a Gemini answer gives (see [`gemini_reply_of`]).
pub fn gemini_reply(answer: &JsonValue) -> (r: (String, u64))
    ensures
        (r.0@, r.1) == gemini_reply_of(*answer),
{
    let content = match first_item(answer, "candidates") {
        Some(cand) => match get_field(cand, "content") {
            Some(c) => match first_item(c, "parts") {
                Some(p) => text_member(p, "text"),
                None => String::new(),
            },
            None => String::new(),
        },
        None => String::new(),
    };
    let tokens = match get_field(answer, "usageMetadata") {
        Some(u) => read_count(get_field(u, "totalTokenCount")),
        None => 0,
    };
    (content, tokens)
}

} // verus!
