//! Decisions of the agent's hook providers and the order in which they
//! are consulted.
//!
//! A hook answers with a JSON object: exactly `{"passthrough": true}` keeps
//! the SDK default at that point of the pipeline, any other object
//! overrides it, and an error, a payload that is not JSON or JSON that is
//! not an object aborts the operation (a failing hook never falls back).
//! The composed logic-hooks provider is consulted first; the runtime hooks
//! are consulted only when it passed through and they are enabled.
use vstd::prelude::*;
use crate::assoc::{
    has_key, key_index, lemma_first_occurrence, lemma_key_pos, lemma_lookup_after_push,
    lemma_lookup_after_set, lemma_lookup_take_push, lemma_unique_after_put, lookup, keys_unique,
};
use crate::json::JsonValue;
use crate::json_value::{json_parse, parse_json};
use crate::log_entries::LogLevel;
use crate::logger::{LogRegistry, Logger, RegistryState};
use crate::runner::AgentRunnerError;
use crate::text::{push_str, string_of};

verus! {

/// What a hook decided.
#[derive(Debug, PartialEq)]
pub enum HookDecision {
    /// Keep the SDK default at this point.
    Passthrough,
    /// Replace the SDK decision at this point by this object.
    Override(JsonValue),
    /// Abort the operation with this message.
    Failed(String),
}

/// Whether `v` is the passthrough signal: the object with the single member
/// `"passthrough": true`.
pub open spec fn passthrough_signal(v: JsonValue) -> bool {
    &&& v matches JsonValue::Object(m)
    &&& m@.len() == 1
    &&& lookup(m@, "passthrough"@) == Some(JsonValue::Bool(true))
}

/// Whether `value` is the passthrough signal `{"passthrough": true}`.
pub fn is_passthrough(value: &JsonValue) -> (r: bool)
    ensures
        r == passthrough_signal(*value),
{
    match value {
        JsonValue::Object(m) => {
            if m.len() != 1 {
                return false;
            }
            let i = key_index(m, "passthrough");
            i < m.len() && matches!(&m[i].1, JsonValue::Bool(true))
        },
        _ => false,
    }
}

/// `"<prefix> <hook_name> failed: <detail>"`.
pub open spec fn failure_message(prefix: Seq<char>, hook_name: Seq<char>, detail: Seq<char>) -> Seq<
    char,
> {
    prefix + " "@ + hook_name + " failed: "@ + detail
}

/// What a hook answered: `Err` with the hook's message when it failed, or
/// `Ok` with the parse of its payload (`Err` with the parser's message when
/// the payload is not JSON).
pub open spec fn hook_answer(result: Result<String, String>) -> Result<Result<JsonValue, Seq<char>>, Seq<char>> {
    match result {
        Err(m) => Err(m@),
        Ok(p) => Ok(json_parse(p@)),
    }
}

/// The failure message of a hook's answer, or `None` when the answer is a
/// JSON object.
pub open spec fn hook_failure(
    prefix: Seq<char>,
    hook_name: Seq<char>,
    answer: Result<Result<JsonValue, Seq<char>>, Seq<char>>,
) -> Option<Seq<char>> {
    match answer {
        Err(m) => Some(failure_message(prefix, hook_name, m)),
        Ok(Err(e)) => Some(failure_message(prefix, hook_name, "returned unparseable JSON: "@ + e)),
        Ok(Ok(v)) => if !(v is Object) {
            Some(failure_message(prefix, hook_name, "returned non-object JSON"@))
        } else {
            None
        },
    }
}

/// Whether `d` is the decision that a hook's answer stands for, failure
/// messages starting with `prefix` and the hook's name.
pub open spec fn classifies(
    d: HookDecision,
    prefix: Seq<char>,
    hook_name: Seq<char>,
    answer: Result<Result<JsonValue, Seq<char>>, Seq<char>>,
) -> bool {
    match hook_failure(prefix, hook_name, answer) {
        Some(m) => d matches HookDecision::Failed(f) && f@ == m,
        None => match answer {
            Ok(Ok(v)) => if passthrough_signal(v) {
                d is Passthrough
            } else {
                d == HookDecision::Override(v)
            },
            _ => false,
        },
    }
}

/// Builds `"<prefix> <hook_name> failed: <detail>"`.
fn failure_text(prefix: &str, hook_name: &str, detail: &str) -> (r: String)
    ensures
        r@ == failure_message(prefix@, hook_name@, detail@),
{
    let mut m = string_of(prefix);
    push_str(&mut m, " ");
    push_str(&mut m, hook_name);
    push_str(&mut m, " failed: ");
    push_str(&mut m, detail);
    m
}

fn classify_with_prefix(prefix: &str, hook_name: &str, result: Result<String, String>) -> (r:
    HookDecision)
    ensures
        classifies(r, prefix@, hook_name@, hook_answer(result)),
{
    match result {
        Err(msg) => HookDecision::Failed(failure_text(prefix, hook_name, msg.as_str())),
        Ok(payload) => match parse_json(payload.as_str()) {
            Err(e) => {
                let mut detail = string_of("returned unparseable JSON: ");
                push_str(&mut detail, e.as_str());
                HookDecision::Failed(failure_text(prefix, hook_name, detail.as_str()))
            },
            Ok(value) => {
                if !matches!(&value, JsonValue::Object(_)) {
                    HookDecision::Failed(failure_text(prefix, hook_name, "returned non-object JSON"))
                } else if is_passthrough(&value) {
                    HookDecision::Passthrough
                } else {
                    HookDecision::Override(value)
                }
            },
        },
    }
}

/// Classifies the answer of runtime hook `hook_name` (its error, or its
/// payload as JSON text); failures read `runtime-hook <hook_name> failed: ...`.
pub fn classify_decision(hook_name: &str, result: Result<String, String>) -> (r: HookDecision)
    ensures
        classifies(r, "runtime-hook"@, hook_name@, hook_answer(result)),
{
    classify_with_prefix("runtime-hook", hook_name, result)
}

/// Classifies the answer of logic hook `hook_name`: `None` to keep the SDK
/// default, `Some` with the overriding object, or the failure as an
/// internal error reading `logic-hook <hook_name> failed: ...`.
pub fn classify_hook_result(hook_name: &str, result: Result<String, String>) -> (r: Result<
    Option<JsonValue>,
    AgentRunnerError,
>)
    ensures
        match hook_failure("logic-hook"@, hook_name@, hook_answer(result)) {
            Some(m) => r matches Err(AgentRunnerError::Internal(e)) && e@ == m,
            None => match hook_answer(result) {
                Ok(Ok(v)) => if passthrough_signal(v) {
                    r == Ok::<Option<JsonValue>, AgentRunnerError>(None)
                } else {
                    r == Ok::<Option<JsonValue>, AgentRunnerError>(Some(v))
                },
                _ => false,
            },
        },
{
    match classify_with_prefix("logic-hook", hook_name, result) {
        HookDecision::Failed(m) => Err(AgentRunnerError::Internal(m)),
        HookDecision::Passthrough => Ok(None),
        HookDecision::Override(v) => Ok(Some(v)),
    }
}

/// What a final decision means for the pipeline: `Ok(None)` keeps the
/// default, `Ok(Some(v))` overrides it with `v`, `Err` aborts.
pub open spec fn outcome_of(d: HookDecision) -> Result<Option<JsonValue>, AgentRunnerError> {
    match d {
        HookDecision::Failed(m) => Err(AgentRunnerError::Internal(m)),
        HookDecision::Override(v) => Ok(Some(v)),
        HookDecision::Passthrough => Ok(None),
    }
}

/// Resolves the composed provider's decision against the runtime hook.
///
/// The composed decision is authoritative: an override is used as it is
/// and a failure aborts, and in both cases `runtime_call` is not made.
/// Only when the composed provider passed through and runtime hooks are
/// enabled is `runtime_call` consulted, and its decision is final.
pub fn resolve_precedence(
    runtime_enabled: bool,
    composed: HookDecision,
    runtime_call: impl FnOnce() -> HookDecision,
) -> (r: Result<Option<JsonValue>, AgentRunnerError>)
    requires
        composed is Passthrough && runtime_enabled ==> call_requires(runtime_call, ()),
    ensures
        !(composed is Passthrough) ==> r == outcome_of(composed),
        composed is Passthrough && !runtime_enabled ==> r == Ok::<
            Option<JsonValue>,
            AgentRunnerError,
        >(None),
        composed is Passthrough && runtime_enabled ==> exists|d: HookDecision|
            call_ensures(runtime_call, (), d) && r == outcome_of(d),
{
    match composed {
        HookDecision::Failed(msg) => Err(AgentRunnerError::Internal(msg)),
        HookDecision::Override(value) => Ok(Some(value)),
        HookDecision::Passthrough => {
            if !runtime_enabled {
                Ok(None)
            } else {
                let d = runtime_call();
                let ghost gd = d;
                let res = match d {
                    HookDecision::Failed(msg) => Err(AgentRunnerError::Internal(msg)),
                    HookDecision::Override(value) => Ok(Some(value)),
                    HookDecision::Passthrough => Ok(None),
                };
                assert(call_ensures(runtime_call, (), gd) && res == outcome_of(gd));
                res
            }
        },
    }
}

/// The members of `default` with those of `over` laid over them: a key of
/// `over` takes its value there, any other key keeps the default's.
pub open spec fn merged_member(
    default: Seq<(String, JsonValue)>,
    over: Seq<(String, JsonValue)>,
    key: Seq<char>,
) -> Option<JsonValue> {
    if has_key(over, key) {
        lookup(over, key)
    } else {
        lookup(default, key)
    }
}

/// Lays the object `override_value` over the object `default`: members of
/// the override are authoritative, members it lacks keep the SDK default.
/// Either argument not being an object is an internal error naming the
/// runtime hook `hook_name`.
pub fn merge_json_object(hook_name: &str, default: JsonValue, override_value: JsonValue) -> (r:
    Result<JsonValue, AgentRunnerError>)
    ensures
        !(default is Object) ==> (r matches Err(AgentRunnerError::Internal(m)) && m@
            == failure_message(
            "runtime-hook"@,
            hook_name@,
            "SDK default is not a JSON object"@,
        )),
        default is Object && !(override_value is Object) ==> (r matches Err(
            AgentRunnerError::Internal(m),
        ) && m@ == failure_message(
            "runtime-hook"@,
            hook_name@,
            "override is not a JSON object"@,
        )),
        default is Object && override_value is Object ==> (r matches Ok(JsonValue::Object(m))
            && (forall|k: Seq<char>|
            #![trigger lookup(m@, k)]
            lookup(m@, k) == merged_member(
                default->Object_0@,
                override_value->Object_0@,
                k,
            )) && (forall|k: Seq<char>|
            #![trigger has_key(m@, k)]
            has_key(m@, k) <==> has_key(default->Object_0@, k) || has_key(
                override_value->Object_0@,
                k,
            )) && (keys_unique(default->Object_0@) ==> keys_unique(m@))),
{
    let mut merged = match default {
        JsonValue::Object(d) => d,
        _ => {
            return Err(
                AgentRunnerError::Internal(
                    failure_text("runtime-hook", hook_name, "SDK default is not a JSON object"),
                ),
            );
        },
    };
    let mut rest = match override_value {
        JsonValue::Object(o) => o,
        _ => {
            return Err(
                AgentRunnerError::Internal(
                    failure_text("runtime-hook", hook_name, "override is not a JSON object"),
                ),
            );
        },
    };
    let ghost d0 = merged@;
    let ghost o0 = rest@;
    // Which members of the override are the first with their key.
    let mut firsts: Vec<bool> = Vec::new();
    let mut j: usize = 0;
    while j < rest.len()
        invariant
            j <= rest.len(),
            rest@ == o0,
            firsts@.len() == j,
            forall|i: int|
                0 <= i < j ==> #[trigger] firsts@[i] == !has_key(o0.take(i), o0[i].0@),
        decreases rest.len() - j,
    {
        let f = key_index(&rest, rest[j].0.as_str()) == j;
        proof {
            lemma_first_occurrence(o0, j as int);
        }
        firsts.push(f);
        j = j + 1;
    }
    assert(merged@ == d0);
    let mut j: usize = 0;
    while j < firsts.len()
        invariant
            j <= firsts.len(),
            firsts@.len() == o0.len(),
            rest@ == o0.subrange(j as int, o0.len() as int),
            forall|i: int|
                0 <= i < o0.len() ==> #[trigger] firsts@[i] == !has_key(o0.take(i), o0[i].0@),
            forall|k: Seq<char>|
                #![trigger lookup(merged@, k)]
                lookup(merged@, k) == merged_member(d0, o0.take(j as int), k),
            keys_unique(d0) ==> keys_unique(merged@),
        decreases firsts.len() - j,
    {
        let entry = rest.remove(0);
        assert(entry == o0[j as int]);
        assert(rest@ =~= o0.subrange(j + 1, o0.len() as int));
        proof {
            lemma_lookup_take_push(o0, j as int);
        }
        if firsts[j] {
            let pos = key_index(&merged, entry.0.as_str());
            proof {
                lemma_key_pos(merged@, entry.0@);
            }
            if pos < merged.len() {
                let ghost before = merged@;
                merged.set(pos, entry);
                proof {
                    lemma_lookup_after_set(before, pos as int, o0[j as int]);
                    if keys_unique(d0) {
                        lemma_unique_after_put(before, o0[j as int]);
                    }
                }
            } else {
                let ghost before = merged@;
                merged.push(entry);
                proof {
                    lemma_lookup_after_push(before, o0[j as int]);
                    if keys_unique(d0) {
                        lemma_unique_after_put(before, o0[j as int]);
                    }
                }
            }
        }
        j = j + 1;
    }
    assert(o0.take(o0.len() as int) =~= o0);
    assert forall|k: Seq<char>| #[trigger] has_key(merged@, k) <==> has_key(d0, k) || has_key(o0, k) by {
        assert(lookup(merged@, k) == merged_member(d0, o0, k));
    }
    Ok(JsonValue::Object(merged))
}

/// The error text for a default prepared turn that is not JSON.
pub open spec fn unparseable_default_text(parse_error: Seq<char>) -> Seq<char> {
    "runtime-hook prepare-turn failed: default prepared turn is not JSON: "@ + parse_error
}

/// What applying the runtime hook's decision `d` to the default prepared
/// turn (`default`, the parsed default or the parse error) gives, from the
/// log `before` to `after` of session `sid`: nothing to change on
/// passthrough, the hook's failure, or the override laid over the default
/// (logged); a default that is not JSON, or not an object, and an
/// override that is not an object are internal errors.
pub open spec fn prepare_turn_applied(
    d: HookDecision,
    default: Result<JsonValue, String>,
    r: Result<Option<JsonValue>, AgentRunnerError>,
    before: RegistryState,
    after: RegistryState,
    sid: Seq<char>,
) -> bool {
    match outcome_of(d) {
        Err(e) => r == Err::<Option<JsonValue>, AgentRunnerError>(e) && after == before,
        Ok(None) => r == Ok::<Option<JsonValue>, AgentRunnerError>(None) && after == before,
        Ok(Some(o)) => match default {
            Err(pe) => r matches Err(AgentRunnerError::Internal(m)) && m@ == unparseable_default_text(pe@)
                && after == before,
            Ok(dv) => if !(dv is Object) {
                &&& r matches Err(AgentRunnerError::Internal(m)) && m@ == failure_message(
                    "runtime-hook"@,
                    "prepare-turn"@,
                    "SDK default is not a JSON object"@,
                )
                &&& after == before
            } else if !(o is Object) {
                &&& r matches Err(AgentRunnerError::Internal(m)) && m@ == failure_message(
                    "runtime-hook"@,
                    "prepare-turn"@,
                    "override is not a JSON object"@,
                )
                &&& after == before
            } else {
                &&& r matches Ok(Some(JsonValue::Object(m))) && forall|k: Seq<char>|
                    #![trigger lookup(m@, k)]
                    lookup(m@, k) == merged_member(dv->Object_0@, o->Object_0@, k)
                &&& before.logged_at_some_time(
                    after,
                    sid,
                    LogLevel::Debug,
                    "runtime-hook prepare-turn: override applied"@,
                    Some("wasm_agent"@),
                    None,
                )
            },
        },
    }
}

/// Applies the `prepare-turn` runtime hook to the default prepared turn of
/// session `session_id`, the composed provider having passed through: the
/// hook (`runtime_call`) is consulted only when runtime hooks are enabled.
/// `Ok(None)` keeps the default as it is; an override is laid over the
/// default (`default_value`: the default parsed, or the parse error's text)
/// and the merged turn is given back, with a debug entry; a failing hook
/// aborts the turn.
pub fn apply_prepare_turn_override(
    reg: &mut LogRegistry,
    session_id: &str,
    runtime_enabled: bool,
    runtime_call: impl FnOnce() -> HookDecision,
    default_value: Result<JsonValue, String>,
) -> (r: Result<Option<JsonValue>, AgentRunnerError>)
    requires
        old(reg).wf(),
        runtime_enabled ==> call_requires(runtime_call, ()),
    ensures
        final(reg).wf(),
        !runtime_enabled ==> r == Ok::<Option<JsonValue>, AgentRunnerError>(None) && final(reg)@
            == old(reg)@,
        runtime_enabled ==> exists|d: HookDecision|
            #[trigger] call_ensures(runtime_call, (), d) && prepare_turn_applied(
                d,
                default_value,
                r,
                old(reg)@,
                final(reg)@,
                session_id@,
            ),
{
    let resolved = resolve_precedence(runtime_enabled, HookDecision::Passthrough, runtime_call);
    let over = match resolved {
        Err(e) => {
            return Err(e);
        },
        Ok(None) => {
            return Ok(None);
        },
        Ok(Some(o)) => o,
    };
    let dv = match default_value {
        Err(pe) => {
            let mut m = string_of("runtime-hook prepare-turn failed: default prepared turn is not JSON: ");
            push_str(&mut m, pe.as_str());
            return Err(AgentRunnerError::Internal(m));
        },
        Ok(v) => v,
    };
    let merged = merge_json_object("prepare-turn", dv, over);
    match merged {
        Ok(m) => {
            Logger::new(session_id).log_with_source(
                reg,
                LogLevel::Debug,
                "wasm_agent",
                "runtime-hook prepare-turn: override applied",
            );
            Ok(Some(m))
        },
        Err(e) => Err(e),
    }
}

} // verus!
