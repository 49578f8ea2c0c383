//! How an HTTP transport settles on a way of talking to its server when it
//! connects: the configured mode, whether the target can listen for
//! server-sent events, and whether the event endpoint was received decide
//! between a stateful session and plain stateless posts.
use vstd::prelude::*;
use crate::json::{get_str_field, str_field, JsonValue};
use crate::text::copy_string;

verus! {

/// How a transport talks to its server.
#[derive(Debug, Clone, Copy, PartialEq, Eq, Structural)]
pub enum TransportMode {
    /// A session opened over server-sent events.
    Stateful,
    /// Each request posted directly to the server's address.
    Stateless,
    /// Stateful when the server offers it, stateless otherwise.
    Auto,
}

/// What connecting starts with.
#[derive(Debug, Clone, Copy, PartialEq, Eq, Structural)]
pub enum ConnectStart {
    /// The configured mode cannot work on this target.
    Refuse,
    /// Post directly to the server's address.
    PostDirectly,
    /// Listen for server-sent events and wait for the session endpoint.
    ListenForEvents,
}

/// What connecting in `mode` starts with; `wasm` tells whether the target
/// is a WebAssembly one, which cannot listen for server-sent events.
pub open spec fn start_of(mode: TransportMode, wasm: bool) -> ConnectStart {
    match mode {
        TransportMode::Stateful => if wasm {
            ConnectStart::Refuse
        } else {
            ConnectStart::ListenForEvents
        },
        TransportMode::Stateless => ConnectStart::PostDirectly,
        TransportMode::Auto => if wasm {
            ConnectStart::PostDirectly
        } else {
            ConnectStart::ListenForEvents
        },
    }
}

/// What connecting in `mode` starts with (see [`start_of`]).
pub fn connect_start(mode: TransportMode, wasm: bool) -> (r: ConnectStart)
    ensures
        r == start_of(mode, wasm),
{
    match mode {
        TransportMode::Stateful => if wasm {
            ConnectStart::Refuse
        } else {
            ConnectStart::ListenForEvents
        },
        TransportMode::Stateless => ConnectStart::PostDirectly,
        TransportMode::Auto => if wasm {
            ConnectStart::PostDirectly
        } else {
            ConnectStart::ListenForEvents
        },
    }
}

/// The error of a stateful transport on a WebAssembly target.
pub fn refusal_text() -> (r: String)
    ensures
        r@ == "Stateful SSE mode is not supported on wasm32 targets"@,
{
    String::from_str("Stateful SSE mode is not supported on wasm32 targets")
}

/// The mode a transport configured with `configured` settles on once
/// listening for events gave `endpoint` (the session endpoint arrived, or
/// the error that stopped it): a received endpoint makes it stateful; a
/// stateful transport fails without one, an automatic one falls back to
/// stateless posts.  A stateless transport does not listen and stays so.
pub open spec fn settled_mode(
    configured: TransportMode,
    endpoint: Result<(), String>,
) -> Result<TransportMode, String> {
    match configured {
        TransportMode::Stateless => Ok(TransportMode::Stateless),
        TransportMode::Stateful => match endpoint {
            Ok(()) => Ok(TransportMode::Stateful),
            Err(e) => Err(e),
        },
        TransportMode::Auto => match endpoint {
            Ok(()) => Ok(TransportMode::Stateful),
            Err(_) => Ok(TransportMode::Stateless),
        },
    }
}

/// The mode a transport settles on (see [`settled_mode`]).
pub fn connect_mode(configured: TransportMode, endpoint: Result<(), String>) -> (r: Result<
    TransportMode,
    String,
>)
    ensures
        r == settled_mode(configured, endpoint),
{
    match configured {
        TransportMode::Stateless => Ok(TransportMode::Stateless),
        TransportMode::Stateful => match endpoint {
            Ok(()) => Ok(TransportMode::Stateful),
            Err(e) => Err(e),
        },
        TransportMode::Auto => match endpoint {
            Ok(()) => Ok(TransportMode::Stateful),
            Err(_) => Ok(TransportMode::Stateless),
        },
    }
}

/// The instructions a server gave in its answer to `initialize`: its
/// string member `instructions`, where it has one.
pub fn server_instructions(initialize_result: &JsonValue) -> (r: Option<String>)
    ensures
        match str_field(*initialize_result, "instructions"@) {
            Some(t) => r matches Some(s) && s@ == t,
            None => r is None,
        },
{
    match get_str_field(initialize_result, "instructions") {
        Some(t) => Some(copy_string(t)),
        None => None,
    }
}

} // verus!
