use vstd::prelude::*;

pub mod text;
pub mod fsm;
pub mod validation;
pub mod log_entries;
pub mod clock;
pub mod logger;
pub mod session_context;
pub mod core_logging;
pub mod module_loggers;
pub mod sdk_logging;
pub mod log_laws;
pub mod content;
pub mod audit;
pub mod policy;
pub mod json_value;
pub mod task;
pub mod orchestrator;
pub mod agent_types;
pub mod runner;
pub mod session_logs;
pub mod rate_limit;
pub mod assoc;
pub mod json;
pub mod hooks;
pub mod session_store;
pub mod processor;
pub mod http_headers;
pub mod tool_server;
pub mod runtime;
pub mod jsonrpc;
pub mod builtin;
pub mod type_mapping;
pub mod streaming;
pub mod transport_mode;
pub mod providers;
pub mod wasm_result;

verus! {

}
