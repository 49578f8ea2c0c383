use antikythera::log_entries::{LogFilter, LogLevel};
use antikythera::logger::{LogRegistry, Logger};
use antikythera::module_loggers::{AgentLogger, ProviderLogger, TransportLogger};
use antikythera::session_context::SessionContext;

fn entries(reg: &LogRegistry, session: &str) -> Vec<antikythera::log_entries::LogEntry> {
    Logger::new(session).get_logs(reg, &LogFilter::new()).entries
}

#[test]
fn agent_logger_formats_steps_and_results() {
    let mut reg = LogRegistry::new();
    let log = AgentLogger::new(&mut reg, "s");
    log.agent_step(&mut reg, 2, 10);
    log.tool_result(&mut reg, "search", false, 3);
    log.agent_complete(&mut reg, 4);
    let e = entries(&reg, "s");
    assert_eq!(e.len(), 3);
    assert_eq!(e[0].message, "Agent step 2/10");
    assert_eq!(e[0].level, LogLevel::Debug);
    assert_eq!(e[0].source.as_deref(), Some("agent"));
    assert_eq!(e[1].message, "Tool result: search (step 3)");
    assert_eq!(e[1].level, LogLevel::Error);
    assert_eq!(
        e[1].context.as_deref(),
        Some("{\"tool\": \"search\", \"success\": false, \"step\": 3}")
    );
    assert_eq!(e[2].message, "Agent completed in 4 steps");
}

#[test]
fn module_loggers_follow_the_context() {
    let mut reg = LogRegistry::new();
    reg.set_active_session("active");
    let ctx = SessionContext::from_active(&reg);
    let t = TransportLogger::from_context(&mut reg, &ctx);
    assert_eq!(t.session_id(), "active");
    t.info(&mut reg, "hello");
    let p = ProviderLogger::new(&mut reg, "prov");
    p.warn(&mut reg, "careful");
    assert_eq!(entries(&reg, "active")[0].message, "hello");
    assert_eq!(entries(&reg, "prov")[0].level, LogLevel::Warn);
}
