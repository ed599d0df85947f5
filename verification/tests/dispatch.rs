use susi::error::EaiError;
use susi::fleet::GawdAgentFleet;

fn names(v: &[&str]) -> Vec<String> {
    v.iter().map(|s| s.to_string()).collect()
}

#[test]
fn governance_agents_are_split_out_in_order() {
    let fleet = names(&["ContextAgent", "SafetyAgent", "DevOpsAgent", "SecurityAgent"]);
    let (gov, rest) = GawdAgentFleet::governance_split(&fleet);
    assert_eq!(gov, vec![1, 3]);
    assert_eq!(rest, vec![0, 2]);
    let (gov, rest) = GawdAgentFleet::governance_split(&names(&[]));
    assert!(gov.is_empty() && rest.is_empty());
}

#[test]
fn governance_veto_stops_dispatch() {
    let mut results = Vec::new();
    assert!(GawdAgentFleet::record_governance(&mut results, "SafetyAgent".to_string(), Ok("clear".to_string())));
    let go_on = GawdAgentFleet::record_governance(
        &mut results,
        "SecurityAgent".to_string(),
        Err(EaiError::governance("leaks a key")),
    );
    assert!(!go_on);
    assert_eq!(
        results,
        vec![
            ("SafetyAgent".to_string(), "clear".to_string()),
            ("SecurityAgent".to_string(), "[GOVERNANCE_BLOCK] Governance Violation: leaks a key".to_string()),
        ]
    );
}

#[test]
fn agent_reports() {
    assert_eq!(GawdAgentFleet::agent_report(Ok("done".to_string()), false), "done");
    assert_eq!(
        GawdAgentFleet::agent_report(Err(EaiError::process("spawn failed")), false),
        "Agent Execution Failed: Process Error: spawn failed"
    );
    assert_eq!(
        GawdAgentFleet::agent_report(Ok("done".to_string()), true),
        "[STALLED] Agent execution cancelled by Swarm Watchdog."
    );
    assert!(GawdAgentFleet::report_failed("Agent Execution Failed: x"));
    assert!(GawdAgentFleet::report_failed("[STALLED] y"));
    assert!(!GawdAgentFleet::report_failed("done"));
}

#[test]
fn flux_trace_lines() {
    assert_eq!(
        GawdAgentFleet::flux_trace("DevOpsAgent", "  built ok \n", "12ms"),
        Some("- [Swarm Flux Trace] DevOpsAgent: built ok (Latency: 12ms)".to_string())
    );
    assert_eq!(
        GawdAgentFleet::flux_trace("DevOpsAgent", "a\nb\nc", "3ms"),
        Some("- [Swarm Flux Trace] DevOpsAgent: [Generated 3 lines of payload/content] (Latency: 3ms)".to_string())
    );
    assert_eq!(GawdAgentFleet::flux_trace("X", "   ", "1ms"), None);
    assert_eq!(GawdAgentFleet::flux_trace("X", "Query reflex audited: ok", "1ms"), None);
}
