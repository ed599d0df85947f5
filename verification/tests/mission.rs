use susi::error::EaiError;
use susi::gawd::SusiMasterAgent;
use susi::gawd::A2AMessage;
use susi::mission::{AnswerPlan, AttemptOutcome, GawdAgentInfo, MissionRetry, MissionRoute, MissionStep, SusiMissionReport};

#[test]
fn goals_are_routed_by_query_then_shape() {
    let ama = SusiMasterAgent::new();
    assert_eq!(ama.route_mission("  IDENTITY "), MissionRoute::Identity);
    assert_eq!(ama.route_mission("susi version"), MissionRoute::Version);
    assert_eq!(ama.route_mission("status"), MissionRoute::Status);
    assert_eq!(ama.route_mission("susi models"), MissionRoute::Models);
    assert_eq!(ama.route_mission("split this work"), MissionRoute::Parallel);
    assert_eq!(ama.route_mission("build it and then test it"), MissionRoute::Planned);
    assert_eq!(ama.route_mission("[STEP 1] build it and then test it"), MissionRoute::Swarm);
    assert_eq!(ama.route_mission(&"x".repeat(151)), MissionRoute::Planned);
    assert_eq!(ama.route_mission("fix the bug"), MissionRoute::Swarm);
}

#[test]
fn answers_come_from_motion_swarm_or_inference() {
    let ama = SusiMasterAgent::new();
    match ama.plan_answer("please SYNC repos", "ctx", "1.0") {
        AnswerPlan::Motion(a) => assert_eq!(a, "SMA-Motion-Convergence (1.0):\n\nctx"),
        other => panic!("unexpected {:?}", other),
    }
    match ama.plan_answer("explain x", "wisdom", "1.0") {
        AnswerPlan::Swarm(a) => assert_eq!(a, "wisdom"),
        other => panic!("unexpected {:?}", other),
    }
    match ama.plan_answer("explain x", "No valid wisdom gathered.", "1.0") {
        AnswerPlan::Tier2(p) => assert_eq!(
            p,
            "MISSION_GOAL: explain x\n\nLOCAL_SWARM_CONTEXT:\nNo valid wisdom gathered.\n\n[INSTRUCTION]: Resolve this mission using native local model inference."
        ),
        other => panic!("unexpected {:?}", other),
    }
    assert_eq!(
        ama.tier2_answer("1.0", "m", "out"),
        "SMA-Tier2-Mission-Synthesis (1.0 via m):\n\nout"
    );
}

fn truth_error(detail: &str) -> EaiError {
    EaiError::Governance(format!("TRUTH_VIOLATION: {}", detail))
}

#[test]
fn verified_answer_completes() {
    let mut m = MissionRetry::new("goal");
    match m.record(AttemptOutcome::Verified("done".to_string())) {
        MissionStep::Complete(a) => assert_eq!(a, "done"),
        other => panic!("unexpected {:?}", other),
    }
    assert_eq!(m.retry_count, 0);
}

#[test]
fn repeated_truth_violation_fails_at_once() {
    let mut m = MissionRetry::new("goal");
    assert!(matches!(m.record(AttemptOutcome::Refuted(truth_error("a"))), MissionStep::Retry));
    assert_eq!(m.retry_count, 1);
    assert_eq!(
        m.current_goal,
        "goal\n\n[CORRECTION ATTEMPT 1]: Previous response failed reality check.\nError detail: Governance Violation: TRUTH_VIOLATION: a"
    );
    assert_eq!(m.seen_signatures.len(), 1);
    assert_eq!(m.seen_signatures[0].len(), 32);
    match m.record(AttemptOutcome::Refuted(truth_error("a"))) {
        MissionStep::Fail(e) => assert_eq!(e, truth_error("a")),
        other => panic!("unexpected {:?}", other),
    }
    assert_eq!(m.retry_count, 1);
}

#[test]
fn other_reality_errors_fail_without_retry() {
    let mut m = MissionRetry::new("goal");
    let e = EaiError::Filesystem("disk".to_string());
    match m.record(AttemptOutcome::Refuted(e.clone())) {
        MissionStep::Fail(f) => assert_eq!(f, e),
        other => panic!("unexpected {:?}", other),
    }
}

#[test]
fn three_failures_exhaust_the_mission() {
    let mut m = MissionRetry::new("goal");
    assert!(matches!(m.record(AttemptOutcome::Refuted(truth_error("first"))), MissionStep::Retry));
    assert!(matches!(
        m.record(AttemptOutcome::Misaligned(EaiError::Governance("bad".to_string()))),
        MissionStep::Retry
    ));
    assert_eq!(
        m.current_goal,
        "goal\n\n[CORRECTION ATTEMPT 2]: Response violated substrate axioms.\nViolation: Governance Violation: bad"
    );
    match m.record(AttemptOutcome::Misaligned(EaiError::Governance("bad".to_string()))) {
        MissionStep::Fail(e) => assert_eq!(
            e,
            EaiError::Governance(
                "Recursive reasoning failed after 3 attempts. Last violation: Governance Violation: TRUTH_VIOLATION: first"
                    .to_string()
            )
        ),
        other => panic!("unexpected {:?}", other),
    }
    assert_eq!(m.retry_count, 3);
}

#[test]
fn correction_keeps_only_the_first_two_hundred_characters() {
    let mut m = MissionRetry::new("g");
    let long = "y".repeat(500);
    m.record(AttemptOutcome::Misaligned(EaiError::Internal(long)));
    let expected = format!(
        "g\n\n[CORRECTION ATTEMPT 1]: Response violated substrate axioms.\nViolation: {}",
        format!("Internal Engine Error: {}", "y".repeat(500)).chars().take(200).collect::<String>()
    );
    assert_eq!(m.current_goal, expected);
}

fn report(final_answer: &str) -> SusiMissionReport {
    SusiMissionReport {
        goal: "say \"hi\"".to_string(),
        status: "COMPLETE".to_string(),
        agents: vec![GawdAgentInfo {
            name: "UniversalReasoner".to_string(),
            provider: "SUSI Local".to_string(),
            url: "native://substrate".to_string(),
            rank_milli: 900,
        }],
        interactions: vec![A2AMessage {
            sender: "UniversalReasoner".to_string(),
            recipient: "SMA-Master".to_string(),
            action: "MISSION_FLUX".to_string(),
            payload: "hi\tthere".to_string(),
        }],
        final_answer: final_answer.to_string(),
    }
}

fn expected_step() -> String {
    let mut input = serde_json::Map::new();
    input.insert("goal".to_string(), serde_json::Value::String("say \"hi\"".to_string()));
    let mut step = serde_json::Map::new();
    step.insert("action".to_string(), serde_json::Value::String("supervise_mission_swarm".to_string()));
    step.insert("action_input".to_string(), serde_json::Value::Object(input));
    step.insert(
        "observation".to_string(),
        serde_json::Value::String("Swarm telemetry converged successfully".to_string()),
    );
    step.insert(
        "thought".to_string(),
        serde_json::Value::String(
            "SUSI Mission Goal: say \"hi\"\nStatus: COMPLETE\nAgents Recruited: 1\n\n- [Agent] UniversalReasoner (SUSI Local)\n- [UniversalReasoner] Action: MISSION_FLUX | Payload: hi\tthere"
                .to_string(),
        ),
    );
    serde_json::to_string_pretty(&serde_json::Value::Object(step)).unwrap()
}

#[test]
fn protocol_format_matches_pretty_json_and_appends_the_answer() {
    assert_eq!(report("  ").to_protocol_format(true), expected_step());
    assert_eq!(report("say \"hi\"").to_protocol_format(false), expected_step());
    assert_eq!(report("[FAST-PATH COMPLETE] x").to_protocol_format(false), expected_step());
    assert_eq!(report(" hello \n").to_protocol_format(false), format!("{}\n\nhello", expected_step()));
}
