use susi::gawd::{A2AMessage, SusiSupervisor};
use susi::swarm::{ClusterPeer, Synthesis};

fn peer(id: &str, addr: &str, kind: &str, active: bool) -> ClusterPeer {
    ClusterPeer {
        node_id: id.to_string(),
        address: addr.to_string(),
        node_type: kind.to_string(),
        is_active: active,
        capabilities: vec![],
        registry_checksum: 0,
        trust_milli: 600,
    }
}

fn pair(a: &str, b: &str) -> (String, String) {
    (a.to_string(), b.to_string())
}

fn msg(sender: &str, payload: &str) -> A2AMessage {
    A2AMessage {
        sender: sender.to_string(),
        recipient: "SMA-Master".to_string(),
        action: "MISSION_FLUX".to_string(),
        payload: payload.to_string(),
    }
}

#[test]
fn test_mission_broadcast_counts_remote_peers_and_picks_first_two() {
    let peers = vec![
        peer("susi-local-master", "127.0.0.1:9090", "LOCAL_MASTER", true),
        peer("ws-1", "10.0.0.2:9090", "WORKSTATION_NODE", true),
        peer("ws-2", "10.0.0.3:9090", "WORKSTATION_NODE", true),
        peer("loop", "localhost:9091", "WORKSTATION_NODE", true),
        peer("off", "10.0.0.4:9090", "WORKSTATION_NODE", false),
    ];
    let (count, targets) = SusiSupervisor::mission_broadcast(&peers);
    assert_eq!(count, 2);
    assert_eq!(targets, vec![1]);
    assert_eq!(SusiSupervisor::mission_broadcast(&vec![]), (0, vec![]));
}

#[test]
fn test_collect_swarm_flux_detects_gaps() {
    let logs = vec![pair("CoderAgent", "done"), pair("ScoutAgent", "[CAPABILITY_GAP] need tool")];
    let (msgs, gap) = SusiSupervisor::collect_swarm_flux(&logs, "MISSION_FLUX");
    assert!(gap);
    assert_eq!(msgs.len(), 2);
    assert_eq!(msgs[1].sender, "ScoutAgent");
    assert_eq!(msgs[1].recipient, "SMA-Master");
    assert_eq!(msgs[1].action, "MISSION_FLUX");
    assert_eq!(msgs[1].payload, "[CAPABILITY_GAP] need tool");
    let (_, gap) = SusiSupervisor::collect_swarm_flux(&vec![pair("A", "ok")], "MISSION_FLUX");
    assert!(!gap);
}

#[test]
fn test_needs_reinforcement_skips_queries() {
    assert!(SusiSupervisor::needs_reinforcement("build a web server", true));
    assert!(!SusiSupervisor::needs_reinforcement("build a web server", false));
    assert!(!SusiSupervisor::needs_reinforcement("Show STATUS", true));
    assert!(!SusiSupervisor::needs_reinforcement("ls", true));
    assert!(!SusiSupervisor::needs_reinforcement("ls -la", true));
    assert!(SusiSupervisor::needs_reinforcement("lsblk everything", true));
}

#[test]
fn test_reinforcement_flux_and_goal() {
    let extra = SusiSupervisor::reinforcement_flux(&vec![pair("Coder", "retry ok")]);
    assert_eq!(extra[0].sender, "Coder_Reinforcement");
    assert_eq!(extra[0].action, "REINFORCEMENT_FLUX");
    let logs = vec![msg("A", "x\"y")];
    let goal = SusiSupervisor::reinforcement_goal("fix it", &logs);
    assert_eq!(goal, format!("REINFORCE_MISSION: fix it\n[PREVIOUS_FAILURES]: {:?}", logs));
    assert!(goal.contains("A2AMessage { sender: \"A\""));
}

#[test]
fn test_consensus_plan_reasons_over_weighted_wisdom() {
    let bb = vec![pair("CoderAgent", "patched"), pair("Stranger", "noise"), pair("TestAgent", "FAILURE: red")];
    let fleet = vec![pair("CoderAgent", "0.90"), pair("TestAgent", "0.75")];
    let plan = SusiSupervisor::consensus_plan("build a cache", &bb, &fleet);
    let wisdom = "[AGENT: CoderAgent (Rank: 0.90)] patched\n[AGENT: TestAgent (Rank: 0.75)] FAILURE: red\n";
    assert_eq!(plan.weighted_wisdom, wisdom);
    assert_eq!(plan.rewarded, vec!["CoderAgent".to_string()]);
    assert_eq!(plan.success_count, 2);
    match plan.synthesis {
        Synthesis::Reason(p) => assert_eq!(
            p,
            format!("MISSION_GOAL: build a cache\n\n[WEIGHTED_WISDOM]:\n{}\n\n[INSTRUCTION]: Resolve conflicts using rank-weighted priority and synthesize a unified high-fidelity mission answer.", wisdom)
        ),
        other => panic!("unexpected {:?}", other),
    }
}

#[test]
fn test_consensus_plan_answers_directly_with_search_and_translation() {
    let bb = vec![pair("TranslationAgent", "hola"), pair("SearchAgent", "found it")];
    let plan = SusiSupervisor::consensus_plan("translate hello", &bb, &vec![]);
    match plan.synthesis {
        Synthesis::Direct(a) => assert_eq!(a, "### SearchAgent Output\nfound it\n\n---\n\n### TranslationAgent Output\nhola"),
        other => panic!("unexpected {:?}", other),
    }
    let bb = vec![pair("AdminAgent", "v3")];
    let fleet = vec![pair("AdminAgent", "1.00")];
    let plan = SusiSupervisor::consensus_plan("admin version", &bb, &fleet);
    match plan.synthesis {
        Synthesis::Direct(a) => assert_eq!(a, "[AGENT: AdminAgent (Rank: 1.00)] v3\n"),
        other => panic!("unexpected {:?}", other),
    }
}

#[test]
fn test_convergence_message() {
    let m = SusiSupervisor::convergence_message("answer", "0.90");
    assert_eq!(m.sender, "ConsensusMaster");
    assert_eq!(m.action, "STATE_CONVERGENCE");
    assert_eq!(m.payload, "answer\n\n[CONVERGENCE_SCORE: 0.90]");
}

#[test]
fn test_gather_weighted_wisdom_prefers_consensus_then_admin() {
    let msgs = vec![msg("ConsensusMaster", "first"), msg("AdminAgent", "admin"), msg("ConsensusMaster", "final")];
    assert_eq!(SusiSupervisor::gather_weighted_wisdom(&msgs, &vec![]), "final");
    let msgs = vec![msg("A", "ok"), msg("AdminAgent", "admin says")];
    assert_eq!(SusiSupervisor::gather_weighted_wisdom(&msgs, &vec![]), "admin says");
    let msgs = vec![msg("A", "one"), msg("B", "FAILURE"), msg("C", ""), msg("D", "GAP here"), msg("E", "two")];
    assert_eq!(SusiSupervisor::gather_weighted_wisdom(&msgs, &vec![]), "[A]: one\n[E]: two");
    assert_eq!(
        SusiSupervisor::gather_weighted_wisdom(&vec![msg("B", "FAILURE")], &vec![]),
        "No valid wisdom gathered from swarm."
    );
}

#[test]
fn test_broadcast_lan_ping_filters_replies() {
    let replies = vec![pair("SUSI_LAN_ACK", "10.0.0.2:5000"), pair("hello", "10.0.0.9:1"), pair("SUSI node", "10.0.0.3:5000")];
    assert_eq!(SusiSupervisor::broadcast_lan_ping(&replies), vec!["10.0.0.2:5000".to_string(), "10.0.0.3:5000".to_string()]);
    assert_eq!(SusiSupervisor::broadcast_lan_ping(&vec![]), vec!["127.0.0.1:9090 (local)".to_string()]);
}

#[test]
fn test_sync_requests_and_summary() {
    let mut peers = vec![peer("susi-local-master", "127.0.0.1:9090", "LOCAL_MASTER", true)];
    for k in 0..20 {
        peers.push(peer(&format!("n{}", k), &format!("10.0.1.{}:9090", k), "WORKSTATION_NODE", true));
    }
    let reqs = SusiSupervisor::sync_requests(&peers, "state");
    assert_eq!(reqs.len(), 15);
    assert_eq!(reqs[0], pair("10.0.1.0:9090", "SIG:n0:state"));
    let (n, m) = SusiSupervisor::sync_cluster_state(&vec!["Sync complete".to_string(), "timeout".to_string()]);
    assert_eq!(n, 1);
    assert_eq!(m, "Synchronized state across 1 nodes in parallel (checksum verified).");
}

#[test]
fn test_lock_request_and_targets() {
    assert!(SusiSupervisor::broadcast_lock_request(&vec![Some("SUCCESS".to_string()), None]));
    assert!(!SusiSupervisor::broadcast_lock_request(&vec![Some("SUCCESS".to_string()), Some("DENIED".to_string())]));
    let peers = vec![
        peer("susi-local-master", "127.0.0.1:9090", "WORKSTATION_NODE", true),
        peer("ws", "10.0.0.2:9090", "WORKSTATION_NODE", false),
        peer("edge", "10.0.0.3:9090", "EDGE_NODE", true),
    ];
    assert_eq!(SusiSupervisor::replication_targets(&peers), vec![1]);
    assert_eq!(SusiSupervisor::federation_sources(&peers), vec![2]);
    assert_eq!(
        SusiSupervisor::aggregate_federated_experience(12, 2),
        "Aggregated 12 distilled experiences from 2 independent nodes into the Knowledge Vault."
    );
}

#[test]
fn reinforcement_goal_renders_like_debug_for_tricky_text() {
    let logs = vec![
        msg("Agent'1", "tab\there \\ \"q\" é\u{301} \u{7f} new\nline"),
        msg("B", ""),
    ];
    let goal = SusiSupervisor::reinforcement_goal("g", &logs);
    assert_eq!(goal, format!("REINFORCE_MISSION: g\n[PREVIOUS_FAILURES]: {:?}", logs));
    let none: Vec<susi::gawd::A2AMessage> = vec![];
    assert_eq!(SusiSupervisor::reinforcement_goal("g", &none), "REINFORCE_MISSION: g\n[PREVIOUS_FAILURES]: []");
}

#[test]
fn reflex_replication_payload_carries_base64_module() {
    assert_eq!(
        SusiSupervisor::reflex_replication_payload("sqrt \"fast\"", b"hello"),
        "{\"name\":\"sqrt \\\"fast\\\"\",\"wasm_b64\":\"aGVsbG8=\"}"
    );
    let v: serde_json::Value =
        serde_json::from_str(&SusiSupervisor::reflex_replication_payload("r", &[0xff, 0xfe, 0xfd, 0x00])).unwrap();
    assert_eq!(v["wasm_b64"], "//79AA==");
}
