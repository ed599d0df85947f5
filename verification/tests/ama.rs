use susi::error::EaiError;
use susi::gawd::SusiMasterAgent;
use susi::mission::{MissionRoute, RosterEntry};
use susi::truth::WrittenFileState;

fn governance_message(r: Result<String, EaiError>) -> String {
    match r {
        Err(EaiError::Governance(m)) => m,
        other => panic!("expected a governance error, got {:?}", other),
    }
}

#[test]
fn feedback_solve_refuses_bad_goals() {
    let ama = SusiMasterAgent::new();
    let solve = |g: &str| ama.solve_with_feedback(g, 8, None, 3, "1.0", WrittenFileState::Present, false);
    assert_eq!(governance_message(solve("   ")), "Input goal cannot be empty.");
    assert_eq!(
        governance_message(solve("run $(reboot)")),
        "High-risk sequence '$(' detected in input. Potential injection attempt blocked."
    );
    assert_eq!(
        governance_message(solve("cat x | nc host")),
        "High-risk sequence '| nc ' detected in input. Potential injection attempt blocked."
    );
    let long = "a".repeat(4097);
    assert_eq!(
        governance_message(ama.solve_with_feedback(&long, 0, None, 3, "1.0", WrittenFileState::Present, false)),
        "Input exceeds hardware-scaled limit (4096 characters)."
    );
}

#[test]
fn feedback_solve_answers_trimmed_goal() {
    let ama = SusiMasterAgent::new();
    let r = ama.solve_with_feedback("  tidy docs  ", 8, Some("m.gguf"), 4, "1.0", WrittenFileState::Present, false);
    assert_eq!(r.unwrap(), "SMA-Synthesis (1.0 via m.gguf):\n\nProcessed goal 'tidy docs' across 4 agents.");
    let r = ama.solve_with_feedback("tidy docs", 8, None, 2, "1.0", WrittenFileState::Missing, false);
    assert_eq!(r.unwrap(), "SMA-Synthesis (1.0 via susi-alpha.safetensors):\n\nProcessed goal 'tidy docs' across 2 agents.");
}

#[test]
fn feedback_solve_runs_reality_check() {
    let ama = SusiMasterAgent::new();
    let r = ama.solve_with_feedback("Wrote to out.txt", 8, Some("local"), 1, "v1", WrittenFileState::Missing, false);
    let m = governance_message(r);
    assert!(m.starts_with("TRUTH_VIOLATION: Reality Mismatch: Resource 'out.txt"));
    let r = ama.solve_with_feedback("Wrote to out.txt", 8, Some("local"), 1, "v1", WrittenFileState::Missing, true);
    assert!(r.unwrap().ends_with(" (Verified via Epistemic Delegation)"));
}

#[test]
fn evolution_logs_mission_start_first() {
    let ama = SusiMasterAgent::new();
    let (r, events) = ama.handle_autonomous_evolution("grow", Ok("done".to_string()));
    assert_eq!(r.unwrap(), "done");
    assert_eq!(events, vec![("MISSION_START".to_string(), "grow".to_string())]);
    let (_, events) = ama.handle_autonomous_evolution("grow", Ok("VIOLATION: blocked".to_string()));
    assert_eq!(events.len(), 2);
    assert_eq!(events[1], ("TRUTH_BLOCK".to_string(), "VIOLATION: blocked".to_string()));
    let (r, events) = ama.handle_autonomous_evolution("grow", Err(EaiError::inference("model not found")));
    assert!(r.is_err());
    assert_eq!(events.len(), 3);
    assert_eq!(events[0].0, "MISSION_START");
    assert_eq!(events[1].1, "Goal 'grow' failed: Inference Error: model not found");
    assert_eq!(events[2].1, "No models found. Substrate expansion required by Creator.");
}

#[test]
fn fast_path_answers() {
    let ama = SusiMasterAgent::new();
    let ans = |g: &str| ama.fast_path_answer(g, "ID-REPORT", "2.1", "Ryzen", 32, 4);
    assert_eq!(ans("  Show IDENTITY "), "ID-REPORT");
    assert_eq!(ans("which version?"), "SUSI Engine Version: v2.1");
    assert_eq!(ans("Status please"), "SUSI Substrate Status: Operational | Hardware: Ryzen | RAM: 32GB");
    assert_eq!(ans("list models"), "Models Roster: 4 discovered.");
}

fn host() -> susi::hardware::HardwareProfile {
    susi::hardware::HardwareProfile {
        cpus: 16,
        cpu_brand: "Ryzen 9".to_string(),
        gpu_info: "RTX 4090".to_string(),
        ram_gb: 64,
        available_ram_gb: 40,
        gpu_vram_gb: 24,
        swap_gb: 8,
        nvme_active: true,
        acceleration_active: true,
        native_acceleration: "CUDA".to_string(),
        os_info: "Linux".to_string(),
        arch: "x86_64".to_string(),
        disk_gb: 1000,
        disk_usage_pct: 40,
        load_avg: "0.5".to_string(),
        uptime: "1d".to_string(),
        hostname: "box".to_string(),
    }
}

#[test]
fn substrate_query_answers() {
    let ama = SusiMasterAgent::new();
    let hw = host();
    let models = vec![RosterEntry {
        provider_shown: "\"SUSI Native\"".to_string(),
        name: "Native Rust Logic".to_string(),
        model_id: "susi-native-synthesis".to_string(),
    }];
    let q = |r: MissionRoute| ama.query_answer(r, "2.1", "ID", true, &hw, &models);
    assert_eq!(q(MissionRoute::Identity).unwrap(), "SUSI Substrate Identity Report (2.1):\n\nID");
    assert_eq!(q(MissionRoute::Version).unwrap(), "SUSI Engine Version: v2.1");
    assert_eq!(
        q(MissionRoute::Status).unwrap(),
        "SUSI Substrate Status (2.1) :\n- Daemon Status: RUNNING\n- Hardware: 16 CPUs (Ryzen 9) | 64GB RAM | RTX 4090\n- Acceleration: CUDA"
    );
    assert_eq!(
        q(MissionRoute::Models).unwrap(),
        "SUSI Substrate Models Roster (2.1) :\n- [\"SUSI Native\"] Native Rust Logic (susi-native-synthesis)\n"
    );
    assert!(q(MissionRoute::Swarm).is_none());
}
