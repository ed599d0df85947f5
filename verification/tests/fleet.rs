use susi::routing::AgentRoute;
use susi::fleet::{
    extract_candidate_file_paths, summarize_swarm_signals, ClaimAudit, ConsensusMediatorAgent,
    EpistemicAuditorAgent, GawdAgentFleet,
};

fn board(entries: &[(&str, &str)]) -> Vec<(String, String)> {
    entries.iter().map(|(k, v)| (k.to_string(), v.to_string())).collect()
}

#[test]
fn test_is_meta_or_simple_query_covers_plain_questions() {
    assert!(GawdAgentFleet::is_meta_or_simple_query("What is the capital of France?"));
    assert!(GawdAgentFleet::is_meta_or_simple_query("who is the president of France"));
    assert!(GawdAgentFleet::is_meta_or_simple_query("How do I reverse a string in Rust?"));
    assert!(GawdAgentFleet::is_meta_or_simple_query("Is Rust memory safe?"));
    assert!(GawdAgentFleet::is_meta_or_simple_query("Can you explain TCP vs UDP?"));
    assert!(GawdAgentFleet::is_meta_or_simple_query("List three benefits of TDD?"));
}

#[test]
fn test_is_meta_or_simple_query_covers_substrate_meta_commands() {
    assert!(GawdAgentFleet::is_meta_or_simple_query("admin pulse: sync"));
    assert!(GawdAgentFleet::is_meta_or_simple_query("susi identity"));
    assert!(GawdAgentFleet::is_meta_or_simple_query("status"));
    assert!(GawdAgentFleet::is_meta_or_simple_query("ls"));
    assert!(GawdAgentFleet::is_meta_or_simple_query("whoami"));
}

#[test]
fn test_is_meta_or_simple_query_false_for_substantive_non_question_goals() {
    assert!(!GawdAgentFleet::is_meta_or_simple_query(
        "Refactor the authentication module to use JWT tokens"
    ));
    assert!(!GawdAgentFleet::is_meta_or_simple_query("custom domain analytics build pipeline"));
}

#[test]
fn test_is_meta_command_excludes_plain_questions_unlike_is_meta_or_simple_query() {
    let translation_question = "How do you say hello in French?";
    assert!(
        !GawdAgentFleet::is_meta_command(translation_question),
        "a real translation request must not be treated as a no-op meta-command"
    );
    assert!(
        GawdAgentFleet::is_meta_or_simple_query(translation_question),
        "the broader check should still recognize it as question-shaped"
    );
}

#[test]
fn meta_command_matches_dir_and_ls_prefix_only_exactly() {
    assert!(GawdAgentFleet::is_meta_command("  DIR "));
    assert!(GawdAgentFleet::is_meta_command("ls -la"));
    assert!(!GawdAgentFleet::is_meta_command("lsblk"));
    assert!(!GawdAgentFleet::is_plain_question("tell me"));
    assert!(GawdAgentFleet::is_plain_question("  WHY is the sky blue"));
}

#[test]
fn test_extract_candidate_file_paths_finds_real_shapes_and_ignores_noise() {
    let text = "See src/gawd/agents.rs:606 and (Cargo.toml), also plain text with no path.";
    let paths = extract_candidate_file_paths(text);
    assert_eq!(paths, vec!["src/gawd/agents.rs", "Cargo.toml"]);
}

#[test]
fn test_extract_candidate_file_paths_empty_for_no_paths() {
    assert!(extract_candidate_file_paths("Hardware Saturated: 8 CPUs, 32GB RAM.").is_empty());
}

#[test]
fn extract_candidate_file_paths_strips_quotes_and_trailing_dots() {
    let paths = extract_candidate_file_paths("edit `README.md` then \"run.sh\"; ok [Cargo.lock] `x.md`.");
    assert_eq!(paths, vec!["README.md", "run.sh", "Cargo.lock"]);
}

#[test]
fn test_summarize_swarm_signals_detects_real_conflict() {
    let b = board(&[
        ("GmcpAgent", "Endpoint health status: DEGRADED"),
        ("HardwareAgent", "Hardware Saturated: 8 CPUs."),
    ]);
    let (critical, healthy) = summarize_swarm_signals(&b, "ConsensusMediatorAgent");
    assert_eq!(critical, vec!["GmcpAgent".to_string()]);
    assert_eq!(healthy, vec!["HardwareAgent".to_string()]);
}

#[test]
fn summarize_swarm_signals_skips_own_and_blank_entries() {
    let b = board(&[
        ("ConsensusMediatorAgent", "mismatch everywhere"),
        ("QuietAgent", "   "),
        ("SyncAgent", "Job: FAILED"),
    ]);
    let (critical, healthy) = summarize_swarm_signals(&b, "ConsensusMediatorAgent");
    assert_eq!(critical, vec!["SyncAgent".to_string()]);
    assert!(healthy.is_empty());
}

#[test]
fn test_consensus_mediator_reports_real_conflict_not_hardcoded_zero() {
    let b = board(&[
        ("ResourceArbitratorAgent", "OOM Critical Risk: true"),
        ("DevOpsAgent", "Bloat audit clean."),
    ]);
    let res = ConsensusMediatorAgent.execute(&b).unwrap();
    assert!(res.contains("CONFLICT"));
    assert!(res.contains("ResourceArbitratorAgent"));
    assert!(res.contains("DevOpsAgent"));
    assert!(!res.contains("FAILURE"));
    assert!(!res.contains("GAP"));
}

#[test]
fn test_consensus_mediator_reports_clean_when_no_critical_signals() {
    let b = board(&[("DevOpsAgent", "Bloat audit clean.")]);
    let res = ConsensusMediatorAgent.execute(&b).unwrap();
    assert!(res.contains("No critical/problem signals detected"));
    assert!(!res.contains("CONFLICT"));
    assert_eq!(
        res,
        "[ConsensusMediatorAgent]: Analyzed 1 active agent contributions. No critical/problem signals detected among them. Weighted consensus reached."
    );
}

#[test]
fn consensus_mediator_reports_swarm_wide_distress() {
    let b = board(&[("A", "stalled"), ("B", "download cancelled")]);
    let res = ConsensusMediatorAgent.execute(&b).unwrap();
    assert_eq!(
        res,
        "[ConsensusMediatorAgent]: Analyzed 2 active agent contributions. All 2 report critical/problem signals ([\"A\", \"B\"]) \u{2014} swarm-wide distress, not a partial conflict."
    );
    assert_eq!(ConsensusMediatorAgent.name(), "ConsensusMediatorAgent");
}

fn audit(agent: &str, claim: &str, missing: &[&str]) -> ClaimAudit {
    ClaimAudit {
        agent: agent.to_string(),
        referenced: extract_candidate_file_paths(claim).len(),
        hallucinated: missing.iter().map(|m| m.to_string()).collect(),
    }
}

#[test]
fn test_epistemic_auditor_flags_hallucinated_path() {
    let a = vec![audit("SomeAgent", "Fixed the bug in src/does/not/exist.rs", &["src/does/not/exist.rs"])];
    let res = EpistemicAuditorAgent.execute(&a).unwrap();
    assert!(res.contains("UNGROUNDED CLAIMS DETECTED"));
    assert!(res.contains("src/does/not/exist.rs"));
    assert!(!res.contains("FAILURE"));
    assert!(!res.contains("GAP"));
}

#[test]
fn test_epistemic_auditor_verifies_real_path() {
    let a = vec![audit("SomeAgent", "Version is defined in Cargo.toml.", &[])];
    let res = EpistemicAuditorAgent.execute(&a).unwrap();
    assert!(res.contains("Epistemic integrity: VERIFIED"));
    assert!(res.contains("1 file-grounded"));
}

#[test]
fn test_epistemic_auditor_inconclusive_when_nothing_file_grounded() {
    let a = vec![audit("SomeAgent", "The answer to your question is 42.", &[])];
    let res = EpistemicAuditorAgent.execute(&a).unwrap();
    assert!(res.contains("INCONCLUSIVE"));
    assert_eq!(
        res,
        "[EpistemicAuditorAgent]: Audited 1 agent claims \u{2014} none referenced a checkable file path. Epistemic integrity: INCONCLUSIVE (nothing file-grounded to verify)."
    );
}

#[test]
fn epistemic_auditor_skips_its_own_entry() {
    let a = vec![
        audit("EpistemicAuditorAgent", "see x.rs", &["x.rs"]),
        audit("B", "see Cargo.toml", &[]),
        audit("C", "nothing here", &[]),
    ];
    let res = EpistemicAuditorAgent.execute(&a).unwrap();
    assert!(res.starts_with("[EpistemicAuditorAgent]: Audited 2 agent claims"));
    assert!(res.contains("1 file-grounded (verified against workspace), 1 unverifiable"));
}

#[test]
fn concurrency_limit_takes_the_smaller_of_config_and_ram() {
    assert_eq!(GawdAgentFleet::get_max_concurrent_agents(false, 8, 16), 8);
    assert_eq!(GawdAgentFleet::get_max_concurrent_agents(true, 8, 16), 2);
    assert_eq!(GawdAgentFleet::get_max_concurrent_agents(true, 2, 16), 1);
    assert_eq!(GawdAgentFleet::get_max_concurrent_agents(false, 8, 0), 1);
    assert_eq!(GawdAgentFleet::get_max_concurrent_agents(false, 64, 3), 6);
}

fn route(name: &str, core: bool, anchors: &[&str], cats: &[&str]) -> AgentRoute {
    AgentRoute {
        name: name.to_string(),
        is_core: core,
        semantic_anchors: anchors.iter().map(|s| s.to_string()).collect(),
        categories: cats.iter().map(|s| s.to_string()).collect(),
    }
}

#[test]
fn test_recruit_agents_core_routing_anchor_category_and_name() {
    let agents = vec![
        route("SafetyAgent", true, &[], &[]),
        route("CoderAgent", false, &["refactor"], &[]),
        route("DocsAgent", false, &[], &["documentation"]),
        route("TranslationAgent", false, &[], &[]),
        route("SearchAgent", false, &["web"], &[]),
        route("SafetyAgent", false, &["refactor"], &[]),
        route("GpuAgent", false, &[], &[]),
    ];
    let routing = vec![("SearchAgent".to_string(), vec!["lookup".to_string()])];
    let picked = GawdAgentFleet::recruit_agents("Refactor the TRANSLATION documentation; web lookup", &agents, &routing);
    assert_eq!(picked, vec![0, 1, 2, 3, 4]);
    let picked = GawdAgentFleet::recruit_agents("search the web", &agents, &routing);
    assert_eq!(picked, vec![0]);
}

#[test]
fn test_specialist_and_universal_reasoner_gates() {
    assert!(GawdAgentFleet::needs_specialist(false, true, 20, 32));
    assert!(GawdAgentFleet::needs_specialist(false, false, 12, 32));
    assert!(!GawdAgentFleet::needs_specialist(false, false, 13, 32));
    assert!(!GawdAgentFleet::needs_specialist(true, true, 2, 32));
    assert!(!GawdAgentFleet::needs_specialist(false, true, 8, 8));
    assert!(GawdAgentFleet::needs_universal_reasoner(3, 8));
    assert!(!GawdAgentFleet::needs_universal_reasoner(4, 8));
    assert!(!GawdAgentFleet::needs_universal_reasoner(2, 2));
}
