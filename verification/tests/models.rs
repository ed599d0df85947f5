use susi::hardware::{HardwareProfiler, ModelLadderConfigStep, ModelLadderStep};
use susi::intent::{IntentCategory, TaskComplexity};
use susi::models::{ListedModel, ModelCandidate, ModelFailureLog, ModelManager, TokenizerSource};

#[test]
fn test_prefetch_plan_starts_small_and_spans_the_ladder() {
    assert_eq!(ModelManager::provisioning_indices(5, 3), vec![0, 2, 4]);
    assert_eq!(ModelManager::provisioning_indices(1, 3), vec![0]);
    assert_eq!(
        ModelManager::provisioning_indices(0, 3),
        Vec::<usize>::new()
    );
    assert_eq!(ModelManager::provisioning_indices(5, 1), vec![0]);
}

#[test]
fn test_complete_gguf_requires_the_managed_artifact_size() {
    assert!(ModelManager::is_complete_gguf(true, 10_000, Some(10_000)));
    assert!(
        !ModelManager::is_complete_gguf(true, 9_999, Some(10_000)),
        "a truncated managed GGUF must not be considered usable solely from its header"
    );
    assert!(!ModelManager::is_complete_gguf(false, 10_000, Some(10_000)));
}

#[test]
fn test_resolve_complexity_floor_floor_wins_over_lower_heuristic() {
    assert_eq!(
        ModelManager::resolve_complexity_floor(TaskComplexity::Trivial, Some(TaskComplexity::Complex)),
        TaskComplexity::Complex
    );
}

#[test]
fn test_resolve_complexity_floor_heuristic_wins_when_already_above_floor() {
    assert_eq!(
        ModelManager::resolve_complexity_floor(
            TaskComplexity::VeryComplex,
            Some(TaskComplexity::Moderate)
        ),
        TaskComplexity::VeryComplex
    );
}

#[test]
fn test_resolve_complexity_floor_none_means_pure_heuristic() {
    assert_eq!(
        ModelManager::resolve_complexity_floor(TaskComplexity::Simple, None),
        TaskComplexity::Simple
    );
}

#[test]
fn prefetch_plan_with_large_limit_covers_every_tier() {
    assert_eq!(ModelManager::provisioning_indices(4, 10), vec![0, 1, 2, 3]);
    assert_eq!(ModelManager::provisioning_indices(6, 0), vec![0]);
    assert_eq!(ModelManager::provisioning_indices(7, 4), vec![0, 2, 4, 6]);
}

#[test]
fn complete_gguf_without_managed_size_only_needs_a_header() {
    assert!(ModelManager::is_complete_gguf(true, 0, None));
    assert!(!ModelManager::is_complete_gguf(false, 0, None));
}

fn ladder_step(step: usize) -> ModelLadderStep {
    ModelLadderStep {
        step,
        label: format!("{step}-tier"),
        hf_repo: format!("repo-{step}"),
        hf_file: format!("file-{step}.gguf"),
        tokenizer_repo: String::new(),
        min_bytes: 1,
        expected_bytes: 2,
    }
}

#[test]
fn best_ladder_step_is_the_largest_or_the_fallback() {
    let ladder = vec![ladder_step(1), ladder_step(3)];
    assert_eq!(ModelManager::identify_best_ladder_step(&ladder, &ladder_step(9)).step, 3);
    assert_eq!(ModelManager::identify_best_ladder_step(&vec![], &ladder_step(9)).step, 9);
}

#[test]
fn fallback_ladder_uses_first_configured_thresholds() {
    let steps = vec![ModelLadderConfigStep {
        step: 1,
        label: "small".into(),
        hf_repo: "r".into(),
        hf_file: "f".into(),
        tokenizer_repo: String::new(),
        min_ram_milli_gb: 64_000,
        min_bytes: 7,
        expected_bytes: 9,
    }];
    let fallback = ModelLadderConfigStep {
        step: 4,
        label: "fb".into(),
        hf_repo: "fb-repo".into(),
        hf_file: "fb-file".into(),
        tokenizer_repo: "fb-tok".into(),
        min_ram_milli_gb: 0,
        min_bytes: 0,
        expected_bytes: 0,
    };
    let ladder = HardwareProfiler::get_progressive_model_ladder(&steps, 4, u64::MAX, &fallback);
    assert_eq!(ladder.len(), 1);
    assert_eq!(ladder[0].step, 1);
    assert_eq!(ladder[0].label, "Minimum Viable Substrate (Config Fallback)");
    assert_eq!(ladder[0].hf_repo, "fb-repo");
    assert_eq!((ladder[0].min_bytes, ladder[0].expected_bytes), (7, 9));
    let none = HardwareProfiler::get_progressive_model_ladder(&vec![], 4, 0, &fallback);
    assert_eq!((none[0].min_bytes, none[0].expected_bytes), (1_000_000_000, 5_000_000_000));
}

#[test]
fn ladder_step_statuses() {
    assert_eq!(ModelManager::ladder_step_status(true, true, Some("DOWNLOADING".to_string()), 5), "COMPLETED_VERIFIED");
    assert_eq!(ModelManager::ladder_step_status(false, true, Some("DOWNLOADING".to_string()), 5), "DOWNLOADING");
    assert_eq!(ModelManager::ladder_step_status(false, true, None, 0), "QUEUED");
    assert_eq!(ModelManager::ladder_step_status(false, false, Some("FAILED".to_string()), 0), "FAILED");
    assert_eq!(ModelManager::ladder_step_status(false, false, Some("STOPPED".to_string()), 9), "STOPPED");
    assert_eq!(ModelManager::ladder_step_status(false, false, Some("PAUSED".to_string()), 9), "PARTIAL_DOWNLOAD");
    assert_eq!(ModelManager::ladder_step_status(false, false, None, 0), "AVAILABLE");
}

#[test]
fn active_ladder_step_is_highest_verified() {
    let steps = vec![
        (1, "COMPLETED_VERIFIED".to_string()),
        (3, "PARTIAL_DOWNLOAD".to_string()),
        (2, "COMPLETED_VERIFIED".to_string()),
    ];
    assert_eq!(ModelManager::active_ladder_step(&steps), 2);
    assert_eq!(ModelManager::active_ladder_step(&vec![(4, "AVAILABLE".to_string())]), 0);
}

fn candidate(id: &str, local: bool, cooling: bool, valid: bool, tok: bool) -> ModelCandidate {
    ModelCandidate {
        model_id: id.to_string(),
        is_local: local,
        cooling_down: cooling,
        valid_payload: valid,
        has_tokenizer: tok,
    }
}

#[test]
fn selectable_models_are_local_ready_ggufs() {
    let models = vec![
        candidate("/m/qwen.gguf", true, false, true, true),
        candidate("/m/qwen.safetensors", true, false, true, true),
        candidate("susi-native-synthesis.gguf", true, false, true, true),
        candidate("/m/remote.gguf", false, false, true, true),
        candidate("/m/cool.gguf", true, true, true, true),
        candidate("/m/broken.gguf", true, false, false, true),
        candidate("/m/notok.gguf", true, false, true, false),
        candidate("/m/.gguf", true, false, true, true),
        candidate("/m/llama.Q4.gguf", true, false, true, true),
    ];
    assert_eq!(ModelManager::selectable_models(&models), vec![0, 8]);
    assert!(ModelManager::selectable_models(&vec![]).is_empty());
}

#[test]
fn test_failed_model_recovers_after_success() {
    let name = "test_failure_cooldown_model";
    let mut log = ModelFailureLog::new();
    ModelManager::record_inference_result(&mut log, name, false, 1000);
    assert!(ModelManager::cooling_down(&log, name, 1000, 300));
    ModelManager::record_inference_result(&mut log, name, true, 1001);
    assert!(!ModelManager::cooling_down(&log, name, 1001, 300));
}

#[test]
fn cooldown_expires_and_is_per_model() {
    let mut log = ModelFailureLog::new();
    ModelManager::record_inference_result(&mut log, "a", false, 100);
    ModelManager::record_inference_result(&mut log, "b", false, 200);
    assert!(ModelManager::cooling_down(&log, "a", 399, 300));
    assert!(!ModelManager::cooling_down(&log, "a", 400, 300));
    ModelManager::record_inference_result(&mut log, "a", true, 401);
    assert!(ModelManager::cooling_down(&log, "b", 401, 300));
    assert!(!ModelManager::cooling_down(&log, "c", 401, 300));
    assert_eq!(log.entries.len(), 1);
}

fn listed(id: &str, name: &str) -> ListedModel {
    ListedModel {
        name: name.to_string(),
        provider: "LocalGGUF".to_string(),
        model_id: id.to_string(),
        description: "d".to_string(),
        is_local: true,
    }
}

#[test]
fn model_list_drops_duplicate_ids_and_falls_back_to_native() {
    let found = vec![listed("/a.gguf", "A"), listed("/b.gguf", "B"), listed("/a.gguf", "A2")];
    let list = ModelManager::list_models(&found);
    let ids: Vec<&str> = list.iter().map(|m| m.model_id.as_str()).collect();
    assert_eq!(ids, vec!["/a.gguf", "/b.gguf"]);
    assert_eq!(list[0].name, "A");
    let native = ModelManager::list_models(&vec![]);
    assert_eq!(native.len(), 1);
    assert_eq!(native[0].model_id, "susi-native-synthesis");
    assert_eq!(native[0].name, "Native Rust Logic");
    assert!(native[0].is_local);
}

#[test]
fn override_names_a_model_unless_auto_or_blank() {
    assert_eq!(ModelManager::override_candidate("  qwen.gguf\n"), Some("qwen.gguf".to_string()));
    assert_eq!(ModelManager::override_candidate(" auto "), None);
    assert_eq!(ModelManager::override_candidate("   "), None);
}

#[test]
fn tokenizer_source_order() {
    assert_eq!(ModelManager::tokenizer_source(true, true, Some(true), true), Some(TokenizerSource::Dedicated));
    assert_eq!(ModelManager::tokenizer_source(true, false, Some(true), true), None);
    assert_eq!(ModelManager::tokenizer_source(false, false, Some(true), true), Some(TokenizerSource::Sibling));
    assert_eq!(ModelManager::tokenizer_source(false, false, None, true), Some(TokenizerSource::Shared));
    assert_eq!(ModelManager::tokenizer_source(false, false, Some(false), false), None);
}

#[test]
fn models_suit_intents_by_id_and_tags() {
    let none: Vec<String> = vec![];
    assert!(ModelManager::suits_intent(IntentCategory::Coding, "/m/Qwen2.5-Coder-7B.gguf", &none));
    assert!(ModelManager::suits_intent(IntentCategory::Mathematics, "/m/x.gguf", &vec!["MATHEMATICS".to_string()]));
    assert!(ModelManager::suits_intent(IntentCategory::Reasoning, "/m/llama-Instruct.gguf", &none));
    assert!(ModelManager::suits_intent(IntentCategory::Creative, "/m/chatty.gguf", &none));
    assert!(!ModelManager::suits_intent(IntentCategory::General, "/m/coder.gguf", &vec!["coding".to_string()]));
    assert!(!ModelManager::suits_intent(IntentCategory::Coding, "/m/llama.gguf", &vec!["creative".to_string()]));
}
