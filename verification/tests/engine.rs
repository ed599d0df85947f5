use susi::engine::{ContextSummarizer, GemiEngine, InferenceHost, LlamaCppEngine, MissionPlanner, PromptFormat, SusiFederatedEngine, SusiGgufEngine};
use susi::error::EaiError;

#[test]
fn test_needs_qwen2_backend_covers_qwen2_and_moe_variant() {
    assert!(InferenceHost::needs_qwen2_backend("qwen2"));
    assert!(InferenceHost::needs_qwen2_backend("qwen2moe"));
    assert!(!InferenceHost::needs_qwen2_backend("llama"));
    assert!(!InferenceHost::needs_qwen2_backend("qwen3"));
    assert!(!InferenceHost::needs_qwen2_backend("gemma"));
}

#[test]
fn test_prompt_format_detects_chatml_from_qwen_template() {
    let template = "{%- if tools %}\n    {{- '<|im_start|>system\\n' }}\n{%- endif %}";
    assert_eq!(PromptFormat::detect(Some(template)), PromptFormat::ChatMl);
}

#[test]
fn test_prompt_format_detects_llama3_and_gemma_and_mistral() {
    assert_eq!(
        PromptFormat::detect(Some("<|start_header_id|>user<|end_header_id|>")),
        PromptFormat::Llama3
    );
    assert_eq!(
        PromptFormat::detect(Some("<start_of_turn>user\n{{ content }}")),
        PromptFormat::Gemma
    );
    assert_eq!(
        PromptFormat::detect(Some("[INST] {{ content }} [/INST]")),
        PromptFormat::Mistral
    );
}

#[test]
fn test_prompt_format_falls_back_to_raw_when_unrecognized_or_absent() {
    assert_eq!(PromptFormat::detect(None), PromptFormat::Raw);
    assert_eq!(
        PromptFormat::detect(Some("some unrecognized template syntax")),
        PromptFormat::Raw
    );
}

#[test]
fn test_chatml_wrap_produces_well_formed_turn_structure() {
    let wrapped = PromptFormat::ChatMl.wrap("hello");
    assert!(wrapped.starts_with("<|im_start|>system\n"));
    assert!(wrapped.contains("<|im_start|>user\nhello<|im_end|>\n"));
    assert!(wrapped.ends_with("<|im_start|>assistant\n"));
}

#[test]
fn test_raw_wrap_is_passthrough() {
    assert_eq!(PromptFormat::Raw.wrap("hello"), "hello");
}

#[test]
fn mistral_detection_is_case_insensitive() {
    assert_eq!(PromptFormat::detect(Some("[inst] x")), PromptFormat::Mistral);
}

#[test]
fn other_wraps_surround_the_prompt() {
    assert_eq!(PromptFormat::Mistral.wrap("hi"), "[INST] hi [/INST]");
    assert_eq!(
        PromptFormat::Gemma.wrap("hi"),
        "<start_of_turn>user\nhi<end_of_turn>\n<start_of_turn>model\n"
    );
    let l = PromptFormat::Llama3.wrap("hi");
    assert!(l.contains("<|start_header_id|>user<|end_header_id|>\n\nhi<|eot_id|>"));
}

#[test]
fn alignment_names_first_matching_pattern() {
    let patterns = vec!["rm -rf".to_string(), "plan".to_string()];
    match GemiEngine::verify_axiomatic_alignment("Here is a plan: rm -rf /", &patterns) {
        Err(EaiError::Governance(m)) => assert_eq!(
            m,
            "Axiomatic Violation: High-risk pattern 'rm -rf' detected in reasoning."
        ),
        other => panic!("unexpected {:?}", other),
    }
    assert_eq!(
        GemiEngine::verify_axiomatic_alignment("Here is a perfectly safe idea.", &patterns),
        Ok("Here is a perfectly safe idea.".to_string())
    );
}

#[test]
fn planner_splits_on_commas_and_drops_blanks() {
    let plan = MissionPlanner::plan_mission("goal", " build , test,, deploy ").unwrap();
    assert_eq!(plan.goals, vec!["build", "test", "deploy"]);
    let single = MissionPlanner::plan_mission("the goal", "no commas here").unwrap();
    assert_eq!(single.goals, vec!["the goal"]);
}

#[test]
fn partition_and_intent_aliases_read_replies_like_plans() {
    let p = MissionPlanner::partition_mission("g", "a,b").unwrap();
    assert_eq!(p.goals, vec!["a", "b"]);
    let q = MissionPlanner::plan_intent("g", "x").unwrap();
    assert_eq!(q.goals, vec!["g"]);
    let r = MissionPlanner::partition_intent("g", " , ").unwrap();
    assert!(r.goals.is_empty());
}

#[test]
fn refine_plan_falls_back_to_the_refinement_prompt() {
    let plan = MissionPlanner::refine_plan("Refine {original_goal} given {blackboard_state}", "A", "B", "no split")
        .unwrap();
    assert_eq!(plan.goals, vec!["Refine A given B"]);
    let split = MissionPlanner::refine_intent("T", "A", "B", "x, y").unwrap();
    assert_eq!(split.goals, vec!["x", "y"]);
}

#[test]
fn test_verify_axiomatic_alignment_uses_configured_risk_patterns() {
    let patterns: Vec<String> = vec!["rm -rf /".to_string(), "DROP TABLE".to_string()];
    assert!(!patterns.is_empty());
    for pattern in &patterns {
        let reasoning = format!("Here is a plan: {}", pattern);
        assert!(
            GemiEngine::verify_axiomatic_alignment(&reasoning, &patterns).is_err(),
            "configured risk pattern '{}' must be blocked",
            pattern
        );
    }
    assert!(GemiEngine::verify_axiomatic_alignment("Here is a perfectly safe plan to list files.", &patterns).is_ok());
}

#[test]
fn engine_names_and_federated_url() {
    assert_eq!(LlamaCppEngine.name(), "LlamaCppEngine");
    assert_eq!(SusiGgufEngine.name(), "SusiGgufEngine");
    assert_eq!(SusiFederatedEngine.name(), "SusiFederatedEngine");
    assert_eq!(
        SusiFederatedEngine::completions_url("https://api.example"),
        "https://api.example/chat/completions"
    );
}

#[test]
fn planner_prompts_substitute_placeholders() {
    assert_eq!(
        MissionPlanner::plan_prompt("Plan {goal} then {goal}.", "X"),
        "Plan X then X."
    );
    assert_eq!(
        MissionPlanner::refine_prompt("{original_goal} | {blackboard_state}", "A", "B"),
        "A | B"
    );
}

#[test]
fn test_compress_blackboard_clips_long_outputs() {

    let long = "x".repeat(150);
    let entries = vec![
        ("planner".to_string(), "short plan".to_string()),
        ("coder".to_string(), long.clone()),
        ("edge".to_string(), "y".repeat(100)),
    ];
    let s = ContextSummarizer::compress_blackboard(&entries);
    let expected = format!("[planner: short plan] [coder: {}...] [edge: {}] ", &long[..97], "y".repeat(100));
    assert_eq!(s, expected);
    assert_eq!(ContextSummarizer::compress_blackboard(&vec![]), "");
}

#[test]
fn test_compress_blackboard_counts_bytes_not_chars() {

    // 40 two-byte characters then 30 ASCII: 110 bytes, cut at byte 97.
    let out = format!("{}{}", "é".repeat(40), "a".repeat(30));
    let entries = vec![("a".to_string(), out.clone())];
    let s = ContextSummarizer::compress_blackboard(&entries);
    assert_eq!(s, format!("[a: {}...] ", &out[..97]));
}

#[test]
fn generation_stops_on_configured_or_model_declared_tokens() {
    let stops = SusiGgufEngine::stop_token_ids(&vec![2, 151643], &vec![151645]);
    assert_eq!(stops, vec![2, 151643, 151645]);
    assert!(SusiGgufEngine::is_stop_token(&stops, 151645));
    assert!(SusiGgufEngine::is_stop_token(&stops, 2));
    assert!(!SusiGgufEngine::is_stop_token(&stops, 42));
    assert!(!SusiGgufEngine::is_stop_token(&vec![], 2));
}

#[test]
fn kv_position_follows_prompt_then_one_token_per_step() {
    assert_eq!(SusiGgufEngine::kv_position(0, 17), 0);
    assert_eq!(SusiGgufEngine::kv_position(1, 17), 17);
    assert_eq!(SusiGgufEngine::kv_position(5, 17), 21);
}

#[test]
fn penalty_window_covers_only_recent_generated_tokens() {
    let generated = vec![10, 11, 12, 13, 14];
    assert_eq!(SusiGgufEngine::penalty_window(&generated, 3), vec![12, 13, 14]);
    assert_eq!(SusiGgufEngine::penalty_window(&generated, 64), generated);
    assert_eq!(SusiGgufEngine::penalty_window(&generated, 0), Vec::<u32>::new());
    assert_eq!(SusiGgufEngine::penalty_window(&vec![], 8), Vec::<u32>::new());
}
