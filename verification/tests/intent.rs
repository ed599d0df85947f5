use susi::intent::{IntentCategory, IntentClassifier, TaskComplexity};

#[test]
fn test_classify_coding_prompt() {
    assert_eq!(
        IntentClassifier::classify("Please debug this rust fn that panics"),
        IntentCategory::Coding
    );
}

#[test]
fn test_classify_math_prompt() {
    assert_eq!(
        IntentClassifier::classify("Solve for x in this algebra equation"),
        IntentCategory::Mathematics
    );
}

#[test]
fn test_classify_reasoning_prompt() {
    assert_eq!(
        IntentClassifier::classify(
            "Analyze and compare these two theories, then explain how they differ"
        ),
        IntentCategory::Reasoning
    );
}

#[test]
fn test_classify_creative_prompt() {
    assert_eq!(
        IntentClassifier::classify("write a poem about the ocean"),
        IntentCategory::Creative
    );
}

#[test]
fn test_classify_general_prompt_with_no_triggers() {
    assert_eq!(
        IntentClassifier::classify("What time is it in Tokyo?"),
        IntentCategory::General
    );
}

#[test]
fn test_classify_picks_highest_scoring_category_on_mixed_signals() {
    // Two code triggers ("rust", "fn ") vs one math trigger ("math") - coding should win.
    assert_eq!(
        IntentClassifier::classify("write a rust fn to check if a number is a math prime"),
        IntentCategory::Coding
    );
}

#[test]
fn test_classify_complexity_greeting_is_trivial() {
    assert_eq!(
        IntentClassifier::classify_complexity("hi there", None),
        TaskComplexity::Trivial
    );
}

#[test]
fn test_classify_complexity_short_single_question_is_simple() {
    assert_eq!(
        IntentClassifier::classify_complexity("What is the capital of France?", None),
        TaskComplexity::Simple
    );
}

#[test]
fn test_classify_complexity_medium_single_clause_is_moderate() {
    let prompt = "Describe the main differences between a hash map and a \
        balanced binary search tree in terms of average and worst-case \
        time complexity for insertion, lookup, and deletion operations.";
    assert_eq!(
        IntentClassifier::classify_complexity(prompt, None),
        TaskComplexity::Moderate
    );
}

#[test]
fn test_classify_complexity_multi_step_marker_forces_complex_even_if_short() {
    assert_eq!(
        IntentClassifier::classify_complexity("explain this step by step", None),
        TaskComplexity::Complex
    );
}

#[test]
fn test_classify_complexity_multiple_questions_is_complex() {
    assert_eq!(
        IntentClassifier::classify_complexity("What is Rust? Why use it?", None),
        TaskComplexity::Complex
    );
}

#[test]
fn test_classify_complexity_long_multi_step_prompt_is_very_complex() {
    let prompt = "Design a distributed rate limiter that works correctly across \
        multiple independent servers without relying on a single point of \
        failure, handles clock skew between nodes gracefully, supports both \
        token-bucket and sliding-window strategies configurable per client, \
        persists state across restarts without losing accuracy, and degrades \
        predictably under network partitions. Walk through this step by step, \
        covering the data model, the synchronization protocol, and the failure \
        modes at each stage.";
    assert_eq!(
        IntentClassifier::classify_complexity(prompt, None),
        TaskComplexity::VeryComplex
    );
}

#[test]
fn test_classify_complexity_defaults_to_complex_not_simple_when_ambiguous() {
    assert_eq!(TaskComplexity::default(), TaskComplexity::Complex);
}

#[test]
fn test_task_complexity_escalate_moves_up_one_level() {
    assert_eq!(TaskComplexity::Trivial.escalate(), TaskComplexity::Simple);
    assert_eq!(TaskComplexity::Simple.escalate(), TaskComplexity::Moderate);
    assert_eq!(TaskComplexity::Moderate.escalate(), TaskComplexity::Complex);
    assert_eq!(
        TaskComplexity::Complex.escalate(),
        TaskComplexity::VeryComplex
    );
}

#[test]
fn test_task_complexity_escalate_saturates_at_very_complex() {
    assert_eq!(
        TaskComplexity::VeryComplex.escalate(),
        TaskComplexity::VeryComplex
    );
}

#[test]
fn test_task_complexity_ord_matches_declared_severity_order() {
    assert!(TaskComplexity::Trivial < TaskComplexity::Simple);
    assert!(TaskComplexity::Simple < TaskComplexity::Moderate);
    assert!(TaskComplexity::Moderate < TaskComplexity::Complex);
    assert!(TaskComplexity::Complex < TaskComplexity::VeryComplex);
}

#[test]
fn classify_is_case_insensitive() {
    assert_eq!(IntentClassifier::classify("WRITE A POEM"), IntentCategory::Creative);
}

#[test]
fn classify_lowered_counts_ties_toward_coding() {
    let text: Vec<char> = "math code".chars().collect();
    assert_eq!(IntentClassifier::classify_lowered(&text), IntentCategory::Coding);
}

#[test]
fn complexity_counts_words_after_trimming() {
    assert_eq!(
        IntentClassifier::classify_complexity("   one two three four five   ", None),
        TaskComplexity::Simple
    );
    assert_eq!(
        IntentClassifier::classify_complexity("Hello. World. Again.", None),
        TaskComplexity::Complex
    );
    assert_eq!(IntentClassifier::classify_complexity("", None), TaskComplexity::Trivial);
}

#[test]
fn complexity_long_prompt_without_markers_is_complex() {
    let prompt = vec!["word"; 61].join(" ");
    assert_eq!(
        IntentClassifier::classify_complexity(&prompt, None),
        TaskComplexity::Complex
    );
}

#[test]
fn complexity_level_ranks() {
    assert_eq!(TaskComplexity::Trivial.level(), 0);
    assert_eq!(TaskComplexity::VeryComplex.level(), 4);
}
