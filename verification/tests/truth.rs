use susi::error::EaiError;
use susi::truth::{SusiTruthAgent, TruthTransformer, WrittenFileState};

const FEEDBACK: &str = "\nSTRUCTURED_FEEDBACK: Please grounded your response in the physical workspace state. Ensure files are actually written before reporting success.";

#[test]
fn reported_path_takes_first_path_like_piece() {
    assert_eq!(
        SusiTruthAgent::reported_path("Saved to [data/x.json]."),
        Some("data/x.json".to_string())
    );
    assert_eq!(
        SusiTruthAgent::reported_path("Wrote to out/report.md: 12 lines"),
        Some("out/report.md".to_string())
    );
    assert_eq!(SusiTruthAgent::reported_path("Wrote to nothing"), None);
    assert_eq!(SusiTruthAgent::reported_path("no claim at all in a.txt"), None);
}

#[test]
fn present_file_passes_through_unchanged() {
    let r = SusiTruthAgent::verify_mission_reality("g", "t", "Wrote to out/report.md", WrittenFileState::Present, false);
    assert_eq!(r, Ok("Wrote to out/report.md".to_string()));
    let plain = TruthTransformer::verify_mission_reality("g", "t", "all good", WrittenFileState::Missing, false);
    assert_eq!(plain, Ok("all good".to_string()));
}

#[test]
fn missing_file_is_a_truth_violation() {
    let r = SusiTruthAgent::verify_mission_reality("g", "t", "Wrote to out/report.md", WrittenFileState::Missing, false);
    assert_eq!(
        r,
        Err(EaiError::Governance(format!(
            "TRUTH_VIOLATION: Reality Mismatch: Resource 'out/report.md' reported as written but does not exist in workspace.{}",
            FEEDBACK
        )))
    );
}

#[test]
fn empty_file_is_a_violation_unless_the_result_says_so() {
    let r = SusiTruthAgent::verify_mission_reality("g", "t", "Saved to a/b.txt", WrittenFileState::Empty, false);
    assert_eq!(
        r,
        Err(EaiError::Governance(format!(
            "TRUTH_VIOLATION: Reality Mismatch: Resource 'a/b.txt' exists but is empty (0 bytes). Result claimed success.{}",
            FEEDBACK
        )))
    );
    let ok = SusiTruthAgent::verify_mission_reality("g", "t", "Saved to a/b.txt (EMPTY file)", WrittenFileState::Empty, false);
    assert!(ok.is_ok());
}

#[test]
fn unnamed_write_is_a_violation() {
    let r = SusiTruthAgent::verify_mission_reality("g", "t", "Wrote to nowhere", WrittenFileState::Present, false);
    assert_eq!(
        r,
        Err(EaiError::Governance(format!(
            "TRUTH_VIOLATION: Reality Mismatch: Tool reported writing a file but no valid path could be extracted for verification.{}",
            FEEDBACK
        )))
    );
}

#[test]
fn consensus_waives_a_violation() {
    let result = "Wrote to x/y.rs [CONVERGENCE_SCORE: 0.91]";
    assert_eq!(SusiTruthAgent::convergence_score_text(result), Some("0.91".to_string()));
    let r = SusiTruthAgent::verify_mission_reality("g", "t", result, WrittenFileState::Missing, true);
    assert_eq!(r, Ok(format!("{} (Verified via Epistemic Delegation)", result)));
    assert_eq!(SusiTruthAgent::convergence_score_text("no score"), None);
    assert_eq!(
        SusiTruthAgent::convergence_score_text("[CONVERGENCE_SCORE: 0.5 [CONVERGENCE_SCORE: 0.9]"),
        Some("0.5 ".to_string())
    );
}
