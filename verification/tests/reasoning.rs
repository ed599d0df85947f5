use susi::engine::GemiEngine;
use susi::error::EaiError;
use susi::reasoning::{EngineKind, ProvisionPoll, ReasoningEvent, ReasoningStep};

fn step(e: ReasoningEvent) -> ReasoningStep {
    GemiEngine::next_reasoning_step(e, &vec!["rm -rf /".to_string()])
}

#[test]
fn engine_selection_by_identifier() {
    assert_eq!(GemiEngine::select_engine("susi-federated"), EngineKind::Federated);
    assert_eq!(GemiEngine::select_engine("cloud"), EngineKind::Federated);
    assert_eq!(GemiEngine::select_engine("llama.cpp"), EngineKind::LlamaCpp);
}

#[test]
fn reflex_goes_first_when_allowed() {
    assert!(matches!(step(ReasoningEvent::Start { allow_reflex: true, engine: "cloud".to_string() }), ReasoningStep::TryReflex));
    assert!(matches!(
        step(ReasoningEvent::Start { allow_reflex: false, engine: "cloud".to_string() }),
        ReasoningStep::Infer(EngineKind::Federated)
    ));
}

#[test]
fn solved_reflex_is_streamed_answer() {
    match step(ReasoningEvent::Reflex { action: Some("ls".to_string()), engine: "x".to_string() }) {
        ReasoningStep::Answer { text, stream } => {
            assert_eq!(text, "ls");
            assert!(stream);
        }
        _ => panic!("expected answer"),
    }
    assert!(matches!(
        step(ReasoningEvent::Reflex { action: None, engine: "x".to_string() }),
        ReasoningStep::Infer(EngineKind::LlamaCpp)
    ));
}

#[test]
fn blank_or_failed_inference_falls_back() {
    assert!(matches!(
        step(ReasoningEvent::Inference { reply: Ok("  \n".to_string()), usable_model: false }),
        ReasoningStep::Provision
    ));
    assert!(matches!(
        step(ReasoningEvent::Inference { reply: Err(EaiError::inference("boom")), usable_model: true }),
        ReasoningStep::PowerTool
    ));
}

#[test]
fn usable_reply_is_answered_even_when_alignment_objects() {
    match step(ReasoningEvent::Inference { reply: Ok("then rm -rf / now".to_string()), usable_model: true }) {
        ReasoningStep::Answer { text, stream } => {
            assert_eq!(text, "then rm -rf / now");
            assert!(!stream);
        }
        _ => panic!("expected answer"),
    }
}

#[test]
fn provisioning_outcomes() {
    assert!(matches!(step(ReasoningEvent::Provisioned { reply: None }), ReasoningStep::PowerTool));
    match step(ReasoningEvent::Provisioned { reply: Some(Ok("42".to_string())) }) {
        ReasoningStep::Answer { text, .. } => assert_eq!(text, "42"),
        _ => panic!("expected answer"),
    }
}

#[test]
fn power_reply_or_failure_notice() {
    match step(ReasoningEvent::Power { reply: "answer".to_string() }) {
        ReasoningStep::Answer { text, stream } => {
            assert_eq!(text, "answer");
            assert!(stream);
        }
        _ => panic!("expected answer"),
    }
    match step(ReasoningEvent::Power { reply: "[CAPABILITY_GAP] none".to_string() }) {
        ReasoningStep::Answer { text, .. } => assert_eq!(
            text,
            "[FAIL] SUSI-Tier2-Inference: Local model inference and power reasoning fallback both failed."
        ),
        _ => panic!("expected answer"),
    }
}

#[test]
fn provisioning_poll_reports_changes_only() {
    match GemiEngine::provision_poll(true, false, Some(37), -1) {
        ProvisionPoll::Report { note, last_reported } => {
            assert_eq!(note, "[SUSI] Provisioning model... 37%\n");
            assert_eq!(last_reported, 37);
        }
        _ => panic!("expected report"),
    }
    assert!(matches!(GemiEngine::provision_poll(true, false, Some(37), 37), ProvisionPoll::Wait));
    assert!(matches!(GemiEngine::provision_poll(true, false, None, 37), ProvisionPoll::Wait));
    assert!(matches!(GemiEngine::provision_poll(true, true, None, 37), ProvisionPoll::Retry { .. }));
    match GemiEngine::provision_poll(false, true, Some(1), 0) {
        ProvisionPoll::GiveUp { note } => assert_eq!(
            note,
            "[SUSI] Model provisioning did not complete in time; trying alternate reasoning path...\n"
        ),
        _ => panic!("expected give up"),
    }
}
