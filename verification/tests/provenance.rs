use susi::provenance::{Claim, EvidenceRecord, EvidenceSource};

fn claim() -> Claim {
    Claim { subject: "build".to_string(), predicate: "passes".to_string(), value: "true".to_string() }
}

fn command(exit_code: i32) -> EvidenceSource {
    EvidenceSource::Command { command: "cargo test".to_string(), exit_code, output_hash: "abc".to_string() }
}

#[test]
fn signature_covers_the_signed_fields() {
    let r = EvidenceRecord::new("agent-7".to_string(), 50, 1700000000, claim(), command(0), 90);
    assert_eq!(r.signature, "9aec2ef123295a2adf01dd7c437a361347c3ae34af3a746773b17991fa07b508");
    assert_eq!(r.calculate_signature(), r.signature);
}

#[test]
fn rank_and_confidence_are_not_signed() {
    let a = EvidenceRecord::new("agent-7".to_string(), 50, 1700000000, claim(), command(0), 90);
    let b = EvidenceRecord::new("agent-7".to_string(), 99, 1700000000, claim(), command(0), 10);
    assert_eq!(a.signature, b.signature);
}

#[test]
fn fresh_command_record_stands_on_its_exit_code() {
    let ok = EvidenceRecord::new("agent-7".to_string(), 50, 1, claim(), command(0), 90);
    let failed = EvidenceRecord::new("agent-7".to_string(), 50, 1, claim(), command(2), 90);
    assert!(ok.verify_reality(None));
    assert!(!failed.verify_reality(None));
}

#[test]
fn tampered_claim_fails_signature_check() {
    let mut r = EvidenceRecord::new("agent-7".to_string(), 50, 1, claim(), command(0), 90);
    r.claim.value = "false".to_string();
    assert!(!r.verify_reality(None));
}

#[test]
fn file_source_must_hash_to_recorded_value() {
    let src = EvidenceSource::File {
        path: "notes.txt".to_string(),
        hash: "2cf24dba5fb0a30e26e83b2ac5b9e29e1b161e5c1fa7425e73043362938b9824".to_string(),
    };
    let r = EvidenceRecord::new("agent-7".to_string(), 50, 1, claim(), src, 90);
    assert!(r.verify_reality(Some(b"hello")));
    assert!(!r.verify_reality(Some(b"hello!")));
    assert!(!r.verify_reality(None));
}

#[test]
fn observation_sources_stand() {
    let src = EvidenceSource::AgentObservation { observation: "o".to_string(), reasoning_trace: "t".to_string() };
    let r = EvidenceRecord::new("a".to_string(), 0, 0, claim(), src, 0);
    assert!(r.verify_reality(None));
}

#[test]
fn record_renders_with_two_decimals() {
    let r = EvidenceRecord::new("agent-7".to_string(), 105, 1700000000, claim(), command(0), 7);
    assert_eq!(
        r.render_for_gemi(),
        format!(
            "[VERIFIED AGENT: agent-7 (Rank: 1.05, Confidence: 0.07)]\nClaim: build passes true\nSource: Command {{ command: \"cargo test\", exit_code: 0, output_hash: \"abc\" }}\nSignature: {}\n",
            r.signature
        )
    );
}

#[derive(Debug)]
#[allow(dead_code)]
enum Shown {
    File { path: std::path::PathBuf, hash: String },
    Command { command: String, exit_code: i32, output_hash: String },
    System { metric: String, value: String },
}

fn source_line(r: &EvidenceRecord) -> String {
    r.render_for_gemi().lines().nth(2).unwrap().to_string()
}

#[test]
fn sources_render_as_their_debug() {
    let tricky = "it's \"q\" \\ tab\t é\u{301} \u{0}";
    let file = EvidenceSource::File { path: tricky.to_string(), hash: tricky.to_string() };
    let r = EvidenceRecord::new("a".to_string(), 0, 0, claim(), file, 0);
    let expected = Shown::File { path: std::path::PathBuf::from(tricky), hash: tricky.to_string() };
    assert_eq!(source_line(&r), format!("Source: {:?}", expected));
    let cmd = EvidenceSource::Command { command: tricky.to_string(), exit_code: -3, output_hash: "h".to_string() };
    let r = EvidenceRecord::new("a".to_string(), 0, 0, claim(), cmd, 0);
    let expected = Shown::Command { command: tricky.to_string(), exit_code: -3, output_hash: "h".to_string() };
    assert_eq!(source_line(&r), format!("Source: {:?}", expected));
    let sys = EvidenceSource::System { metric: "ram".to_string(), value: "8".to_string() };
    let r = EvidenceRecord::new("a".to_string(), 0, 0, claim(), sys, 0);
    let expected = Shown::System { metric: "ram".to_string(), value: "8".to_string() };
    assert_eq!(source_line(&r), format!("Source: {:?}", expected));
}
