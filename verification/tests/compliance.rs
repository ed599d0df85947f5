use susi::admin::SusiAdmin;
use susi::compliance::{AuditFindings, AuditedSource, ModelCheck};
use susi::error::EaiError;

fn source(name: &str, path: &str, content: &str) -> AuditedSource {
    AuditedSource { name: name.to_string(), path: path.to_string(), content: content.to_string() }
}

fn clean_findings() -> AuditFindings {
    AuditFindings {
        gitignore: Some("target/\n.susi/\n".to_string()),
        models: vec![ModelCheck { model_id: "qwen-0.5b".to_string(), checksum_verified: true }],
        binary_integrity: Some(Ok(true)),
        version_consistency: Ok("3.1.0".to_string()),
    }
}

#[test]
fn test_audit_compliance_passes_clean_workspace() {
    let sources = vec![source("main.rs", "src/main.rs", "fn main() {}")];
    let tokens = vec!["sk-live-".to_string()];
    let report = SusiAdmin::audit_compliance(Some("release"), &sources, &tokens, &clean_findings()).unwrap();
    assert_eq!(
        report,
        "# SUSI Compliance Audit\n\nTarget: release\n\n\
- [PASS] Security: No hardcoded secrets detected.\n\
- [PASS] Workspace Purity: .susi is correctly git-ignored.\n\
- [PASS] Model Integrity: qwen-0.5b (Verified: true)\n\
- [PASS] Binary Integrity: Executable hash matches trusted genome.\n\
- [PASS] Version Consistency: All manifests synchronized to v3.1.0.\n"
    );
}

#[test]
fn test_audit_compliance_reports_secrets_and_skips_exempt_files() {
    let sources = vec![
        source("lib.rs", "src/lib.rs", "let k = \"sk-live-123\"; let g = \"ghp_x\";"),
        source("security.rs", "src/security.rs", "sk-live-"),
    ];
    let tokens = vec!["sk-live-".to_string(), "ghp_".to_string()];
    let err = SusiAdmin::audit_compliance(None, &sources, &tokens, &clean_findings()).unwrap_err();
    match err {
        EaiError::Governance(m) => {
            assert!(m.starts_with("Compliance Audit Failed:\n# SUSI Compliance Audit\n\n- [FAIL] Security: Potential secret matching 'sk-live-' detected in src/lib.rs.\n- [FAIL] Security: Potential secret matching 'ghp_' detected in src/lib.rs.\n- [PASS] Workspace Purity"));
            assert!(!m.contains("src/security.rs"));
        }
        other => panic!("unexpected {:?}", other),
    }
}

#[test]
fn test_audit_compliance_warnings_do_not_fail() {
    let findings = AuditFindings {
        gitignore: None,
        models: vec![],
        binary_integrity: Some(Err(EaiError::Io("no exe".to_string()))),
        version_consistency: Ok("1.0.0".to_string()),
    };
    let report = SusiAdmin::audit_compliance(None, &vec![], &vec![], &findings).unwrap();
    assert_eq!(
        report,
        "# SUSI Compliance Audit\n\n\
- [PASS] Security: No hardcoded secrets detected.\n\
- [WARNING] Models: No local model substrates found.\n\
- [WARNING] Binary Integrity: Could not verify (I/O Error: no exe)\n\
- [PASS] Version Consistency: All manifests synchronized to v1.0.0.\n"
    );
}

#[test]
fn test_audit_compliance_each_failure_fails() {
    let mut f = clean_findings();
    f.gitignore = Some("target/\n".to_string());
    assert!(SusiAdmin::audit_compliance(None, &vec![], &vec![], &f).is_err());

    let mut f = clean_findings();
    f.models.push(ModelCheck { model_id: "bad".to_string(), checksum_verified: false });
    let e = SusiAdmin::audit_compliance(None, &vec![], &vec![], &f).unwrap_err();
    assert!(e.message().contains("- [FAIL] Model Integrity: bad (Verified: false)\n"));

    let mut f = clean_findings();
    f.binary_integrity = Some(Ok(false));
    assert!(SusiAdmin::audit_compliance(None, &vec![], &vec![], &f).is_err());

    let mut f = clean_findings();
    f.version_consistency = Err(EaiError::Config("Could not find version in Cargo.toml".to_string()));
    let e = SusiAdmin::audit_compliance(None, &vec![], &vec![], &f).unwrap_err();
    assert!(e.message().contains("- [FAIL] Version Consistency: Configuration Error: Could not find version in Cargo.toml\n"));
}
