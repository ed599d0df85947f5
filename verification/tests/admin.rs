use susi::admin::{AdminIntentClass, ReleaseAction, ReleasePipeline, ReleaseStep, StageResult, SusiAdmin};
use susi::error::EaiError;

#[test]
fn test_cuda_version_from_nvcc_output_extracts_release_version() {
    let text = "nvcc: NVIDIA (R) Cuda compiler driver\n\
                 Copyright (c) 2005-2026 NVIDIA Corporation\n\
                 Built on Mon_Aug_03_13:24:11_PDT_2026\n\
                 Cuda compilation tools, release 13.4, V13.4.59\n\
                 Build cuda_13.4.r13.4/compiler.38657139_0\n";
    assert_eq!(SusiAdmin::cuda_version_from_nvcc_output(text).as_deref(), Some("13.4"));
}

#[test]
fn test_cuda_version_from_nvcc_output_none_without_release_line() {
    assert_eq!(SusiAdmin::cuda_version_from_nvcc_output("garbage\n"), None);
}

#[test]
fn test_cuda_version_needs_clamp_matches_install_sh_thresholds() {
    assert!(!SusiAdmin::cuda_version_needs_clamp("13.3"));
    assert!(SusiAdmin::cuda_version_needs_clamp("13.4"));
    assert!(SusiAdmin::cuda_version_needs_clamp("13.9"));
    assert!(!SusiAdmin::cuda_version_needs_clamp("12.9"));
    assert!(!SusiAdmin::cuda_version_needs_clamp("14.0"));
    assert!(!SusiAdmin::cuda_version_needs_clamp("13"));
}

#[test]
fn needs_clamp_rejects_non_digit_and_oversized_minors() {
    assert!(!SusiAdmin::cuda_version_needs_clamp("13."));
    assert!(!SusiAdmin::cuda_version_needs_clamp("13.4.1"));
    assert!(!SusiAdmin::cuda_version_needs_clamp("13.+5"));
    assert!(!SusiAdmin::cuda_version_needs_clamp("13.99999999999"));
    assert!(SusiAdmin::cuda_version_needs_clamp("13.004"));
}

#[test]
fn clamp_env_follows_the_release() {
    assert_eq!(
        SusiAdmin::cuda_version_clamp_env("Cuda compilation tools, release 13.4, V13.4.59\n"),
        Some(("CUDARC_CUDA_VERSION", "13030"))
    );
    assert_eq!(SusiAdmin::cuda_version_clamp_env("Cuda compilation tools, release 12.1, V12.1\n"), None);
    assert_eq!(SusiAdmin::cuda_version_clamp_env("nothing"), None);
}

#[test]
fn cargo_version_comes_from_the_package_table() {
    let toml = "[workspace]\nversion = \"9.9.9\"\n\n[package]\nname = \"x\"\nversion = \"1.2.3\"\n[dependencies]\n";
    assert_eq!(SusiAdmin::get_cargo_version(toml), Ok("1.2.3".to_string()));
    assert_eq!(
        SusiAdmin::get_cargo_version("[package]\nname = \"x\"\n"),
        Err(EaiError::Config("Could not find version in Cargo.toml".to_string()))
    );
}

#[test]
fn version_alignment_names_the_first_stale_document() {
    let toml = "[package]\nversion = \"2.0.1\"\n";
    let docs = vec![
        ("IDENTITY.md".to_string(), "version = \"2.0.1\"".to_string()),
        ("ROADMAP.md".to_string(), "* **Current Engine Version**: `v2.0.1`".to_string()),
    ];
    assert_eq!(SusiAdmin::verify_version_alignment(toml, Some("![](version-v2.0.1-blue.svg)"), &docs), Ok(()));
    assert_eq!(
        SusiAdmin::verify_version_alignment(toml, Some("old badge"), &docs),
        Err(EaiError::Config(
            "README.md version badge is out of sync with Cargo.toml (v2.0.1). Run 'susi admin sync'.".to_string()
        ))
    );
    let stale = vec![
        ("IDENTITY.md".to_string(), "version = \"2.0.1\"".to_string()),
        ("EVIDENCE.md".to_string(), "version = \"1.0.0\"".to_string()),
    ];
    assert_eq!(
        SusiAdmin::verify_version_alignment(toml, None, &stale),
        Err(EaiError::Config(
            "EVIDENCE.md: version is out of sync with Cargo.toml (v2.0.1). Run 'susi admin sync'.".to_string()
        ))
    );
}

#[test]
fn natural_intents_are_classified_by_keywords_then_reflex() {
    assert_eq!(SusiAdmin::classify_natural_intent("  Status ", None), ("[QUERY]", "Zero-Mutation Interrogation"));
    assert_eq!(
        SusiAdmin::classify_natural_intent("rework the architecture", Some("query")),
        ("[MOTION]", "Architectural Evolution")
    );
    assert_eq!(
        SusiAdmin::classify_natural_intent("do the thing", Some("RECOMPILE now")),
        ("[MOTION]", "Architectural Evolution")
    );
    assert_eq!(
        SusiAdmin::classify_natural_intent("do the thing", None),
        ("[MISSION]", "Dynamic Task Fulfillment")
    );
    assert_eq!(SusiAdmin::keyword_classification("susi models list"), Some(AdminIntentClass::Query));
    assert_eq!(SusiAdmin::keyword_classification("build it"), None);
}

#[test]
fn version_sync_rewrites_manifest_badge_and_governance_lines() {


    let launcher = "[package]\nname = \"susi\"\nversion = \"0.1.0\"\n[dependencies]\nversion = \"9\"";
    assert_eq!(
        SusiAdmin::sync_launcher_manifest(launcher, "2.0.0"),
        "[package]\nname = \"susi\"\nversion = \"2.0.0\"\n[dependencies]\nversion = \"9\"\n"
    );
    let readme = "# SUSI\n![SUSI Version](https://img.shields.io/badge/version-v1.0.0-blue.svg)\ntext";
    let synced = SusiAdmin::sync_readme_badge(readme, "2.0.0");
    assert_eq!(
        synced,
        "# SUSI\n![SUSI Version](https://img.shields.io/badge/version-v2.0.0-blue.svg) ![License](https://img.shields.io/badge/license-Apache%202.0-green.svg)\ntext\n"
    );
    let doc = "---\nversion = \"1.0.0\"\n---\n* **Current Engine Version**: `v1.0.0`\nversion = \"keep\"\n";
    let synced_doc = SusiAdmin::sync_governance_doc(doc, "2.0.0");
    assert_eq!(
        synced_doc,
        "---\nversion = \"2.0.0\"\n---\n* **Current Engine Version**: `v2.0.0`\nversion = \"keep\"\n"
    );
    assert_eq!(SusiAdmin::sync_readme_badge("", "1"), "\n");
    let toml = "[package]\nversion = \"2.0.0\"\n";
    let docs = vec![("IDENTITY.md".to_string(), synced_doc.clone())];
    assert_eq!(SusiAdmin::verify_version_alignment(toml, Some(&synced), &docs), Ok(()));
}

#[test]
fn enforce_version_consistency_syncs_every_present_document() {
    let toml = "[package]\nversion = \"3.1.4\"\n";
    let docs = vec![("ROADMAP.md".to_string(), "* **Current Engine Version**: `v0.0.1`".to_string())];
    let sync = SusiAdmin::enforce_version_consistency(toml, None, Some("badge https://img.shields.io/badge/version-v0"), &docs).unwrap();
    assert_eq!(sync.version, "3.1.4");
    assert!(sync.launcher_manifest.is_none());
    assert_eq!(sync.governance_docs[0].0, "ROADMAP.md");
    assert_eq!(sync.governance_docs[0].1, "* **Current Engine Version**: `v3.1.4`\n");
    assert!(sync.readme.unwrap().contains("version-v3.1.4-blue.svg"));
    assert!(SusiAdmin::enforce_version_consistency("no version", None, None, &docs).is_err());
}

#[test]
fn release_runs_each_gate_in_order_and_aborts_on_failure() {

    let mut p = ReleasePipeline::new(false);
    let mut seen: Vec<String> = Vec::new();
    loop {
        match p.next_action() {
            ReleaseAction::Command { program, args, clamp_cuda, .. } => {
                seen.push(format!("{} {}{}", program, args.join(" "), if clamp_cuda { " [clamp]" } else { "" }));
            }
            ReleaseAction::ComplianceAudit => seen.push("audit".to_string()),
            ReleaseAction::VersionSync => seen.push("sync".to_string()),
            ReleaseAction::Finished => break,
        }
        match p.record(StageResult::Passed) {
            ReleaseStep::Continue => {}
            ReleaseStep::Complete(m) => {
                assert_eq!(m, "Motion Rule complete: check, tests, audit, lints, smoke-tests, sync, and push all succeeded. Substrate deployed.");
            }
            ReleaseStep::Aborted(e) => panic!("unexpected {:?}", e),
        }
    }
    assert_eq!(
        seen,
        vec![
            "cargo check --all-targets",
            "cargo check --all-targets --features cuda [clamp]",
            "audit",
            "cargo test",
            "cargo clippy --all-targets -- -D warnings",
            "cargo clippy --all-targets --features cuda -- -D warnings [clamp]",
            "cargo run --quiet -- identity",
            "cargo run --quiet -- status",
            "cargo run --quiet -- models",
            "sync",
            "git push",
        ]
    );
    let mut q = ReleasePipeline::new(true);
    assert!(matches!(q.next_action(), ReleaseAction::Command { .. }));
    match q.record(StageResult::CommandFailed(String::new())) {
        ReleaseStep::Aborted(e) => assert_eq!(e, EaiError::Process("Release aborted: cargo check failed.".to_string())),
        other => panic!("unexpected {:?}", other),
    }
    assert_eq!(q.stage, 0);
    let mut r = ReleasePipeline::new(true);
    r.stage = 10;
    match r.record(StageResult::CommandFailed("rejected".to_string())) {
        ReleaseStep::Aborted(e) => assert_eq!(
            e,
            EaiError::Process("Release, tests, and sync succeeded, but git push failed:\nrejected".to_string())
        ),
        other => panic!("unexpected {:?}", other),
    }
}

#[test]
fn git_push_runs_without_terminal_prompt() {
    let mut p = ReleasePipeline::new(false);
    p.stage = 10;
    match p.next_action() {
        ReleaseAction::Command { program, args, env, .. } => {
            assert_eq!(program, "git");
            assert_eq!(args, vec!["push"]);
            assert_eq!(env, vec![("GIT_TERMINAL_PROMPT".to_string(), "0".to_string())]);
        }
        _ => panic!("expected the push command"),
    }
    p.stage = 0;
    match p.next_action() {
        ReleaseAction::Command { env, .. } => assert!(env.is_empty()),
        _ => panic!("expected a cargo command"),
    }
}
