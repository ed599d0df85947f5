use susi::models::{ArtifactCheck, DownloadRetry, DownloadStep, ModelManager};
use susi::reflex::ToolArgument;
use susi::tools::CoreTools;
use susi::error::EaiError;

#[test]
fn attempts_are_clamped_and_back_off_doubles() {
    assert_eq!(DownloadRetry::new(0).attempts, 1);
    assert_eq!(DownloadRetry::new(20).attempts, 8);
    let mut d = DownloadRetry::new(3);
    assert!(matches!(d.record(Err("timeout".to_string()), false), DownloadStep::Retry(10)));
    assert!(matches!(d.record(Err("timeout again".to_string()), false), DownloadStep::Retry(20)));
    match d.record(Err("still down".to_string()), false) {
        DownloadStep::GiveUp(e) => assert_eq!(e, "still down"),
        other => panic!("unexpected {:?}", other),
    }
    assert_eq!(d.last_error, "still down");
}

#[test]
fn permanent_errors_and_cancellation_stop_at_once() {
    let mut d = DownloadRetry::new(5);
    assert!(matches!(d.record(Err("HTTP 404 not found".to_string()), false), DownloadStep::GiveUp(_)));
    let mut c = DownloadRetry::new(5);
    assert!(matches!(c.record(Err("reset".to_string()), true), DownloadStep::GiveUp(_)));
    let mut ok = DownloadRetry::new(5);
    assert!(matches!(ok.record(Ok(()), false), DownloadStep::Complete));
    assert_eq!(ModelManager::final_download_status(true), "STOPPED");
    assert_eq!(ModelManager::final_download_status(false), "FAILED");
}

#[test]
fn artifacts_are_checked_by_extension_and_tokens_go_to_the_hub_only() {
    assert_eq!(ModelManager::artifact_check("m.Q4.gguf"), ArtifactCheck::GgufPayload);
    assert_eq!(ModelManager::artifact_check("tokenizer.json"), ArtifactCheck::Tokenizer);
    assert_eq!(ModelManager::artifact_check("weights.bin"), ArtifactCheck::NonEmpty);
    assert!(ModelManager::is_trusted_origin("https://huggingface.co/a/b/resolve/main/x.gguf", "https://huggingface.co"));
    assert!(!ModelManager::is_trusted_origin("https://evil.example/x.gguf", "https://huggingface.co"));
    assert!(!ModelManager::is_trusted_origin("not a url", "https://huggingface.co"));
}

#[test]
fn exec_command_splits_shell_words() {
    assert_eq!(
        CoreTools::exec_command_args(&ToolArgument::Text("  git commit -m 'a b' ".to_string())),
        Ok(vec!["git".to_string(), "commit".to_string(), "-m".to_string(), "a b".to_string()])
    );
    assert_eq!(
        CoreTools::exec_command_args(&ToolArgument::Text("   ".to_string())),
        Err(EaiError::Protocol("Usage: exec_command <cmd>".to_string()))
    );
    assert_eq!(
        CoreTools::exec_command_args(&ToolArgument::Text("echo 'open".to_string())),
        Err(EaiError::Protocol("Invalid shell syntax".to_string()))
    );
    assert_eq!(
        CoreTools::exec_command_args(&ToolArgument::Text("# only a comment".to_string())),
        Err(EaiError::Protocol("Command cannot be empty".to_string()))
    );
    assert_eq!(
        CoreTools::exec_command_args(&ToolArgument::Json("3".to_string())),
        Err(EaiError::Protocol("Invalid argument type".to_string()))
    );
    assert_eq!(CoreTools::exec_command_result(true, "out".to_string(), "err".to_string()), Ok("out".to_string()));
    assert_eq!(
        CoreTools::exec_command_result(false, "out".to_string(), String::new()),
        Err(EaiError::Process("Command failed with non-zero exit status".to_string()))
    );
    assert_eq!(
        CoreTools::exec_command_result(false, String::new(), "boom".to_string()),
        Err(EaiError::Process("boom".to_string()))
    );
}
