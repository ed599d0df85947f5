use susi::daemon::{IntegrityVerdict, SavedDigest, SusiDaemon};
use susi::gawd::ProtocolKnowledgeBase;
use susi::models::{InstallStep, ModelManager, TensorExtent};

const ABC_SHA256: &str = "ba7816bf8f01cfea414140de5dae2223b00361a396177a9cb410ff61f20015ad";

#[test]
fn binary_hash_is_hex_sha256() {
    assert_eq!(SusiDaemon::calculate_binary_hash(b"abc"), ABC_SHA256);
    assert_eq!(
        SusiDaemon::calculate_binary_hash(b""),
        "e3b0c44298fc1c149afbf4c8996fb92427ae41e4649b934ca495991b7852b855"
    );
}

#[test]
fn progress_file_is_keyed_by_target_digest() {
    assert_eq!(ModelManager::progress_file_name("abc"), format!("{}.json", ABC_SHA256));
}

#[test]
fn integrity_check_compares_trimmed_signatures() {
    let cur = "abc123";
    assert_eq!(
        SusiDaemon::verify_binary_integrity(&SavedDigest::Saved(" abc123\n".to_string()), cur),
        IntegrityVerdict { intact: true, rewrite: false }
    );
    assert_eq!(
        SusiDaemon::verify_binary_integrity(&SavedDigest::Saved("zzz".to_string()), cur),
        IntegrityVerdict { intact: false, rewrite: true }
    );
    assert_eq!(
        SusiDaemon::verify_binary_integrity(&SavedDigest::Absent, cur),
        IntegrityVerdict { intact: true, rewrite: true }
    );
    assert_eq!(
        SusiDaemon::verify_binary_integrity(&SavedDigest::Unreadable, cur),
        IntegrityVerdict { intact: false, rewrite: true }
    );
    let recorded = SusiDaemon::calculate_binary_hash(b"binary");
    assert_eq!(
        SusiDaemon::verify_binary_integrity(&SavedDigest::Saved(recorded.clone()), &recorded),
        IntegrityVerdict { intact: true, rewrite: false }
    );
}

#[test]
fn install_requests_start_downloads_only_for_urls() {
    match ModelManager::install_model("  https://hf.co/x/y.gguf ") {
        InstallStep::StartDownload(t) => assert_eq!(t, "https://hf.co/x/y.gguf"),
        other => panic!("unexpected {:?}", other),
    }
    match ModelManager::install_model("qwen small") {
        InstallStep::Reply(m) => assert_eq!(m, "Installation enqueued (non-HTTP query)."),
        other => panic!("unexpected {:?}", other),
    }
    assert_eq!(ModelManager::install_reply(Ok("queued".to_string())), "queued");
    assert_eq!(ModelManager::install_reply(Err("boom".to_string())), "ERROR: boom");
}

#[test]
fn audit_log_mission_starts_become_pending_reflexes() {
    let log = "x [MISSION_START] deploy the api \r\n[MISSION_START] hi\nother line\n[MISSION_START]  refactor core [MISSION_START] tail";
    let r = ProtocolKnowledgeBase::synthesize_training_data(log).unwrap();
    let intents: Vec<&str> = r.iter().map(|p| p.intent.as_str()).collect();
    assert_eq!(intents, vec!["deploy the api", "refactor core"]);
    assert!(r.iter().all(|p| p.action == "PENDING_DISTILLATION" && p.context == "SYNTHETIC_AUDIT_DERIVED" && !p.verified));
    assert!(ProtocolKnowledgeBase::synthesize_training_data("").unwrap().is_empty());
}

#[test]
fn gguf_payload_must_lie_within_the_file() {
    let q4 = |dims: Vec<usize>, offset: u64| TensorExtent { dims, block_size: 32, type_size: 18, offset };
    assert!(ModelManager::gguf_payload_fits(64, &vec![q4(vec![4, 8], 0)], 100));
    assert!(!ModelManager::gguf_payload_fits(64, &vec![q4(vec![4, 8], 0)], 80));
    assert!(!ModelManager::gguf_payload_fits(64, &vec![q4(vec![4, 8], 0), q4(vec![64], 10)], 100));
    assert!(ModelManager::gguf_payload_fits(64, &vec![q4(vec![4, 8], 0), q4(vec![64], 18)], 118));
    assert!(!ModelManager::gguf_payload_fits(64, &vec![], 1000));
    assert!(!ModelManager::gguf_payload_fits(64, &vec![q4(vec![0], 0)], 1000));
    assert!(!ModelManager::gguf_payload_fits(64, &vec![q4(vec![5], 0)], 1000));
    assert!(!ModelManager::gguf_payload_fits(64, &vec![q4(vec![usize::MAX, 2, 0], 0)], 1000));
    assert!(!ModelManager::gguf_payload_fits(u64::MAX, &vec![q4(vec![32], 1)], u64::MAX));
}

#[test]
fn base64_standard_encoding() {
    let cases: [(&[u8], &str); 6] = [
        (b"", ""),
        (b"h", "aA=="),
        (b"he", "aGU="),
        (b"hello", "aGVsbG8="),
        (&[0, 1, 2, 3, 4, 5, 6], "AAECAwQFBg=="),
        (&[0xff, 0xfe, 0xfd, 0x00], "//79AA=="),
    ];
    for (data, expected) in cases {
        assert_eq!(susi::digests::base64_encode(data), expected);
    }
}
