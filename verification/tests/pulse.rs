use susi::error::EaiError;
use susi::pulse::{PulseCache, PulsePrediction, SusiPulse};

#[test]
fn test_pulse_cache_remembers_by_trimmed_prompt() {
    let mut cache = PulseCache::new();
    assert_eq!(SusiPulse::recall(&mut cache, "status", "fp1"), None);
    let a = SusiPulse::reason(&mut cache, "  status ", "/ws", PulsePrediction::Predicted("ACTION: status".to_string()));
    assert_eq!(a.unwrap(), "ACTION: status");
    assert_eq!(SusiPulse::recall(&mut cache, "status", "fp1"), Some("ACTION: status".to_string()));
    assert_eq!(cache.lookup("other"), None);
}

#[test]
fn test_pulse_cache_forgets_on_new_fingerprint() {
    let mut cache = PulseCache::new();
    assert!(cache.sync("fp1"));
    cache.remember("ls", "ACTION: list_directory /a");
    assert!(!cache.sync("fp1"));
    assert_eq!(cache.lookup("ls"), Some("ACTION: list_directory /a".to_string()));
    assert_eq!(SusiPulse::recall(&mut cache, "ls", "fp2"), None);
    assert_eq!(cache.lookup("ls"), None);
}

#[test]
fn test_pulse_pins_directory_listing_and_overwrites() {
    let mut cache = PulseCache::new();
    let a = SusiPulse::reason(&mut cache, "ls", "/home/me/ws", PulsePrediction::Predicted("ACTION: list_directory .".to_string()));
    assert_eq!(a.unwrap(), "ACTION: list_directory /home/me/ws");
    cache.remember("ls", "ACTION: other");
    assert_eq!(cache.lookup(" ls"), Some("ACTION: other".to_string()));
}

#[test]
fn test_pulse_escalates_without_prediction() {
    let mut cache = PulseCache::new();
    match SusiPulse::reason(&mut cache, "x", "/ws", PulsePrediction::LowConfidence) {
        Err(EaiError::Inference(m)) => assert_eq!(m, "Low confidence reflex. Escalating to Tier 2 Deep Reasoning..."),
        other => panic!("unexpected {:?}", other),
    }
    match SusiPulse::reason(&mut cache, "x", "/ws", PulsePrediction::Missing) {
        Err(EaiError::Inference(m)) => assert_eq!(m, "Pulse Brain: Neural substrate missing. Transitioning to Tier 2..."),
        other => panic!("unexpected {:?}", other),
    }
    assert_eq!(cache.lookup("x"), None);
}
