use susi::discovery::parse_u64;
use susi::gawd::SusiSupervisor;

fn chars(s: &str) -> Vec<char> {
    s.chars().collect()
}

#[test]
fn parse_u64_follows_str_parse() {
    assert_eq!(parse_u64(&chars("42")), Some(42));
    assert_eq!(parse_u64(&chars("+7")), Some(7));
    assert_eq!(parse_u64(&chars("18446744073709551615")), Some(u64::MAX));
    assert_eq!(parse_u64(&chars("18446744073709551616")), None);
    assert_eq!(parse_u64(&chars("")), None);
    assert_eq!(parse_u64(&chars("+")), None);
    assert_eq!(parse_u64(&chars("-1")), None);
    assert_eq!(parse_u64(&chars("12a")), None);
}

#[test]
fn local_master_is_first_peer() {
    let m = SusiSupervisor::local_master();
    assert_eq!(m.node_id, "susi-local-master");
    assert_eq!(m.address, "127.0.0.1:9090");
    assert_eq!(m.node_type, "LOCAL_MASTER");
    assert_eq!(m.capabilities, vec!["CORE", "INFERENCE", "TOOLING"]);
    assert_eq!(m.trust_milli, 1000);
}

#[test]
fn ping_text() {
    assert_eq!(SusiSupervisor::discovery_ping("CPU,GPU", 99), "SUSI_PING:CPU,GPU:99");
}

#[test]
fn ping_is_answered_and_new_peer_added() {
    let mut peers = vec![SusiSupervisor::local_master()];
    let reply = SusiSupervisor::absorb_discovery(&mut peers, "SUSI_PING:CPU,GPU:77", "10.0.0.5", false, "CPU", 5);
    assert_eq!(reply.as_deref(), Some("SUSI_PONG:CPU:5"));
    assert_eq!(peers.len(), 2);
    let p = &peers[1];
    assert_eq!(p.node_id, "susi-peer-10.0.0.5");
    assert_eq!(p.address, "10.0.0.5:9090");
    assert_eq!(p.node_type, "WORKSTATION_NODE");
    assert_eq!(p.capabilities, vec!["CPU", "GPU"]);
    assert_eq!(p.registry_checksum, 77);
    assert_eq!(p.trust_milli, 600);
    assert!(p.is_active);
}

#[test]
fn known_peer_is_refreshed_up_to_full_trust() {
    let mut peers = vec![SusiSupervisor::local_master()];
    SusiSupervisor::absorb_discovery(&mut peers, "SUSI_PONG:CPU:1", "10.0.0.6", false, "CPU", 5);
    assert_eq!(peers[1].node_type, "PEER");
    peers[1].is_active = false;
    let reply = SusiSupervisor::absorb_discovery(&mut peers, "SUSI_PONG:CPU:junk", "10.0.0.6", false, "CPU", 5);
    assert!(reply.is_none());
    assert_eq!(peers.len(), 2);
    assert_eq!(peers[1].trust_milli, 650);
    assert_eq!(peers[1].registry_checksum, 0);
    assert!(peers[1].is_active);
    for _ in 0..20 {
        SusiSupervisor::absorb_discovery(&mut peers, "SUSI_PONG", "10.0.0.6", false, "CPU", 5);
    }
    assert_eq!(peers[1].trust_milli, 1000);
}

#[test]
fn local_or_foreign_datagrams_leave_peers_alone() {
    let mut peers = vec![SusiSupervisor::local_master()];
    let reply = SusiSupervisor::absorb_discovery(&mut peers, "SUSI_PING:CPU:1", "127.0.0.1", true, "CPU", 5);
    assert!(reply.is_some());
    assert_eq!(peers.len(), 1);
    let reply = SusiSupervisor::absorb_discovery(&mut peers, "HELLO:CPU:1", "10.0.0.7", false, "CPU", 5);
    assert!(reply.is_none());
    assert_eq!(peers.len(), 1);
}

#[test]
fn bare_datagram_announces_core() {
    let mut peers = Vec::new();
    SusiSupervisor::absorb_discovery(&mut peers, "SUSI_PONG", "10.0.0.8", false, "CPU", 5);
    assert_eq!(peers[0].capabilities, vec!["CORE"]);
    assert_eq!(peers[0].registry_checksum, 0);
}
