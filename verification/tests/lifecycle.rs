use susi::daemon::SusiDaemon;
use susi::error::EaiError;
use susi::lifecycle::DaemonAction;

#[test]
fn test_lock_pid_matches_std_parse() {
    for s in ["1234\n", "  42 ", "", "abc", "-1", "+7", "4294967295", "4294967296", "12 34"] {
        assert_eq!(SusiDaemon::lock_pid(s), s.trim().parse::<u32>().ok(), "input {:?}", s);
    }
}

#[test]
fn test_port_holder_matches_std_parse() {
    for s in ["4321\n", " -12 ", "-", "+", "-+5", "+5", "2147483647", "2147483648", "-2147483648", "-2147483649", "12 34", ""] {
        assert_eq!(SusiDaemon::port_holder(s), s.trim().parse::<i32>().ok(), "input {:?}", s);
    }
    assert!(SusiDaemon::holds_susi("susi-engine\n"));
    assert!(!SusiDaemon::holds_susi("nginx"));
}

#[test]
fn test_lock_staleness_and_daemon_action() {
    assert!(SusiDaemon::lock_is_stale(3601, false));
    assert!(!SusiDaemon::lock_is_stale(3600, false));
    assert!(!SusiDaemon::lock_is_stale(7200, true));
    assert_eq!(SusiDaemon::daemon_action(Some(7), true, &Ok(false)), DaemonAction::Restart(7));
    assert_eq!(SusiDaemon::daemon_action(Some(7), true, &Ok(true)), DaemonAction::KeepRunning);
    assert_eq!(SusiDaemon::daemon_action(Some(7), false, &Ok(false)), DaemonAction::KeepRunning);
    assert_eq!(SusiDaemon::daemon_action(Some(7), true, &Err(EaiError::Io("x".to_string()))), DaemonAction::KeepRunning);
    assert_eq!(SusiDaemon::daemon_action(None, true, &Ok(false)), DaemonAction::Start);
    assert_eq!(SusiDaemon::restart_notice(99), "[SusiDaemon] Binary recompiled. Restarting daemon PID 99...");
}

#[test]
fn test_launch_binary_and_port_updates() {
    assert_eq!(SusiDaemon::launch_binary(Some("/usr/bin/susi"), "/g/bin/susi-engine", true, false), "/usr/bin/susi");
    assert_eq!(SusiDaemon::launch_binary(None, "/g/bin/susi-engine", true, false), "/g/bin/susi-engine");
    assert_eq!(SusiDaemon::launch_binary(None, "/g/bin/susi-engine", false, true), "susi.exe");
    assert_eq!(SusiDaemon::launch_binary(None, "/g/bin/susi-engine", false, false), "susi");
    assert_eq!(
        SusiDaemon::port_updates((9091, 9091), (9093, 40000), (9092, 40001)),
        vec![("gmcp_http_port".to_string(), 40000), ("udp_discovery_port".to_string(), 40001)]
    );
    assert!(SusiDaemon::port_updates((1, 1), (2, 2), (3, 3)).is_empty());
}

#[test]
fn test_discovery_reply() {
    assert_eq!(SusiDaemon::discovery_reply("SUSI_LAN_PING", 9090), Some("SUSI_LAN_PONG:susi-daemon-node:9090".to_string()));
    assert_eq!(SusiDaemon::discovery_reply("hello", 9090), None);
}
