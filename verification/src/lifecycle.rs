//! The daemon's lifecycle decisions: reading the lock file, when a stale
//! lock is cleared, when a running daemon is restarted, which binary is
//! launched, which configured ports moved, which process holding a port
//! may be evicted, and how discovery pings are answered.
use vstd::prelude::*;
use crate::daemon::SusiDaemon;
use crate::error::EaiResult;
use crate::evidence::{parsed_usize, parse_usize};
use crate::admin::{all_digits, digits_value};
use crate::text::{trim, trimmed, chars_of, contains_str, seq_contains, push_str, push_decimal, decimal, string_of};

verus! {

/// What `str::parse::<u32>` accepts, and the value it gives.
pub open spec fn parsed_u32(s: Seq<char>) -> Option<nat> {
    match parsed_usize(s) {
        Some(v) => if v <= u32::MAX { Some(v) } else { None },
        None => None,
    }
}

/// What `str::parse::<i32>` accepts: an optional sign before a non-empty
/// run of ASCII digits whose value fits an `i32`; the value it gives.
pub open spec fn parsed_i32(s: Seq<char>) -> Option<int> {
    if s.len() > 1 && s[0] == '-' {
        let d = s.drop_first();
        if all_digits(d) && digits_value(d) <= 0x8000_0000 { Some(-(digits_value(d) as int)) } else { None }
    } else {
        match parsed_usize(s) {
            Some(v) => if v <= 0x7fff_ffff { Some(v as int) } else { None },
            None => None,
        }
    }
}

/// What to do about the daemon.
#[derive(Debug, Clone, Copy, PartialEq, Eq)]
pub enum DaemonAction {
    /// A daemon runs and may go on.
    KeepRunning,
    /// A daemon runs from a binary that no longer matches its recorded
    /// signature: stop it, then start a new one.
    Restart(u32),
    /// No daemon runs: start one.
    Start,
}

/// The reply to a discovery datagram.
pub open spec fn discovery_answer(msg: Seq<char>, gmcp_port: u16) -> Option<Seq<char>> {
    if seq_contains(msg, "SUSI_LAN_PING"@) {
        Some("SUSI_LAN_PONG:susi-daemon-node:"@ + decimal(gmcp_port as nat))
    } else {
        None
    }
}

impl SusiDaemon {
    /// The process id a lock file records (its trimmed text as a `u32`).
    pub fn lock_pid(content: &str) -> (r: Option<u32>)
        ensures
            match parsed_u32(trim(content@)) {
                Some(v) => r == Some(v as u32),
                None => r is None,
            },
    {
        let t = trimmed(&chars_of(content));
        match parse_usize(&t) {
            Some(v) => if v <= 0xffff_ffff { Some(v as u32) } else { None },
            None => None,
        }
    }

    /// A lock older than an hour whose process is gone is cleared.
    pub fn lock_is_stale(age_secs: u64, process_alive: bool) -> (b: bool)
        ensures
            b == (age_secs > 3600 && !process_alive),
    {
        age_secs > 3600 && !process_alive
    }

    /// What to do given the running daemon's pid (if any), whether this
    /// program's own path could be found, and the integrity check of that
    /// path: a daemon whose binary changed is restarted; a running daemon
    /// otherwise goes on; with none running, one is started.
    pub fn daemon_action(running_pid: Option<u32>, exe_known: bool, integrity: &EaiResult<bool>) -> (r: DaemonAction)
        ensures
            r == match running_pid {
                Some(pid) => if exe_known && *integrity == Ok::<bool, crate::error::EaiError>(false) {
                    DaemonAction::Restart(pid)
                } else {
                    DaemonAction::KeepRunning
                },
                None => DaemonAction::Start,
            },
    {
        match running_pid {
            Some(pid) => {
                let changed = match integrity {
                    Ok(ok) => !*ok,
                    Err(_) => false,
                };
                if exe_known && changed {
                    DaemonAction::Restart(pid)
                } else {
                    DaemonAction::KeepRunning
                }
            },
            None => DaemonAction::Start,
        }
    }

    /// The notice that a recompiled binary restarts the daemon.
    pub fn restart_notice(pid: u32) -> (r: String)
        ensures
            r@ == "[SusiDaemon] Binary recompiled. Restarting daemon PID "@ + decimal(pid as nat) + "..."@,
    {
        let mut s = String::new();
        push_str(&mut s, "[SusiDaemon] Binary recompiled. Restarting daemon PID ");
        push_decimal(&mut s, pid as u64);
        push_str(&mut s, "...");
        s
    }

    /// The binary the daemon is launched from: the current executable
    /// when known, else the installed engine when present, else the
    /// plain command name.
    pub fn launch_binary(current_exe: Option<&str>, installed_engine: &str, engine_installed: bool, windows: bool) -> (r: String)
        ensures
            r@ == match current_exe {
                Some(e) => e@,
                None => if engine_installed {
                    installed_engine@
                } else if windows {
                    "susi.exe"@
                } else {
                    "susi"@
                },
            },
    {
        match current_exe {
            Some(e) => String::from_str(e),
            None => if engine_installed {
                String::from_str(installed_engine)
            } else if windows {
                String::from_str("susi.exe")
            } else {
                String::from_str("susi")
            },
        }
    }

    /// The configuration entries to rewrite after binding: each service
    /// whose bound port differs from its configured one, by setting name.
    pub fn port_updates(gemi: (u16, u16), gmcp_http: (u16, u16), udp_discovery: (u16, u16)) -> (r: Vec<(String, u16)>)
        ensures
            r@.map_values(|x: (String, u16)| (x.0@, x.1)) == (if gemi.0 != gemi.1 { seq![("gemi_port"@, gemi.1)] } else { Seq::empty() })
                + (if gmcp_http.0 != gmcp_http.1 { seq![("gmcp_http_port"@, gmcp_http.1)] } else { Seq::empty() })
                + (if udp_discovery.0 != udp_discovery.1 { seq![("udp_discovery_port"@, udp_discovery.1)] } else { Seq::empty() }),
    {
        let mut r: Vec<(String, u16)> = Vec::new();
        if gemi.0 != gemi.1 {
            r.push((String::from_str("gemi_port"), gemi.1));
        }
        if gmcp_http.0 != gmcp_http.1 {
            r.push((String::from_str("gmcp_http_port"), gmcp_http.1));
        }
        if udp_discovery.0 != udp_discovery.1 {
            r.push((String::from_str("udp_discovery_port"), udp_discovery.1));
        }
        proof {
            assert(r@.map_values(|x: (String, u16)| (x.0@, x.1)) =~= (if gemi.0 != gemi.1 { seq![("gemi_port"@, gemi.1)] } else { Seq::empty() })
                + (if gmcp_http.0 != gmcp_http.1 { seq![("gmcp_http_port"@, gmcp_http.1)] } else { Seq::empty() })
                + (if udp_discovery.0 != udp_discovery.1 { seq![("udp_discovery_port"@, udp_discovery.1)] } else { Seq::empty() }));
        }
        r
    }

    /// The process `fuser` reports holding a port (its trimmed output as
    /// an `i32`).
    pub fn port_holder(fuser_output: &str) -> (r: Option<i32>)
        ensures
            match parsed_i32(trim(fuser_output@)) {
                Some(v) => r == Some(v as i32),
                None => r is None,
            },
    {
        let t = trimmed(&chars_of(fuser_output));
        if t.len() > 1 && t[0] == '-' {
            let mut digits: Vec<char> = Vec::new();
            let mut k: usize = 1;
            while k < t.len()
                invariant
                    1 <= k <= t@.len(),
                    digits@ == t@.subrange(1, k as int),
                decreases t.len() - k,
            {
                digits.push(t[k]);
                proof {
                    assert(t@.subrange(1, k + 1) =~= t@.subrange(1, k as int).push(t@[k as int]));
                }
                k = k + 1;
            }
            proof {
                assert(digits@ =~= t@.drop_first());
            }
            if digits[0] == '+' {
                proof {
                    assert(!('0' <= digits@[0] <= '9'));
                }
                return None;
            }
            match parse_usize(&digits) {
                Some(v) => {
                    if v <= 0x8000_0000 {
                        Some((0i64 - v as i64) as i32)
                    } else {
                        None
                    }
                },
                None => None,
            }
        } else {
            match parse_usize(&t) {
                Some(v) => if v <= 0x7fff_ffff { Some(v as i32) } else { None },
                None => None,
            }
        }
    }

    /// A process whose command name mentions `susi` may be evicted.
    pub fn holds_susi(comm: &str) -> (b: bool)
        ensures
            b == seq_contains(comm@, "susi"@),
    {
        contains_str(&chars_of(comm), "susi")
    }

    /// The answer to a discovery datagram: a ping is answered with the
    /// node's protocol port.
    pub fn discovery_reply(msg: &str, gmcp_port: u16) -> (r: Option<String>)
        ensures
            match discovery_answer(msg@, gmcp_port) {
                Some(a) => r matches Some(x) && x@ == a,
                None => r is None,
            },
    {
        if contains_str(&chars_of(msg), "SUSI_LAN_PING") {
            let mut s = String::new();
            push_str(&mut s, "SUSI_LAN_PONG:susi-daemon-node:");
            push_decimal(&mut s, gmcp_port as u64);
            Some(s)
        } else {
            None
        }
    }
}

} // verus!
