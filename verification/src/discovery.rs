//! Zero-configuration peer discovery: the datagrams nodes exchange, and
//! how each one updates the list of known peers.
use vstd::prelude::*;
use crate::admin::{all_digits, digits_value};
use crate::evidence::lemma_digits_value_prefix;
use crate::gawd::SusiSupervisor;
use crate::swarm::ClusterPeer;
use crate::text::{
    chars_of, decimal, equals_str, push_decimal, push_str, seq_starts_with, split_at_char,
    split_char, starts_with, string_of,
};

verus! {

/// `s` read as `str::parse::<u64>` reads it: an optional `+` before a
/// non-empty run of ASCII digits whose value fits.
pub open spec fn parsed_u64(s: Seq<char>) -> Option<nat> {
    let d = if s.len() > 1 && s[0] == '+' { s.drop_first() } else { s };
    if d.len() > 0 && all_digits(d) && digits_value(d) <= u64::MAX {
        Some(digits_value(d))
    } else {
        None
    }
}

/// Parses a `u64` as `str::parse::<u64>` does.
pub fn parse_u64(s: &Vec<char>) -> (r: Option<u64>)
    ensures
        match parsed_u64(s@) {
            Some(v) => r == Some(v as u64),
            None => r is None,
        },
{
    let start: usize = if s.len() > 1 && s[0] == '+' { 1 } else { 0 };
    let ghost d = if s@.len() > 1 && s@[0] == '+' { s@.drop_first() } else { s@ };
    proof {
        assert(d =~= s@.skip(start as int));
    }
    if start >= s.len() {
        return None;
    }
    let mut v: u64 = 0;
    let mut i: usize = start;
    proof {
        assert(d.take(0) =~= Seq::<char>::empty());
    }
    while i < s.len()
        invariant
            start <= i <= s@.len(),
            d =~= s@.skip(start as int),
            d == (if s@.len() > 1 && s@[0] == '+' { s@.drop_first() } else { s@ }),
            all_digits(d.take(i - start)),
            v as nat == digits_value(d.take(i - start)),
        decreases s.len() - i,
    {
        let c = s[i];
        let ghost k: int = i - start;
        proof {
            assert(d[k] == c);
            assert(d.take(k + 1).drop_last() =~= d.take(k));
        }
        if !('0' <= c && c <= '9') {
            proof {
                assert(!('0' <= d[k] <= '9'));
            }
            return None;
        }
        let digit: u64 = (c as u32 - 48) as u64;
        proof {
            assert(d.take(k + 1).last() == c);
            assert(digits_value(d.take(k + 1)) == v * 10 + digit);
        }
        match v.checked_mul(10) {
            None => {
                proof {
                    lemma_digits_value_prefix(d, k + 1, d.len() as int);
                    assert(d.take(d.len() as int) =~= d);
                }
                return None;
            },
            Some(t) => match t.checked_add(digit) {
                None => {
                    proof {
                        lemma_digits_value_prefix(d, k + 1, d.len() as int);
                        assert(d.take(d.len() as int) =~= d);
                    }
                    return None;
                },
                Some(w) => {
                    v = w;
                },
            },
        }
        i = i + 1;
    }
    proof {
        assert(d.take(d.len() as int) =~= d);
    }
    Some(v)
}

/// A discovery datagram: a ping or a pong.
pub open spec fn is_discovery(msg: Seq<char>) -> bool {
    seq_starts_with(msg, "SUSI_PONG"@) || seq_starts_with(msg, "SUSI_PING"@)
}

/// The capabilities a datagram announces: its second `:`-separated field
/// split at commas, else `CORE` alone.
pub open spec fn announced_caps(msg: Seq<char>) -> Seq<Seq<char>> {
    let parts = split_char(msg, ':');
    if parts.len() > 1 { split_char(parts[1], ',') } else { seq!["CORE"@] }
}

/// The registry checksum a datagram announces: its third field read as a
/// `u64`, else zero.
pub open spec fn announced_checksum(msg: Seq<char>) -> u64 {
    let parts = split_char(msg, ':');
    if parts.len() > 2 {
        match parsed_u64(parts[2]) {
            Some(v) => v as u64,
            None => 0,
        }
    } else {
        0
    }
}

/// The address under which a source is known.
pub open spec fn peer_address(ip: Seq<char>) -> Seq<char> {
    ip + ":9090"@
}

/// The first peer known under an address.
pub open spec fn first_at(ps: Seq<ClusterPeer>, addr: Seq<char>) -> Option<int>
    decreases ps.len(),
{
    if ps.len() == 0 {
        None
    } else {
        match first_at(ps.drop_last(), addr) {
            Some(i) => Some(i),
            None => if ps.last().address@ == addr { Some(ps.len() - 1) } else { None },
        }
    }
}

/// A known peer heard from again: active, with the announced checksum,
/// and trusted fifty thousandths more, up to full trust.
pub open spec fn refreshed(old: ClusterPeer, new: ClusterPeer, checksum: u64) -> bool {
    &&& new.node_id == old.node_id
    &&& new.address == old.address
    &&& new.node_type == old.node_type
    &&& new.capabilities == old.capabilities
    &&& new.is_active
    &&& new.registry_checksum == checksum
    &&& new.trust_milli == (if old.trust_milli + 50 <= 1000 { old.trust_milli + 50 } else { 1000 })
}

/// A peer heard from for the first time: named after its address, a
/// workstation when it announces a GPU, active, trusted at six tenths.
pub open spec fn fresh_peer(p: ClusterPeer, ip: Seq<char>, caps: Seq<Seq<char>>, checksum: u64) -> bool {
    &&& p.node_id@ == "susi-peer-"@ + ip
    &&& p.address@ == peer_address(ip)
    &&& p.node_type@ == (if caps.contains("GPU"@) { "WORKSTATION_NODE"@ } else { "PEER"@ })
    &&& p.is_active
    &&& p.capabilities@.map_values(|c: String| c@) == caps
    &&& p.registry_checksum == checksum
    &&& p.trust_milli == 600
}

/// How a datagram changes the peer list: a ping or pong from another
/// machine refreshes the first peer known at the source's address, or
/// adds the source; anything else leaves the list alone.
pub open spec fn discovery_update(
    old: Seq<ClusterPeer>,
    new: Seq<ClusterPeer>,
    msg: Seq<char>,
    ip: Seq<char>,
    local_source: bool,
) -> bool {
    if !is_discovery(msg) || local_source {
        new == old
    } else {
        match first_at(old, peer_address(ip)) {
            Some(i) => {
                &&& new.len() == old.len()
                &&& forall|j: int| 0 <= j < old.len() && j != i ==> new[j] == old[j]
                &&& refreshed(old[i], new[i], announced_checksum(msg))
            },
            None => {
                &&& new.len() == old.len() + 1
                &&& forall|j: int| 0 <= j < old.len() ==> new[j] == old[j]
                &&& fresh_peer(new.last(), ip, announced_caps(msg), announced_checksum(msg))
            },
        }
    }
}

/// No two peers share an address.
pub open spec fn addresses_unique(ps: Seq<ClusterPeer>) -> bool {
    forall|i: int, j: int| 0 <= i < j < ps.len() ==> ps[i].address@ != ps[j].address@
}

proof fn lemma_first_at_none(ps: Seq<ClusterPeer>, addr: Seq<char>)
    ensures
        first_at(ps, addr) is None ==> forall|j: int| 0 <= j < ps.len() ==> ps[j].address@ != addr,
    decreases ps.len(),
{
    if ps.len() > 0 {
        lemma_first_at_none(ps.drop_last(), addr);
        if first_at(ps, addr) is None {
            assert forall|j: int| 0 <= j < ps.len() implies ps[j].address@ != addr by {
                if j < ps.len() - 1 {
                    assert(ps.drop_last()[j] == ps[j]);
                }
            }
        }
    }
}

/// Discovery never lists two peers under one address: a list without
/// duplicate addresses stays so after any datagram.
pub proof fn law_discovery_keeps_addresses_unique(
    old: Seq<ClusterPeer>,
    new: Seq<ClusterPeer>,
    msg: Seq<char>,
    ip: Seq<char>,
    local_source: bool,
)
    requires
        addresses_unique(old),
        discovery_update(old, new, msg, ip, local_source),
    ensures
        addresses_unique(new),
{
    if is_discovery(msg) && !local_source {
        lemma_first_at_none(old, peer_address(ip));
        match first_at(old, peer_address(ip)) {
            Some(i) => {
                assert forall|a: int, b: int| 0 <= a < b < new.len() implies new[a].address@ != new[b].address@ by {
                    assert(new[a].address@ == old[a].address@);
                    assert(new[b].address@ == old[b].address@);
                }
            },
            None => {
                assert forall|a: int, b: int| 0 <= a < b < new.len() implies new[a].address@ != new[b].address@ by {
                    if b == old.len() {
                        assert(new[a] == old[a]);
                    } else {
                        assert(new[a] == old[a]);
                        assert(new[b] == old[b]);
                    }
                }
            },
        }
    }
}

/// The local master's capabilities.
pub open spec fn master_caps() -> Seq<Seq<char>> {
    seq!["CORE"@, "INFERENCE"@, "TOOLING"@]
}

fn owned(s: &str) -> (r: String)
    ensures
        r@ == s@,
{
    let mut r = String::new();
    push_str(&mut r, s);
    r
}

fn has_gpu(caps: &Vec<String>) -> (b: bool)
    ensures
        b == caps@.map_values(|c: String| c@).contains("GPU"@),
{
    let mut i: usize = 0;
    while i < caps.len()
        invariant
            i <= caps@.len(),
            forall|j: int| 0 <= j < i ==> caps@[j]@ != "GPU"@,
        decreases caps.len() - i,
    {
        if equals_str(&chars_of(caps[i].as_str()), "GPU") {
            proof {
                assert(caps@.map_values(|c: String| c@)[i as int] == "GPU"@);
            }
            return true;
        }
        i = i + 1;
    }
    proof {
        if caps@.map_values(|c: String| c@).contains("GPU"@) {
            let cv = caps@.map_values(|c: String| c@);
            let j = choose|j: int| 0 <= j < cv.len() && #[trigger] cv[j] == "GPU"@;
            assert(caps@[j]@ == "GPU"@);
        }
    }
    false
}

fn find_peer(peers: &Vec<ClusterPeer>, addr: &str) -> (r: Option<usize>)
    ensures
        match first_at(peers@, addr@) {
            Some(i) => r == Some(i as usize),
            None => r is None,
        },
{
    let mut i: usize = 0;
    while i < peers.len()
        invariant
            i <= peers@.len(),
            first_at(peers@.take(i as int), addr@) is None,
        decreases peers.len() - i,
    {
        proof {
            assert(peers@.take(i + 1).drop_last() =~= peers@.take(i as int));
        }
        if equals_str(&chars_of(peers[i].address.as_str()), addr) {
            proof {
                lemma_first_at_prefix(peers@, addr@, i as int + 1);
            }
            return Some(i);
        }
        i = i + 1;
    }
    proof {
        assert(peers@.take(i as int) =~= peers@);
    }
    None
}

proof fn lemma_first_at_bounds(ps: Seq<ClusterPeer>, addr: Seq<char>)
    ensures
        first_at(ps, addr) matches Some(i) ==> 0 <= i < ps.len() && ps[i].address@ == addr,
    decreases ps.len(),
{
    if ps.len() > 0 {
        lemma_first_at_bounds(ps.drop_last(), addr);
    }
}

proof fn lemma_first_at_prefix(ps: Seq<ClusterPeer>, addr: Seq<char>, k: int)
    requires
        0 <= k <= ps.len(),
        first_at(ps.take(k), addr) is Some,
    ensures
        first_at(ps, addr) == first_at(ps.take(k), addr),
    decreases ps.len() - k,
{
    if k < ps.len() {
        assert(ps.take(k + 1).drop_last() =~= ps.take(k));
        lemma_first_at_prefix(ps, addr, k + 1);
    } else {
        assert(ps.take(k) =~= ps);
    }
}

/// Refreshes the peer known at the source's address, or adds it.
fn record_peer(peers: &mut Vec<ClusterPeer>, source_ip: &str, caps: Vec<String>, checksum: u64)
    ensures
        match first_at(old(peers)@, peer_address(source_ip@)) {
            Some(i) => {
                &&& final(peers)@.len() == old(peers)@.len()
                &&& forall|j: int| 0 <= j < old(peers)@.len() && j != i ==> final(peers)@[j] == old(peers)@[j]
                &&& refreshed(old(peers)@[i], final(peers)@[i], checksum)
            },
            None => {
                &&& final(peers)@.len() == old(peers)@.len() + 1
                &&& forall|j: int| 0 <= j < old(peers)@.len() ==> final(peers)@[j] == old(peers)@[j]
                &&& fresh_peer(final(peers)@.last(), source_ip@, caps@.map_values(|c: String| c@), checksum)
            },
        },
{
    let mut addr = String::new();
    push_str(&mut addr, source_ip);
    push_str(&mut addr, ":9090");
    proof {
        assert(addr@ == peer_address(source_ip@));
        lemma_first_at_bounds(peers@, addr@);
    }
    match find_peer(peers, addr.as_str()) {
        Some(i) => {
            let ghost listed = peers@;
            let mut p = peers.remove(i);
            let ghost before = p;
            p.trust_milli = if p.trust_milli >= 950 { 1000 } else { p.trust_milli + 50 };
            p.is_active = true;
            p.registry_checksum = checksum;
            peers.insert(i, p);
            proof {
                assert(peers@ =~= listed.update(i as int, p));
                assert(before == listed[i as int]);
                assert(refreshed(before, peers@[i as int], checksum));
                assert forall|j: int| 0 <= j < listed.len() && j != i implies peers@[j] == listed[j] by {}
            }
        },
        None => {
            let gpu = has_gpu(&caps);
            let mut node_id = String::new();
            push_str(&mut node_id, "susi-peer-");
            push_str(&mut node_id, source_ip);
            let node_type = if gpu { owned("WORKSTATION_NODE") } else { owned("PEER") };
            peers.push(ClusterPeer {
                node_id,
                address: addr,
                node_type,
                is_active: true,
                capabilities: caps,
                registry_checksum: checksum,
                trust_milli: 600,
            });
        },
    }
}

impl SusiSupervisor {
    /// The node itself, as first listed among the cluster's peers.
    pub fn local_master() -> (r: ClusterPeer)
        ensures
            r.node_id@ == "susi-local-master"@,
            r.address@ == "127.0.0.1:9090"@,
            r.node_type@ == "LOCAL_MASTER"@,
            r.is_active,
            r.capabilities@.map_values(|c: String| c@) == master_caps(),
            r.registry_checksum == 0,
            r.trust_milli == 1000,
    {
        let mut caps: Vec<String> = Vec::new();
        caps.push(owned("CORE"));
        caps.push(owned("INFERENCE"));
        caps.push(owned("TOOLING"));
        proof {
            assert(caps@.map_values(|c: String| c@) =~= master_caps());
        }
        ClusterPeer {
            node_id: owned("susi-local-master"),
            address: owned("127.0.0.1:9090"),
            node_type: owned("LOCAL_MASTER"),
            is_active: true,
            capabilities: caps,
            registry_checksum: 0,
            trust_milli: 1000,
        }
    }

    /// The ping a node broadcasts: its capabilities and registry checksum.
    pub fn discovery_ping(caps: &str, registry_checksum: u64) -> (r: String)
        ensures
            r@ == "SUSI_PING:"@ + caps@ + ":"@ + decimal(registry_checksum as nat),
    {
        let mut s = String::new();
        push_str(&mut s, "SUSI_PING:");
        push_str(&mut s, caps);
        push_str(&mut s, ":");
        push_decimal(&mut s, registry_checksum);
        s
    }

    /// Takes in a datagram from `source_ip`: a ping is answered with a
    /// pong carrying this node's capabilities and checksum; a ping or pong
    /// from another machine (`local_source` is false) refreshes the peer
    /// known at that address, or adds it.
    pub fn absorb_discovery(
        peers: &mut Vec<ClusterPeer>,
        msg: &str,
        source_ip: &str,
        local_source: bool,
        local_caps: &str,
        registry_checksum: u64,
    ) -> (reply: Option<String>)
        ensures
            seq_starts_with(msg@, "SUSI_PING"@) ==> (reply matches Some(x)
                && x@ == "SUSI_PONG:"@ + local_caps@ + ":"@ + decimal(registry_checksum as nat)),
            !seq_starts_with(msg@, "SUSI_PING"@) ==> reply is None,
            discovery_update(old(peers)@, final(peers)@, msg@, source_ip@, local_source),
    {
        let m = chars_of(msg);
        let ping = chars_of("SUSI_PING");
        let pong = chars_of("SUSI_PONG");
        let is_ping = starts_with(&m, &ping);
        let reply = if is_ping {
            let mut s = String::new();
            push_str(&mut s, "SUSI_PONG:");
            push_str(&mut s, local_caps);
            push_str(&mut s, ":");
            push_decimal(&mut s, registry_checksum);
            Some(s)
        } else {
            None
        };
        if !(starts_with(&m, &pong) || is_ping) || local_source {
            return reply;
        }
        let parts = split_at_char(&m, ':');
        proof {
            assert(parts@.map_values(|x: String| x@).len() == parts@.len());
        }
        let caps: Vec<String> = if parts.len() > 1 {
            let second = chars_of(parts[1].as_str());
            proof {
                assert(parts@.map_values(|x: String| x@)[1] == parts@[1]@);
            }
            split_at_char(&second, ',')
        } else {
            let mut v: Vec<String> = Vec::new();
            v.push(owned("CORE"));
            proof {
                assert(v@.map_values(|x: String| x@) =~= seq!["CORE"@]);
            }
            v
        };
        let checksum: u64 = if parts.len() > 2 {
            let third = chars_of(parts[2].as_str());
            proof {
                assert(parts@.map_values(|x: String| x@)[2] == parts@[2]@);
            }
            match parse_u64(&third) {
                Some(v) => v,
                None => 0,
            }
        } else {
            0
        };
        proof {
            assert(checksum == announced_checksum(msg@));
            assert(caps@.map_values(|c: String| c@) == announced_caps(msg@));
        }
        record_peer(peers, source_ip, caps, checksum);
        reply
    }
}

} // verus!
