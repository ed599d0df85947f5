//! The swarm supervisor's mission decisions: which peers hear a mission,
//! what the swarm's reports become, when a reinforcement wave goes out,
//! and how the blackboard is brought to consensus.
use vstd::prelude::*;
use crate::gawd::{A2AMessage, SusiSupervisor};
use crate::mission::{GawdAgentInfo, json_quote, json_quoted};
use crate::digests::{base64_encode, base64_standard};
use crate::evidence::{joined, lemma_joined_push};
use crate::text::{
    seq_contains, seq_starts_with, lowercase, lower_chars, chars_of, contains_str, starts_with,
    equals_str, push_str, string_of, push_decimal, decimal, comma_joined, debug_str, push_debug_str,
};

verus! {

/// What the supervisor knows of a cluster peer when routing a mission.
#[derive(Debug, Clone)]
pub struct ClusterPeer {
    pub node_id: String,
    pub address: String,
    pub node_type: String,
    pub is_active: bool,
    pub capabilities: Vec<String>,
    /// The agent registry checksum the peer last announced.
    pub registry_checksum: u64,
    /// Trust in the peer, in thousandths.
    pub trust_milli: u32,
}

/// A peer other than the local master, at a non-loopback address, and
/// active.
pub open spec fn is_remote_active(p: ClusterPeer) -> bool {
    &&& p.node_id@ != "susi-local-master"@
    &&& !seq_starts_with(p.address@, "127.0.0.1"@)
    &&& !seq_starts_with(p.address@, "localhost"@)
    &&& p.is_active
}

/// A peer that is sent the mission: active and not the local master.
pub open spec fn hears_mission(p: ClusterPeer) -> bool {
    p.node_id@ != "susi-local-master"@ && p.is_active
}

/// The number of remote active peers among `ps`.
pub open spec fn remote_active_count(ps: Seq<ClusterPeer>) -> nat
    decreases ps.len(),
{
    if ps.len() == 0 {
        0
    } else {
        remote_active_count(ps.drop_last()) + if is_remote_active(ps.last()) { 1nat } else { 0nat }
    }
}

/// The positions among the first two peers that hear the mission.
pub open spec fn mission_listeners(ps: Seq<ClusterPeer>) -> Seq<usize> {
    let first = if ps.len() > 0 && hears_mission(ps[0]) { seq![0usize] } else { Seq::empty() };
    let second = if ps.len() > 1 && hears_mission(ps[1]) { seq![1usize] } else { Seq::empty() };
    first + second
}

/// The message a swarm agent's report becomes.
pub open spec fn flux_message(m: A2AMessage, log: (String, String), action: Seq<char>) -> bool {
    &&& m.sender@ == log.0@
    &&& m.recipient@ == "SMA-Master"@
    &&& m.action@ == action
    &&& m.payload@ == log.1@
}

/// Some report announces a capability gap.
pub open spec fn reports_gap(logs: Seq<(String, String)>) -> bool {
    exists|i: int| 0 <= i < logs.len() && seq_contains((#[trigger] logs[i]).1@, "[CAPABILITY_GAP]"@)
}

/// The goal, lowercased, asks only to query or read: it names the
/// identity, the status, the models or the version, is `ls` or `dir`, or
/// asks who the user is.
pub open spec fn is_query_or_read(lower: Seq<char>) -> bool {
    seq_contains(lower, "identity"@) || seq_contains(lower, "status"@) || seq_contains(lower, "models"@)
        || seq_contains(lower, "version"@) || lower == "ls"@ || seq_starts_with(lower, "ls "@) || lower == "dir"@
        || seq_contains(lower, "who am i"@) || seq_contains(lower, "whoami"@)
}

/// A query as the consensus pass counts it: a query or read, or anything
/// that mentions `admin`.
pub open spec fn is_consensus_query(lower: Seq<char>) -> bool {
    is_query_or_read(lower) || seq_contains(lower, "admin"@)
}

/// An agent output that reports neither a failure nor a gap.
pub open spec fn is_success_output(o: Seq<char>) -> bool {
    !seq_contains(o, "FAILURE"@) && !seq_contains(o, "GAP"@)
}

/// The rank text of the first fleet member with a name.
pub open spec fn named_rank(fleet: Seq<(String, String)>, name: Seq<char>) -> Option<Seq<char>>
    decreases fleet.len(),
{
    if fleet.len() == 0 {
        None
    } else if fleet[0].0@ == name {
        Some(fleet[0].1@)
    } else {
        named_rank(fleet.drop_first(), name)
    }
}

/// The value of the first blackboard entry with a key.
pub open spec fn entry_of(bb: Seq<(String, String)>, key: Seq<char>) -> Option<Seq<char>>
    decreases bb.len(),
{
    if bb.len() == 0 {
        None
    } else if bb[0].0@ == key {
        Some(bb[0].1@)
    } else {
        entry_of(bb.drop_first(), key)
    }
}

/// The blackboard outputs of fleet members, each tagged with its agent and
/// rank, one per line, in blackboard order.
pub open spec fn weighted_wisdom(bb: Seq<(String, String)>, fleet: Seq<(String, String)>) -> Seq<char>
    decreases bb.len(),
{
    if bb.len() == 0 {
        Seq::empty()
    } else {
        let (agent, output) = bb.last();
        weighted_wisdom(bb.drop_last(), fleet) + match named_rank(fleet, agent@) {
            Some(rank) => "[AGENT: "@ + agent@ + " (Rank: "@ + rank + ")] "@ + output@ + "\n"@,
            None => Seq::empty(),
        }
    }
}

/// The fleet members whose blackboard output succeeded, in blackboard
/// order.
pub open spec fn rewarded_agents(bb: Seq<(String, String)>, fleet: Seq<(String, String)>) -> Seq<Seq<char>>
    decreases bb.len(),
{
    if bb.len() == 0 {
        Seq::empty()
    } else {
        let (agent, output) = bb.last();
        rewarded_agents(bb.drop_last(), fleet) + if named_rank(fleet, agent@) is Some && is_success_output(output@) {
            seq![agent@]
        } else {
            Seq::empty()
        }
    }
}

/// The number of blackboard outputs that succeeded.
pub open spec fn success_count(bb: Seq<(String, String)>) -> nat
    decreases bb.len(),
{
    if bb.len() == 0 {
        0
    } else {
        success_count(bb.drop_last()) + if is_success_output(bb.last().1@) { 1nat } else { 0nat }
    }
}

/// The direct answer: the search and translation outputs under headings,
/// or the weighted wisdom when neither agent wrote.
pub open spec fn direct_answer(bb: Seq<(String, String)>, wisdom: Seq<char>) -> Seq<char> {
    let search = entry_of(bb, "SearchAgent"@);
    let trans = entry_of(bb, "TranslationAgent"@);
    if search is None && trans is None {
        wisdom
    } else {
        (match search { Some(s) => "### SearchAgent Output\n"@ + s + "\n\n---\n\n"@, None => Seq::empty() })
            + (match trans { Some(t) => "### TranslationAgent Output\n"@ + t, None => Seq::empty() })
    }
}

/// The prompt that asks for a consensus answer.
pub open spec fn consensus_prompt(goal: Seq<char>, wisdom: Seq<char>) -> Seq<char> {
    "MISSION_GOAL: "@ + goal + "\n\n[WEIGHTED_WISDOM]:\n"@ + wisdom
        + "\n\n[INSTRUCTION]: Resolve conflicts using rank-weighted priority and synthesize a unified high-fidelity mission answer."@
}

/// How the mission answer is synthesized.
#[derive(Debug, Clone)]
pub enum Synthesis {
    /// The answer, composed without inference.
    Direct(String),
    /// The prompt to reason over.
    Reason(String),
}

/// The consensus pass over a blackboard: the weighted wisdom, the agents
/// to reward, how many outputs succeeded, and how to synthesize.
#[derive(Debug, Clone)]
pub struct ConsensusPlan {
    pub weighted_wisdom: String,
    pub rewarded: Vec<String>,
    pub success_count: usize,
    pub synthesis: Synthesis,
}

/// The payload of the last message from `sender`.
pub open spec fn last_from(ms: Seq<A2AMessage>, sender: Seq<char>) -> Option<Seq<char>>
    decreases ms.len(),
{
    if ms.len() == 0 {
        None
    } else if ms.last().sender@ == sender {
        Some(ms.last().payload@)
    } else {
        last_from(ms.drop_last(), sender)
    }
}

/// The `[sender]: payload` lines of the messages with a successful,
/// non-empty payload, in order.
pub open spec fn wisdom_lines(ms: Seq<A2AMessage>) -> Seq<Seq<char>>
    decreases ms.len(),
{
    if ms.len() == 0 {
        Seq::empty()
    } else {
        let m = ms.last();
        wisdom_lines(ms.drop_last()) + if is_success_output(m.payload@) && m.payload@.len() > 0 {
            seq!["["@ + m.sender@ + "]: "@ + m.payload@]
        } else {
            Seq::empty()
        }
    }
}

/// The swarm's wisdom: the consensus master's last word, else the admin
/// agent's, else the successful messages one per line.
pub open spec fn gathered_wisdom(ms: Seq<A2AMessage>) -> Seq<char> {
    match last_from(ms, "ConsensusMaster"@) {
        Some(c) => c,
        None => match last_from(ms, "AdminAgent"@) {
            Some(a) => a,
            None => if wisdom_lines(ms).len() == 0 {
                "No valid wisdom gathered from swarm."@
            } else {
                joined(wisdom_lines(ms))
            },
        },
    }
}

/// What `format!("{:?}", message)` renders: the derived `Debug` layout
/// of its four fields in declaration order.
pub open spec fn message_debug(m: A2AMessage) -> Seq<char> {
    "A2AMessage { sender: "@ + debug_str(m.sender@) + ", recipient: "@ + debug_str(m.recipient@)
        + ", action: "@ + debug_str(m.action@) + ", payload: "@ + debug_str(m.payload@) + " }"@
}

/// What `format!("{:?}", messages)` renders for a list of messages: each
/// message's `Debug`, comma-separated, in brackets.
pub open spec fn messages_debug(ms: Seq<A2AMessage>) -> Seq<char> {
    "["@ + comma_joined(ms.map_values(|m: A2AMessage| message_debug(m))) + "]"@
}

fn push_message_debug(out: &mut String, m: &A2AMessage)
    ensures
        final(out)@ == old(out)@ + message_debug(*m),
{
    let ghost start = out@;
    push_str(out, "A2AMessage { sender: ");
    push_debug_str(out, m.sender.as_str());
    push_str(out, ", recipient: ");
    push_debug_str(out, m.recipient.as_str());
    push_str(out, ", action: ");
    push_debug_str(out, m.action.as_str());
    push_str(out, ", payload: ");
    push_debug_str(out, m.payload.as_str());
    push_str(out, " }");
    proof {
        assert(out@ =~= start + message_debug(*m));
    }
}

/// Renders messages as `format!("{:?}", ..)` does.
fn debug_messages(ms: &Vec<A2AMessage>) -> (r: String)
    ensures
        r@ == messages_debug(ms@),
{
    let mut out = String::new();
    push_str(&mut out, "[");
    let mut i: usize = 0;
    while i < ms.len()
        invariant
            i <= ms@.len(),
            out@ == "["@ + comma_joined(ms@.take(i as int).map_values(|m: A2AMessage| message_debug(m))),
        decreases ms.len() - i,
    {
        if i > 0 {
            push_str(&mut out, ", ");
        }
        push_message_debug(&mut out, &ms[i]);
        proof {
            let prev = ms@.take(i as int).map_values(|m: A2AMessage| message_debug(m));
            let next = ms@.take(i + 1).map_values(|m: A2AMessage| message_debug(m));
            assert(next =~= prev.push(message_debug(ms@[i as int])));
            assert(next.drop_last() =~= prev);
            if i == 0 {
                assert(comma_joined(prev) =~= Seq::<char>::empty());
            }
            assert(out@ =~= "["@ + comma_joined(next));
        }
        i = i + 1;
    }
    push_str(&mut out, "]");
    proof {
        assert(ms@.take(i as int) =~= ms@);
    }
    out
}

/// The positions of the peers that `keep` accepts, in order.
pub open spec fn peer_indices(ps: Seq<ClusterPeer>, keep: spec_fn(ClusterPeer) -> bool) -> Seq<usize>
    decreases ps.len(),
{
    if ps.len() == 0 {
        Seq::empty()
    } else {
        peer_indices(ps.drop_last(), keep) + if keep(ps.last()) { seq![(ps.len() - 1) as usize] } else { Seq::empty() }
    }
}

/// Peers that receive replicated state: workstations other than the local
/// master.
pub open spec fn is_replica(p: ClusterPeer) -> bool {
    p.node_type@ == "WORKSTATION_NODE"@ && p.node_id@ != "susi-local-master"@
}

/// Peers other than the local master.
pub open spec fn is_remote(p: ClusterPeer) -> bool {
    p.node_id@ != "susi-local-master"@
}

/// The sources a LAN ping heard from: those whose reply mentions `SUSI`,
/// or the local node alone when none did.
pub open spec fn lan_sources(replies: Seq<(String, String)>) -> Seq<Seq<char>>
    decreases replies.len(),
{
    if replies.len() == 0 {
        Seq::empty()
    } else {
        lan_sources(replies.drop_last()) + if seq_contains(replies.last().0@, "SUSI"@) {
            seq![replies.last().1@]
        } else {
            Seq::empty()
        }
    }
}

/// The sync requests for peers: each peer other than the local master
/// gets, at its address, the payload signed with its node id.
pub open spec fn sync_plan(ps: Seq<ClusterPeer>, payload: Seq<char>) -> Seq<(Seq<char>, Seq<char>)>
    decreases ps.len(),
{
    if ps.len() == 0 {
        Seq::empty()
    } else {
        let p = ps.last();
        sync_plan(ps.drop_last(), payload) + if is_remote(p) {
            seq![(p.address@, "SIG:"@ + p.node_id@ + ":"@ + payload)]
        } else {
            Seq::empty()
        }
    }
}

/// The number of replies that report a completed sync.
pub open spec fn synced_count(replies: Seq<String>) -> nat
    decreases replies.len(),
{
    if replies.len() == 0 {
        0
    } else {
        synced_count(replies.drop_last()) + if seq_contains(replies.last()@, "Sync complete"@) { 1nat } else { 0nat }
    }
}

impl SusiSupervisor {
    /// The positions of the peers `keep` accepts.
    fn select_peers(peers: &Vec<ClusterPeer>, replicas: bool) -> (r: Vec<usize>)
        ensures
            r@ == peer_indices(peers@, if replicas { |p: ClusterPeer| is_replica(p) } else { |p: ClusterPeer| is_remote(p) && p.is_active }),
    {
        let ghost keep = if replicas { |p: ClusterPeer| is_replica(p) } else { |p: ClusterPeer| is_remote(p) && p.is_active };
        let mut out: Vec<usize> = Vec::new();
        let mut i: usize = 0;
        proof {
            assert(peers@.take(0) =~= Seq::<ClusterPeer>::empty());
        }
        while i < peers.len()
            invariant
                i <= peers@.len(),
                keep == (if replicas { |p: ClusterPeer| is_replica(p) } else { |p: ClusterPeer| is_remote(p) && p.is_active }),
                out@ == peer_indices(peers@.take(i as int), keep),
            decreases peers.len() - i,
        {
            proof {
                assert(peers@.take(i + 1).drop_last() =~= peers@.take(i as int));
                assert(peers@.take(i + 1).last() == peers@[i as int]);
            }
            let p = &peers[i];
            let id = chars_of(p.node_id.as_str());
            let remote = !equals_str(&id, "susi-local-master");
            let t = chars_of(p.node_type.as_str());
            let take = if replicas { equals_str(&t, "WORKSTATION_NODE") && remote } else { remote && p.is_active };
            if take {
                out.push(i);
            }
            proof {
                assert(out@ =~= peer_indices(peers@.take(i + 1), keep));
            }
            i = i + 1;
        }
        proof {
            assert(peers@.take(peers@.len() as int) =~= peers@);
        }
        out
    }

    /// The peers that receive replicated checkpoints and reflexes:
    /// workstations other than the local master.
    pub fn replication_targets(peers: &Vec<ClusterPeer>) -> (r: Vec<usize>)
        ensures
            r@ == peer_indices(peers@, |p: ClusterPeer| is_replica(p)),
    {
        Self::select_peers(peers, true)
    }

    /// The payload that replicates a learned reflex: its name and its
    /// WebAssembly module in standard base64, as a JSON object.
    pub fn reflex_replication_payload(name: &str, wasm: &[u8]) -> (r: String)
        ensures
            r@ == "{\"name\":"@ + json_quoted(name@) + ",\"wasm_b64\":"@ + json_quoted(base64_standard(wasm@)) + "}"@,
    {
        let encoded = base64_encode(wasm);
        let mut s = String::new();
        push_str(&mut s, "{\"name\":");
        push_str(&mut s, json_quote(name).as_str());
        push_str(&mut s, ",\"wasm_b64\":");
        push_str(&mut s, json_quote(encoded.as_str()).as_str());
        push_str(&mut s, "}");
        s
    }

    /// The peers asked for their distilled experience: active peers other
    /// than the local master.
    pub fn federation_sources(peers: &Vec<ClusterPeer>) -> (r: Vec<usize>)
        ensures
            r@ == peer_indices(peers@, |p: ClusterPeer| is_remote(p) && p.is_active),
    {
        Self::select_peers(peers, false)
    }

    /// The report of a federated aggregation.
    pub fn aggregate_federated_experience(total_samples: u64, node_count: u64) -> (r: String)
        ensures
            r@ == "Aggregated "@ + decimal(total_samples as nat) + " distilled experiences from "@
                + decimal(node_count as nat) + " independent nodes into the Knowledge Vault."@,
    {
        let mut m = String::new();
        push_str(&mut m, "Aggregated ");
        push_decimal(&mut m, total_samples);
        push_str(&mut m, " distilled experiences from ");
        push_decimal(&mut m, node_count);
        push_str(&mut m, " independent nodes into the Knowledge Vault.");
        m
    }

    /// The sources a LAN ping heard from, given each reply's text and
    /// source address: those whose reply mentions `SUSI`, or the local
    /// node when none did.
    pub fn broadcast_lan_ping(replies: &Vec<(String, String)>) -> (r: Vec<String>)
        ensures
            r@.map_values(|x: String| x@) == if lan_sources(replies@).len() == 0 {
                seq!["127.0.0.1:9090 (local)"@]
            } else {
                lan_sources(replies@)
            },
    {
        let mut out: Vec<String> = Vec::new();
        let mut i: usize = 0;
        proof {
            assert(replies@.take(0) =~= Seq::<(String, String)>::empty());
            assert(out@.map_values(|x: String| x@) =~= Seq::<Seq<char>>::empty());
        }
        while i < replies.len()
            invariant
                i <= replies@.len(),
                out@.map_values(|x: String| x@) == lan_sources(replies@.take(i as int)),
            decreases replies.len() - i,
        {
            proof {
                assert(replies@.take(i + 1).drop_last() =~= replies@.take(i as int));
                assert(replies@.take(i + 1).last() == replies@[i as int]);
            }
            let ghost before = out@.map_values(|x: String| x@);
            let (msg, src) = &replies[i];
            let m = chars_of(msg.as_str());
            if contains_str(&m, "SUSI") {
                out.push(string_of(&chars_of(src.as_str())));
                proof {
                    assert(out@.map_values(|x: String| x@) =~= before.push(src@));
                }
            }
            proof {
                assert(out@.map_values(|x: String| x@) =~= lan_sources(replies@.take(i + 1)));
            }
            i = i + 1;
        }
        proof {
            assert(replies@.take(replies@.len() as int) =~= replies@);
        }
        if out.len() == 0 {
            out.push(String::from_str("127.0.0.1:9090 (local)"));
            proof {
                assert(out@.map_values(|x: String| x@) =~= seq!["127.0.0.1:9090 (local)"@]);
            }
        }
        out
    }

    /// The sync requests for a state payload: each of the first sixteen
    /// peers other than the local master gets the payload signed with its
    /// node id, at its address.
    pub fn sync_requests(peers: &Vec<ClusterPeer>, payload: &str) -> (r: Vec<(String, String)>)
        ensures
            r@.map_values(|x: (String, String)| (x.0@, x.1@))
                == sync_plan(peers@.take(if peers@.len() < 16 { peers@.len() as int } else { 16 }), payload@),
    {
        let n: usize = if peers.len() < 16 { peers.len() } else { 16 };
        let ghost firsts = peers@.take(n as int);
        let mut out: Vec<(String, String)> = Vec::new();
        let mut i: usize = 0;
        proof {
            assert(firsts.take(0) =~= Seq::<ClusterPeer>::empty());
            assert(out@.map_values(|x: (String, String)| (x.0@, x.1@)) =~= Seq::<(Seq<char>, Seq<char>)>::empty());
        }
        while i < n
            invariant
                i <= n <= peers@.len(),
                firsts == peers@.take(n as int),
                out@.map_values(|x: (String, String)| (x.0@, x.1@)) == sync_plan(firsts.take(i as int), payload@),
            decreases n - i,
        {
            proof {
                assert(firsts.take(i + 1).drop_last() =~= firsts.take(i as int));
                assert(firsts.take(i + 1).last() == peers@[i as int]);
            }
            let ghost before = out@.map_values(|x: (String, String)| (x.0@, x.1@));
            let p = &peers[i];
            let id = chars_of(p.node_id.as_str());
            if !equals_str(&id, "susi-local-master") {
                let mut signed = String::new();
                push_str(&mut signed, "SIG:");
                push_str(&mut signed, p.node_id.as_str());
                push_str(&mut signed, ":");
                push_str(&mut signed, payload);
                out.push((string_of(&chars_of(p.address.as_str())), signed));
                proof {
                    assert(out@.map_values(|x: (String, String)| (x.0@, x.1@))
                        =~= before.push((p.address@, "SIG:"@ + p.node_id@ + ":"@ + payload@)));
                }
            }
            proof {
                assert(out@.map_values(|x: (String, String)| (x.0@, x.1@)) =~= sync_plan(firsts.take(i + 1), payload@));
            }
            i = i + 1;
        }
        proof {
            assert(firsts.take(n as int) =~= firsts);
        }
        out
    }

    /// How many peers report a completed sync, and the report.
    pub fn sync_cluster_state(replies: &Vec<String>) -> (r: (usize, String))
        ensures
            r.0 as nat == synced_count(replies@),
            r.1@ == "Synchronized state across "@ + decimal(r.0 as nat) + " nodes in parallel (checksum verified)."@,
    {
        let mut synced: usize = 0;
        let mut i: usize = 0;
        proof {
            assert(replies@.take(0) =~= Seq::<String>::empty());
        }
        while i < replies.len()
            invariant
                i <= replies@.len(),
                synced as nat == synced_count(replies@.take(i as int)),
                synced <= i,
            decreases replies.len() - i,
        {
            proof {
                assert(replies@.take(i + 1).drop_last() =~= replies@.take(i as int));
                assert(replies@.take(i + 1).last() == replies@[i as int]);
            }
            let t = chars_of(replies[i].as_str());
            if contains_str(&t, "Sync complete") {
                synced = synced + 1;
            }
            i = i + 1;
        }
        proof {
            assert(replies@.take(replies@.len() as int) =~= replies@);
        }
        let mut m = String::new();
        push_str(&mut m, "Synchronized state across ");
        push_decimal(&mut m, synced as u64);
        push_str(&mut m, " nodes in parallel (checksum verified).");
        (synced, m)
    }

    /// A cluster-wide lock is granted unless a peer that answered refused
    /// it (a peer that could not be asked does not count).
    pub fn broadcast_lock_request(replies: &Vec<Option<String>>) -> (b: bool)
        ensures
            b == forall|i: int| 0 <= i < replies@.len() ==> (#[trigger] replies@[i] matches Some(x) ==> seq_contains(x@, "SUCCESS"@)),
    {
        let mut i: usize = 0;
        while i < replies.len()
            invariant
                i <= replies@.len(),
                forall|j: int| 0 <= j < i ==> (#[trigger] replies@[j] matches Some(x) ==> seq_contains(x@, "SUCCESS"@)),
            decreases replies.len() - i,
        {
            match &replies[i] {
                Some(x) => {
                    let t = chars_of(x.as_str());
                    if !contains_str(&t, "SUCCESS") {
                        return false;
                    }
                },
                None => {},
            }
            i = i + 1;
        }
        true
    }

    /// How many remote peers are active, and which of the first two peers
    /// are sent the mission.
    pub fn mission_broadcast(peers: &Vec<ClusterPeer>) -> (r: (usize, Vec<usize>))
        ensures
            r.0 as nat == remote_active_count(peers@),
            r.1@ == mission_listeners(peers@),
    {
        let mut count: usize = 0;
        let mut i: usize = 0;
        proof {
            assert(peers@.take(0) =~= Seq::<ClusterPeer>::empty());
        }
        while i < peers.len()
            invariant
                i <= peers@.len(),
                count as nat == remote_active_count(peers@.take(i as int)),
                count <= i,
            decreases peers.len() - i,
        {
            proof {
                assert(peers@.take(i + 1).drop_last() =~= peers@.take(i as int));
                assert(peers@.take(i + 1).last() == peers@[i as int]);
            }
            let p = &peers[i];
            let id = chars_of(p.node_id.as_str());
            let addr = chars_of(p.address.as_str());
            let lo = chars_of("127.0.0.1");
            let lh = chars_of("localhost");
            if !equals_str(&id, "susi-local-master") && !starts_with(&addr, &lo) && !starts_with(&addr, &lh) && p.is_active {
                count = count + 1;
            }
            i = i + 1;
        }
        proof {
            assert(peers@.take(peers@.len() as int) =~= peers@);
        }
        let mut targets: Vec<usize> = Vec::new();
        let mut j: usize = 0;
        while j < peers.len() && j < 2
            invariant
                j <= 2,
                j <= peers@.len(),
                targets@ == mission_listeners(peers@.take(j as int)),
            decreases 2 - j,
        {
            let p = &peers[j];
            let id = chars_of(p.node_id.as_str());
            if !equals_str(&id, "susi-local-master") && p.is_active {
                targets.push(j);
            }
            proof {
                assert(peers@.take(j + 1)[j as int] == peers@[j as int]);
                if j == 1 {
                    assert(peers@.take(2)[0] == peers@[0]);
                }
                assert(targets@ =~= mission_listeners(peers@.take(j + 1)));
            }
            j = j + 1;
        }
        proof {
            if peers@.len() <= 2 {
                assert(peers@.take(j as int) =~= peers@);
            } else {
                assert(peers@.take(2)[0] == peers@[0]);
                assert(peers@.take(2)[1] == peers@[1]);
            }
        }
        (count, targets)
    }

    /// The swarm's reports as messages to the master (each tagged with
    /// `action`), and whether any report announces a capability gap.
    pub fn collect_swarm_flux(logs: &Vec<(String, String)>, action: &str) -> (r: (Vec<A2AMessage>, bool))
        ensures
            r.0@.len() == logs@.len(),
            forall|i: int| 0 <= i < logs@.len() ==> flux_message(#[trigger] r.0@[i], logs@[i], action@),
            r.1 == reports_gap(logs@),
    {
        let mut out: Vec<A2AMessage> = Vec::new();
        let mut gap = false;
        let mut i: usize = 0;
        while i < logs.len()
            invariant
                i <= logs@.len(),
                out@.len() == i,
                forall|j: int| 0 <= j < i ==> flux_message(#[trigger] out@[j], logs@[j], action@),
                gap == exists|j: int| 0 <= j < i && seq_contains((#[trigger] logs@[j]).1@, "[CAPABILITY_GAP]"@),
            decreases logs.len() - i,
        {
            let (name, output) = &logs[i];
            let o = chars_of(output.as_str());
            if contains_str(&o, "[CAPABILITY_GAP]") {
                gap = true;
            }
            out.push(A2AMessage {
                sender: string_of(&chars_of(name.as_str())),
                recipient: string_of(&chars_of("SMA-Master")),
                action: string_of(&chars_of(action)),
                payload: string_of(&o),
            });
            i = i + 1;
        }
        (out, gap)
    }

    /// A reinforcement wave goes out when the swarm reported a capability
    /// gap and the goal is not a plain query or read.
    pub fn needs_reinforcement(goal: &str, has_gap: bool) -> (b: bool)
        ensures
            b == (has_gap && !is_query_or_read(lowercase(goal@))),
    {
        let l = lower_chars(goal);
        has_gap && !Self::query_or_read(&l)
    }

    /// The reports of a reinforcement wave, each agent named with a
    /// `_Reinforcement` suffix.
    pub fn reinforcement_flux(logs: &Vec<(String, String)>) -> (r: Vec<A2AMessage>)
        ensures
            r@.len() == logs@.len(),
            forall|i: int| 0 <= i < logs@.len() ==> {
                let m = #[trigger] r@[i];
                &&& m.sender@ == logs@[i].0@ + "_Reinforcement"@
                &&& m.recipient@ == "SMA-Master"@
                &&& m.action@ == "REINFORCEMENT_FLUX"@
                &&& m.payload@ == logs@[i].1@
            },
    {
        let mut out: Vec<A2AMessage> = Vec::new();
        let mut i: usize = 0;
        while i < logs.len()
            invariant
                i <= logs@.len(),
                out@.len() == i,
                forall|j: int| 0 <= j < i ==> {
                    let m = #[trigger] out@[j];
                    &&& m.sender@ == logs@[j].0@ + "_Reinforcement"@
                    &&& m.recipient@ == "SMA-Master"@
                    &&& m.action@ == "REINFORCEMENT_FLUX"@
                    &&& m.payload@ == logs@[j].1@
                },
            decreases logs.len() - i,
        {
            let (name, output) = &logs[i];
            let mut sender = string_of(&chars_of(name.as_str()));
            push_str(&mut sender, "_Reinforcement");
            out.push(A2AMessage {
                sender,
                recipient: string_of(&chars_of("SMA-Master")),
                action: string_of(&chars_of("REINFORCEMENT_FLUX")),
                payload: string_of(&chars_of(output.as_str())),
            });
            i = i + 1;
        }
        out
    }

    /// The consensus pass over the blackboard's entries (agent, output)
    /// given the fleet's names and rank texts: fleet members' outputs are
    /// weighed by rank; a query, or a blackboard with search or
    /// translation output, is answered directly; anything else is reasoned
    /// over.
    pub fn consensus_plan(goal: &str, blackboard: &Vec<(String, String)>, fleet: &Vec<(String, String)>) -> (r: ConsensusPlan)
        ensures
            r.weighted_wisdom@ == weighted_wisdom(blackboard@, fleet@),
            r.rewarded@.map_values(|a: String| a@) == rewarded_agents(blackboard@, fleet@),
            r.success_count as nat == success_count(blackboard@),
            ({
                let direct = is_consensus_query(lowercase(goal@)) || entry_of(blackboard@, "TranslationAgent"@) is Some
                    || entry_of(blackboard@, "SearchAgent"@) is Some;
                if direct {
                    r.synthesis matches Synthesis::Direct(a) && a@ == direct_answer(blackboard@, weighted_wisdom(blackboard@, fleet@))
                } else {
                    r.synthesis matches Synthesis::Reason(p) && p@ == consensus_prompt(goal@, weighted_wisdom(blackboard@, fleet@))
                }
            }),
    {
        let ghost bb = blackboard@;
        let mut wisdom = String::new();
        let mut rewarded: Vec<String> = Vec::new();
        let mut successes: usize = 0;
        let mut i: usize = 0;
        proof {
            assert(bb.take(0) =~= Seq::<(String, String)>::empty());
            assert(rewarded@.map_values(|a: String| a@) =~= Seq::<Seq<char>>::empty());
        }
        while i < blackboard.len()
            invariant
                i <= bb.len(),
                bb == blackboard@,
                wisdom@ == weighted_wisdom(bb.take(i as int), fleet@),
                rewarded@.map_values(|a: String| a@) == rewarded_agents(bb.take(i as int), fleet@),
                successes as nat == success_count(bb.take(i as int)),
                successes <= i,
            decreases blackboard.len() - i,
        {
            proof {
                assert(bb.take(i + 1).drop_last() =~= bb.take(i as int));
                assert(bb.take(i + 1).last() == bb[i as int]);
            }
            let (agent, output) = &blackboard[i];
            let o = chars_of(output.as_str());
            let ok = !contains_str(&o, "FAILURE") && !contains_str(&o, "GAP");
            if ok {
                successes = successes + 1;
            }
            let ghost before = rewarded@.map_values(|a: String| a@);
            match rank_of(fleet, agent.as_str()) {
                Some(rank) => {
                    push_str(&mut wisdom, "[AGENT: ");
                    push_str(&mut wisdom, agent.as_str());
                    push_str(&mut wisdom, " (Rank: ");
                    push_str(&mut wisdom, rank.as_str());
                    push_str(&mut wisdom, ")] ");
                    push_str(&mut wisdom, output.as_str());
                    push_str(&mut wisdom, "\n");
                    if ok {
                        rewarded.push(string_of(&chars_of(agent.as_str())));
                        proof {
                            assert(rewarded@.map_values(|a: String| a@) =~= before.push(agent@));
                        }
                    }
                },
                None => {},
            }
            proof {
                assert(rewarded@.map_values(|a: String| a@) =~= rewarded_agents(bb.take(i + 1), fleet@));
            }
            i = i + 1;
        }
        proof {
            assert(bb.take(bb.len() as int) =~= bb);
        }
        let l = lower_chars(goal);
        let search = value_of(blackboard, "SearchAgent");
        let trans = value_of(blackboard, "TranslationAgent");
        let direct = Self::query_or_read(&l) || contains_str(&l, "admin") || trans.is_some() || search.is_some();
        let synthesis = if direct {
            if search.is_none() && trans.is_none() {
                Synthesis::Direct(string_of(&chars_of(wisdom.as_str())))
            } else {
                let mut full = String::new();
                match &search {
                    Some(s) => {
                        push_str(&mut full, "### SearchAgent Output\n");
                        push_str(&mut full, s.as_str());
                        push_str(&mut full, "\n\n---\n\n");
                    },
                    None => {},
                }
                match &trans {
                    Some(t) => {
                        push_str(&mut full, "### TranslationAgent Output\n");
                        push_str(&mut full, t.as_str());
                    },
                    None => {},
                }
                proof {
                    assert(full@ =~= direct_answer(bb, wisdom@));
                }
                Synthesis::Direct(full)
            }
        } else {
            let mut p = String::new();
            push_str(&mut p, "MISSION_GOAL: ");
            push_str(&mut p, goal);
            push_str(&mut p, "\n\n[WEIGHTED_WISDOM]:\n");
            push_str(&mut p, wisdom.as_str());
            push_str(&mut p, "\n\n[INSTRUCTION]: Resolve conflicts using rank-weighted priority and synthesize a unified high-fidelity mission answer.");
            proof {
                assert(p@ =~= consensus_prompt(goal@, wisdom@));
            }
            Synthesis::Reason(p)
        };
        ConsensusPlan { weighted_wisdom: wisdom, rewarded, success_count: successes, synthesis }
    }

    /// The goal of a reinforcement wave: the mission goal and the
    /// messages of the first wave.
    pub fn reinforcement_goal(goal: &str, messages: &Vec<A2AMessage>) -> (r: String)
        ensures
            r@ == "REINFORCE_MISSION: "@ + goal@ + "\n[PREVIOUS_FAILURES]: "@ + messages_debug(messages@),
    {
        let mut g = String::new();
        push_str(&mut g, "REINFORCE_MISSION: ");
        push_str(&mut g, goal);
        push_str(&mut g, "\n[PREVIOUS_FAILURES]: ");
        let d = debug_messages(messages);
        push_str(&mut g, d.as_str());
        g
    }

    /// The message carrying the synthesized answer and its convergence
    /// score (as the score is shown).
    pub fn convergence_message(synthesized: &str, score_text: &str) -> (r: A2AMessage)
        ensures
            r.sender@ == "ConsensusMaster"@,
            r.recipient@ == "SMA-Master"@,
            r.action@ == "STATE_CONVERGENCE"@,
            r.payload@ == synthesized@ + "\n\n[CONVERGENCE_SCORE: "@ + score_text@ + "]"@,
    {
        let mut p = String::new();
        push_str(&mut p, synthesized);
        push_str(&mut p, "\n\n[CONVERGENCE_SCORE: ");
        push_str(&mut p, score_text);
        push_str(&mut p, "]");
        A2AMessage {
            sender: string_of(&chars_of("ConsensusMaster")),
            recipient: string_of(&chars_of("SMA-Master")),
            action: string_of(&chars_of("STATE_CONVERGENCE")),
            payload: p,
        }
    }

    /// The swarm's wisdom from its messages: the consensus master's last
    /// word, else the admin agent's, else every successful non-empty
    /// message as `[sender]: payload`, one per line.
    pub fn gather_weighted_wisdom(interactions: &Vec<A2AMessage>, agents: &Vec<GawdAgentInfo>) -> (r: String)
        ensures
            r@ == gathered_wisdom(interactions@),
    {
        let ghost ms = interactions@;
        let mut consensus: Option<String> = None;
        let mut admin: Option<String> = None;
        let mut wisdom = String::new();
        let mut n_lines: usize = 0;
        let mut i: usize = 0;
        proof {
            assert(ms.take(0) =~= Seq::<A2AMessage>::empty());
        }
        while i < interactions.len()
            invariant
                i <= ms.len(),
                ms == interactions@,
                match last_from(ms.take(i as int), "ConsensusMaster"@) {
                    Some(c) => consensus matches Some(x) && x@ == c,
                    None => consensus is None,
                },
                match last_from(ms.take(i as int), "AdminAgent"@) {
                    Some(a) => admin matches Some(x) && x@ == a,
                    None => admin is None,
                },
                wisdom@ == joined(wisdom_lines(ms.take(i as int))),
                n_lines as nat == wisdom_lines(ms.take(i as int)).len(),
                n_lines <= i,
            decreases interactions.len() - i,
        {
            proof {
                assert(ms.take(i + 1).drop_last() =~= ms.take(i as int));
                assert(ms.take(i + 1).last() == ms[i as int]);
            }
            let m = &interactions[i];
            let sender = chars_of(m.sender.as_str());
            if equals_str(&sender, "ConsensusMaster") {
                proof {
                    reveal_strlit("ConsensusMaster");
                    reveal_strlit("AdminAgent");
                    assert(m.sender@[0] != "AdminAgent"@[0]);
                }
                consensus = Some(string_of(&chars_of(m.payload.as_str())));
            } else if equals_str(&sender, "AdminAgent") {
                admin = Some(string_of(&chars_of(m.payload.as_str())));
            }
            let p = chars_of(m.payload.as_str());
            if !contains_str(&p, "FAILURE") && !contains_str(&p, "GAP") && p.len() > 0 {
                let ghost before = wisdom_lines(ms.take(i as int));
                let ghost line = "["@ + m.sender@ + "]: "@ + m.payload@;
                if n_lines > 0 {
                    push_str(&mut wisdom, "\n");
                }
                push_str(&mut wisdom, "[");
                push_str(&mut wisdom, m.sender.as_str());
                push_str(&mut wisdom, "]: ");
                push_str(&mut wisdom, m.payload.as_str());
                n_lines = n_lines + 1;
                proof {
                    lemma_joined_push(before, line);
                    assert(wisdom_lines(ms.take(i + 1)) =~= before.push(line));
                    assert(wisdom@ =~= joined(before.push(line)));
                }
            }
            i = i + 1;
        }
        proof {
            assert(ms.take(ms.len() as int) =~= ms);
        }
        match consensus {
            Some(c) => c,
            None => match admin {
                Some(a) => a,
                None => if n_lines == 0 {
                    String::from_str("No valid wisdom gathered from swarm.")
                } else {
                    wisdom
                },
            },
        }
    }

    fn query_or_read(l: &Vec<char>) -> (b: bool)
        ensures
            b == is_query_or_read(l@),
    {
        let ls = chars_of("ls ");
        contains_str(l, "identity") || contains_str(l, "status") || contains_str(l, "models")
            || contains_str(l, "version") || equals_str(l, "ls") || starts_with(l, &ls) || equals_str(l, "dir")
            || contains_str(l, "who am i") || contains_str(l, "whoami")
    }
}

/// The rank text of the first fleet member named `name`.
fn rank_of(fleet: &Vec<(String, String)>, name: &str) -> (r: Option<String>)
    ensures
        match named_rank(fleet@, name@) {
            Some(k) => r matches Some(x) && x@ == k,
            None => r is None,
        },
{
    let n = chars_of(name);
    let mut i: usize = 0;
    proof {
        assert(fleet@.skip(0) =~= fleet@);
    }
    while i < fleet.len()
        invariant
            i <= fleet@.len(),
            n@ == name@,
            named_rank(fleet@, name@) == named_rank(fleet@.skip(i as int), name@),
        decreases fleet.len() - i,
    {
        proof {
            assert(fleet@.skip(i as int)[0] == fleet@[i as int]);
            assert(fleet@.skip(i as int).drop_first() =~= fleet@.skip(i + 1));
        }
        let (m, rank) = &fleet[i];
        if equals_str(&n, m.as_str()) {
            return Some(string_of(&chars_of(rank.as_str())));
        }
        i = i + 1;
    }
    None
}

/// The value of the first blackboard entry keyed `key`.
fn value_of(bb: &Vec<(String, String)>, key: &str) -> (r: Option<String>)
    ensures
        match entry_of(bb@, key@) {
            Some(v) => r matches Some(x) && x@ == v,
            None => r is None,
        },
{
    let k = chars_of(key);
    let mut i: usize = 0;
    proof {
        assert(bb@.skip(0) =~= bb@);
    }
    while i < bb.len()
        invariant
            i <= bb@.len(),
            k@ == key@,
            entry_of(bb@, key@) == entry_of(bb@.skip(i as int), key@),
        decreases bb.len() - i,
    {
        proof {
            assert(bb@.skip(i as int)[0] == bb@[i as int]);
            assert(bb@.skip(i as int).drop_first() =~= bb@.skip(i + 1));
        }
        let (m, v) = &bb[i];
        if equals_str(&k, m.as_str()) {
            return Some(string_of(&chars_of(v.as_str())));
        }
        i = i + 1;
    }
    None
}

} // verus!
