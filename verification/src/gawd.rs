//! Agent orchestration: the master agent's input governance and reports,
//! the swarm supervisor's peer decisions, brain and genome summaries.
use vstd::prelude::*;
use vstd::utf8::encode_utf8;
use crate::error::{EaiError, EaiResult, displayed};
use crate::truth::{reality_checked, TruthTransformer, WrittenFileState};
use crate::text::{chars_of, contains_str, seq_contains, trim, trimmed, string_of, push_str,
    push_decimal, decimal, first_contained, char_vecs_of_strs, is_first_hit, views, lines, split_lines,
    second_piece, second_piece_of};

verus! {

/// A message exchanged between agents.
#[derive(Debug, Clone)]
pub struct A2AMessage {
    pub sender: String,
    pub recipient: String,
    pub action: String,
    pub payload: String,
}

/// The swarm supervisor.
pub struct SusiSupervisor;

/// The default UDP discovery port.
pub const DEFAULT_UDP_DISCOVERY_PORT: u16 = 9092;

impl SusiSupervisor {
    /// The configured UDP discovery port, 9092 when none is configured.
    pub fn get_udp_discovery_port(configured: Option<u16>) -> (r: u16)
        ensures
            r == match configured {
                Some(p) => p,
                None => 9092u16,
            },
    {
        match configured {
            Some(p) => p,
            None => DEFAULT_UDP_DISCOVERY_PORT,
        }
    }

    /// A peer can lend a reflex when it is an active workstation node other
    /// than the local master.
    pub fn is_reflex_peer(node_type: &str, is_active: bool, node_id: &str) -> (b: bool)
        ensures
            b == (node_type@ == "WORKSTATION_NODE"@ && is_active && node_id@ != "susi-local-master"@),
    {
        let t = chars_of(node_type);
        let id = chars_of(node_id);
        crate::text::equals_str(&t, "WORKSTATION_NODE") && is_active && !crate::text::equals_str(
            &id,
            "susi-local-master",
        )
    }

    /// The reflex borrowed from `node_id` given its reply: none when the
    /// reply reports a fallback or an unreachable peer.
    pub fn borrow_remote_reflex(node_id: &str, reply: &str) -> (r: Option<String>)
        ensures
            match r {
                Some(s) => !seq_contains(reply@, "fallback"@) && !seq_contains(reply@, "unreachable"@)
                    && s@ == "[Borrowed Reflex from "@ + node_id@ + "]: "@ + reply@,
                None => seq_contains(reply@, "fallback"@) || seq_contains(reply@, "unreachable"@),
            },
    {
        let rv = chars_of(reply);
        if !contains_str(&rv, "fallback") && !contains_str(&rv, "unreachable") {
            let mut s = String::new();
            push_str(&mut s, "[Borrowed Reflex from ");
            push_str(&mut s, node_id);
            push_str(&mut s, "]: ");
            push_str(&mut s, reply);
            Some(s)
        } else {
            None
        }
    }
}

/// Input sequences refused as likely injection attempts.
pub open spec fn input_risk_patterns() -> Seq<Seq<char>> {
    seq!["$("@, "`"@, "> /dev/"@, "| nc "@, "| netcat "@, "0xCC"@, "\\x"@]
}

/// The input size limit in bytes for the available RAM: one MiB per GB,
/// at least 4096.
pub open spec fn input_limit(available_ram_gb: nat) -> nat {
    if available_ram_gb * 1048576 >= 4096 { available_ram_gb * 1048576 } else { 4096 }
}

/// Why a goal is refused, if it is: it exceeds the RAM-scaled byte
/// limit, is empty once trimmed, or holds a high-risk sequence (the first
/// one, in the listed order, is named).
pub open spec fn input_rejection(t: Seq<char>, available_ram_gb: nat) -> Option<Seq<char>> {
    let limit = input_limit(available_ram_gb);
    if encode_utf8(t).len() > limit {
        Some("Input exceeds hardware-scaled limit ("@ + decimal(limit) + " characters)."@)
    } else if t.len() == 0 {
        Some("Input goal cannot be empty."@)
    } else if exists|i: int| is_first_hit(t, input_risk_patterns(), i) {
        let i = choose|i: int| is_first_hit(t, input_risk_patterns(), i);
        Some("High-risk sequence '"@ + input_risk_patterns()[i] + "' detected in input. Potential injection attempt blocked."@)
    } else {
        None
    }
}

/// The synthesis answer for a goal solved by `agent_count` agents (the
/// model defaulting to the local alpha substrate).
pub open spec fn synthesis_text(goal: Seq<char>, selected_model: Option<Seq<char>>, agent_count: nat, version: Seq<char>) -> Seq<char> {
    "SMA-Synthesis ("@ + version + " via "@ + match selected_model {
        Some(m) => m,
        None => "susi-alpha.safetensors"@,
    } + "):\n\nProcessed goal '"@ + goal + "' across "@ + decimal(agent_count) + " agents."@
}

proof fn lemma_first_hit_unique(t: Seq<char>, pats: Seq<Seq<char>>, i: int, k: int)
    requires
        is_first_hit(t, pats, i),
        is_first_hit(t, pats, k),
    ensures
        i == k,
{
    if i < k {
        assert(!seq_contains(t, pats[i]));
    } else if k < i {
        assert(!seq_contains(t, pats[k]));
    }
}

proof fn lemma_first_hit_exists(t: Seq<char>, pats: Seq<Seq<char>>, j: int)
    requires
        0 <= j < pats.len(),
        seq_contains(t, pats[j]),
    ensures
        exists|i: int| is_first_hit(t, pats, i),
    decreases j,
{
    if forall|k: int| 0 <= k < j ==> !seq_contains(t, #[trigger] pats[k]) {
        assert(is_first_hit(t, pats, j));
    } else {
        let k = choose|k: int| 0 <= k < j && seq_contains(t, #[trigger] pats[k]);
        lemma_first_hit_exists(t, pats, k);
    }
}

/// A goal is refused exactly when, trimmed, it is empty, holds a
/// high-risk sequence, or exceeds the RAM-scaled byte limit; a refusal
/// names the limit, the emptiness, or the first such sequence.
pub proof fn law_goal_refusal(t: Seq<char>, available_ram_gb: nat)
    ensures
        input_rejection(t, available_ram_gb) is Some <==> (t.len() == 0
            || encode_utf8(t).len() > input_limit(available_ram_gb)
            || exists|j: int| 0 <= j < input_risk_patterns().len() && seq_contains(t, #[trigger] input_risk_patterns()[j])),
        t.len() == 0 ==> input_rejection(t, available_ram_gb) == Some(
            if encode_utf8(t).len() > input_limit(available_ram_gb) {
                "Input exceeds hardware-scaled limit ("@ + decimal(input_limit(available_ram_gb)) + " characters)."@
            } else {
                "Input goal cannot be empty."@
            }),
{
    if exists|j: int| 0 <= j < input_risk_patterns().len() && seq_contains(t, #[trigger] input_risk_patterns()[j]) {
        let j = choose|j: int| 0 <= j < input_risk_patterns().len() && seq_contains(t, #[trigger] input_risk_patterns()[j]);
        lemma_first_hit_exists(t, input_risk_patterns(), j);
    }
}

/// The master agent orchestrating missions.
pub struct SusiMasterAgent;

impl Default for SusiMasterAgent {
    fn default() -> (r: Self) {
        SusiMasterAgent
    }
}

impl SusiMasterAgent {
    /// A master agent.
    pub fn new() -> (r: Self) {
        SusiMasterAgent
    }

    /// Trims a goal and rejects it when it exceeds the RAM-scaled byte limit,
    /// is empty, or holds a high-risk sequence (the first one found is named).
    pub fn sanitize_input(&self, input: &str, available_ram_gb: usize) -> (r: EaiResult<String>)
        requires
            available_ram_gb * 1048576 <= usize::MAX,
        ensures
            ({
                let t = trim(input@);
                let limit = input_limit(available_ram_gb as nat);
                match r {
                    Ok(s) => s@ == t && encode_utf8(t).len() <= limit && t.len() > 0
                        && forall|j: int| 0 <= j < input_risk_patterns().len() ==> !seq_contains(t, #[trigger] input_risk_patterns()[j]),
                    Err(e) => e == EaiError::Governance(e->Governance_0) && if encode_utf8(t).len() > limit {
                        e->Governance_0@ == "Input exceeds hardware-scaled limit ("@ + decimal(limit) + " characters)."@
                    } else if t.len() == 0 {
                        e->Governance_0@ == "Input goal cannot be empty."@
                    } else {
                        exists|i: int| is_first_hit(t, input_risk_patterns(), i)
                            && e->Governance_0@ == "High-risk sequence '"@ + input_risk_patterns()[i] + "' detected in input. Potential injection attempt blocked."@
                    },
                }
            }),
            match input_rejection(trim(input@), available_ram_gb as nat) {
                Some(m) => r matches Err(e) && e == EaiError::Governance(e->Governance_0) && e->Governance_0@ == m,
                None => r matches Ok(s) && s@ == trim(input@),
            },
    {
        let chars = chars_of(input);
        let t = trimmed(&chars);
        let ts = string_of(&t);
        let mb = available_ram_gb * 1048576;
        let max_len = if mb >= 4096 { mb } else { 4096 };
        let byte_len = ts.as_str().as_bytes().len();
        if byte_len > max_len {
            let mut msg = String::new();
            push_str(&mut msg, "Input exceeds hardware-scaled limit (");
            push_decimal(&mut msg, max_len as u64);
            push_str(&mut msg, " characters).");
            return Err(EaiError::governance(msg.as_str()));
        }
        if t.len() == 0 {
            return Err(EaiError::governance("Input goal cannot be empty."));
        }
        let pats = vec!["$(", "`", "> /dev/", "| nc ", "| netcat ", "0xCC", "\\x"];
        proof {
            assert(views(pats@) =~= input_risk_patterns());
        }
        let pv = char_vecs_of_strs(&pats);
        match first_contained(&t, &pv) {
            Some(i) => {
                let mut msg = String::new();
                push_str(&mut msg, "High-risk sequence '");
                push_str(&mut msg, pats[i]);
                push_str(&mut msg, "' detected in input. Potential injection attempt blocked.");
                proof {
                    assert(views(pats@)[i as int] == pats@[i as int]@);
                    assert(is_first_hit(t@, input_risk_patterns(), i as int));
                    let k = choose|k: int| is_first_hit(t@, input_risk_patterns(), k);
                    lemma_first_hit_unique(t@, input_risk_patterns(), i as int, k);
                }
                Err(EaiError::governance(msg.as_str()))
            },
            None => {
                proof {
                    assert forall|j: int| 0 <= j < input_risk_patterns().len() implies !seq_contains(t@, #[trigger] input_risk_patterns()[j]) by {
                        assert(pv@.map_values(|p: Vec<char>| p@)[j] == pv@[j]@);
                    }
                    assert(!exists|i: int| is_first_hit(t@, input_risk_patterns(), i));
                }
                Ok(ts)
            },
        }
    }

    /// The substrate technical report: version, active model (a local
    /// default when none is selected), then the axiom and topology summaries.
    pub fn generate_substrate_report(
        &self,
        axiom_summary: &str,
        topology_summary: &str,
        selected_model: Option<&str>,
        version: &str,
    ) -> (r: EaiResult<String>)
        ensures
            r matches Ok(s) && s@ == "# susi Substrate - Technical Report\n\n- **Engine**: susi EAI Substrate\n- **Version**: "@
                + version@ + "\n- **Active Model**: "@ + match selected_model {
                Some(m) => m@,
                None => "susi-alpha.safetensors (Local Neural Substrate)"@,
            } + "\n\n"@ + axiom_summary@ + "\n"@ + topology_summary@,
    {
        let mut report = String::new();
        push_str(&mut report, "# susi Substrate - Technical Report\n\n- **Engine**: susi EAI Substrate\n- **Version**: ");
        push_str(&mut report, version);
        push_str(&mut report, "\n- **Active Model**: ");
        match selected_model {
            Some(m) => push_str(&mut report, m),
            None => push_str(&mut report, "susi-alpha.safetensors (Local Neural Substrate)"),
        }
        push_str(&mut report, "\n\n");
        push_str(&mut report, axiom_summary);
        push_str(&mut report, "\n");
        push_str(&mut report, topology_summary);
        Ok(report)
    }

    /// The synthesis answer for a goal solved by `agent_count` agents (the
    /// model defaulting to the local alpha substrate).
    pub fn synthesis_answer(goal: &str, selected_model: Option<&str>, agent_count: usize, version: &str) -> (r: String)
        ensures
            r@ == synthesis_text(goal@, match selected_model { Some(m) => Some(m@), None => None }, agent_count as nat, version@),
    {
        let mut s = String::new();
        push_str(&mut s, "SMA-Synthesis (");
        push_str(&mut s, version);
        push_str(&mut s, " via ");
        match selected_model {
            Some(m) => push_str(&mut s, m),
            None => push_str(&mut s, "susi-alpha.safetensors"),
        }
        push_str(&mut s, "):\n\nProcessed goal '");
        push_str(&mut s, goal);
        push_str(&mut s, "' across ");
        push_decimal(&mut s, agent_count as u64);
        push_str(&mut s, " agents.");
        s
    }

    /// A feedback-driven solve: the goal is checked as `sanitize_input`
    /// checks it, and a refused goal gives that governance error; otherwise
    /// the synthesis answer for the trimmed goal (over the `agent_count`
    /// agents of the swarm mission run on it) goes through the reality
    /// check, given what the workspace holds at the path the answer reports
    /// writing and whether swarm consensus accepted it.
    pub fn solve_with_feedback(
        &self,
        goal: &str,
        available_ram_gb: usize,
        selected_model: Option<&str>,
        agent_count: usize,
        version: &str,
        path_state: WrittenFileState,
        consensus_accepted: bool,
    ) -> (r: EaiResult<String>)
        requires
            available_ram_gb * 1048576 <= usize::MAX,
        ensures
            match input_rejection(trim(goal@), available_ram_gb as nat) {
                Some(m) => r matches Err(e) && e == EaiError::Governance(e->Governance_0) && e->Governance_0@ == m,
                None => reality_checked(r, synthesis_text(trim(goal@),
                    match selected_model { Some(m) => Some(m@), None => None }, agent_count as nat, version@),
                    path_state, consensus_accepted),
            },
    {
        let g = match self.sanitize_input(goal, available_ram_gb) {
            Ok(g) => g,
            Err(e) => return Err(e),
        };
        let ans = Self::synthesis_answer(g.as_str(), selected_model, agent_count, version);
        TruthTransformer::verify_mission_reality(g.as_str(), "SMA_SOLVE", ans.as_str(), path_state, consensus_accepted)
    }

    /// The outcome of an evolution attempt and the audit events it records:
    /// the mission's start, first, for every goal; then an answer that was blocked (it reports no action or a violation, and
    /// says "blocked") records a truth block; a failure records an
    /// intelligence gap, plus a note when no model could be found.
    pub fn handle_autonomous_evolution(&self, goal: &str, outcome: EaiResult<String>) -> (r: (EaiResult<String>, Vec<(String, String)>))
        ensures
            r.0 == outcome,
            r.1@.len() >= 1,
            r.1@[0].0@ == "MISSION_START"@,
            r.1@[0].1@ == goal@,
            match outcome {
                Ok(a) => if (seq_contains(a@, "NO_ACTION_REQUIRED"@) || seq_contains(a@, "VIOLATION"@))
                    && seq_contains(a@, "blocked"@) {
                    r.1@.len() == 2 && r.1@[1].0@ == "TRUTH_BLOCK"@ && r.1@[1].1@ == a@
                } else {
                    r.1@.len() == 1
                },
                Err(e) => {
                    let shown = displayed(e);
                    &&& r.1@.len() >= 2
                    &&& r.1@[1].0@ == "INTELLIGENCE_GAP"@
                    &&& r.1@[1].1@ == "Goal '"@ + goal@ + "' failed: "@ + shown
                    &&& if seq_contains(shown, "not found"@) || seq_contains(shown, "no models"@) {
                        r.1@.len() == 3 && r.1@[2].0@ == "INTELLIGENCE_GAP"@
                            && r.1@[2].1@ == "No models found. Substrate expansion required by Creator."@
                    } else {
                        r.1@.len() == 2
                    }
                },
            },
    {
        let mut events: Vec<(String, String)> = Vec::new();
        let mut start = String::new();
        push_str(&mut start, "MISSION_START");
        let mut g = String::new();
        push_str(&mut g, goal);
        events.push((start, g));
        match &outcome {
            Ok(a) => {
                let av = chars_of(a.as_str());
                if (contains_str(&av, "NO_ACTION_REQUIRED") || contains_str(&av, "VIOLATION"))
                    && contains_str(&av, "blocked") {
                    let mut k = String::new();
                    push_str(&mut k, "TRUTH_BLOCK");
                    let mut d = String::new();
                    push_str(&mut d, a.as_str());
                    proof {
                        assert(d@ =~= a@);
                    }
                    events.push((k, d));
                }
            },
            Err(e) => {
                let shown = e.to_display_string();
                let mut k = String::new();
                push_str(&mut k, "INTELLIGENCE_GAP");
                let mut d = String::new();
                push_str(&mut d, "Goal '");
                push_str(&mut d, goal);
                push_str(&mut d, "' failed: ");
                push_str(&mut d, shown.as_str());
                events.push((k, d));
                let sv = chars_of(shown.as_str());
                if contains_str(&sv, "not found") || contains_str(&sv, "no models") {
                    let mut k2 = String::new();
                    push_str(&mut k2, "INTELLIGENCE_GAP");
                    let mut d2 = String::new();
                    push_str(&mut d2, "No models found. Substrate expansion required by Creator.");
                    events.push((k2, d2));
                }
            },
        }
        (outcome, events)
    }
}


/// The substrate's unified view of itself, its host and its configuration.
#[derive(Debug, Clone)]
pub struct AlphaBrainContext {
    pub self_version: String,
    pub system_cpus: usize,
    pub system_gpu: String,
    pub system_ram_gb: usize,
    pub workspace_path: String,
    pub default_engine: String,
    pub default_model: String,
    pub gmcp_port: u16,
    pub gemi_port: u16,
}

impl AlphaBrainContext {
    /// The three-part status (compiled core, hardware, runtime
    /// configuration), given the numbers of baked rules and components.
    pub fn inspect_tri_state(&self, rule_count: usize, component_count: usize) -> (r: String)
        ensures
            r@ == "SUSI Core Substrate Status:\n1. [CORE - Compiled System]: Version "@
                + self.self_version@ + ", "@ + decimal(rule_count as nat) + " Baked Rules, "@
                + decimal(component_count as nat) + " Baked Components\n2. [HARDWARE - System Environment]: "@
                + decimal(self.system_cpus as nat) + " CPUs | "@ + self.system_gpu@ + " | "@
                + decimal(self.system_ram_gb as nat) + "GB RAM\n3. [DYNAMIC - Runtime Configuration]: Workspace: "@
                + self.workspace_path@ + " | Engine: "@ + self.default_engine@ + " | Model: "@
                + self.default_model@ + " | GMCP Port: "@ + decimal(self.gmcp_port as nat)
                + " | GEMI Port: "@ + decimal(self.gemi_port as nat),
    {
        let mut s = String::new();
        push_str(&mut s, "SUSI Core Substrate Status:\n1. [CORE - Compiled System]: Version ");
        push_str(&mut s, self.self_version.as_str());
        push_str(&mut s, ", ");
        push_decimal(&mut s, rule_count as u64);
        push_str(&mut s, " Baked Rules, ");
        push_decimal(&mut s, component_count as u64);
        push_str(&mut s, " Baked Components\n2. [HARDWARE - System Environment]: ");
        push_decimal(&mut s, self.system_cpus as u64);
        push_str(&mut s, " CPUs | ");
        push_str(&mut s, self.system_gpu.as_str());
        push_str(&mut s, " | ");
        push_decimal(&mut s, self.system_ram_gb as u64);
        push_str(&mut s, "GB RAM\n3. [DYNAMIC - Runtime Configuration]: Workspace: ");
        push_str(&mut s, self.workspace_path.as_str());
        push_str(&mut s, " | Engine: ");
        push_str(&mut s, self.default_engine.as_str());
        push_str(&mut s, " | Model: ");
        push_str(&mut s, self.default_model.as_str());
        push_str(&mut s, " | GMCP Port: ");
        push_decimal(&mut s, self.gmcp_port as u64);
        push_str(&mut s, " | GEMI Port: ");
        push_decimal(&mut s, self.gemi_port as u64);
        s
    }
}

/// An event on the swarm bus.
#[derive(Debug, Clone)]
pub enum SwarmEventType {
    AgentStarted { agent_name: String },
    AgentObservation { agent_name: String, observation: String },
    SubTaskSpawned { parent_agent: String, sub_task: String },
    EvidenceProduced { agent_name: String, summary: String },
    AgentCompleted { agent_name: String, elapsed_ms: u64 },
}

/// Where a piece of evidence comes from.
#[derive(Debug, Clone)]
pub enum EvidenceSource {
    File { path: String, hash: String },
    Command { command: String, exit_code: i32, output_hash: String },
    System { metric: String, value: String },
    AgentObservation { observation: String, reasoning_trace: String },
}

/// A subject-predicate-value claim.
#[derive(Debug, Clone)]
pub struct Claim {
    pub subject: String,
    pub predicate: String,
    pub value: String,
}

/// A module the kernel loader can assemble.
#[derive(Debug, Clone)]
pub struct SubstrateModuleManifest {
    pub module_id: String,
    pub version: String,
    pub entry_point: String,
    pub capabilities: Vec<String>,
    pub memory_footprint_mb: usize,
}

/// Assembles substrate modules from their manifests.
pub struct SubstrateKernelLoader;

/// A prioritized intent waiting for execution.
#[derive(Debug, Clone)]
pub struct PulseEntry {
    pub intent: String,
    pub workspace: String,
    pub version: String,
    pub priority: u8,
}

/// An intent-to-action reflex known to the knowledge base.
#[derive(Debug, Clone)]
pub struct ProtocolReflex {
    pub intent: String,
    pub action: String,
    pub context: String,
    pub verified: bool,
}

/// Reflex training data synthesis.
pub struct ProtocolKnowledgeBase;

fn owned(s: &str) -> (r: String)
    ensures
        r@ == s@,
{
    let mut r = String::new();
    push_str(&mut r, s);
    r
}

impl ProtocolKnowledgeBase {
    /// The two verified core reflexes every substrate starts with:
    /// installation and compliance auditing.
    pub fn bootstrap_alpha_reflexes() -> (r: Vec<ProtocolReflex>)
        ensures
            r@.len() == 2,
            r@[0].intent@ == "install"@,
            r@[0].action@ == "SandboxManager::ensure_global_sandbox"@,
            r@[0].context@ == "CORE_INITIALIZATION"@,
            r@[0].verified,
            r@[1].intent@ == "audit compliance"@,
            r@[1].action@ == "SusiAdmin::audit_compliance"@,
            r@[1].context@ == "GOVERNANCE_ENFORCEMENT"@,
            r@[1].verified,
    {
        let mut v: Vec<ProtocolReflex> = Vec::new();
        v.push(ProtocolReflex {
            intent: owned("install"),
            action: owned("SandboxManager::ensure_global_sandbox"),
            context: owned("CORE_INITIALIZATION"),
            verified: true,
        });
        v.push(ProtocolReflex {
            intent: owned("audit compliance"),
            action: owned("SusiAdmin::audit_compliance"),
            context: owned("GOVERNANCE_ENFORCEMENT"),
            verified: true,
        });
        v
    }

    /// Reflex training data mined from audit-log lines: for each line that
    /// holds `[MISSION_START]`, the trimmed text after the first marker (up
    /// to the next one) becomes a pending, unverified reflex when it is
    /// longer than five bytes. `log_content` is the recent audit log.
    pub fn synthesize_training_data(log_content: &str) -> (r: EaiResult<Vec<ProtocolReflex>>)
        ensures
            r matches Ok(v) && {
                let intents = mission_intents(lines(log_content@));
                &&& v@.len() == intents.len()
                &&& forall|i: int| 0 <= i < v@.len() ==> {
                    &&& (#[trigger] v@[i]).intent@ == intents[i]
                    &&& v@[i].action@ == "PENDING_DISTILLATION"@
                    &&& v@[i].context@ == "SYNTHETIC_AUDIT_DERIVED"@
                    &&& !v@[i].verified
                }
            },
    {
        let text = chars_of(log_content);
        let ls = split_lines(&text);
        let ghost lv = ls@.map_values(|l: Vec<char>| l@);
        let marker = chars_of("[MISSION_START]");
        let mut reflexes: Vec<ProtocolReflex> = Vec::new();
        let mut i: usize = 0;
        proof {
            assert(lv.take(0) =~= Seq::<Seq<char>>::empty());
        }
        while i < ls.len()
            invariant
                i <= ls@.len(),
                lv == ls@.map_values(|l: Vec<char>| l@),
                marker@ == "[MISSION_START]"@,
                ({
                    let intents = mission_intents(lv.take(i as int));
                    &&& reflexes@.len() == intents.len()
                    &&& forall|k: int| 0 <= k < reflexes@.len() ==> {
                        &&& (#[trigger] reflexes@[k]).intent@ == intents[k]
                        &&& reflexes@[k].action@ == "PENDING_DISTILLATION"@
                        &&& reflexes@[k].context@ == "SYNTHETIC_AUDIT_DERIVED"@
                        &&& !reflexes@[k].verified
                    }
                }),
            decreases ls.len() - i,
        {
            proof {
                assert(lv.take(i + 1).drop_last() =~= lv.take(i as int));
                assert(lv.take(i + 1).last() == ls@[i as int]@);
            }
            match second_piece_of(&ls[i], &marker) {
                None => {},
                Some(piece) => {
                    let t = trimmed(&piece);
                    let ts = string_of(&t);
                    let byte_len = ts.as_str().as_bytes().len();
                    if byte_len > 5 {
                        reflexes.push(ProtocolReflex {
                            intent: ts,
                            action: owned("PENDING_DISTILLATION"),
                            context: owned("SYNTHETIC_AUDIT_DERIVED"),
                            verified: false,
                        });
                    }
                },
            }
            i = i + 1;
        }
        proof {
            assert(lv.take(ls@.len() as int) =~= lv);
        }
        Ok(reflexes)
    }
}

/// The intents mined from audit-log lines by
/// `ProtocolKnowledgeBase::synthesize_training_data`, in order.
pub open spec fn mission_intents(ls: Seq<Seq<char>>) -> Seq<Seq<char>>
    decreases ls.len(),
{
    if ls.len() == 0 {
        Seq::empty()
    } else {
        let prev = mission_intents(ls.drop_last());
        match second_piece(ls.last(), "[MISSION_START]"@) {
            None => prev,
            Some(piece) => if encode_utf8(trim(piece)).len() > 5 {
                prev.push(trim(piece))
            } else {
                prev
            },
        }
    }
}

/// Tier 2 reasoning distillation.
pub struct ReasoningTrainer;

/// Native reflex synthesis.
pub struct ReflexSynthesizer;

/// Reflex retraining.
pub struct ReflexTrainer;

impl ReflexTrainer {
    /// A distillation cycle is due once the staged buffer holds at least
    /// `threshold` samples.
    pub fn distillation_due(staged_count: usize, threshold: usize) -> (b: bool)
        ensures
            b == (staged_count >= threshold),
    {
        staged_count >= threshold
    }
}

} // verus!
