//! The compiled genome: axiom rules and component topology, their summary,
//! and their distillation into synthetic training samples.
use vstd::prelude::*;
use crate::text::{push_str, push_decimal, decimal};

verus! {

/// Execution tier of a substrate component.
#[derive(Debug, Clone, Copy, PartialEq, Eq, Structural)]
pub enum SusiCoreTier {
    Tier0Reflex,
    Tier1Swarm,
    Tier2Reasoning,
}

/// The debug name of a tier.
pub open spec fn tier_name(t: SusiCoreTier) -> Seq<char> {
    match t {
        SusiCoreTier::Tier0Reflex => "Tier0Reflex"@,
        SusiCoreTier::Tier1Swarm => "Tier1Swarm"@,
        SusiCoreTier::Tier2Reasoning => "Tier2Reasoning"@,
    }
}

/// One component of the substrate topology.
#[derive(Debug, Clone)]
pub struct SusiComponentSpec {
    pub name: String,
    pub tier: SusiCoreTier,
    pub description: String,
}

/// One governance axiom.
#[derive(Debug, Clone)]
pub struct SusiAxiomRule {
    pub id: usize,
    pub title: String,
    pub imperative: String,
}

/// The compiled genome tables.
#[derive(Debug, Clone)]
pub struct CompiledGenome {
    pub rules: Vec<SusiAxiomRule>,
    pub pulse_axioms: Vec<SusiAxiomRule>,
    pub aoa_components: Vec<SusiComponentSpec>,
    pub agent_components: Vec<SusiComponentSpec>,
    pub engine_components: Vec<SusiComponentSpec>,
    pub model_components: Vec<SusiComponentSpec>,
    pub mcp_components: Vec<SusiComponentSpec>,
    pub realized_components: Vec<SusiComponentSpec>,
    pub components: Vec<SusiComponentSpec>,
}

/// The substrate's knowledge of itself.
pub struct AlphaSelf;

/// The substrate's paradigm statement.
pub const CORE_PARADIGM: &'static str = "EAI (Exponential Intelligence for Any AI) - Intelligence Reflex & Execution Substrate";

impl AlphaSelf {
    /// The summary of the compiled genome: version, paradigm, and the size of
    /// each table.
    pub fn inspect_compiled_binary_instructions(version: &str, g: &CompiledGenome) -> (r: String)
        ensures
            r@ == "SUSI Substrate Compiled Binary Instructions:\n- Version: "@ + version@
                + "\n- Paradigm: "@ + CORE_PARADIGM@ + "\n- Hardcoded Axiom Rules: "@
                + decimal(g.rules@.len()) + "\n- AoA Pillar: "@ + decimal(g.aoa_components@.len())
                + "\n- Agents Pillar: "@ + decimal(g.agent_components@.len()) + "\n- Engines Pillar: "@
                + decimal(g.engine_components@.len()) + "\n- Models Pillar: "@
                + decimal(g.model_components@.len()) + "\n- MCPs Pillar: "@
                + decimal(g.mcp_components@.len()) + "\n- Realized Capabilities: "@
                + decimal(g.realized_components@.len()),
    {
        let mut s = String::new();
        push_str(&mut s, "SUSI Substrate Compiled Binary Instructions:\n- Version: ");
        push_str(&mut s, version);
        push_str(&mut s, "\n- Paradigm: ");
        push_str(&mut s, CORE_PARADIGM);
        push_str(&mut s, "\n- Hardcoded Axiom Rules: ");
        push_decimal(&mut s, g.rules.len() as u64);
        push_str(&mut s, "\n- AoA Pillar: ");
        push_decimal(&mut s, g.aoa_components.len() as u64);
        push_str(&mut s, "\n- Agents Pillar: ");
        push_decimal(&mut s, g.agent_components.len() as u64);
        push_str(&mut s, "\n- Engines Pillar: ");
        push_decimal(&mut s, g.engine_components.len() as u64);
        push_str(&mut s, "\n- Models Pillar: ");
        push_decimal(&mut s, g.model_components.len() as u64);
        push_str(&mut s, "\n- MCPs Pillar: ");
        push_decimal(&mut s, g.mcp_components.len() as u64);
        push_str(&mut s, "\n- Realized Capabilities: ");
        push_decimal(&mut s, g.realized_components.len() as u64);
        s
    }
}

/// A synthetic question-and-answer sample for reasoning training.
#[derive(Debug, Clone)]
pub struct ReasoningSample {
    pub intent: String,
    pub blackboard_context: String,
    pub successful_outcome: String,
    pub timestamp: u64,
}

/// The sample distilled from a governance rule.
pub open spec fn rule_sample(r: SusiAxiomRule, ts: u64) -> (Seq<char>, Seq<char>, Seq<char>, u64) {
    (
        "What is the mandate for rule "@ + r.title@ + "?"@,
        "susi_genome_audit"@,
        "Rule "@ + decimal(r.id as nat) + ": "@ + r.title@ + ". Imperative: "@ + r.imperative@,
        ts,
    )
}

/// The sample distilled from a pulse axiom.
pub open spec fn pulse_sample(r: SusiAxiomRule, ts: u64) -> (Seq<char>, Seq<char>, Seq<char>, u64) {
    (
        "What is pulse axiom "@ + r.title@ + "?"@,
        "susi_pulse_axioms"@,
        "Pulse Axiom "@ + decimal(r.id as nat) + ": "@ + r.title@ + ". Imperative: "@ + r.imperative@,
        ts,
    )
}

/// The sample distilled from a topology component.
pub open spec fn component_sample(c: SusiComponentSpec, ts: u64) -> (Seq<char>, Seq<char>, Seq<char>, u64) {
    (
        "What is the role of "@ + c.name@ + " in the substrate?"@,
        "topology_lookup"@,
        c.name@ + " is a Tier "@ + tier_name(c.tier) + " component. Description: "@ + c.description@,
        ts,
    )
}

/// The plain parts of a sample.
pub open spec fn sample_parts(s: ReasoningSample) -> (Seq<char>, Seq<char>, Seq<char>, u64) {
    (s.intent@, s.blackboard_context@, s.successful_outcome@, s.timestamp)
}

fn rule_to_sample(r: &SusiAxiomRule, ts: u64, pulse: bool) -> (s: ReasoningSample)
    ensures
        sample_parts(s) == if pulse { pulse_sample(*r, ts) } else { rule_sample(*r, ts) },
{
    let mut intent = String::new();
    let mut ctx = String::new();
    let mut out = String::new();
    if pulse {
        push_str(&mut intent, "What is pulse axiom ");
        push_str(&mut ctx, "susi_pulse_axioms");
        push_str(&mut out, "Pulse Axiom ");
    } else {
        push_str(&mut intent, "What is the mandate for rule ");
        push_str(&mut ctx, "susi_genome_audit");
        push_str(&mut out, "Rule ");
    }
    push_str(&mut intent, r.title.as_str());
    push_str(&mut intent, "?");
    push_decimal(&mut out, r.id as u64);
    push_str(&mut out, ": ");
    push_str(&mut out, r.title.as_str());
    push_str(&mut out, ". Imperative: ");
    push_str(&mut out, r.imperative.as_str());
    proof {
        assert(ctx@ =~= if pulse { "susi_pulse_axioms"@ } else { "susi_genome_audit"@ });
    }
    ReasoningSample { intent, blackboard_context: ctx, successful_outcome: out, timestamp: ts }
}

fn tier_str(t: SusiCoreTier) -> (r: &'static str)
    ensures
        r@ == tier_name(t),
{
    match t {
        SusiCoreTier::Tier0Reflex => "Tier0Reflex",
        SusiCoreTier::Tier1Swarm => "Tier1Swarm",
        SusiCoreTier::Tier2Reasoning => "Tier2Reasoning",
    }
}

fn component_to_sample(c: &SusiComponentSpec, ts: u64) -> (s: ReasoningSample)
    ensures
        sample_parts(s) == component_sample(*c, ts),
{
    let mut intent = String::new();
    push_str(&mut intent, "What is the role of ");
    push_str(&mut intent, c.name.as_str());
    push_str(&mut intent, " in the substrate?");
    let mut ctx = String::new();
    push_str(&mut ctx, "topology_lookup");
    let mut out = String::new();
    push_str(&mut out, c.name.as_str());
    push_str(&mut out, " is a Tier ");
    push_str(&mut out, tier_str(c.tier));
    push_str(&mut out, " component. Description: ");
    push_str(&mut out, c.description.as_str());
    proof {
        assert(ctx@ =~= "topology_lookup"@);
        assert(out@ =~= c.name@ + " is a Tier "@ + tier_name(c.tier) + " component. Description: "@ + c.description@);
    }
    ReasoningSample { intent, blackboard_context: ctx, successful_outcome: out, timestamp: ts }
}

/// The samples distilled from a genome: one per rule, then one per pulse
/// axiom, then one per component, all stamped `ts`.
pub open spec fn genome_samples(g: CompiledGenome, ts: u64) -> Seq<(Seq<char>, Seq<char>, Seq<char>, u64)> {
    g.rules@.map_values(|r: SusiAxiomRule| rule_sample(r, ts))
        + g.pulse_axioms@.map_values(|r: SusiAxiomRule| pulse_sample(r, ts))
        + g.components@.map_values(|c: SusiComponentSpec| component_sample(c, ts))
}

/// Distills the compiled genome into synthetic training samples.
pub struct GenomeDistiller;

impl GenomeDistiller {
    /// The training samples for a genome at time `ts`.
    pub fn distill_genome_samples(g: &CompiledGenome, ts: u64) -> (r: Vec<ReasoningSample>)
        ensures
            r@.map_values(|s: ReasoningSample| sample_parts(s)) == genome_samples(*g, ts),
    {
        let mut out: Vec<ReasoningSample> = Vec::new();
        let mut i: usize = 0;
        while i < g.rules.len()
            invariant
                i <= g.rules@.len(),
                out@.map_values(|s: ReasoningSample| sample_parts(s))
                    == g.rules@.take(i as int).map_values(|r: SusiAxiomRule| rule_sample(r, ts)),
            decreases g.rules.len() - i,
        {
            let ghost prev = out@;
            let smp = rule_to_sample(&g.rules[i], ts, false);
            out.push(smp);
            proof {
                assert(out@.map_values(|s: ReasoningSample| sample_parts(s)) =~= prev.map_values(
                    |s: ReasoningSample| sample_parts(s),
                ).push(sample_parts(smp)));
                assert(g.rules@.take(i + 1).map_values(|r: SusiAxiomRule| rule_sample(r, ts))
                    =~= g.rules@.take(i as int).map_values(|r: SusiAxiomRule| rule_sample(r, ts)).push(
                    rule_sample(g.rules@[i as int], ts),
                ));
            }
            i = i + 1;
        }
        proof {
            assert(g.rules@.take(g.rules@.len() as int) =~= g.rules@);
        }
        let ghost first = out@.map_values(|s: ReasoningSample| sample_parts(s));
        let mut j: usize = 0;
        while j < g.pulse_axioms.len()
            invariant
                j <= g.pulse_axioms@.len(),
                first == g.rules@.map_values(|r: SusiAxiomRule| rule_sample(r, ts)),
                out@.map_values(|s: ReasoningSample| sample_parts(s))
                    == first + g.pulse_axioms@.take(j as int).map_values(|r: SusiAxiomRule| pulse_sample(r, ts)),
            decreases g.pulse_axioms.len() - j,
        {
            let ghost prev = out@;
            let smp = rule_to_sample(&g.pulse_axioms[j], ts, true);
            out.push(smp);
            proof {
                assert(out@.map_values(|s: ReasoningSample| sample_parts(s)) =~= prev.map_values(
                    |s: ReasoningSample| sample_parts(s),
                ).push(sample_parts(smp)));
                assert(g.pulse_axioms@.take(j + 1).map_values(|r: SusiAxiomRule| pulse_sample(r, ts))
                    =~= g.pulse_axioms@.take(j as int).map_values(|r: SusiAxiomRule| pulse_sample(r, ts)).push(
                    pulse_sample(g.pulse_axioms@[j as int], ts),
                ));
                assert(out@.map_values(|s: ReasoningSample| sample_parts(s)) =~= first
                    + g.pulse_axioms@.take(j + 1).map_values(|r: SusiAxiomRule| pulse_sample(r, ts)));
            }
            j = j + 1;
        }
        proof {
            assert(g.pulse_axioms@.take(g.pulse_axioms@.len() as int) =~= g.pulse_axioms@);
        }
        let ghost second = out@.map_values(|s: ReasoningSample| sample_parts(s));
        let mut k: usize = 0;
        while k < g.components.len()
            invariant
                k <= g.components@.len(),
                second == g.rules@.map_values(|r: SusiAxiomRule| rule_sample(r, ts))
                    + g.pulse_axioms@.map_values(|r: SusiAxiomRule| pulse_sample(r, ts)),
                out@.map_values(|s: ReasoningSample| sample_parts(s))
                    == second + g.components@.take(k as int).map_values(|c: SusiComponentSpec| component_sample(c, ts)),
            decreases g.components.len() - k,
        {
            let ghost prev = out@;
            let smp = component_to_sample(&g.components[k], ts);
            out.push(smp);
            proof {
                assert(out@.map_values(|s: ReasoningSample| sample_parts(s)) =~= prev.map_values(
                    |s: ReasoningSample| sample_parts(s),
                ).push(sample_parts(smp)));
                assert(g.components@.take(k + 1).map_values(|c: SusiComponentSpec| component_sample(c, ts))
                    =~= g.components@.take(k as int).map_values(|c: SusiComponentSpec| component_sample(c, ts)).push(
                    component_sample(g.components@[k as int], ts),
                ));
                assert(out@.map_values(|s: ReasoningSample| sample_parts(s)) =~= second
                    + g.components@.take(k + 1).map_values(|c: SusiComponentSpec| component_sample(c, ts)));
            }
            k = k + 1;
        }
        proof {
            assert(g.components@.take(g.components@.len() as int) =~= g.components@);
        }
        out
    }
}

} // verus!
