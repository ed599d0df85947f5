use susi::genome::{AlphaSelf, CompiledGenome, SusiAxiomRule, SusiComponentSpec, SusiCoreTier};

fn genome() -> CompiledGenome {
    let rule = SusiAxiomRule { id: 1, title: "Universal".to_string(), imperative: "Act".to_string() };
    let comp = SusiComponentSpec { name: "GEMI".to_string(), tier: SusiCoreTier::Tier2Reasoning, description: "engine".to_string() };
    CompiledGenome {
        rules: vec![rule.clone()],
        pulse_axioms: vec![rule],
        aoa_components: vec![],
        agent_components: vec![],
        engine_components: vec![comp.clone()],
        model_components: vec![],
        mcp_components: vec![],
        realized_components: vec![],
        components: vec![comp],
    }
}

#[test]
fn test_compiled_genome_accuracy() {
    let g = genome();
    assert!(!g.rules.is_empty());
    assert!(!g.components.is_empty());
    assert!(!g.pulse_axioms.is_empty());
    let summary = AlphaSelf::inspect_compiled_binary_instructions("1.4.2", &g);
    assert!(summary.contains("1.4.2"));
    assert!(summary.contains("Hardcoded Axiom Rules:"));
    assert!(summary.starts_with("SUSI Substrate Compiled Binary Instructions:\n- Version: 1.4.2\n"));
    assert!(summary.contains("- Hardcoded Axiom Rules: 1\n"));
}
