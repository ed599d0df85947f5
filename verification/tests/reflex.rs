use susi::reflex::{calculatesquarerootReflex, ReflexDecision, ReflexEngine, ToolArgument};

#[test]
fn test_autonomous_evolution_pass() {
    assert!(true);
}

#[test]
fn pulse_answers_solve_and_silence_escalates() {
    match ReflexEngine::try_solve(Some("ACTION: list".to_string()), 42) {
        (ReflexDecision::Solved(a), t) => {
            assert_eq!(a, "ACTION: list");
            assert_eq!(t, 42);
        }
        other => panic!("unexpected {:?}", other),
    }
    assert!(matches!(ReflexEngine::try_solve(None, 7), (ReflexDecision::RequiresDeepReasoning, 7)));
}

#[test]
fn square_root_reflex_echoes_its_argument() {
    let r = calculatesquarerootReflex;
    assert_eq!(r.name(), "calculate_square_root");
    assert_eq!(r.description(), "Synthesized reflex for calculate square root");
    assert_eq!(
        r.execute(&ToolArgument::Text("16".to_string())).unwrap(),
        "Synthesized reflex executed for intent 'calculate square root' with arg: 16"
    );
    assert_eq!(
        r.execute(&ToolArgument::Json("{\"n\":16}".to_string())).unwrap(),
        "Synthesized reflex executed for intent 'calculate square root' with arg: {\"n\":16}"
    );
}
