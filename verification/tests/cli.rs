use susi::cli::{DeerFlowCommands, ExecutionAgentCommands, FrameworkCommands, LangGraphCommands};

#[test]
fn each_control_plane_defaults_to_list() {
    assert_eq!(DeerFlowCommands::default(), DeerFlowCommands::List);
    assert_eq!(ExecutionAgentCommands::default(), ExecutionAgentCommands::List);
    assert_eq!(FrameworkCommands::default(), FrameworkCommands::List);
    assert_eq!(LangGraphCommands::default(), LangGraphCommands::List);
    let run = FrameworkCommands::Run { engine: "e".to_string(), wait: true, prompt: "p".to_string() };
    assert_ne!(run, FrameworkCommands::List);
}
