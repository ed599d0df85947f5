//! Subcommands of the agent, framework, DeerFlow and LangGraph control
//! planes. Each runs its `List` view when no subcommand is given.
use vstd::prelude::*;

verus! {

/// DeerFlow control-plane subcommands.
#[derive(Debug, Clone, PartialEq, Eq)]
pub enum DeerFlowCommands {
    /// Show DeerFlow CLI + config/credential status.
    List,
    /// Check the `deerflow` binary, config.yaml and model API credentials.
    Doctor,
    /// Show install/config instructions and the effective adapter.
    Setup,
    /// Write the workspace DeerFlow config and print export hints.
    Init,
    /// Start a headless DeerFlow task.
    Run { wait: bool, prompt: String },
    /// List durable DeerFlow tasks in this workspace.
    Tasks,
    Status { task_id: String, refresh: bool },
    Logs { task_id: String, stderr: bool, bytes: u64 },
    Cancel { task_id: String },
}

impl Default for DeerFlowCommands {
    /// The subcommand run when none is given.
    fn default() -> (r: Self)
        ensures
            r == DeerFlowCommands::List,
    {
        DeerFlowCommands::List
    }
}

/// Execution-agent control-plane subcommands.
#[derive(Debug, Clone, PartialEq, Eq)]
pub enum ExecutionAgentCommands {
    /// Show agent binary/auth status and catalog definition.
    List,
    /// Check prerequisites (does not start a paid run).
    Doctor,
    /// Show install/auth instructions and the effective adapter.
    Setup,
    /// Start a headless task.
    Run { wait: bool, prompt: String },
    /// List durable tasks for this agent in this workspace.
    Tasks,
    Status { task_id: String, refresh: bool },
    Logs { task_id: String, stderr: bool, bytes: u64 },
    Cancel { task_id: String },
}

impl Default for ExecutionAgentCommands {
    /// The subcommand run when none is given.
    fn default() -> (r: Self)
        ensures
            r == ExecutionAgentCommands::List,
    {
        ExecutionAgentCommands::List
    }
}

/// Agent-framework control-plane subcommands.
#[derive(Debug, Clone, PartialEq, Eq)]
#[allow(inconsistent_fields)]
pub enum FrameworkCommands {
    /// Show the agent frameworks/engines and setup documentation.
    List,
    /// Check local prerequisites (does not invoke a paid model).
    Doctor { engine: Option<String> },
    /// Show setup instructions and the effective adapter configuration.
    Setup { engine: String },
    /// Load an adapter JSON file into trusted host configuration.
    Configure { engine: String, file: String },
    /// Remove a host override and restore the bundled adapter.
    Reset { engine: String },
    /// Start a task; defaults to a detached worker with durable output.
    Run { engine: String, wait: bool, prompt: String },
    /// List durable framework tasks in the current workspace.
    Tasks,
    Status { task_id: String, refresh: bool },
    Logs { task_id: String, stderr: bool, bytes: u64 },
    Cancel { task_id: String },
    Retry { task_id: String, wait: bool },
    /// Runs a detached task (internal).
    Worker { task_id: String },
}

impl Default for FrameworkCommands {
    /// The subcommand run when none is given.
    fn default() -> (r: Self)
        ensures
            r == FrameworkCommands::List,
    {
        FrameworkCommands::List
    }
}

/// LangGraph control-plane subcommands.
#[derive(Debug, Clone, PartialEq, Eq)]
pub enum LangGraphCommands {
    /// Show the catalog entry and a readiness snapshot.
    List,
    /// Check python, the `langgraph` import and the config variable.
    Doctor,
    /// Show install/config instructions and the effective adapter.
    Setup,
    /// Write the workspace LangGraph graph and config and print an export hint.
    Init,
    /// Start a LangGraph task.
    Run { wait: bool, prompt: String },
    /// List durable LangGraph tasks in this workspace.
    Tasks,
    Status { task_id: String, refresh: bool },
    Logs { task_id: String, stderr: bool, bytes: u64 },
    Cancel { task_id: String },
}

impl Default for LangGraphCommands {
    /// The subcommand run when none is given.
    fn default() -> (r: Self)
        ensures
            r == LangGraphCommands::List,
    {
        LangGraphCommands::List
    }
}

} // verus!
