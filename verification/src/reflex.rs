//! Tier 0 reflex routing: a prompt the pulse brain can answer is solved at
//! once; anything else is escalated to deep reasoning.
use vstd::prelude::*;
use crate::text::push_str;

verus! {

/// The outcome of a reflex attempt.
#[derive(Debug, Clone)]
pub enum ReflexDecision {
    /// The reflex produced this action.
    Solved(String),
    /// The prompt needs the deep reasoning tier.
    RequiresDeepReasoning,
}

/// Tier 0 reflex engine.
pub struct ReflexEngine;

impl ReflexEngine {
    /// The reflex decision for a prompt, given what the pulse brain answered
    /// (`None` when it could not resolve the prompt) and how long the
    /// attempt took, which is passed through.
    pub fn try_solve(pulse_action: Option<String>, elapsed_micros: u128) -> (r: (ReflexDecision, u128))
        ensures
            r.1 == elapsed_micros,
            match pulse_action {
                Some(a) => r.0 matches ReflexDecision::Solved(s) && s@ == a@,
                None => r.0 is RequiresDeepReasoning,
            },
    {
        match pulse_action {
            Some(action) => (ReflexDecision::Solved(action), elapsed_micros),
            None => (ReflexDecision::RequiresDeepReasoning, elapsed_micros),
        }
    }
}

/// A synthesized reflex tool answering "calculate square root" intents.
#[allow(non_camel_case_types)]
pub struct calculatesquarerootReflex;

/// The argument a tool is called with: a JSON string's text, or the JSON
/// rendering of any other JSON value.
#[derive(Debug, Clone)]
pub enum ToolArgument {
    Text(String),
    Json(String),
}

impl calculatesquarerootReflex {
    /// The tool's registry name.
    pub fn name(&self) -> (r: String)
        ensures
            r@ == "calculate_square_root"@,
    {
        let mut s = String::new();
        push_str(&mut s, "calculate_square_root");
        s
    }

    /// The tool's description.
    pub fn description(&self) -> (r: String)
        ensures
            r@ == "Synthesized reflex for calculate square root"@,
    {
        let mut s = String::new();
        push_str(&mut s, "Synthesized reflex for calculate square root");
        s
    }

    /// Acknowledges the intent together with the argument's text.
    pub fn execute(&self, arg: &ToolArgument) -> (r: crate::error::EaiResult<String>)
        ensures
            r matches Ok(s) && s@ == "Synthesized reflex executed for intent 'calculate square root' with arg: "@
                + match arg {
                    ToolArgument::Text(t) => t@,
                    ToolArgument::Json(j) => j@,
                },
    {
        let mut s = String::new();
        push_str(&mut s, "Synthesized reflex executed for intent 'calculate square root' with arg: ");
        match arg {
            ToolArgument::Text(t) => push_str(&mut s, t.as_str()),
            ToolArgument::Json(j) => push_str(&mut s, j.as_str()),
        }
        Ok(s)
    }
}

} // verus!
