//! The decisions of the reasoning cascade: reflex first (when allowed),
//! then the selected inference engine, then provisioning a model and
//! retrying, then the power-reasoning tool, and a failure notice last.
//! Each outside step is performed by the caller, which hands back what it
//! saw; these functions say what comes next.
use vstd::prelude::*;
use crate::engine::GemiEngine;
use crate::error::EaiResult;
use crate::text::{chars_of, contains_str, push_signed, push_str, seq_contains, signed_decimal, trim, trimmed};

verus! {

/// The inference engines a request can be routed to.
#[derive(Debug, Clone, Copy, PartialEq, Eq, Structural)]
pub enum EngineKind {
    /// The federated (remote) engine.
    Federated,
    /// The local GGUF engine.
    LlamaCpp,
}

/// What the caller observed at a step of the cascade.
#[derive(Debug)]
pub enum ReasoningEvent {
    /// A request arrives: whether the reflex tier may answer, and the
    /// identifier of the selected engine.
    Start { allow_reflex: bool, engine: String },
    /// The reflex tier's answer, when it solved the prompt.
    Reflex { action: Option<String>, engine: String },
    /// The engine's reply, and whether a usable local model exists.
    Inference { reply: EaiResult<String>, usable_model: bool },
    /// The reply of the retry after provisioning; none when provisioning
    /// did not complete in time.
    Provisioned { reply: Option<EaiResult<String>> },
    /// The power-reasoning tool's reply.
    Power { reply: String },
}

/// What the caller does next.
#[derive(Debug, Clone)]
pub enum ReasoningStep {
    /// Ask the reflex tier.
    TryReflex,
    /// Run inference on this engine.
    Infer(EngineKind),
    /// Provision a hardware-fit model and retry.
    Provision,
    /// Call the power-reasoning tool.
    PowerTool,
    /// The final answer; `stream` says whether it must still be handed to
    /// the caller's stream (the engine streams its own replies).
    Answer { text: String, stream: bool },
}

/// One poll of the provisioning wait.
#[derive(Debug, Clone)]
pub enum ProvisionPoll {
    /// A usable model landed: announce it and retry inference.
    Retry { note: String },
    /// Report new download progress, then wait.
    Report { note: String, last_reported: i64 },
    /// Nothing new: wait.
    Wait,
    /// The deadline passed: announce it and give up.
    GiveUp { note: String },
}

/// The engine an identifier selects.
pub open spec fn engine_kind(id: Seq<char>) -> EngineKind {
    if id == "susi-federated"@ || id == "cloud"@ { EngineKind::Federated } else { EngineKind::LlamaCpp }
}

/// A reply worth keeping: a successful one that is not blank.
pub open spec fn usable_reply(reply: EaiResult<String>) -> bool {
    reply matches Ok(r) && trim(r@).len() > 0
}

/// The text of a reply (empty for an error).
pub open spec fn reply_text(reply: EaiResult<String>) -> Seq<char> {
    match reply {
        Ok(r) => r@,
        Err(_) => Seq::empty(),
    }
}

/// Whether the power tool's reply counts as an answer.
pub open spec fn power_accepted(reply: Seq<char>) -> bool {
    !seq_contains(reply, "[FAIL]"@) && !seq_contains(reply, "[CAPABILITY_GAP]"@) && !seq_contains(reply, "Inference Error"@)
}

/// The answer when every path failed.
pub open spec fn cascade_failure() -> Seq<char> {
    "[FAIL] SUSI-Tier2-Inference: Local model inference and power reasoning fallback both failed."@
}

/// A step as plain values: its kind, and an answer's text and whether it
/// still goes to the stream.
pub enum StepPlan {
    TryReflex,
    Infer(EngineKind),
    Provision,
    PowerTool,
    Answer(Seq<char>, bool),
}

/// A step's plan.
pub open spec fn plan_of(r: ReasoningStep) -> StepPlan {
    match r {
        ReasoningStep::TryReflex => StepPlan::TryReflex,
        ReasoningStep::Infer(k) => StepPlan::Infer(k),
        ReasoningStep::Provision => StepPlan::Provision,
        ReasoningStep::PowerTool => StepPlan::PowerTool,
        ReasoningStep::Answer { text, stream } => StepPlan::Answer(text@, stream),
    }
}

/// What follows an event of the cascade.
pub open spec fn next_plan(event: ReasoningEvent) -> StepPlan {
    match event {
        ReasoningEvent::Start { allow_reflex, engine } =>
            if allow_reflex { StepPlan::TryReflex } else { StepPlan::Infer(engine_kind(engine@)) },
        ReasoningEvent::Reflex { action, engine } => match action {
            Some(a) => StepPlan::Answer(a@, true),
            None => StepPlan::Infer(engine_kind(engine@)),
        },
        ReasoningEvent::Inference { reply, usable_model } =>
            if usable_reply(reply) {
                StepPlan::Answer(reply_text(reply), false)
            } else if !usable_model {
                StepPlan::Provision
            } else {
                StepPlan::PowerTool
            },
        ReasoningEvent::Provisioned { reply } => match reply {
            Some(r) => if usable_reply(r) { StepPlan::Answer(reply_text(r), false) } else { StepPlan::PowerTool },
            None => StepPlan::PowerTool,
        },
        ReasoningEvent::Power { reply } =>
            StepPlan::Answer(if power_accepted(reply@) { reply@ } else { cascade_failure() }, true),
    }
}

/// The note that opens provisioning.
pub open spec fn provisioning_start_note() -> Seq<char> {
    "[SUSI] No local model provisioned yet - fetching a hardware-fit model to solve this intent...\n"@
}

/// What one poll of the provisioning wait decides.
pub open spec fn poll_outcome(before_deadline: bool, usable_model: bool, percent: Option<i64>, last_reported: i64) -> Seq<char> {
    if !before_deadline {
        "[SUSI] Model provisioning did not complete in time; trying alternate reasoning path...\n"@
    } else if usable_model {
        "[SUSI] Model provisioned. Resuming inference...\n"@
    } else {
        match percent {
            Some(p) => if p != last_reported { "[SUSI] Provisioning model... "@ + signed_decimal(p as int) + "%\n"@ } else { Seq::empty() },
            None => Seq::empty(),
        }
    }
}

fn is_usable(reply: &EaiResult<String>) -> (b: bool)
    ensures
        b == usable_reply(*reply),
{
    match reply {
        Ok(r) => {
            let t = trimmed(&chars_of(r.as_str()));
            t.len() > 0
        },
        Err(_) => false,
    }
}

fn same_text(a: &str, b: &str) -> (r: bool)
    ensures
        r == (a@ == b@),
{
    crate::text::equals_str(&chars_of(a), b)
}

impl GemiEngine {
    /// The engine an identifier selects: the federated engine for
    /// `susi-federated` and `cloud`, the local GGUF engine otherwise.
    pub fn select_engine(identifier: &str) -> (r: EngineKind)
        ensures
            r == engine_kind(identifier@),
    {
        if same_text(identifier, "susi-federated") || same_text(identifier, "cloud") {
            proof {
                reveal_strlit("susi-federated");
                reveal_strlit("cloud");
            }
            EngineKind::Federated
        } else {
            EngineKind::LlamaCpp
        }
    }

    /// Whether the power-reasoning tool's reply counts as an answer: it
    /// carries no failure, capability-gap or inference-error marker.
    pub fn power_reply_accepted(reply: &str) -> (b: bool)
        ensures
            b == power_accepted(reply@),
    {
        let text = chars_of(reply);
        !contains_str(&text, "[FAIL]") && !contains_str(&text, "[CAPABILITY_GAP]") && !contains_str(&text, "Inference Error")
    }

    /// What the cascade does after an event. A usable engine reply is
    /// checked against the risk patterns: it is answered as is when they
    /// pass, and also when they object (the objection is not surfaced).
    /// The power tool's reply is the answer when accepted, else the
    /// failure notice is.
    pub fn next_reasoning_step(event: ReasoningEvent, risk_patterns: &Vec<String>) -> (r: ReasoningStep)
        ensures
            plan_of(r) == next_plan(event),
    {
        match event {
            ReasoningEvent::Start { allow_reflex, engine } => {
                if allow_reflex {
                    ReasoningStep::TryReflex
                } else {
                    ReasoningStep::Infer(Self::select_engine(engine.as_str()))
                }
            },
            ReasoningEvent::Reflex { action, engine } => match action {
                Some(a) => ReasoningStep::Answer { text: a, stream: true },
                None => ReasoningStep::Infer(Self::select_engine(engine.as_str())),
            },
            ReasoningEvent::Inference { reply, usable_model } => {
                if is_usable(&reply) {
                    let res = match reply { Ok(r) => r, Err(_) => String::new() };
                    let text = match Self::verify_axiomatic_alignment(res.as_str(), risk_patterns) {
                        Ok(v) => v,
                        Err(_) => res,
                    };
                    ReasoningStep::Answer { text, stream: false }
                } else if !usable_model {
                    ReasoningStep::Provision
                } else {
                    ReasoningStep::PowerTool
                }
            },
            ReasoningEvent::Provisioned { reply } => match reply {
                Some(r) => {
                    if is_usable(&r) {
                        let res = match r { Ok(x) => x, Err(_) => String::new() };
                        let text = match Self::verify_axiomatic_alignment(res.as_str(), risk_patterns) {
                            Ok(v) => v,
                            Err(_) => res,
                        };
                        ReasoningStep::Answer { text, stream: false }
                    } else {
                        ReasoningStep::PowerTool
                    }
                },
                None => ReasoningStep::PowerTool,
            },
            ReasoningEvent::Power { reply } => {
                if Self::power_reply_accepted(reply.as_str()) {
                    ReasoningStep::Answer { text: reply, stream: true }
                } else {
                    let mut text = String::new();
                    push_str(&mut text, "[FAIL] SUSI-Tier2-Inference: Local model inference and power reasoning fallback both failed.");
                    ReasoningStep::Answer { text, stream: true }
                }
            },
        }
    }

    /// The note that opens provisioning.
    pub fn provisioning_start_note() -> (r: String)
        ensures
            r@ == provisioning_start_note(),
    {
        let mut s = String::new();
        push_str(&mut s, "[SUSI] No local model provisioned yet - fetching a hardware-fit model to solve this intent...\n");
        s
    }

    /// One poll of the provisioning wait: give up past the deadline; retry
    /// once a usable model exists; otherwise report the download's percent
    /// when it changed since the last report, else wait.
    pub fn provision_poll(before_deadline: bool, usable_model: bool, percent: Option<i64>, last_reported: i64) -> (r: ProvisionPoll)
        ensures
            !before_deadline ==> (r matches ProvisionPoll::GiveUp { note } && note@ == poll_outcome(before_deadline, usable_model, percent, last_reported)),
            before_deadline && usable_model ==> (r matches ProvisionPoll::Retry { note } && note@ == poll_outcome(before_deadline, usable_model, percent, last_reported)),
            before_deadline && !usable_model ==> match percent {
                Some(p) => if p != last_reported {
                    r matches ProvisionPoll::Report { note, last_reported: l } && l == p
                        && note@ == poll_outcome(before_deadline, usable_model, percent, last_reported)
                } else {
                    r is Wait
                },
                None => r is Wait,
            },
    {
        if !before_deadline {
            let mut note = String::new();
            push_str(&mut note, "[SUSI] Model provisioning did not complete in time; trying alternate reasoning path...\n");
            ProvisionPoll::GiveUp { note }
        } else if usable_model {
            let mut note = String::new();
            push_str(&mut note, "[SUSI] Model provisioned. Resuming inference...\n");
            ProvisionPoll::Retry { note }
        } else {
            match percent {
                Some(p) => {
                    if p != last_reported {
                        let mut note = String::new();
                        push_str(&mut note, "[SUSI] Provisioning model... ");
                        push_signed(&mut note, p);
                        push_str(&mut note, "%\n");
                        ProvisionPoll::Report { note, last_reported: p }
                    } else {
                        ProvisionPoll::Wait
                    }
                },
                None => ProvisionPoll::Wait,
            }
        }
    }
}

/// The reflex tier answers first: a request that allows it asks the
/// reflex tier before any engine, and a prompt the reflex tier solves is
/// answered with that action, handed once to the stream, with no engine,
/// provisioning or power tool consulted.
pub proof fn law_reflex_answer_is_final(action: String, engine: String)
    ensures
        next_plan(ReasoningEvent::Start { allow_reflex: true, engine }) == StepPlan::TryReflex,
        next_plan(ReasoningEvent::Reflex { action: Some(action), engine }) == StepPlan::Answer(action@, true),
{
}

} // verus!
