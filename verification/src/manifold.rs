//! Intent impact and risk profiling.
use vstd::prelude::*;
use crate::text::{chars_of, contains_str, seq_contains, seq_starts_with, starts_with, lower_chars,
    lowercase, push_str, equals_str};

verus! {

/// What an intent may touch.
#[derive(Debug, Clone, Copy, PartialEq, Eq, Structural)]
pub enum ScopeOfImpact {
    Read,
    Write,
    Mutate,
    SelfExtend,
}

/// How dangerous an intent is, ordered from `Low` to `Critical`.
#[derive(Debug, Clone, Copy, PartialEq, Eq, PartialOrd, Ord, Structural)]
pub enum RiskProfile {
    Low,
    Medium,
    High,
    Critical,
}

/// The profile of one intent.
#[derive(Debug, Clone)]
pub struct IntentManifold {
    pub raw_intent: String,
    pub scope_of_impact: ScopeOfImpact,
    pub risk_profile: RiskProfile,
    pub requires_swarm: bool,
    pub requires_verification: bool,
}

/// The scope of a lowercased intent.
pub open spec fn scope_of(l: Seq<char>) -> ScopeOfImpact {
    if seq_contains(l, "identity"@) || seq_contains(l, "status"@) || seq_contains(l, "models"@)
        || seq_contains(l, "version"@) || l == "ls"@ || seq_starts_with(l, "ls "@) || l == "dir"@
        || seq_contains(l, "list directory"@) || seq_contains(l, "list files"@) || seq_contains(
        l,
        "who am i"@,
    ) || seq_contains(l, "whoami"@) {
        ScopeOfImpact::Read
    } else if seq_contains(l, "write"@) || seq_contains(l, "save"@) || seq_contains(l, "edit"@)
        || seq_contains(l, "file"@) {
        ScopeOfImpact::Write
    } else if seq_contains(l, "admin"@) || seq_contains(l, "sync"@) || seq_contains(l, "audit"@)
        || seq_contains(l, "release"@) || seq_contains(l, "verify"@) {
        ScopeOfImpact::Mutate
    } else {
        ScopeOfImpact::SelfExtend
    }
}

/// The risk of a lowercased intent with the given scope.
pub open spec fn risk_of(l: Seq<char>, scope: ScopeOfImpact) -> RiskProfile {
    if seq_contains(l, "rm -rf"@) || seq_contains(l, "drop"@) || seq_contains(l, "delete /"@) {
        RiskProfile::Critical
    } else if seq_contains(l, "exec"@) || seq_contains(l, "command"@) || seq_contains(l, "install"@) {
        RiskProfile::High
    } else if scope == ScopeOfImpact::Mutate {
        RiskProfile::Medium
    } else {
        RiskProfile::Low
    }
}

impl IntentManifold {
    /// The scope of a lowercased intent.
    pub fn scope_from_lowered(l: &Vec<char>) -> (r: ScopeOfImpact)
        ensures
            r == scope_of(l@),
    {
        let ls = chars_of("ls ");
        if contains_str(l, "identity") || contains_str(l, "status") || contains_str(l, "models")
            || contains_str(l, "version") || equals_str(l, "ls") || starts_with(l, &ls) || equals_str(
            l,
            "dir",
        ) || contains_str(l, "list directory") || contains_str(l, "list files") || contains_str(
            l,
            "who am i",
        ) || contains_str(l, "whoami") {
            ScopeOfImpact::Read
        } else if contains_str(l, "write") || contains_str(l, "save") || contains_str(l, "edit")
            || contains_str(l, "file") {
            ScopeOfImpact::Write
        } else if contains_str(l, "admin") || contains_str(l, "sync") || contains_str(l, "audit")
            || contains_str(l, "release") || contains_str(l, "verify") {
            ScopeOfImpact::Mutate
        } else {
            ScopeOfImpact::SelfExtend
        }
    }

    /// The risk of a lowercased intent with the given scope.
    pub fn risk_from_lowered(l: &Vec<char>, scope: ScopeOfImpact) -> (r: RiskProfile)
        ensures
            r == risk_of(l@, scope),
    {
        if contains_str(l, "rm -rf") || contains_str(l, "drop") || contains_str(l, "delete /") {
            RiskProfile::Critical
        } else if contains_str(l, "exec") || contains_str(l, "command") || contains_str(l, "install") {
            RiskProfile::High
        } else if scope == ScopeOfImpact::Mutate {
            RiskProfile::Medium
        } else {
            RiskProfile::Low
        }
    }

    /// Profiles an intent: its scope, its risk, and whether it needs the swarm
    /// and verification (everything but read-only intents does).
    pub fn analyze(intent: &str) -> (r: Self)
        ensures
            r.raw_intent@ == intent@,
            r.scope_of_impact == scope_of(lowercase(intent@)),
            r.risk_profile == risk_of(lowercase(intent@), scope_of(lowercase(intent@))),
            r.requires_swarm == (r.scope_of_impact != ScopeOfImpact::Read),
            r.requires_verification == (r.scope_of_impact != ScopeOfImpact::Read),
    {
        let lower = lower_chars(intent);
        let scope_of_impact = Self::scope_from_lowered(&lower);
        let risk_profile = Self::risk_from_lowered(&lower, scope_of_impact);
        let mut raw_intent = String::new();
        push_str(&mut raw_intent, intent);
        proof {
            assert(raw_intent@ =~= intent@);
        }
        IntentManifold {
            raw_intent,
            scope_of_impact,
            risk_profile,
            requires_swarm: scope_of_impact != ScopeOfImpact::Read,
            requires_verification: scope_of_impact != ScopeOfImpact::Read,
        }
    }
}

} // verus!
