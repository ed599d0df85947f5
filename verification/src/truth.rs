//! Truth verification of tool results: a result that claims to have written
//! a file is checked against what the workspace really holds.
use vstd::prelude::*;
use crate::error::{EaiError, EaiResult};
use crate::text::{
    seq_contains, contains_str, chars_of, split_in, split_at_any, strip_in, stripped_start,
    stripped_end, lowercase, lower_chars, string_of, push_str, second_piece, second_piece_of,
    prefix_before, before_char,
};

verus! {

/// What the workspace holds at the path a tool reported writing.
#[derive(Debug, Clone, Copy, PartialEq, Eq, Structural)]
pub enum WrittenFileState {
    /// No such file.
    Missing,
    /// The file exists and holds zero bytes.
    Empty,
    /// The file exists and is not known to be empty.
    Present,
}

/// The result claims that a file was written.
pub open spec fn reports_write(result: Seq<char>) -> bool {
    seq_contains(result, "Wrote to "@) || seq_contains(result, "Saved to "@)
}

/// Characters trimmed from a piece of a result before it is read as a path.
pub open spec fn path_trim_set() -> Seq<char> {
    seq!['.', ':', '[', ']']
}

/// Characters at which a result is cut into pieces.
pub open spec fn result_separators() -> Seq<char> {
    seq![' ', '[', ']']
}

/// A trimmed piece names a path: it is non-empty and holds a `/` or a `.`.
pub open spec fn path_like(p: Seq<char>) -> bool {
    p.len() > 0 && (p.contains('/') || p.contains('.'))
}

/// The first path-like trimmed piece, if any.
pub open spec fn first_path_like(pieces: Seq<Seq<char>>) -> Option<Seq<char>>
    decreases pieces.len(),
{
    if pieces.len() == 0 {
        None
    } else if path_like(strip_in(pieces[0], path_trim_set())) {
        Some(strip_in(pieces[0], path_trim_set()))
    } else {
        first_path_like(pieces.drop_first())
    }
}

/// The path a result reports writing: when it claims a write, the first
/// path-like piece of it cut at spaces and brackets.
pub open spec fn reported_path(result: Seq<char>) -> Option<Seq<char>> {
    if reports_write(result) {
        first_path_like(split_in(result, result_separators()))
    } else {
        None
    }
}

/// The violation a write claim raises, given what the workspace holds at
/// the reported path.
pub open spec fn write_violation(result: Seq<char>, state: WrittenFileState) -> Option<Seq<char>> {
    if !reports_write(result) {
        None
    } else {
        match reported_path(result) {
            None => Some("Reality Mismatch: Tool reported writing a file but no valid path could be extracted for verification."@),
            Some(p) => match state {
                WrittenFileState::Missing => Some(
                    "Reality Mismatch: Resource '"@ + p + "' reported as written but does not exist in workspace."@,
                ),
                WrittenFileState::Empty => if seq_contains(lowercase(result), "empty"@) {
                    None
                } else {
                    Some("Reality Mismatch: Resource '"@ + p + "' exists but is empty (0 bytes). Result claimed success."@)
                },
                WrittenFileState::Present => None,
            },
        }
    }
}

/// The governance message for a violation.
pub open spec fn truth_violation_message(v: Seq<char>) -> Seq<char> {
    "TRUTH_VIOLATION: "@ + v
        + "\nSTRUCTURED_FEEDBACK: Please grounded your response in the physical workspace state. Ensure files are actually written before reporting success."@
}

/// What the reality check makes of a result, given what the workspace
/// holds at the path it reports writing and whether swarm consensus
/// accepted it: no violation passes the result as it is; a violation is
/// waived, with a note, under consensus, and is otherwise a governance
/// error.
pub open spec fn reality_checked(r: EaiResult<String>, result: Seq<char>, path_state: WrittenFileState, consensus_accepted: bool) -> bool {
    match write_violation(result, path_state) {
        None => r matches Ok(s) && s@ == result,
        Some(v) => if consensus_accepted {
            r matches Ok(s) && s@ == result + " (Verified via Epistemic Delegation)"@
        } else {
            r matches Err(e) && e == EaiError::Governance(e->Governance_0)
                && e->Governance_0@ == truth_violation_message(v)
        },
    }
}

/// The swarm convergence score text a result carries: after the first
/// `[CONVERGENCE_SCORE: ` marker, up to the next marker, cut at the first
/// `]`.
pub open spec fn convergence_score_text(result: Seq<char>) -> Option<Seq<char>> {
    match second_piece(result, "[CONVERGENCE_SCORE: "@) {
        None => None,
        Some(piece) => Some(prefix_before(piece, ']')),
    }
}

/// Formal verification of tool output against the workspace.
pub struct SusiTruthAgent;

impl SusiTruthAgent {
    /// The path a tool result reports writing, if it claims a write and
    /// names one.
    pub fn reported_path(result: &str) -> (r: Option<String>)
        ensures
            match r {
                Some(p) => reported_path(result@) == Some(p@),
                None => reported_path(result@) is None,
            },
    {
        let text = chars_of(result);
        if !(contains_str(&text, "Wrote to ") || contains_str(&text, "Saved to ")) {
            return None;
        }
        let seps = vec![' ', '[', ']'];
        let trims = vec!['.', ':', '[', ']'];
        proof {
            assert(seps@ =~= result_separators());
            assert(trims@ =~= path_trim_set());
        }
        let pieces = split_at_any(&text, &seps);
        let ghost pv = pieces@.map_values(|p: Vec<char>| p@);
        let mut i: usize = 0;
        proof {
            assert(pv.skip(0) =~= pv);
        }
        while i < pieces.len()
            invariant
                i <= pieces@.len(),
                pv == pieces@.map_values(|p: Vec<char>| p@),
                pv == split_in(result@, result_separators()),
                trims@ == path_trim_set(),
                reports_write(result@),
                first_path_like(pv) == first_path_like(pv.skip(i as int)),
            decreases pieces.len() - i,
        {
            let a = stripped_start(&pieces[i], &trims);
            let c = stripped_end(&a, &trims);
            let has_slash = c.len() > 0 && (crate::text::member(&c, '/') || crate::text::member(&c, '.'));
            proof {
                assert(pv.skip(i as int)[0] == pieces@[i as int]@);
                assert(pv.skip(i as int).drop_first() =~= pv.skip(i + 1));
            }
            if has_slash {
                return Some(string_of(&c));
            }
            i = i + 1;
        }
        proof {
            assert(pv.skip(i as int).len() == 0);
        }
        None
    }

    /// The text of the convergence score a result carries, if any.
    pub fn convergence_score_text(result: &str) -> (r: Option<String>)
        ensures
            match r {
                Some(t) => convergence_score_text(result@) == Some(t@),
                None => convergence_score_text(result@) is None,
            },
    {
        let text = chars_of(result);
        let marker = chars_of("[CONVERGENCE_SCORE: ");
        match second_piece_of(&text, &marker) {
            None => None,
            Some(piece) => {
                let score = before_char(&piece, ']');
                Some(string_of(&score))
            },
        }
    }

    /// Validates a tool result against the workspace: a result claiming a
    /// write must name a path that exists and, unless it says so, is not
    /// empty. A violation is waived when the swarm's consensus accepted the
    /// result (`consensus_accepted`: its convergence score reads at least
    /// 0.85), which the result then says; otherwise it is a governance
    /// error. `path_state` is what the workspace holds at the reported path.
    pub fn verify_mission_reality(
        goal: &str,
        tool_name: &str,
        result: &str,
        path_state: WrittenFileState,
        consensus_accepted: bool,
    ) -> (r: EaiResult<String>)
        ensures
            reality_checked(r, result@, path_state, consensus_accepted),
    {
        let text = chars_of(result);
        let claims_write = contains_str(&text, "Wrote to ") || contains_str(&text, "Saved to ");
        let mut violation: Option<String> = None;
        if claims_write {
            match Self::reported_path(result) {
                None => {
                    let mut v = String::new();
                    push_str(&mut v, "Reality Mismatch: Tool reported writing a file but no valid path could be extracted for verification.");
                    violation = Some(v);
                },
                Some(p) => {
                    match path_state {
                        WrittenFileState::Missing => {
                            let mut v = String::new();
                            push_str(&mut v, "Reality Mismatch: Resource '");
                            push_str(&mut v, p.as_str());
                            push_str(&mut v, "' reported as written but does not exist in workspace.");
                            violation = Some(v);
                        },
                        WrittenFileState::Empty => {
                            let lower = lower_chars(result);
                            if !contains_str(&lower, "empty") {
                                let mut v = String::new();
                                push_str(&mut v, "Reality Mismatch: Resource '");
                                push_str(&mut v, p.as_str());
                                push_str(&mut v, "' exists but is empty (0 bytes). Result claimed success.");
                                violation = Some(v);
                            }
                        },
                        WrittenFileState::Present => {},
                    }
                },
            }
        }
        proof {
            if violation is Some {
                assert(write_violation(result@, path_state) == Some(violation->0@));
            } else {
                assert(write_violation(result@, path_state) is None);
            }
        }
        match violation {
            None => {
                let mut s = String::new();
                push_str(&mut s, result);
                Ok(s)
            },
            Some(v) => {
                if consensus_accepted {
                    let mut s = String::new();
                    push_str(&mut s, result);
                    push_str(&mut s, " (Verified via Epistemic Delegation)");
                    Ok(s)
                } else {
                    let mut msg = String::new();
                    push_str(&mut msg, "TRUTH_VIOLATION: ");
                    push_str(&mut msg, v.as_str());
                    push_str(&mut msg, "\nSTRUCTURED_FEEDBACK: Please grounded your response in the physical workspace state. Ensure files are actually written before reporting success.");
                    Err(EaiError::governance(msg.as_str()))
                }
            },
        }
    }
}

/// The transformer-facing entry point of truth verification.
pub struct TruthTransformer;

impl TruthTransformer {
    /// Same as `SusiTruthAgent::verify_mission_reality`.
    pub fn verify_mission_reality(
        goal: &str,
        tool_name: &str,
        result: &str,
        path_state: WrittenFileState,
        consensus_accepted: bool,
    ) -> (r: EaiResult<String>)
        ensures
            reality_checked(r, result@, path_state, consensus_accepted),
    {
        SusiTruthAgent::verify_mission_reality(goal, tool_name, result, path_state, consensus_accepted)
    }
}

/// The reality check only ever questions write claims. A result that
/// claims no write passes unchanged. A claimed write to a file that does
/// not exist is a governance error naming the reported path, unless swarm
/// consensus accepted the result, which then passes with a delegation
/// note. A file that exists with content settles any claim whose path was
/// found.
pub proof fn law_reality_check(r: EaiResult<String>, result: Seq<char>, state: WrittenFileState, consensus: bool, p: Seq<char>)
    requires
        reality_checked(r, result, state, consensus),
    ensures
        !reports_write(result) ==> (r matches Ok(s) && s@ == result),
        reported_path(result) == Some(p) && state == WrittenFileState::Missing && !consensus ==> (r matches Err(e)
            && e == EaiError::Governance(e->Governance_0)
            && e->Governance_0@ == truth_violation_message(
                "Reality Mismatch: Resource '"@ + p + "' reported as written but does not exist in workspace."@)),
        reported_path(result) == Some(p) && state == WrittenFileState::Missing && consensus ==> (r matches Ok(s)
            && s@ == result + " (Verified via Epistemic Delegation)"@),
        reported_path(result) is Some && state == WrittenFileState::Present ==> (r matches Ok(s) && s@ == result),
{
}

} // verus!
