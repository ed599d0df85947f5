//! The master agent's mission decisions: how a goal is routed, how an
//! attempt's answer is composed, and when a failed attempt is retried with
//! a correction.
use vstd::prelude::*;
use vstd::utf8::encode_utf8;
use crate::error::{EaiError, displayed};
use crate::gawd::SusiMasterAgent;
use crate::hardware::HardwareProfile;
use crate::text::{
    seq_contains, trim, lowercase, chars_of, contains_str, equals_str, trimmed, lower_chars,
    push_str, push_decimal, decimal, to_lowercase,
};
use crate::digests::{hex_digit, hex_lower, md5_digest, md5_hex};
use crate::gawd::A2AMessage;
use crate::text::{seq_starts_with, starts_with, string_of};

verus! {

/// Where a sanitized goal is sent.
#[derive(Debug, Clone, Copy, PartialEq, Eq, Structural)]
pub enum MissionRoute {
    /// The identity report.
    Identity,
    /// The engine version.
    Version,
    /// The substrate status report.
    Status,
    /// The model roster.
    Models,
    /// Partitioned into parallel sub-missions.
    Parallel,
    /// Decomposed into planned steps.
    Planned,
    /// Solved by the swarm, with retries.
    Swarm,
}

/// The route of a goal: exact substrate queries first, then parallel
/// missions, then long or multi-step goals (unless already a step), else
/// the swarm.
pub open spec fn mission_route(goal: Seq<char>) -> MissionRoute {
    let lower = lowercase(goal);
    let q = trim(lower);
    if q == "identity"@ || q == "susi identity"@ {
        MissionRoute::Identity
    } else if q == "version"@ || q == "susi version"@ {
        MissionRoute::Version
    } else if q == "status"@ || q == "susi status"@ {
        MissionRoute::Status
    } else if q == "models"@ || q == "susi models"@ {
        MissionRoute::Models
    } else if seq_contains(lower, "parallel"@) || seq_contains(lower, "split"@) {
        MissionRoute::Parallel
    } else if (encode_utf8(goal).len() > 150 || seq_contains(lower, " and then "@) || seq_contains(lower, " finally "@))
        && !seq_contains(goal, "[STEP "@) {
        MissionRoute::Planned
    } else {
        MissionRoute::Swarm
    }
}

/// How a goal's words decide its route. An exact substrate query (ignoring
/// case and surrounding blanks, with or without `susi `) gets its report.
/// Any other goal that mentions `parallel` or `split`, in any case, is
/// partitioned into parallel sub-missions, and only such goals are. A
/// remaining goal that is not already a step and chains its work with
/// ` and then ` or ` finally ` is planned; the swarm takes only goals that
/// are neither queries, parallel, nor plannable.
pub proof fn law_route_follows_goal_words(goal: Seq<char>)
    ensures
        ({
            let lower = lowercase(goal);
            let q = trim(lower);
            let query = q == "identity"@ || q == "susi identity"@ || q == "version"@ || q == "susi version"@
                || q == "status"@ || q == "susi status"@ || q == "models"@ || q == "susi models"@;
            let parallel = seq_contains(lower, "parallel"@) || seq_contains(lower, "split"@);
            let chained = seq_contains(lower, " and then "@) || seq_contains(lower, " finally "@);
            let step = seq_contains(goal, "[STEP "@);
            &&& (q == "identity"@ || q == "susi identity"@) ==> mission_route(goal) == MissionRoute::Identity
            &&& (!query && parallel) ==> mission_route(goal) == MissionRoute::Parallel
            &&& mission_route(goal) == MissionRoute::Parallel ==> !query && parallel
            &&& (!query && !parallel && chained && !step) ==> mission_route(goal) == MissionRoute::Planned
            &&& mission_route(goal) == MissionRoute::Planned ==> !query && !parallel && !step
            &&& mission_route(goal) == MissionRoute::Swarm ==> !query && !parallel && (step || !chained)
        }),
{
}

/// A goal is a motion (a mutation of the workspace or substrate).
pub open spec fn is_motion(lower: Seq<char>) -> bool {
    ||| seq_contains(lower, "admin mission"@)
    ||| seq_contains(lower, "motion"@)
    ||| seq_contains(lower, "sync"@)
    ||| seq_contains(lower, "audit"@)
    ||| seq_contains(lower, "release"@)
}

/// How an attempt's answer is obtained.
#[derive(Debug, Clone)]
pub enum AnswerPlan {
    /// A motion: the swarm's converged context is the answer.
    Motion(String),
    /// The swarm's context already answers.
    Swarm(String),
    /// Local inference must answer this prompt.
    Tier2(String),
}

/// The swarm context answers by itself: it is not blank and does not
/// report that no wisdom was gathered.
pub open spec fn swarm_answers(context: Seq<char>) -> bool {
    trim(context).len() > 0 && !seq_contains(context, "No valid wisdom gathered"@)
}

/// The inference prompt for a goal and its swarm context.
pub open spec fn tier2_prompt(goal: Seq<char>, context: Seq<char>) -> Seq<char> {
    "MISSION_GOAL: "@ + goal + "\n\nLOCAL_SWARM_CONTEXT:\n"@ + context
        + "\n\n[INSTRUCTION]: Resolve this mission using native local model inference."@
}

/// At most the first `n` characters of `s`.
pub open spec fn first_chars(s: Seq<char>, n: nat) -> Seq<char> {
    if s.len() <= n { s } else { s.take(n as int) }
}

/// The goal of a retry: the original goal with a numbered correction note
/// and at most 200 characters of the failure.
pub open spec fn correction_goal(goal: Seq<char>, attempt: nat, note: Seq<char>, failure: Seq<char>) -> Seq<char> {
    goal + "\n\n[CORRECTION ATTEMPT "@ + decimal(attempt) + "]: "@ + note + first_chars(failure, 200)
}

/// The signature of a failure: the lowercase hexadecimal MD5 of its text.
pub open spec fn failure_signature(failure: Seq<char>) -> Seq<char> {
    hex_lower(md5_digest(encode_utf8(failure)))
}

/// The message when every attempt failed.
pub open spec fn exhausted_message(last_error: Seq<char>) -> Seq<char> {
    "Recursive reasoning failed after 3 attempts. Last violation: "@ + last_error
}

/// What checking an attempt's answer found.
#[derive(Debug, Clone)]
pub enum AttemptOutcome {
    /// The answer passed the alignment and reality checks (as checked).
    Verified(String),
    /// The answer violated the substrate's axioms.
    Misaligned(EaiError),
    /// The reality check rejected the answer.
    Refuted(EaiError),
}

/// What to do after an attempt.
#[derive(Debug, Clone)]
pub enum MissionStep {
    /// The mission is solved with this answer.
    Complete(String),
    /// Try again with the corrected goal.
    Retry,
    /// The mission fails with this error.
    Fail(EaiError),
}

/// The retry state of a swarm mission.
#[derive(Debug, Clone)]
pub struct MissionRetry {
    pub goal: String,
    pub current_goal: String,
    pub retry_count: usize,
    pub last_error: String,
    pub seen_signatures: Vec<String>,
}

impl MissionRetry {
    /// Well-formed: at most three attempts have failed, and each reality
    /// failure is recorded once.
    pub open spec fn wf(&self) -> bool {
        &&& self.retry_count <= 3
        &&& self.seen_signatures@.map_values(|s: String| s@).no_duplicates()
    }

    /// A mission about to make its first attempt at `goal`.
    pub fn new(goal: &str) -> (r: Self)
        ensures
            r.wf(),
            r.goal@ == goal@,
            r.current_goal@ == goal@,
            r.retry_count == 0,
            r.last_error@ == Seq::<char>::empty(),
            r.seen_signatures@.len() == 0,
    {
        let mut g = String::new();
        push_str(&mut g, goal);
        let mut c = String::new();
        push_str(&mut c, goal);
        let r = MissionRetry {
            goal: g,
            current_goal: c,
            retry_count: 0,
            last_error: String::new(),
            seen_signatures: Vec::new(),
        };
        proof {
            assert(r.seen_signatures@.map_values(|s: String| s@) =~= Seq::<Seq<char>>::empty());
        }
        r
    }

    /// Records an attempt's outcome and decides the next step. A verified
    /// answer completes the mission. A reality failure that is not a truth
    /// violation, or one already seen, fails it. Otherwise the failure is
    /// counted and the goal is corrected; after the third failure the
    /// mission fails with the last truth violation.
    pub fn record(&mut self, outcome: AttemptOutcome) -> (r: MissionStep)
        requires
            old(self).wf(),
            old(self).retry_count < 3,
        ensures
            final(self).wf(),
            final(self).goal == old(self).goal,
            retry_accounting(*old(self), *final(self), r),
            match outcome {
                AttemptOutcome::Verified(a) => r matches MissionStep::Complete(s) && s@ == a@ && *final(self) == *old(self),
                AttemptOutcome::Refuted(e) => {
                    let d = displayed(e);
                    let sig = failure_signature(d);
                    if !seq_contains(d, "TRUTH_VIOLATION"@)
                        || old(self).seen_signatures@.map_values(|s: String| s@).contains(sig) {
                        r matches MissionStep::Fail(f) && f == e && *final(self) == *old(self)
                    } else {
                        &&& final(self).retry_count == old(self).retry_count + 1
                        &&& final(self).last_error@ == d
                        &&& final(self).seen_signatures@.map_values(|s: String| s@)
                            == old(self).seen_signatures@.map_values(|s: String| s@).push(sig)
                        &&& final(self).current_goal@ == correction_goal(old(self).goal@, final(self).retry_count as nat,
                            "Previous response failed reality check.\nError detail: "@, d)
                        &&& if final(self).retry_count < 3 {
                            r is Retry
                        } else {
                            r matches MissionStep::Fail(f) && f == EaiError::Governance(f->Governance_0)
                                && f->Governance_0@ == exhausted_message(d)
                        }
                    }
                },
                AttemptOutcome::Misaligned(e) => {
                    let d = displayed(e);
                    &&& final(self).retry_count == old(self).retry_count + 1
                    &&& final(self).last_error == old(self).last_error
                    &&& final(self).seen_signatures == old(self).seen_signatures
                    &&& final(self).current_goal@ == correction_goal(old(self).goal@, final(self).retry_count as nat,
                        "Response violated substrate axioms.\nViolation: "@, d)
                    &&& if final(self).retry_count < 3 {
                        r is Retry
                    } else {
                        r matches MissionStep::Fail(f) && f == EaiError::Governance(f->Governance_0)
                            && f->Governance_0@ == exhausted_message(old(self).last_error@)
                    }
                },
            },
    {
        match outcome {
            AttemptOutcome::Verified(a) => MissionStep::Complete(a),
            AttemptOutcome::Refuted(e) => {
                let d = e.to_display_string();
                let dc = chars_of(d.as_str());
                if !contains_str(&dc, "TRUTH_VIOLATION") {
                    return MissionStep::Fail(e);
                }
                let sig = md5_hex(d.as_str().as_bytes());
                let ghost seen = self.seen_signatures@.map_values(|s: String| s@);
                if self.holds_signature(&sig) {
                    return MissionStep::Fail(e);
                }
                let mut kept = String::new();
                push_str(&mut kept, sig.as_str());
                self.seen_signatures.push(kept);
                proof {
                    assert(self.seen_signatures@.map_values(|s: String| s@) =~= seen.push(sig@));
                    assert forall|i: int, j: int| 0 <= i < j < seen.push(sig@).len()
                        implies seen.push(sig@)[i] != seen.push(sig@)[j] by {
                        if j == seen.len() {
                            assert(seen[i] != sig@) by {
                                if seen[i] == sig@ {
                                    assert(seen.contains(sig@));
                                }
                            }
                        }
                    }
                }
                self.retry_count = self.retry_count + 1;
                self.last_error = d;
                self.current_goal = Self::corrected(self.goal.as_str(), self.retry_count,
                    "Previous response failed reality check.\nError detail: ", self.last_error.as_str());
                if self.retry_count < 3 {
                    MissionStep::Retry
                } else {
                    MissionStep::Fail(Self::exhausted(self.last_error.as_str()))
                }
            },
            AttemptOutcome::Misaligned(e) => {
                let d = e.to_display_string();
                self.retry_count = self.retry_count + 1;
                self.current_goal = Self::corrected(self.goal.as_str(), self.retry_count,
                    "Response violated substrate axioms.\nViolation: ", d.as_str());
                if self.retry_count < 3 {
                    MissionStep::Retry
                } else {
                    MissionStep::Fail(Self::exhausted(self.last_error.as_str()))
                }
            },
        }
    }

    /// Whether `sig` is among the recorded failure signatures.
    fn holds_signature(&self, sig: &String) -> (b: bool)
        ensures
            b == self.seen_signatures@.map_values(|s: String| s@).contains(sig@),
    {
        let ghost seen = self.seen_signatures@.map_values(|s: String| s@);
        let target = chars_of(sig.as_str());
        let mut i: usize = 0;
        while i < self.seen_signatures.len()
            invariant
                i <= self.seen_signatures@.len(),
                seen == self.seen_signatures@.map_values(|s: String| s@),
                target@ == sig@,
                forall|j: int| 0 <= j < i ==> seen[j] != sig@,
            decreases self.seen_signatures.len() - i,
        {
            if equals_str(&target, self.seen_signatures[i].as_str()) {
                proof {
                    assert(seen[i as int] == sig@);
                }
                return true;
            }
            i = i + 1;
        }
        proof {
            if seen.contains(sig@) {
                let k = choose|k: int| 0 <= k < seen.len() && seen[k] == sig@;
                assert(seen[k] != sig@);
            }
        }
        false
    }

    /// The corrected goal for a retry.
    fn corrected(goal: &str, attempt: usize, note: &str, failure: &str) -> (r: String)
        ensures
            r@ == correction_goal(goal@, attempt as nat, note@, failure@),
    {
        let mut s = String::new();
        push_str(&mut s, goal);
        push_str(&mut s, "\n\n[CORRECTION ATTEMPT ");
        push_decimal(&mut s, attempt as u64);
        push_str(&mut s, "]: ");
        push_str(&mut s, note);
        let f = chars_of(failure);
        let n: usize = if f.len() <= 200 { f.len() } else { 200 };
        let mut i: usize = 0;
        let ghost base = s@;
        while i < n
            invariant
                n <= f@.len(),
                n == if f@.len() <= 200 { f@.len() } else { 200 },
                i <= n,
                s@ == base + f@.take(i as int),
            decreases n - i,
        {
            crate::text::push_char(&mut s, f[i]);
            proof {
                assert(f@.take(i + 1) =~= f@.take(i as int).push(f@[i as int]));
            }
            i = i + 1;
        }
        proof {
            assert(f@.take(n as int) =~= first_chars(failure@, 200));
        }
        s
    }

    /// The error when every attempt failed.
    fn exhausted(last_error: &str) -> (e: EaiError)
        ensures
            e == EaiError::Governance(e->Governance_0) && e->Governance_0@ == exhausted_message(last_error@),
    {
        let mut s = String::new();
        push_str(&mut s, "Recursive reasoning failed after 3 attempts. Last violation: ");
        push_str(&mut s, last_error);
        EaiError::governance(s.as_str())
    }
}

/// A model as the roster lists it: its provider as `Debug` shows it, its
/// name and its id.
#[derive(Debug, Clone)]
pub struct RosterEntry {
    pub provider_shown: String,
    pub name: String,
    pub model_id: String,
}

/// The roster lines, one per model.
pub open spec fn roster_lines(ms: Seq<RosterEntry>) -> Seq<char>
    decreases ms.len(),
{
    if ms.len() == 0 {
        Seq::empty()
    } else {
        roster_lines(ms.drop_last()) + "- ["@ + ms.last().provider_shown@ + "] "@ + ms.last().name@ + " ("@
            + ms.last().model_id@ + ")\n"@
    }
}

/// The answer to a substrate query (identity, version, status or models),
/// or none for any other route.
pub open spec fn query_text(
    route: MissionRoute,
    version: Seq<char>,
    identity_report: Seq<char>,
    daemon_running: bool,
    hw: HardwareProfile,
    models: Seq<RosterEntry>,
) -> Option<Seq<char>> {
    match route {
        MissionRoute::Identity => Some("SUSI Substrate Identity Report ("@ + version + "):\n\n"@ + identity_report),
        MissionRoute::Version => Some("SUSI Engine Version: v"@ + version),
        MissionRoute::Status => Some("SUSI Substrate Status ("@ + version + ") :\n- Daemon Status: "@
            + (if daemon_running { "RUNNING"@ } else { "STOPPED"@ }) + "\n- Hardware: "@ + decimal(hw.cpus as nat)
            + " CPUs ("@ + hw.cpu_brand@ + ") | "@ + decimal(hw.ram_gb as nat) + "GB RAM | "@ + hw.gpu_info@
            + "\n- Acceleration: "@ + hw.native_acceleration@),
        MissionRoute::Models => Some("SUSI Substrate Models Roster ("@ + version + ") :\n"@ + roster_lines(models)),
        _ => None,
    }
}

/// The answer of the read-only fast path for a goal (trimmed and
/// lowercased): the compiled identity report when it asks for identity,
/// else the version, else the status line, else the model roster.
pub open spec fn fast_path_text(lower: Seq<char>, identity: Seq<char>, version: Seq<char>, cpu_brand: Seq<char>, ram_gb: nat, model_count: nat) -> Seq<char> {
    if seq_contains(lower, "identity"@) {
        identity
    } else if seq_contains(lower, "version"@) {
        "SUSI Engine Version: v"@ + version
    } else if seq_contains(lower, "status"@) {
        "SUSI Substrate Status: Operational | Hardware: "@ + cpu_brand + " | RAM: "@ + decimal(ram_gb) + "GB"@
    } else {
        "Models Roster: "@ + decimal(model_count) + " discovered."@
    }
}

impl SusiMasterAgent {
    /// The answer to a substrate query on its route: the identity report
    /// under a versioned header, the version line, the status report (daemon
    /// state and hardware), or the model roster; none for other routes.
    pub fn query_answer(
        &self,
        route: MissionRoute,
        version: &str,
        identity_report: &str,
        daemon_running: bool,
        hw: &HardwareProfile,
        models: &Vec<RosterEntry>,
    ) -> (r: Option<String>)
        ensures
            match query_text(route, version@, identity_report@, daemon_running, *hw, models@) {
                Some(t) => r matches Some(x) && x@ == t,
                None => r is None,
            },
    {
        let mut s = String::new();
        match route {
            MissionRoute::Identity => {
                push_str(&mut s, "SUSI Substrate Identity Report (");
                push_str(&mut s, version);
                push_str(&mut s, "):\n\n");
                push_str(&mut s, identity_report);
            },
            MissionRoute::Version => {
                push_str(&mut s, "SUSI Engine Version: v");
                push_str(&mut s, version);
            },
            MissionRoute::Status => {
                push_str(&mut s, "SUSI Substrate Status (");
                push_str(&mut s, version);
                push_str(&mut s, ") :\n- Daemon Status: ");
                push_str(&mut s, if daemon_running { "RUNNING" } else { "STOPPED" });
                push_str(&mut s, "\n- Hardware: ");
                push_decimal(&mut s, hw.cpus as u64);
                push_str(&mut s, " CPUs (");
                push_str(&mut s, hw.cpu_brand.as_str());
                push_str(&mut s, ") | ");
                push_decimal(&mut s, hw.ram_gb as u64);
                push_str(&mut s, "GB RAM | ");
                push_str(&mut s, hw.gpu_info.as_str());
                push_str(&mut s, "\n- Acceleration: ");
                push_str(&mut s, hw.native_acceleration.as_str());
            },
            MissionRoute::Models => {
                push_str(&mut s, "SUSI Substrate Models Roster (");
                push_str(&mut s, version);
                push_str(&mut s, ") :\n");
                let ghost head = s@;
                let mut i: usize = 0;
                proof {
                    assert(models@.take(0) =~= Seq::<RosterEntry>::empty());
                }
                while i < models.len()
                    invariant
                        i <= models@.len(),
                        s@ == head + roster_lines(models@.take(i as int)),
                    decreases models.len() - i,
                {
                    proof {
                        assert(models@.take(i + 1).drop_last() =~= models@.take(i as int));
                    }
                    let m = &models[i];
                    push_str(&mut s, "- [");
                    push_str(&mut s, m.provider_shown.as_str());
                    push_str(&mut s, "] ");
                    push_str(&mut s, m.name.as_str());
                    push_str(&mut s, " (");
                    push_str(&mut s, m.model_id.as_str());
                    push_str(&mut s, ")\n");
                    i = i + 1;
                    proof {
                        assert(s@ =~= head + roster_lines(models@.take(i as int)));
                    }
                }
                proof {
                    assert(models@.take(i as int) =~= models@);
                }
            },
            _ => {
                return None;
            },
        }
        Some(s)
    }

    /// The answer of the read-only fast path, given the compiled identity
    /// report, the engine version, the host's CPU and RAM, and the number
    /// of models listed.
    pub fn fast_path_answer(
        &self,
        goal: &str,
        identity_report: &str,
        version: &str,
        cpu_brand: &str,
        ram_gb: usize,
        model_count: usize,
    ) -> (r: String)
        ensures
            r@ == fast_path_text(lowercase(trim(goal@)), identity_report@, version@, cpu_brand@, ram_gb as nat, model_count as nat),
    {
        let t = string_of(&trimmed(&chars_of(goal)));
        let lower = to_lowercase(t.as_str());
        let lc = chars_of(lower.as_str());
        let mut s = String::new();
        if contains_str(&lc, "identity") {
            push_str(&mut s, identity_report);
        } else if contains_str(&lc, "version") {
            push_str(&mut s, "SUSI Engine Version: v");
            push_str(&mut s, version);
        } else if contains_str(&lc, "status") {
            push_str(&mut s, "SUSI Substrate Status: Operational | Hardware: ");
            push_str(&mut s, cpu_brand);
            push_str(&mut s, " | RAM: ");
            push_decimal(&mut s, ram_gb as u64);
            push_str(&mut s, "GB");
        } else {
            push_str(&mut s, "Models Roster: ");
            push_decimal(&mut s, model_count as u64);
            push_str(&mut s, " discovered.");
        }
        s
    }

    /// The route a sanitized goal takes.
    pub fn route_mission(&self, goal: &str) -> (r: MissionRoute)
        ensures
            r == mission_route(goal@),
    {
        let g = chars_of(goal);
        let lower = lower_chars(goal);
        let q = trimmed(&lower);
        if equals_str(&q, "identity") || equals_str(&q, "susi identity") {
            MissionRoute::Identity
        } else if equals_str(&q, "version") || equals_str(&q, "susi version") {
            MissionRoute::Version
        } else if equals_str(&q, "status") || equals_str(&q, "susi status") {
            MissionRoute::Status
        } else if equals_str(&q, "models") || equals_str(&q, "susi models") {
            MissionRoute::Models
        } else if contains_str(&lower, "parallel") || contains_str(&lower, "split") {
            MissionRoute::Parallel
        } else if (goal.as_bytes().len() > 150 || contains_str(&lower, " and then ") || contains_str(&lower, " finally "))
            && !contains_str(&g, "[STEP ") {
            MissionRoute::Planned
        } else {
            MissionRoute::Swarm
        }
    }

    /// How an attempt at `current_goal` obtains its answer from the swarm's
    /// context: a motion reports the converged context, a context that
    /// answers by itself is the answer, and anything else goes to local
    /// inference with a prompt built from the goal and the context.
    pub fn plan_answer(&self, current_goal: &str, swarm_context: &str, version: &str) -> (r: AnswerPlan)
        ensures
            is_motion(lowercase(current_goal@)) ==> (r matches AnswerPlan::Motion(a)
                && a@ == "SMA-Motion-Convergence ("@ + version@ + "):\n\n"@ + swarm_context@),
            !is_motion(lowercase(current_goal@)) && swarm_answers(swarm_context@) ==> (r matches AnswerPlan::Swarm(a)
                && a@ == swarm_context@),
            !is_motion(lowercase(current_goal@)) && !swarm_answers(swarm_context@) ==> (r matches AnswerPlan::Tier2(p)
                && p@ == tier2_prompt(current_goal@, swarm_context@)),
    {
        let lower = lower_chars(current_goal);
        let motion = contains_str(&lower, "admin mission") || contains_str(&lower, "motion")
            || contains_str(&lower, "sync") || contains_str(&lower, "audit") || contains_str(&lower, "release");
        if motion {
            let mut a = String::new();
            push_str(&mut a, "SMA-Motion-Convergence (");
            push_str(&mut a, version);
            push_str(&mut a, "):\n\n");
            push_str(&mut a, swarm_context);
            return AnswerPlan::Motion(a);
        }
        let ctx = chars_of(swarm_context);
        let blank = trimmed(&ctx).len() == 0;
        if !blank && !contains_str(&ctx, "No valid wisdom gathered") {
            let mut a = String::new();
            push_str(&mut a, swarm_context);
            return AnswerPlan::Swarm(a);
        }
        let mut p = String::new();
        push_str(&mut p, "MISSION_GOAL: ");
        push_str(&mut p, current_goal);
        push_str(&mut p, "\n\nLOCAL_SWARM_CONTEXT:\n");
        push_str(&mut p, swarm_context);
        push_str(&mut p, "\n\n[INSTRUCTION]: Resolve this mission using native local model inference.");
        AnswerPlan::Tier2(p)
    }

    /// The answer local inference gives, labelled with the version and the
    /// model that produced it.
    pub fn tier2_answer(&self, version: &str, model_name: &str, inference: &str) -> (r: String)
        ensures
            r@ == "SMA-Tier2-Mission-Synthesis ("@ + version@ + " via "@ + model_name@ + "):\n\n"@ + inference@,
    {
        let mut s = String::new();
        push_str(&mut s, "SMA-Tier2-Mission-Synthesis (");
        push_str(&mut s, version);
        push_str(&mut s, " via ");
        push_str(&mut s, model_name);
        push_str(&mut s, "):\n\n");
        push_str(&mut s, inference);
        s
    }
}

/// How a step accounts for failures: a retry follows one more counted
/// failure, and only while fewer than three have been counted.
pub open spec fn retry_accounting(before: MissionRetry, after: MissionRetry, step: MissionStep) -> bool {
    step is Retry ==> after.retry_count == before.retry_count + 1 && after.retry_count < 3
}

proof fn lemma_retry_counts(states: Seq<MissionRetry>, steps: Seq<MissionStep>, k: int)
    requires
        states.len() == steps.len() + 1,
        states[0].retry_count == 0,
        forall|i: int| 0 <= i < steps.len() ==> #[trigger] retry_accounting(states[i], states[i + 1], steps[i]),
        forall|i: int| 0 <= i < steps.len() ==> #[trigger] steps[i] is Retry,
        0 <= k <= steps.len(),
    ensures
        states[k].retry_count == k,
    decreases k,
{
    if k > 0 {
        lemma_retry_counts(states, steps, k - 1);
        assert(retry_accounting(states[k - 1], states[k], steps[k - 1]));
        assert(steps[k - 1] is Retry);
    }
}

/// A mission makes at most three attempts: from a fresh mission, a run of
/// attempts each answered by a retry is at most two long.
pub proof fn law_retries_are_bounded(states: Seq<MissionRetry>, steps: Seq<MissionStep>)
    requires
        states.len() == steps.len() + 1,
        states[0].retry_count == 0,
        forall|i: int| 0 <= i < steps.len() ==> #[trigger] retry_accounting(states[i], states[i + 1], steps[i]),
        forall|i: int| 0 <= i < steps.len() ==> #[trigger] steps[i] is Retry,
    ensures
        steps.len() <= 2,
{
    if steps.len() > 0 {
        let n = steps.len() as int;
        lemma_retry_counts(states, steps, n - 1);
        assert(retry_accounting(states[n - 1], states[n], steps[n - 1]));
        assert(steps[n - 1] is Retry);
    }
}

/// An agent recruited into a mission.
#[derive(Debug, Clone)]
pub struct GawdAgentInfo {
    pub name: String,
    pub provider: String,
    pub url: String,
    /// The agent's rank, in thousandths.
    pub rank_milli: u32,
}

/// The outcome of a mission: its goal, status, agents, their messages and
/// the final answer.
#[derive(Debug, Clone)]
pub struct SusiMissionReport {
    pub goal: String,
    pub status: String,
    pub agents: Vec<GawdAgentInfo>,
    pub interactions: Vec<A2AMessage>,
    pub final_answer: String,
}

/// How `serde_json` escapes a character inside a string literal: quote
/// and backslash get a backslash, backspace, tab, newline, form feed and
/// carriage return their short escapes, other control characters below
/// 0x20 a `\u00XX` escape in lowercase hexadecimal; all else stays.
pub open spec fn json_escape(c: char) -> Seq<char> {
    if c == '"' {
        seq!['\\', '"']
    } else if c == '\\' {
        seq!['\\', '\\']
    } else if c == '\u{8}' {
        seq!['\\', 'b']
    } else if c == '\t' {
        seq!['\\', 't']
    } else if c == '\n' {
        seq!['\\', 'n']
    } else if c == '\u{c}' {
        seq!['\\', 'f']
    } else if c == '\r' {
        seq!['\\', 'r']
    } else if (c as u32) < 0x20 {
        seq!['\\', 'u', '0', '0', hex_digit((c as u32 / 16) as u8), hex_digit((c as u32 % 16) as u8)]
    } else {
        seq![c]
    }
}

/// The escaped characters of a string.
pub open spec fn json_escaped(s: Seq<char>) -> Seq<char>
    decreases s.len(),
{
    if s.len() == 0 { Seq::empty() } else { json_escaped(s.drop_last()) + json_escape(s.last()) }
}

/// What `serde_json::to_string` renders for a string: the JSON string
/// literal, quoted and escaped.
pub open spec fn json_quoted(s: Seq<char>) -> Seq<char> {
    seq!['"'] + json_escaped(s) + seq!['"']
}

/// Calls `serde_json::to_string` on a string slice, which writes the
/// string quoted and escaped as `json_quoted` states (serializing a
/// string does not fail).
#[verifier::external_body]
pub(crate) fn json_quote(s: &str) -> (r: String)
    ensures
        r@ == json_quoted(s@),
{
    match serde_json::to_string(s) {
        Ok(q) => q,
        Err(_) => String::new(),
    }
}

/// The agent lines of a mission trace.
pub open spec fn agent_lines(agents: Seq<GawdAgentInfo>) -> Seq<char>
    decreases agents.len(),
{
    if agents.len() == 0 {
        Seq::empty()
    } else {
        let a = agents.last();
        agent_lines(agents.drop_last()) + "- [Agent] "@ + a.name@ + " ("@ + a.provider@ + ")\n"@
    }
}

/// The message lines of a mission trace.
pub open spec fn message_lines(msgs: Seq<A2AMessage>) -> Seq<char>
    decreases msgs.len(),
{
    if msgs.len() == 0 {
        Seq::empty()
    } else {
        let m = msgs.last();
        message_lines(msgs.drop_last()) + "- ["@ + m.sender@ + "] Action: "@ + m.action@ + " | Payload: "@ + m.payload@ + "\n"@
    }
}

/// The thinking trace of a mission report.
pub open spec fn mission_trace(r: SusiMissionReport) -> Seq<char> {
    "SUSI Mission Goal: "@ + r.goal@ + "\nStatus: "@ + r.status@ + "\nAgents Recruited: "@
        + decimal(r.agents@.len()) + "\n\n"@ + agent_lines(r.agents@) + message_lines(r.interactions@)
}

/// The protocol step of a mission, pretty-printed as a JSON object with
/// the action, its input goal, the observation and the trimmed trace.
pub open spec fn protocol_step(goal: Seq<char>, thought: Seq<char>) -> Seq<char> {
    "{\n  \"action\": \"supervise_mission_swarm\",\n  \"action_input\": {\n    \"goal\": "@ + json_quoted(goal)
        + "\n  },\n  \"observation\": \"Swarm telemetry converged successfully\",\n  \"thought\": "@ + json_quoted(thought)
        + "\n}"@
}

/// The protocol rendering of a report: the protocol step, followed by the
/// trimmed final answer unless it is empty, a fast-path marker, or the goal
/// itself.
pub open spec fn protocol_format(r: SusiMissionReport) -> Seq<char> {
    let step = protocol_step(r.goal@, trim(mission_trace(r)));
    let answer = trim(r.final_answer@);
    if answer.len() == 0 || seq_starts_with(answer, "[FAST-PATH COMPLETE]"@) || answer == r.goal@ {
        step
    } else {
        step + "\n\n"@ + answer
    }
}

impl SusiMissionReport {
    /// The report in the agent protocol's format.
    pub fn to_protocol_format(&self, is_ide_environment: bool) -> (r: String)
        ensures
            r@ == protocol_format(*self),
    {
        let mut trace = String::new();
        push_str(&mut trace, "SUSI Mission Goal: ");
        push_str(&mut trace, self.goal.as_str());
        push_str(&mut trace, "\nStatus: ");
        push_str(&mut trace, self.status.as_str());
        push_str(&mut trace, "\nAgents Recruited: ");
        push_decimal(&mut trace, self.agents.len() as u64);
        push_str(&mut trace, "\n\n");
        let ghost head = trace@;
        let mut i: usize = 0;
        proof {
            assert(self.agents@.take(0) =~= Seq::<GawdAgentInfo>::empty());
            assert(head + agent_lines(self.agents@.take(0)) =~= head);
        }
        while i < self.agents.len()
            invariant
                i <= self.agents@.len(),
                trace@ == head + agent_lines(self.agents@.take(i as int)),
            decreases self.agents.len() - i,
        {
            proof {
                assert(self.agents@.take(i + 1).drop_last() =~= self.agents@.take(i as int));
            }
            push_str(&mut trace, "- [Agent] ");
            push_str(&mut trace, self.agents[i].name.as_str());
            push_str(&mut trace, " (");
            push_str(&mut trace, self.agents[i].provider.as_str());
            push_str(&mut trace, ")\n");
            i = i + 1;
        }
        proof {
            assert(self.agents@.take(self.agents@.len() as int) =~= self.agents@);
        }
        let ghost mid = trace@;
        let mut k: usize = 0;
        proof {
            assert(self.interactions@.take(0) =~= Seq::<A2AMessage>::empty());
            assert(mid + message_lines(self.interactions@.take(0)) =~= mid);
        }
        while k < self.interactions.len()
            invariant
                k <= self.interactions@.len(),
                trace@ == mid + message_lines(self.interactions@.take(k as int)),
            decreases self.interactions.len() - k,
        {
            proof {
                assert(self.interactions@.take(k + 1).drop_last() =~= self.interactions@.take(k as int));
            }
            push_str(&mut trace, "- [");
            push_str(&mut trace, self.interactions[k].sender.as_str());
            push_str(&mut trace, "] Action: ");
            push_str(&mut trace, self.interactions[k].action.as_str());
            push_str(&mut trace, " | Payload: ");
            push_str(&mut trace, self.interactions[k].payload.as_str());
            push_str(&mut trace, "\n");
            k = k + 1;
        }
        proof {
            assert(self.interactions@.take(self.interactions@.len() as int) =~= self.interactions@);
            assert(trace@ =~= mission_trace(*self));
        }
        let thought = trimmed(&chars_of(trace.as_str()));
        let thought_s = string_of(&thought);
        let mut out = String::new();
        push_str(&mut out, "{\n  \"action\": \"supervise_mission_swarm\",\n  \"action_input\": {\n    \"goal\": ");
        let qg = json_quote(self.goal.as_str());
        push_str(&mut out, qg.as_str());
        push_str(&mut out, "\n  },\n  \"observation\": \"Swarm telemetry converged successfully\",\n  \"thought\": ");
        let qt = json_quote(thought_s.as_str());
        push_str(&mut out, qt.as_str());
        push_str(&mut out, "\n}");
        let answer = trimmed(&chars_of(self.final_answer.as_str()));
        let fast = chars_of("[FAST-PATH COMPLETE]");
        if answer.len() == 0 || starts_with(&answer, &fast) || equals_str(&answer, self.goal.as_str()) {
            out
        } else {
            push_str(&mut out, "\n\n");
            let a = string_of(&answer);
            push_str(&mut out, a.as_str());
            out
        }
    }
}

} // verus!
