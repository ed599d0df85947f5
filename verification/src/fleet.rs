//! Swarm-fleet decisions: which goals skip specialist synthesis, which file
//! paths an agent's claim cites, and how agent contributions are judged.
use vstd::prelude::*;
use crate::error::EaiResult;
use crate::text::{
    seq_contains, seq_starts_with, lowercase, trim, trimmed_lower, contains_str, equals_str,
    starts_with_any, starts_with_one_of, char_vecs_of_strs, chars_of, split_words, words,
    strip_in, strip_end_in, stripped_start, stripped_end, prefix_before, before_char,
    ends_with_any, ends_with_one_of, string_of, views, contains_any_of, contains_any,
    debug_list, debug_list_string, decimal, push_decimal, push_str, lower_chars,
};

verus! {

/// A lowercased, trimmed goal is a substrate meta-command (identity,
/// status, models, version, admin, `ls`, `dir`, whoami).
pub open spec fn meta_command(l: Seq<char>) -> bool {
    ||| seq_contains(l, "admin"@)
    ||| seq_contains(l, "identity"@)
    ||| seq_contains(l, "status"@)
    ||| seq_contains(l, "models"@)
    ||| seq_contains(l, "version"@)
    ||| l == "ls"@
    ||| seq_starts_with(l, "ls "@)
    ||| l == "dir"@
    ||| seq_contains(l, "who am i"@)
    ||| seq_contains(l, "whoami"@)
}

/// Words that open a question.
pub open spec fn question_openers() -> Seq<Seq<char>> {
    seq![
        "what "@, "who "@, "when "@, "where "@, "why "@, "how "@, "which "@, "is "@, "are "@,
        "does "@, "do "@, "can "@, "could "@, "will "@, "would "@,
    ]
}

/// A lowercased, trimmed goal is shaped like a question: it ends with `?`
/// or opens with a question word.
pub open spec fn plain_question(l: Seq<char>) -> bool {
    (l.len() > 0 && l.last() == '?') || starts_with_any(l, question_openers())
}

fn question_opener_list() -> (v: Vec<&'static str>)
    ensures
        views(v@) == question_openers(),
{
    let v = vec![
        "what ", "who ", "when ", "where ", "why ", "how ", "which ", "is ", "are ", "does ",
        "do ", "can ", "could ", "will ", "would ",
    ];
    proof {
        assert(views(v@) =~= question_openers());
    }
    v
}

/// Decisions about which agents a mission needs.
pub struct GawdAgentFleet;

impl GawdAgentFleet {
    /// Substrate meta-commands only; question-shaped goals are not matched.
    pub fn is_meta_command(goal: &str) -> (b: bool)
        ensures
            b == meta_command(lowercase(trim(goal@))),
    {
        let l = trimmed_lower(goal);
        let ls_space = chars_of("ls ");
        contains_str(&l, "admin") || contains_str(&l, "identity") || contains_str(&l, "status")
            || contains_str(&l, "models") || contains_str(&l, "version") || equals_str(&l, "ls")
            || crate::text::starts_with(&l, &ls_space) || equals_str(&l, "dir")
            || contains_str(&l, "who am i") || contains_str(&l, "whoami")
    }

    /// Whether a goal is shaped like an ordinary question.
    pub fn is_plain_question(goal: &str) -> (b: bool)
        ensures
            b == plain_question(lowercase(trim(goal@))),
    {
        let l = trimmed_lower(goal);
        if l.len() > 0 && l[l.len() - 1] == '?' {
            return true;
        }
        let openers = char_vecs_of_strs(&question_opener_list());
        starts_with_one_of(&l, &openers)
    }

    /// How many agents may run at once: the configured maximum (a quarter
    /// of it, at least one, while load shedding is active), capped by the
    /// available RAM at one agent per 512 MB (at least one).
    pub fn get_max_concurrent_agents(throttled: bool, configured_max: usize, available_ram_gb: usize) -> (r: usize)
        requires
            available_ram_gb * 1024 <= usize::MAX,
        ensures
            ({
                let base: int = if throttled {
                    if configured_max / 4 >= 1 { (configured_max / 4) as int } else { 1 }
                } else {
                    configured_max as int
                };
                let ram: int = if available_ram_gb * 2 >= 1 { available_ram_gb * 2 } else { 1 };
                r == if ram <= base { ram } else { base }
            }),
    {
        let base_limit = if throttled {
            let q = configured_max / 4;
            if q >= 1 { q } else { 1 }
        } else {
            configured_max
        };
        let per_agent = available_ram_gb * 1024 / 512;
        let ram_based_limit = if per_agent >= 1 { per_agent } else { 1 };
        if ram_based_limit <= base_limit { ram_based_limit } else { base_limit }
    }

    /// Whether a goal is a meta-command or a plain question: either way a
    /// generalist already covers it and no specialist needs synthesising.
    pub fn is_meta_or_simple_query(goal: &str) -> (b: bool)
        ensures
            b == (meta_command(lowercase(trim(goal@))) || plain_question(lowercase(trim(goal@)))),
    {
        Self::is_meta_command(goal) || Self::is_plain_question(goal)
    }
}

/// Punctuation stripped from both ends of a word before it is read as a
/// path.
pub open spec fn path_punctuation() -> Seq<char> {
    seq!['(', ')', ',', ';', '\'', '"', '`', '[', ']']
}

/// File extensions that mark a word as a file reference.
pub open spec fn path_extensions() -> Seq<Seq<char>> {
    seq![".rs"@, ".toml"@, ".json"@, ".md"@, ".sh"@, ".lock"@]
}

/// The path a word would name: stripped of surrounding punctuation, cut at
/// the first `:` (a line number), and stripped of trailing dots.
pub open spec fn path_part(word: Seq<char>) -> Seq<char> {
    strip_end_in(prefix_before(strip_in(word, path_punctuation()), ':'), seq!['.'])
}

/// The paths named by a list of words: those whose path part ends with a
/// recognised extension, in order.
pub open spec fn file_candidates(ws: Seq<Seq<char>>) -> Seq<Seq<char>>
    decreases ws.len(),
{
    if ws.len() == 0 {
        Seq::empty()
    } else {
        let prev = file_candidates(ws.drop_last());
        let p = path_part(ws.last());
        if ends_with_any(p, path_extensions()) {
            prev.push(p)
        } else {
            prev
        }
    }
}

/// The whitespace-delimited words of `text` that look like a file
/// reference (`Cargo.toml`, `src/gawd/agents.rs:606`, `(README.md)`),
/// reduced to the path itself, in order.
pub fn extract_candidate_file_paths(text: &str) -> (r: Vec<String>)
    ensures
        r@.map_values(|p: String| p@) == file_candidates(words(text@)),
{
    let punct = vec!['(', ')', ',', ';', '\'', '"', '`', '[', ']'];
    let dot = vec!['.'];
    let exts = char_vecs_of_strs(&vec![".rs", ".toml", ".json", ".md", ".sh", ".lock"]);
    proof {
        assert(punct@ =~= path_punctuation());
        assert(dot@ =~= seq!['.']);
        assert(exts@.map_values(|x: Vec<char>| x@) =~= path_extensions());
    }
    let chars = chars_of(text);
    let ws = split_words(&chars);
    let ghost wv = ws@.map_values(|w: Vec<char>| w@);
    let mut r: Vec<String> = Vec::new();
    let mut i: usize = 0;
    proof {
        assert(wv.take(0) =~= Seq::<Seq<char>>::empty());
        assert(r@.map_values(|p: String| p@) =~= Seq::<Seq<char>>::empty());
    }
    while i < ws.len()
        invariant
            i <= ws@.len(),
            wv == ws@.map_values(|w: Vec<char>| w@),
            punct@ == path_punctuation(),
            dot@ == seq!['.'],
            exts@.map_values(|x: Vec<char>| x@) == path_extensions(),
            r@.map_values(|p: String| p@) == file_candidates(wv.take(i as int)),
        decreases ws.len() - i,
    {
        let ghost prev = r@.map_values(|p: String| p@);
        let a = stripped_start(&ws[i], &punct);
        let b = stripped_end(&a, &punct);
        let c = before_char(&b, ':');
        let p = stripped_end(&c, &dot);
        proof {
            assert(wv.take(i + 1).drop_last() =~= wv.take(i as int));
            assert(wv.take(i + 1).last() == ws@[i as int]@);
            assert(p@ == path_part(ws@[i as int]@));
        }
        if ends_with_one_of(&p, &exts) {
            r.push(string_of(&p));
            proof {
                assert(r@.map_values(|p: String| p@) =~= prev.push(p@));
            }
        }
        i = i + 1;
    }
    proof {
        assert(wv.take(ws@.len() as int) =~= wv);
    }
    r
}

/// Markers of a genuine problem in an agent's report, matched against its
/// lowercase text.
pub open spec fn critical_markers() -> Seq<Seq<char>> {
    seq![
        "degraded"@, "critical risk: true"@, "mismatch"@, "stalled"@, "cancelled"@,
        "governance_block"@, "capability_gap"@, ": failed"@,
    ]
}

fn critical_marker_list() -> (v: Vec<&'static str>)
    ensures
        views(v@) == critical_markers(),
{
    let v = vec![
        "degraded", "critical risk: true", "mismatch", "stalled", "cancelled", "governance_block",
        "capability_gap", ": failed",
    ];
    proof {
        assert(views(v@) =~= critical_markers());
    }
    v
}

/// The characters of a blackboard's entries, agent name first.
pub open spec fn entry_views(entries: Seq<(String, String)>) -> Seq<(Seq<char>, Seq<char>)> {
    entries.map_values(|e: (String, String)| (e.0@, e.1@))
}

/// The agents (other than `exclude`) whose non-blank report carries a
/// critical marker, and those whose non-blank report carries none, each in
/// blackboard order.
pub open spec fn swarm_signals(entries: Seq<(Seq<char>, Seq<char>)>, exclude: Seq<char>) -> (Seq<Seq<char>>, Seq<Seq<char>>)
    decreases entries.len(),
{
    if entries.len() == 0 {
        (Seq::empty(), Seq::empty())
    } else {
        let prev = swarm_signals(entries.drop_last(), exclude);
        let (agent, report) = entries.last();
        let lower = lowercase(report);
        if agent == exclude || trim(lower).len() == 0 {
            prev
        } else if contains_any_of(lower, critical_markers()) {
            (prev.0.push(agent), prev.1)
        } else {
            (prev.0, prev.1.push(agent))
        }
    }
}

proof fn lemma_swarm_signals_len(entries: Seq<(Seq<char>, Seq<char>)>, exclude: Seq<char>)
    ensures
        swarm_signals(entries, exclude).0.len() + swarm_signals(entries, exclude).1.len() <= entries.len(),
    decreases entries.len(),
{
    if entries.len() > 0 {
        lemma_swarm_signals_len(entries.drop_last(), exclude);
    }
}

/// Splits a blackboard's entries, other than `exclude`'s own, into agents
/// reporting a critical signal and agents reporting routine status.
pub fn summarize_swarm_signals(entries: &Vec<(String, String)>, exclude: &str) -> (r: (Vec<String>, Vec<String>))
    ensures
        (r.0@.map_values(|s: String| s@), r.1@.map_values(|s: String| s@))
            == swarm_signals(entry_views(entries@), exclude@),
{
    let markers = critical_marker_list();
    let ghost ev = entry_views(entries@);
    let mut critical: Vec<String> = Vec::new();
    let mut healthy: Vec<String> = Vec::new();
    let mut i: usize = 0;
    proof {
        assert(ev.take(0) =~= Seq::<(Seq<char>, Seq<char>)>::empty());
        assert(critical@.map_values(|s: String| s@) =~= Seq::<Seq<char>>::empty());
        assert(healthy@.map_values(|s: String| s@) =~= Seq::<Seq<char>>::empty());
    }
    while i < entries.len()
        invariant
            i <= entries@.len(),
            ev == entry_views(entries@),
            views(markers@) == critical_markers(),
            (critical@.map_values(|s: String| s@), healthy@.map_values(|s: String| s@))
                == swarm_signals(ev.take(i as int), exclude@),
        decreases entries.len() - i,
    {
        let ghost cv = critical@.map_values(|s: String| s@);
        let ghost hv = healthy@.map_values(|s: String| s@);
        proof {
            assert(ev.take(i + 1).drop_last() =~= ev.take(i as int));
            assert(ev.take(i + 1).last() == (entries@[i as int].0@, entries@[i as int].1@));
        }
        let agent = chars_of(entries[i].0.as_str());
        let lower = lower_chars(entries[i].1.as_str());
        let blank = crate::text::trimmed(&lower).len() == 0;
        let own = equals_str(&agent, exclude);
        if !own && !blank {
            if contains_any(&lower, &markers) {
                critical.push(string_of(&agent));
                proof {
                    assert(critical@.map_values(|s: String| s@) =~= cv.push(agent@));
                }
            } else {
                healthy.push(string_of(&agent));
                proof {
                    assert(healthy@.map_values(|s: String| s@) =~= hv.push(agent@));
                }
            }
        }
        i = i + 1;
    }
    proof {
        assert(ev.take(entries@.len() as int) =~= ev);
    }
    (critical, healthy)
}

/// The consensus report over agents reporting critical signals and agents
/// reporting routine status.
pub open spec fn consensus_report(critical: Seq<Seq<char>>, healthy: Seq<Seq<char>>) -> Seq<char> {
    let total = critical.len() + healthy.len();
    if critical.len() == 0 {
        "[ConsensusMediatorAgent]: Analyzed "@ + decimal(total)
            + " active agent contributions. No critical/problem signals detected among them. Weighted consensus reached."@
    } else if healthy.len() == 0 {
        "[ConsensusMediatorAgent]: Analyzed "@ + decimal(total) + " active agent contributions. All "@
            + decimal(critical.len()) + " report critical/problem signals ("@ + debug_list(critical)
            + ") \u{2014} swarm-wide distress, not a partial conflict."@
    } else {
        "[ConsensusMediatorAgent]: Analyzed "@ + decimal(total) + " active agent contributions. CONFLICT: "@
            + decimal(critical.len()) + " agent(s) report critical/problem signals ("@ + debug_list(critical)
            + ") while "@ + decimal(healthy.len()) + " agent(s) report routine status ("@ + debug_list(healthy)
            + "). Consensus not reached without further mediation."@
    }
}

/// Resolves agent findings: reports whether the swarm agrees, is in
/// conflict, or is in distress as a whole.
pub struct ConsensusMediatorAgent;

impl ConsensusMediatorAgent {
    /// The mediator's name on the blackboard.
    pub fn name(&self) -> (r: String)
        ensures
            r@ == "ConsensusMediatorAgent"@,
    {
        let mut s = String::new();
        push_str(&mut s, "ConsensusMediatorAgent");
        s
    }

    /// The consensus report over a blackboard's entries (its own entry
    /// excluded); the caller records it on the blackboard.
    pub fn execute(&self, blackboard: &Vec<(String, String)>) -> (r: EaiResult<String>)
        ensures
            ({
                let (critical, healthy) = swarm_signals(entry_views(blackboard@), "ConsensusMediatorAgent"@);
                r matches Ok(s) && s@ == consensus_report(critical, healthy)
            }),
    {
        let n = blackboard.len();
        let (critical, healthy) = summarize_swarm_signals(blackboard, "ConsensusMediatorAgent");
        proof {
            lemma_swarm_signals_len(entry_views(blackboard@), "ConsensusMediatorAgent"@);
            let sw = swarm_signals(entry_views(blackboard@), "ConsensusMediatorAgent"@);
            assert(critical@.map_values(|x: String| x@) == sw.0);
            assert(healthy@.map_values(|x: String| x@) == sw.1);
            assert(critical@.map_values(|x: String| x@).len() == critical@.len());
            assert(healthy@.map_values(|x: String| x@).len() == healthy@.len());
            assert(entry_views(blackboard@).len() == blackboard@.len());
            assert(critical@.len() + healthy@.len() <= n);
        }
        let total = critical.len() + healthy.len();
        let mut s = String::new();
        push_str(&mut s, "[ConsensusMediatorAgent]: Analyzed ");
        push_decimal(&mut s, total as u64);
        if critical.len() == 0 {
            push_str(&mut s, " active agent contributions. No critical/problem signals detected among them. Weighted consensus reached.");
        } else if healthy.len() == 0 {
            push_str(&mut s, " active agent contributions. All ");
            push_decimal(&mut s, critical.len() as u64);
            push_str(&mut s, " report critical/problem signals (");
            let d = debug_list_string(&critical);
            push_str(&mut s, d.as_str());
            push_str(&mut s, ") \u{2014} swarm-wide distress, not a partial conflict.");
        } else {
            push_str(&mut s, " active agent contributions. CONFLICT: ");
            push_decimal(&mut s, critical.len() as u64);
            push_str(&mut s, " agent(s) report critical/problem signals (");
            let d = debug_list_string(&critical);
            push_str(&mut s, d.as_str());
            push_str(&mut s, ") while ");
            push_decimal(&mut s, healthy.len() as u64);
            push_str(&mut s, " agent(s) report routine status (");
            let d2 = debug_list_string(&healthy);
            push_str(&mut s, d2.as_str());
            push_str(&mut s, "). Consensus not reached without further mediation.");
        }
        proof {
            assert(s@ =~= consensus_report(critical@.map_values(|x: String| x@), healthy@.map_values(|x: String| x@)));
        }
        Ok(s)
    }
}

/// What checking one agent's claim against the workspace found: how many
/// file paths it cites and which of them do not exist.
#[derive(Debug, Clone)]
pub struct ClaimAudit {
    pub agent: String,
    pub referenced: usize,
    pub hallucinated: Vec<String>,
}

/// Totals over audited claims (other than `exclude`'s own): claims audited,
/// claims whose every cited path exists, claims citing no path, and the
/// missing paths cited, in order.
pub open spec fn audit_tally(audits: Seq<ClaimAudit>, exclude: Seq<char>) -> (nat, nat, nat, Seq<Seq<char>>)
    decreases audits.len(),
{
    if audits.len() == 0 {
        (0, 0, 0, Seq::empty())
    } else {
        let (t, g, u, h) = audit_tally(audits.drop_last(), exclude);
        let a = audits.last();
        if a.agent@ == exclude {
            (t, g, u, h)
        } else if a.referenced == 0 {
            (t + 1, g, u + 1, h)
        } else if a.hallucinated@.len() == 0 {
            (t + 1, g + 1, u, h)
        } else {
            (t + 1, g, u, h + a.hallucinated@.map_values(|p: String| p@))
        }
    }
}

proof fn lemma_audit_tally_bounds(audits: Seq<ClaimAudit>, exclude: Seq<char>)
    ensures
        audit_tally(audits, exclude).0 <= audits.len(),
        audit_tally(audits, exclude).1 <= audit_tally(audits, exclude).0,
        audit_tally(audits, exclude).2 <= audit_tally(audits, exclude).0,
    decreases audits.len(),
{
    if audits.len() > 0 {
        lemma_audit_tally_bounds(audits.drop_last(), exclude);
    }
}

/// The epistemic audit report for the totals of `audit_tally`.
pub open spec fn epistemic_report(t: nat, g: nat, u: nat, h: Seq<Seq<char>>) -> Seq<char> {
    if h.len() > 0 {
        "[EpistemicAuditorAgent]: Audited "@ + decimal(t) + " agent claims \u{2014} "@ + decimal(g)
            + " file-grounded, "@ + decimal(u) + " unverifiable (no file reference), "@ + decimal(h.len())
            + " referenced non-existent paths: "@ + debug_list(h)
            + ". Epistemic integrity: UNGROUNDED CLAIMS DETECTED."@
    } else if g > 0 {
        "[EpistemicAuditorAgent]: Audited "@ + decimal(t) + " agent claims \u{2014} "@ + decimal(g)
            + " file-grounded (verified against workspace), "@ + decimal(u)
            + " unverifiable (no file reference, not necessarily false). Epistemic integrity: VERIFIED."@
    } else {
        "[EpistemicAuditorAgent]: Audited "@ + decimal(t)
            + " agent claims \u{2014} none referenced a checkable file path. Epistemic integrity: INCONCLUSIVE (nothing file-grounded to verify)."@
    }
}

/// Checks that agents' claims cite files that really exist.
pub struct EpistemicAuditorAgent;

impl EpistemicAuditorAgent {
    /// The auditor's name on the blackboard.
    pub fn name(&self) -> (r: String)
        ensures
            r@ == "EpistemicAuditorAgent"@,
    {
        let mut s = String::new();
        push_str(&mut s, "EpistemicAuditorAgent");
        s
    }

    /// The audit report over the blackboard's claims, each already checked
    /// against the workspace (the auditor's own entry is skipped); the
    /// caller records it on the blackboard.
    pub fn execute(&self, audits: &Vec<ClaimAudit>) -> (r: EaiResult<String>)
        ensures
            ({
                let (t, g, u, h) = audit_tally(audits@, "EpistemicAuditorAgent"@);
                r matches Ok(s) && s@ == epistemic_report(t, g, u, h)
            }),
    {
        let n = audits.len();
        let mut total: usize = 0;
        let mut grounded: usize = 0;
        let mut ungrounded: usize = 0;
        let mut missing: Vec<String> = Vec::new();
        let mut i: usize = 0;
        proof {
            assert(audits@.take(0) =~= Seq::<ClaimAudit>::empty());
            assert(missing@.map_values(|p: String| p@) =~= Seq::<Seq<char>>::empty());
        }
        while i < n
            invariant
                i <= n == audits@.len(),
                ({
                    let (t, g, u, h) = audit_tally(audits@.take(i as int), "EpistemicAuditorAgent"@);
                    &&& total == t && grounded == g && ungrounded == u
                    &&& missing@.map_values(|p: String| p@) == h
                }),
                total <= i,
            decreases n - i,
        {
            proof {
                assert(audits@.take(i + 1).drop_last() =~= audits@.take(i as int));
                assert(audits@.take(i + 1).last() == audits@[i as int]);
                lemma_audit_tally_bounds(audits@.take(i as int), "EpistemicAuditorAgent"@);
            }
            let agent = chars_of(audits[i].agent.as_str());
            if !equals_str(&agent, "EpistemicAuditorAgent") {
                total = total + 1;
                if audits[i].referenced == 0 {
                    ungrounded = ungrounded + 1;
                } else if audits[i].hallucinated.len() == 0 {
                    grounded = grounded + 1;
                } else {
                    let ghost before = missing@.map_values(|p: String| p@);
                    let mut j: usize = 0;
                    while j < audits[i].hallucinated.len()
                        invariant
                            i < audits@.len(),
                            j <= audits@[i as int].hallucinated@.len(),
                            missing@.map_values(|p: String| p@) == before
                                + audits@[i as int].hallucinated@.take(j as int).map_values(|p: String| p@),
                        decreases audits@[i as int].hallucinated@.len() - j,
                    {
                        let mut p = String::new();
                        push_str(&mut p, audits[i].hallucinated[j].as_str());
                        let ghost mv = missing@.map_values(|p: String| p@);
                        missing.push(p);
                        proof {
                            let hv = audits@[i as int].hallucinated@;
                            assert(missing@.map_values(|p: String| p@) =~= mv.push(hv[j as int]@));
                            assert(hv.take(j + 1).map_values(|p: String| p@)
                                =~= hv.take(j as int).map_values(|p: String| p@).push(hv[j as int]@));
                            assert(missing@.map_values(|p: String| p@) =~= before
                                + hv.take(j + 1).map_values(|p: String| p@));
                        }
                        j = j + 1;
                    }
                    proof {
                        let hv = audits@[i as int].hallucinated@;
                        assert(hv.take(hv.len() as int) =~= hv);
                    }
                }
            }
            i = i + 1;
        }
        proof {
            assert(audits@.take(n as int) =~= audits@);
            lemma_audit_tally_bounds(audits@, "EpistemicAuditorAgent"@);
        }
        let mut s = String::new();
        push_str(&mut s, "[EpistemicAuditorAgent]: Audited ");
        push_decimal(&mut s, total as u64);
        if missing.len() > 0 {
            push_str(&mut s, " agent claims \u{2014} ");
            push_decimal(&mut s, grounded as u64);
            push_str(&mut s, " file-grounded, ");
            push_decimal(&mut s, ungrounded as u64);
            push_str(&mut s, " unverifiable (no file reference), ");
            push_decimal(&mut s, missing.len() as u64);
            push_str(&mut s, " referenced non-existent paths: ");
            let d = debug_list_string(&missing);
            push_str(&mut s, d.as_str());
            push_str(&mut s, ". Epistemic integrity: UNGROUNDED CLAIMS DETECTED.");
        } else if grounded > 0 {
            push_str(&mut s, " agent claims \u{2014} ");
            push_decimal(&mut s, grounded as u64);
            push_str(&mut s, " file-grounded (verified against workspace), ");
            push_decimal(&mut s, ungrounded as u64);
            push_str(&mut s, " unverifiable (no file reference, not necessarily false). Epistemic integrity: VERIFIED.");
        } else {
            push_str(&mut s, " agent claims \u{2014} none referenced a checkable file path. Epistemic integrity: INCONCLUSIVE (nothing file-grounded to verify).");
        }
        proof {
            let (t, g, u, h) = audit_tally(audits@, "EpistemicAuditorAgent"@);
            assert(missing@.map_values(|p: String| p@).len() == missing@.len());
            assert(s@ =~= epistemic_report(t, g, u, h));
        }
        Ok(s)
    }
}

} // verus!
