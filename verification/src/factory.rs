//! Admin-intent routing and the governance of synthesized agent profiles.
use vstd::prelude::*;
use crate::error::{EaiError, EaiResult};
use crate::engine::{utf8_len, utf8_width};
use crate::security::{SecurityDetector, audit_clean, audit_rejection};
use crate::error::displayed;
use crate::text::{
    seq_contains, seq_starts_with, trim_start, chars_of, contains_str, starts_with, string_of,
    push_str, push_char, equals_str,
};

verus! {

/// The admin actions in the order they are tried.
pub open spec fn action_order() -> Seq<Seq<char>> {
    seq![
        "sync"@, "audit"@, "verify"@, "release"@, "status_health"@, "version"@, "identity"@,
        "list_models"@, "deep_scan"@, "install"@, "uninstall"@,
    ]
}

/// The actions that change the substrate; they need the explicit
/// `admin pulse` sentinel.
pub open spec fn is_mutating(action: Seq<char>) -> bool {
    action == "sync"@ || action == "audit"@ || action == "verify"@ || action == "release"@
        || action == "deep_scan"@ || action == "install"@ || action == "uninstall"@
}

/// The keyword groups configured for an action (the first entry with
/// that name), if any.
pub open spec fn action_groups(routing: Seq<(String, Vec<Vec<String>>)>, action: Seq<char>) -> Option<Seq<Vec<String>>>
    decreases routing.len(),
{
    if routing.len() == 0 {
        None
    } else if routing[0].0@ == action {
        Some(routing[0].1@)
    } else {
        action_groups(routing.drop_first(), action)
    }
}

/// Every keyword of a group occurs in the goal.
pub open spec fn group_matches(goal: Seq<char>, group: Seq<String>) -> bool {
    forall|k: int| 0 <= k < group.len() ==> seq_contains(goal, (#[trigger] group[k])@)
}

/// An action fires for a goal: it is allowed (not mutating, or the goal
/// opens with `admin pulse`) and one of its keyword groups matches.
pub open spec fn action_fires(goal: Seq<char>, routing: Seq<(String, Vec<Vec<String>>)>, action: Seq<char>) -> bool {
    &&& (!is_mutating(action) || seq_starts_with(trim_start(goal), "admin pulse"@))
    &&& match action_groups(routing, action) {
        Some(groups) => exists|g: int| 0 <= g < groups.len() && group_matches(goal, (#[trigger] groups[g])@),
        None => false,
    }
}

/// Admin-intent routing.
pub struct AdminAgent;

impl AdminAgent {
    /// The admin action a lowercased goal asks for: the first action, in
    /// the fixed order, that fires under the configured keyword groups.
    pub fn match_action(lower_goal: &str, routing: &Vec<(String, Vec<Vec<String>>)>) -> (r: Option<String>)
        ensures
            match r {
                Some(a) => exists|i: int| 0 <= i < action_order().len() && action_order()[i] == a@
                    && action_fires(lower_goal@, routing@, a@)
                    && forall|j: int| 0 <= j < i ==> !action_fires(lower_goal@, routing@, #[trigger] action_order()[j]),
                None => forall|j: int| 0 <= j < action_order().len() ==> !action_fires(lower_goal@, routing@, #[trigger] action_order()[j]),
            },
    {
        let goal = chars_of(lower_goal);
        let sentinel = chars_of("admin pulse");
        let start = crate::text::trimmed_start(&goal);
        let pulse = starts_with(&start, &sentinel);
        let order: Vec<&str> = vec![
            "sync", "audit", "verify", "release", "status_health", "version", "identity", "list_models",
            "deep_scan", "install", "uninstall",
        ];
        proof {
            assert(order@.map_values(|s: &str| s@) =~= action_order());
        }
        let mut i: usize = 0;
        while i < order.len()
            invariant
                i <= order@.len(),
                order@.map_values(|s: &str| s@) == action_order(),
                goal@ == lower_goal@,
                pulse == seq_starts_with(trim_start(lower_goal@), "admin pulse"@),
                forall|j: int| 0 <= j < i ==> !action_fires(lower_goal@, routing@, #[trigger] action_order()[j]),
            decreases order.len() - i,
        {
            let action = order[i];
            proof {
                assert(action_order()[i as int] == action@);
            }
            let mutating = equals_str(&chars_of(action), "sync") || equals_str(&chars_of(action), "audit")
                || equals_str(&chars_of(action), "verify") || equals_str(&chars_of(action), "release")
                || equals_str(&chars_of(action), "deep_scan") || equals_str(&chars_of(action), "install")
                || equals_str(&chars_of(action), "uninstall");
            if !mutating || pulse {
                match groups_for(routing, action) {
                    Some(groups) => {
                        if any_group_matches(&goal, groups) {
                            return Some(string_of(&chars_of(action)));
                        }
                    },
                    None => {},
                }
            }
            i = i + 1;
        }
        None
    }
}

/// The keyword groups configured for an action.
fn groups_for<'a>(routing: &'a Vec<(String, Vec<Vec<String>>)>, action: &str) -> (r: Option<&'a Vec<Vec<String>>>)
    ensures
        match action_groups(routing@, action@) {
            Some(g) => r matches Some(x) && x@ == g,
            None => r is None,
        },
{
    let a = chars_of(action);
    let mut i: usize = 0;
    proof {
        assert(routing@.skip(0) =~= routing@);
    }
    while i < routing.len()
        invariant
            i <= routing@.len(),
            a@ == action@,
            action_groups(routing@, action@) == action_groups(routing@.skip(i as int), action@),
        decreases routing.len() - i,
    {
        proof {
            assert(routing@.skip(i as int)[0] == routing@[i as int]);
            assert(routing@.skip(i as int).drop_first() =~= routing@.skip(i + 1));
        }
        if equals_str(&a, routing[i].0.as_str()) {
            return Some(&routing[i].1);
        }
        i = i + 1;
    }
    None
}

/// Whether every keyword of some group occurs in the goal.
fn any_group_matches(goal: &Vec<char>, groups: &Vec<Vec<String>>) -> (b: bool)
    ensures
        b == exists|g: int| 0 <= g < groups@.len() && group_matches(goal@, (#[trigger] groups@[g])@),
{
    let mut g: usize = 0;
    while g < groups.len()
        invariant
            g <= groups@.len(),
            forall|h: int| 0 <= h < g ==> !group_matches(goal@, (#[trigger] groups@[h])@),
        decreases groups.len() - g,
    {
        let group = &groups[g];
        let mut all = true;
        let mut k: usize = 0;
        while k < group.len()
            invariant
                k <= group@.len(),
                all == forall|m: int| 0 <= m < k ==> seq_contains(goal@, (#[trigger] group@[m])@),
            decreases group.len() - k,
        {
            if !contains_str(goal, group[k].as_str()) {
                all = false;
            }
            k = k + 1;
        }
        if all {
            return true;
        }
        g = g + 1;
    }
    false
}

/// The longest prefix of `s` that fits in `n` bytes: `s` cut at the last
/// character boundary at or below byte `n` (all of it when it fits).
pub open spec fn truncated(s: Seq<char>, n: nat) -> Seq<char>
    decreases s.len(),
{
    if utf8_len(s) <= n || s.len() == 0 { s } else { truncated(s.drop_last(), n) }
}

proof fn lemma_truncated_is_prefix(s: Seq<char>, n: nat, k: int)
    requires
        0 <= k <= s.len(),
        utf8_len(s.take(k)) <= n,
        k == s.len() || utf8_len(s.take(k + 1)) > n,
    ensures
        truncated(s, n) == s.take(k),
    decreases s.len(),
{
    if utf8_len(s) <= n || s.len() == 0 {
        if k < s.len() {
            lemma_utf8_prefix_grows(s, k + 1, s.len() as int);
            assert(s.take(s.len() as int) =~= s);
        }
        assert(s.take(k) =~= s);
    } else {
        assert(s.take(s.len() as int) =~= s);
        let d = s.drop_last();
        assert(k < s.len());
        assert(d.take(k) =~= s.take(k));
        if k + 1 < s.len() {
            assert(d.take(k + 1) =~= s.take(k + 1));
        }
        if k == s.len() - 1 {
            assert(d.take(k) =~= d);
        }
        lemma_truncated_is_prefix(d, n, k);
    }
}

proof fn lemma_utf8_prefix_grows(s: Seq<char>, j: int, k: int)
    requires
        0 <= j <= k <= s.len(),
    ensures
        j < k ==> utf8_len(s.take(j)) < utf8_len(s.take(k)),
        utf8_len(s.take(j)) <= utf8_len(s.take(k)),
    decreases k - j,
{
    if j < k {
        lemma_utf8_prefix_grows(s, j, k - 1);
        assert(s.take(k).drop_last() =~= s.take(k - 1));
    }
}

/// Truncation never panics on text and keeps the bound: the result fits
/// in `n` bytes, is a prefix of the text, and is the whole text when that
/// fits.
pub proof fn law_truncation_fits(s: Seq<char>, n: nat)
    ensures
        utf8_len(truncated(s, n)) <= n,
        truncated(s, n).len() <= s.len(),
        truncated(s, n) == s.take(truncated(s, n).len() as int),
        utf8_len(s) <= n ==> truncated(s, n) == s,
    decreases s.len(),
{
    if utf8_len(s) <= n || s.len() == 0 {
        assert(s.take(s.len() as int) =~= s);
    } else {
        law_truncation_fits(s.drop_last(), n);
        let t = truncated(s.drop_last(), n);
        assert(s.drop_last().take(t.len() as int) =~= s.take(t.len() as int));
    }
}

/// `s` cut to the longest prefix that fits in `n` bytes.
fn truncate_bytes(s: &str, n: usize) -> (r: String)
    requires
        n <= 4096,
    ensures
        r@ == truncated(s@, n as nat),
{
    let cs = chars_of(s);
    let ghost t = cs@;
    let mut bytes: usize = 0;
    let mut i: usize = 0;
    let mut out: Vec<char> = Vec::new();
    proof {
        assert(t.take(0) =~= Seq::<char>::empty());
    }
    while i < cs.len()
        invariant_except_break
            i <= t.len(),
            t == cs@,
            n <= 4096,
            bytes as nat == utf8_len(t.take(i as int)),
            bytes <= n,
            out@ == t.take(i as int),
        ensures
            i <= t.len(),
            bytes <= n,
            out@ == t.take(i as int),
            utf8_len(t.take(i as int)) <= n,
            i == t.len() || utf8_len(t.take(i + 1)) > n,
        decreases cs.len() - i,
    {
        proof {
            assert(t.take(i + 1).drop_last() =~= t.take(i as int));
        }
        let c = cs[i];
        let u = c as u32;
        let w: usize = if u < 0x80 { 1 } else if u < 0x800 { 2 } else if u < 0x10000 { 3 } else { 4 };
        proof {
            assert(w as nat == utf8_width(c));
        }
        if bytes + w > n {
            break;
        }
        bytes = bytes + w;
        out.push(c);
        i = i + 1;
        proof {
            assert(t.take(i as int) =~= t.take(i - 1).push(c));
        }
    }
    proof {
        lemma_truncated_is_prefix(t, n as nat, i as int);
    }
    string_of(&out)
}

/// An ASCII letter, digit or underscore: what a synthesized agent's name
/// may hold.
pub open spec fn is_name_char(c: char) -> bool {
    ('a' <= c && c <= 'z') || ('A' <= c && c <= 'Z') || ('0' <= c && c <= '9') || c == '_'
}

/// A synthesized agent's name with every other character dropped, cut to
/// 64 characters.
pub open spec fn sanitized_name(name: Seq<char>) -> Seq<char> {
    let kept = name.filter(|c: char| is_name_char(c));
    if kept.len() > 64 { kept.take(64) } else { kept }
}

/// A keyword list cut to eight entries of at most forty bytes each.
pub open spec fn capped_keywords(ks: Seq<String>) -> Seq<Seq<char>> {
    let firsts = if ks.len() > 8 { ks.take(8) } else { ks };
    firsts.map_values(|k: String| truncated(k@, 40))
}

/// An agent profile a model synthesized. Its base rank is kept in
/// thousandths.
#[derive(Debug, Clone)]
pub struct AgentProfileDraft {
    pub name: String,
    pub description: String,
    pub categories: Vec<String>,
    pub semantic_anchors: Vec<String>,
    pub is_core: bool,
    pub base_rank_milli: u32,
}

/// Synthesizes and governs specialist agent profiles.
pub struct NeuralAgentFactory;

/// Cuts a keyword list to eight entries of at most forty bytes.
fn cap_keywords(ks: &Vec<String>) -> (r: Vec<String>)
    ensures
        r@.map_values(|k: String| k@) == capped_keywords(ks@),
{
    let n: usize = if ks.len() > 8 { 8 } else { ks.len() };
    let ghost firsts = if ks@.len() > 8 { ks@.take(8) } else { ks@ };
    let mut out: Vec<String> = Vec::new();
    let mut i: usize = 0;
    proof {
        assert(firsts.len() == n);
    }
    while i < n
        invariant
            i <= n,
            n == firsts.len(),
            n <= ks@.len(),
            firsts == (if ks@.len() > 8 { ks@.take(8) } else { ks@ }),
            out@.len() == i,
            forall|j: int| 0 <= j < i ==> (#[trigger] out@[j])@ == truncated(firsts[j]@, 40),
        decreases n - i,
    {
        proof {
            assert(firsts[i as int] == ks@[i as int]);
        }
        out.push(truncate_bytes(ks[i].as_str(), 40));
        i = i + 1;
    }
    proof {
        assert(out@.map_values(|k: String| k@) =~= capped_keywords(ks@));
    }
    out
}

impl NeuralAgentFactory {
    /// Bounds a synthesized profile: it is never core; its name keeps only
    /// ASCII letters, digits and underscores, at most 64 of them (an empty
    /// name is refused); its base rank is clamped to 0.1..=1.0; its description is cut to at most 300 bytes and each
    /// keyword list to eight entries of at most forty bytes, each cut at the
    /// last character boundary within the limit.
    pub fn sanitize_fields(profile: AgentProfileDraft) -> (r: EaiResult<AgentProfileDraft>)
        ensures
            sanitized_name(profile.name@).len() == 0 ==> (r matches Err(e) && e == EaiError::Protocol(e->Protocol_0)
                && e->Protocol_0@ == "Neural Agent Synthesis rejected: empty/invalid agent name after sanitization"@),
            sanitized_name(profile.name@).len() > 0 ==> (r matches Ok(p) && {
                &&& p.name@ == sanitized_name(profile.name@)
                &&& p.description@ == truncated(profile.description@, 300)
                &&& p.categories@.map_values(|k: String| k@) == capped_keywords(profile.categories@)
                &&& p.semantic_anchors@.map_values(|k: String| k@) == capped_keywords(profile.semantic_anchors@)
                &&& !p.is_core
                &&& p.base_rank_milli == (if profile.base_rank_milli < 100 { 100 } else if profile.base_rank_milli > 1000 {
                    1000 } else { profile.base_rank_milli })
            }),
    {
        let cs = chars_of(profile.name.as_str());
        let mut kept: Vec<char> = Vec::new();
        let mut i: usize = 0;
        proof {
            assert(cs@.take(0).filter(|c: char| is_name_char(c)) =~= Seq::<char>::empty());
        }
        while i < cs.len()
            invariant
                i <= cs@.len(),
                cs@ == profile.name@,
                kept@ == cs@.take(i as int).filter(|c: char| is_name_char(c)),
            decreases cs.len() - i,
        {
            let c = cs[i];
            proof {
                assert(cs@.take(i + 1).drop_last() =~= cs@.take(i as int));
                assert(cs@.take(i + 1).last() == c);
                reveal(Seq::filter);
            }
            if ('a' <= c && c <= 'z') || ('A' <= c && c <= 'Z') || ('0' <= c && c <= '9') || c == '_' {
                kept.push(c);
            }
            i = i + 1;
        }
        proof {
            assert(cs@.take(cs@.len() as int) =~= cs@);
        }
        if kept.len() > 64 {
            kept.truncate(64);
        }
        if kept.len() == 0 {
            return Err(EaiError::protocol("Neural Agent Synthesis rejected: empty/invalid agent name after sanitization"));
        }
        let description = truncate_bytes(profile.description.as_str(), 300);
        let categories = cap_keywords(&profile.categories);
        let semantic_anchors = cap_keywords(&profile.semantic_anchors);
        let base_rank_milli = if profile.base_rank_milli < 100 {
            100
        } else if profile.base_rank_milli > 1000 {
            1000
        } else {
            profile.base_rank_milli
        };
        Ok(AgentProfileDraft { name: string_of(&kept), description, categories, semantic_anchors, is_core: false, base_rank_milli })
    }

    /// Admits a bounded profile when the safety screen let its description
    /// pass and the security screen finds no secret or exfiltration
    /// pattern in it; otherwise the rejection names the screen.
    pub fn admit_profile(
        profile: AgentProfileDraft,
        safety_verdict: EaiResult<()>,
        secret_tokens: &Vec<String>,
        exfiltration_vectors: &Vec<String>,
    ) -> (r: EaiResult<AgentProfileDraft>)
        ensures
            match safety_verdict {
                Err(e) => r matches Err(g) && g == EaiError::Governance(g->Governance_0)
                    && g->Governance_0@ == "Neural Agent Synthesis rejected by SafetyAgent: "@ + displayed(e),
                Ok(_) => if audit_clean(profile.description@, secret_tokens@, exfiltration_vectors@) {
                    r == Ok::<AgentProfileDraft, EaiError>(profile)
                } else {
                    r matches Err(g) && g == EaiError::Governance(g->Governance_0)
                        && exists|e: EaiError| audit_rejection(profile.description@, secret_tokens@, exfiltration_vectors@, e)
                        && g->Governance_0@ == "Neural Agent Synthesis rejected by SecurityAgent: "@ + displayed(e)
                },
            },
    {
        match safety_verdict {
            Err(e) => {
                let mut m = String::new();
                push_str(&mut m, "Neural Agent Synthesis rejected by SafetyAgent: ");
                push_str(&mut m, e.to_display_string().as_str());
                Err(EaiError::Governance(m))
            },
            Ok(_) => match SecurityDetector::audit_action("AGENT_SYNTHESIS", profile.description.as_str(), secret_tokens, exfiltration_vectors) {
                Err(e) => {
                    let mut m = String::new();
                    push_str(&mut m, "Neural Agent Synthesis rejected by SecurityAgent: ");
                    push_str(&mut m, e.to_display_string().as_str());
                    Err(EaiError::Governance(m))
                },
                Ok(_) => Ok(profile),
            },
        }
    }
}

} // verus!
