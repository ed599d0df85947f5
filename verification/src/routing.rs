//! Fleet recruitment: which registered agents a goal recruits before any
//! semantic matching, and when a specialist or the universal reasoner is
//! added.
use vstd::prelude::*;
use crate::fleet::GawdAgentFleet;
use crate::text::{seq_contains, lowercase, replace_all, replace_str, lower_chars, to_lowercase, chars_of, contains, contains_str, equals_str};

verus! {

/// What recruitment reads of a registered agent: its name, whether it is
/// core, its semantic anchors and its categories.
#[derive(Debug, Clone)]
pub struct AgentRoute {
    pub name: String,
    pub is_core: bool,
    pub semantic_anchors: Vec<String>,
    pub categories: Vec<String>,
}

/// The routing keywords configured for an agent name (the first entry
/// with that name), if any.
pub open spec fn routing_keys(routing: Seq<(String, Vec<String>)>, name: Seq<char>) -> Option<Seq<String>>
    decreases routing.len(),
{
    if routing.len() == 0 {
        None
    } else if routing[0].0@ == name {
        Some(routing[0].1@)
    } else {
        routing_keys(routing.drop_first(), name)
    }
}

/// Some entry of `list` occurs in `text`.
pub open spec fn mentions_any(text: Seq<char>, list: Seq<String>) -> bool {
    exists|i: int| 0 <= i < list.len() && seq_contains(text, (#[trigger] list[i])@)
}

/// A goal (lowercased) calls for an agent: by its configured routing
/// keywords when it has some; otherwise by an anchor, a category, or its
/// lowercased name without `agent`.
pub open spec fn calls_for(lower_goal: Seq<char>, a: AgentRoute, routing: Seq<(String, Vec<String>)>) -> bool {
    match routing_keys(routing, a.name@) {
        Some(keys) => mentions_any(lower_goal, keys),
        None => mentions_any(lower_goal, a.semantic_anchors@) || mentions_any(lower_goal, a.categories@)
            || seq_contains(lower_goal, replace_all(lowercase(a.name@), "agent"@, ""@)),
    }
}

/// Some recruited agent already has the name.
pub open spec fn name_taken(agents: Seq<AgentRoute>, picked: Seq<usize>, name: Seq<char>) -> bool {
    exists|j: int| 0 <= j < picked.len() && agents[picked[j] as int].name@ == name
}

/// The agents a goal recruits, by position, in registry order: every core
/// agent and every agent the goal calls for, skipping names already
/// recruited.
pub open spec fn recruited(lower_goal: Seq<char>, agents: Seq<AgentRoute>, routing: Seq<(String, Vec<String>)>, n: int) -> Seq<usize>
    decreases n,
{
    if n <= 0 {
        Seq::empty()
    } else {
        let prev = recruited(lower_goal, agents, routing, n - 1);
        let a = agents[n - 1];
        if (a.is_core || calls_for(lower_goal, a, routing)) && !name_taken(agents, prev, a.name@) {
            prev.push((n - 1) as usize)
        } else {
            prev
        }
    }
}

proof fn lemma_recruited_bounds(lower_goal: Seq<char>, agents: Seq<AgentRoute>, routing: Seq<(String, Vec<String>)>, n: int)
    requires
        0 <= n <= agents.len(),
    ensures
        forall|j: int| 0 <= j < recruited(lower_goal, agents, routing, n).len()
            ==> (#[trigger] recruited(lower_goal, agents, routing, n)[j]) < n,
    decreases n,
{
    if n > 0 {
        lemma_recruited_bounds(lower_goal, agents, routing, n - 1);
        let prev = recruited(lower_goal, agents, routing, n - 1);
        let cur = recruited(lower_goal, agents, routing, n);
        assert forall|j: int| 0 <= j < cur.len() implies #[trigger] cur[j] < n by {
            if j < prev.len() {
                assert(prev[j] < n - 1);
            }
        }
    }
}

/// Whether some entry of `list` occurs in `text`.
fn mentions_one_of(text: &Vec<char>, list: &Vec<String>) -> (b: bool)
    ensures
        b == mentions_any(text@, list@),
{
    let mut i: usize = 0;
    while i < list.len()
        invariant
            i <= list@.len(),
            forall|j: int| 0 <= j < i ==> !seq_contains(text@, (#[trigger] list@[j])@),
        decreases list.len() - i,
    {
        if contains_str(text, list[i].as_str()) {
            return true;
        }
        i = i + 1;
    }
    false
}

/// The routing keywords configured for a name.
fn keys_for<'a>(routing: &'a Vec<(String, Vec<String>)>, name: &str) -> (r: Option<&'a Vec<String>>)
    ensures
        match routing_keys(routing@, name@) {
            Some(k) => r matches Some(x) && x@ == k,
            None => r is None,
        },
{
    let n = chars_of(name);
    let mut i: usize = 0;
    proof {
        assert(routing@.skip(0) =~= routing@);
    }
    while i < routing.len()
        invariant
            i <= routing@.len(),
            n@ == name@,
            routing_keys(routing@, name@) == routing_keys(routing@.skip(i as int), name@),
        decreases routing.len() - i,
    {
        proof {
            assert(routing@.skip(i as int)[0] == routing@[i as int]);
            assert(routing@.skip(i as int).drop_first() =~= routing@.skip(i + 1));
        }
        if equals_str(&n, routing[i].0.as_str()) {
            return Some(&routing[i].1);
        }
        i = i + 1;
    }
    None
}

impl GawdAgentFleet {
    /// The registered agents a goal recruits before semantic matching, by
    /// position in registry order: core agents, and agents the goal calls
    /// for by routing keyword, anchor, category or name; each name once.
    pub fn recruit_agents(goal: &str, agents: &Vec<AgentRoute>, routing: &Vec<(String, Vec<String>)>) -> (r: Vec<usize>)
        ensures
            r@ == recruited(lowercase(goal@), agents@, routing@, agents@.len() as int),
    {
        let l = lower_chars(goal);
        let mut picked: Vec<usize> = Vec::new();
        let mut i: usize = 0;
        while i < agents.len()
            invariant
                i <= agents@.len(),
                l@ == lowercase(goal@),
                picked@ == recruited(l@, agents@, routing@, i as int),
            decreases agents.len() - i,
        {
            proof {
                lemma_recruited_bounds(l@, agents@, routing@, i as int);
            }
            let a = &agents[i];
            let wanted = if a.is_core {
                true
            } else {
                match keys_for(routing, a.name.as_str()) {
                    Some(keys) => mentions_one_of(&l, keys),
                    None => {
                        proof {
                            reveal_strlit("agent");
                        }
                        let lower_name = to_lowercase(a.name.as_str());
                        let short = chars_of(replace_str(lower_name.as_str(), "agent", "").as_str());
                        mentions_one_of(&l, &a.semantic_anchors) || mentions_one_of(&l, &a.categories) || contains(&l, &short)
                    },
                }
            };
            if wanted {
                let mut taken = false;
                let mut j: usize = 0;
                while j < picked.len()
                    invariant
                        j <= picked@.len(),
                        i < agents@.len(),
                        *a == agents@[i as int],
                        forall|k: int| 0 <= k < picked@.len() ==> (#[trigger] picked@[k]) < i,
                        taken == exists|k: int| 0 <= k < j && agents@[picked@[k] as int].name@ == agents@[i as int].name@,
                    decreases picked.len() - j,
                {
                    let other = chars_of(agents[picked[j]].name.as_str());
                    if equals_str(&other, a.name.as_str()) {
                        taken = true;
                        proof {
                            assert(agents@[picked@[j as int] as int].name@ == agents@[i as int].name@);
                        }
                    } else {
                        proof {
                            assert(agents@[picked@[j as int] as int].name@ != agents@[i as int].name@);
                            assert forall|k: int| 0 <= k < j + 1 && agents@[picked@[k] as int].name@ == agents@[i as int].name@
                                implies 0 <= k < j by {}
                        }
                    }
                    j = j + 1;
                }
                if !taken {
                    picked.push(i);
                }
            }
            i = i + 1;
        }
        picked
    }

    /// A specialist is synthesized for a goal that is neither a
    /// meta-command nor a plain question, when no registered agent came
    /// close enough or the fleet holds only the mandatory few (twelve or
    /// fewer), and there is room in the fleet.
    pub fn needs_specialist(is_query_or_admin: bool, below_similarity_threshold: bool, fleet_len: usize, max_agents: usize) -> (b: bool)
        ensures
            b == (!is_query_or_admin && (below_similarity_threshold || fleet_len <= 12) && fleet_len < max_agents),
    {
        !is_query_or_admin && (below_similarity_threshold || fleet_len <= 12) && fleet_len < max_agents
    }

    /// The universal reasoner joins a fleet of fewer than four agents when
    /// there is room.
    pub fn needs_universal_reasoner(fleet_len: usize, max_agents: usize) -> (b: bool)
        ensures
            b == (fleet_len < 4 && fleet_len < max_agents),
    {
        fleet_len < 4 && fleet_len < max_agents
    }
}

} // verus!
