//! Swarm dispatch: governance agents clear a goal one by one before any
//! other agent runs, a veto stops the dispatch, and each other agent's
//! outcome becomes a line of the swarm's results.
use vstd::prelude::*;
use crate::error::{displayed, EaiError, EaiResult};
use crate::fleet::GawdAgentFleet;
use crate::text::{
    chars_of, contains_str, decimal, equals_str, lines, push_decimal, push_str, seq_contains,
    split_lines, string_of, trim, trimmed,
};

verus! {

/// A governance agent: safety or security.
pub open spec fn is_governance(name: Seq<char>) -> bool {
    name == "SafetyAgent"@ || name == "SecurityAgent"@
}

/// The positions, in order, of the names that `gov` says are (or are
/// not) governance agents.
pub open spec fn positions(names: Seq<Seq<char>>, gov: bool) -> Seq<usize>
    decreases names.len(),
{
    if names.len() == 0 {
        Seq::empty()
    } else {
        positions(names.drop_last(), gov) + if is_governance(names.last()) == gov {
            seq![(names.len() - 1) as usize]
        } else {
            Seq::empty()
        }
    }
}

/// The result line a governance agent's outcome gives, and whether the
/// dispatch goes on: a veto is recorded as a block and stops it.
pub open spec fn governance_entry(outcome: EaiResult<String>) -> (Seq<char>, bool) {
    match outcome {
        Ok(res) => (res@, true),
        Err(e) => ("[GOVERNANCE_BLOCK] "@ + displayed(e), false),
    }
}

/// What an agent of the parallel wave reports: a stall when its task was
/// cancelled, else its answer, or its failure.
pub open spec fn agent_report(outcome: EaiResult<String>, cancelled: bool) -> Seq<char> {
    if cancelled {
        "[STALLED] Agent execution cancelled by Swarm Watchdog."@
    } else {
        match outcome {
            Ok(res) => res@,
            Err(e) => "Agent Execution Failed: "@ + displayed(e),
        }
    }
}

/// A report that marks its task failed.
pub open spec fn report_failed(report: Seq<char>) -> bool {
    seq_contains(report, "Agent Execution Failed"@) || seq_contains(report, "[STALLED]"@)
}

/// The trace line for an agent's report, if one is shown: none for blank
/// reports or audited query reflexes; a line count for multi-line ones;
/// else the trimmed report.
pub open spec fn flux_trace(name: Seq<char>, report: Seq<char>, latency: Seq<char>) -> Option<Seq<char>> {
    if trim(report).len() == 0 || seq_contains(report, "Query reflex audited"@) {
        None
    } else if lines(report).len() > 1 {
        Some("- [Swarm Flux Trace] "@ + name + ": [Generated "@ + decimal(lines(report).len())
            + " lines of payload/content] (Latency: "@ + latency + ")"@)
    } else {
        Some("- [Swarm Flux Trace] "@ + name + ": "@ + trim(report) + " (Latency: "@ + latency + ")"@)
    }
}

fn governance_name(name: &str) -> (b: bool)
    ensures
        b == is_governance(name@),
{
    let c = chars_of(name);
    equals_str(&c, "SafetyAgent") || equals_str(&c, "SecurityAgent")
}

fn display_of(e: &EaiError) -> (r: String)
    ensures
        r@ == displayed(*e),
{
    e.to_display_string()
}

impl GawdAgentFleet {
    /// The positions of the governance agents among a fleet's names, and
    /// of the others, each in fleet order.
    pub fn governance_split(names: &Vec<String>) -> (r: (Vec<usize>, Vec<usize>))
        ensures
            r.0@ == positions(names@.map_values(|n: String| n@), true),
            r.1@ == positions(names@.map_values(|n: String| n@), false),
    {
        let ghost nv = names@.map_values(|n: String| n@);
        let mut gov: Vec<usize> = Vec::new();
        let mut rest: Vec<usize> = Vec::new();
        let mut i: usize = 0;
        proof {
            assert(nv.take(0) =~= Seq::<Seq<char>>::empty());
        }
        while i < names.len()
            invariant
                i <= names@.len(),
                nv == names@.map_values(|n: String| n@),
                gov@ == positions(nv.take(i as int), true),
                rest@ == positions(nv.take(i as int), false),
            decreases names.len() - i,
        {
            proof {
                assert(nv.take(i + 1).drop_last() =~= nv.take(i as int));
                assert(nv.take(i + 1).last() == names@[i as int]@);
            }
            if governance_name(names[i].as_str()) {
                gov.push(i);
            } else {
                rest.push(i);
            }
            i = i + 1;
        }
        proof {
            assert(nv.take(i as int) =~= nv);
        }
        (gov, rest)
    }

    /// Records a governance agent's outcome among the results; says
    /// whether the dispatch goes on.
    pub fn record_governance(results: &mut Vec<(String, String)>, name: String, outcome: EaiResult<String>) -> (go_on: bool)
        ensures
            final(results)@.len() == old(results)@.len() + 1,
            forall|j: int| 0 <= j < old(results)@.len() ==> final(results)@[j] == old(results)@[j],
            final(results)@.last().0 == name,
            final(results)@.last().1@ == governance_entry(outcome).0,
            go_on == governance_entry(outcome).1,
    {
        match outcome {
            Ok(res) => {
                results.push((name, res));
                true
            },
            Err(e) => {
                let mut line = String::new();
                push_str(&mut line, "[GOVERNANCE_BLOCK] ");
                let d = display_of(&e);
                push_str(&mut line, d.as_str());
                results.push((name, line));
                false
            },
        }
    }

    /// What an agent of the parallel wave reports.
    pub fn agent_report(outcome: EaiResult<String>, cancelled: bool) -> (r: String)
        ensures
            r@ == agent_report(outcome, cancelled),
    {
        if cancelled {
            let mut s = String::new();
            push_str(&mut s, "[STALLED] Agent execution cancelled by Swarm Watchdog.");
            return s;
        }
        match outcome {
            Ok(res) => res,
            Err(e) => {
                let mut s = String::new();
                push_str(&mut s, "Agent Execution Failed: ");
                let d = display_of(&e);
                push_str(&mut s, d.as_str());
                s
            },
        }
    }

    /// Whether a report marks its task failed.
    pub fn report_failed(report: &str) -> (b: bool)
        ensures
            b == report_failed(report@),
    {
        let c = chars_of(report);
        contains_str(&c, "Agent Execution Failed") || contains_str(&c, "[STALLED]")
    }

    /// The trace line shown for an agent's report, given its latency as
    /// shown.
    pub fn flux_trace(name: &str, report: &str, latency: &str) -> (r: Option<String>)
        ensures
            match flux_trace(name@, report@, latency@) {
                Some(t) => r matches Some(x) && x@ == t,
                None => r is None,
            },
    {
        let c = chars_of(report);
        let t = trimmed(&c);
        if t.len() == 0 || contains_str(&c, "Query reflex audited") {
            return None;
        }
        let ls = split_lines(&c);
        proof {
            assert(ls@.map_values(|l: Vec<char>| l@).len() == ls@.len());
        }
        let mut s = String::new();
        push_str(&mut s, "- [Swarm Flux Trace] ");
        push_str(&mut s, name);
        if ls.len() > 1 {
            push_str(&mut s, ": [Generated ");
            push_decimal(&mut s, ls.len() as u64);
            push_str(&mut s, " lines of payload/content] (Latency: ");
        } else {
            push_str(&mut s, ": ");
            let ts = string_of(&t);
            push_str(&mut s, ts.as_str());
            push_str(&mut s, " (Latency: ");
        }
        push_str(&mut s, latency);
        push_str(&mut s, ")");
        Some(s)
    }
}

proof fn lemma_positions(names: Seq<Seq<char>>, g: bool)
    requires
        names.len() <= usize::MAX,
    ensures
        forall|p: usize| #[trigger] positions(names, g).contains(p)
            <==> (p < names.len() && is_governance(names[p as int]) == g),
        forall|a: int, b: int| 0 <= a < b < positions(names, g).len()
            ==> #[trigger] positions(names, g)[a] < #[trigger] positions(names, g)[b],
        forall|a: int| 0 <= a < positions(names, g).len() ==> #[trigger] positions(names, g)[a] < names.len(),
    decreases names.len(),
{
    if names.len() > 0 {
        let init = names.drop_last();
        lemma_positions(init, g);
        let last = (names.len() - 1) as usize;
        let tail: Seq<usize> = if is_governance(names.last()) == g { seq![last] } else { Seq::empty() };
        let ps = positions(names, g);
        assert(ps == positions(init, g) + tail);
        assert forall|p: usize| #[trigger] ps.contains(p) implies (p < names.len() && is_governance(names[p as int]) == g) by {
            let idx = choose|idx: int| 0 <= idx < ps.len() && ps[idx] == p;
            if idx < positions(init, g).len() {
                assert(positions(init, g)[idx] == p);
                assert(positions(init, g).contains(p));
                assert(names[p as int] == init[p as int]);
            } else {
                assert(tail.len() > 0);
                assert(p == last);
                assert(names[p as int] == names.last());
            }
        }
        assert forall|p: usize| p < names.len() && is_governance(names[p as int]) == g implies #[trigger] ps.contains(p) by {
            if p < last {
                assert(names[p as int] == init[p as int]);
                assert(positions(init, g).contains(p));
                let idx = choose|idx: int| 0 <= idx < positions(init, g).len() && positions(init, g)[idx] == p;
                assert(ps[idx] == p);
            } else {
                assert(p == last);
                assert(names[p as int] == names.last());
                assert(tail == seq![last]);
                assert(ps[ps.len() - 1] == last);
            }
        }
    }
}

proof fn lemma_positions_count(names: Seq<Seq<char>>)
    ensures
        positions(names, true).len() + positions(names, false).len() == names.len(),
    decreases names.len(),
{
    if names.len() > 0 {
        lemma_positions_count(names.drop_last());
    }
}

/// The governance positions and the others partition the fleet: a
/// position is listed on the side its agent belongs to and on no other,
/// each side lists positions in increasing order, and together they
/// number the fleet.
pub proof fn law_governance_split_partitions(names: Seq<Seq<char>>)
    requires
        names.len() <= usize::MAX,
    ensures
        forall|g: bool, p: usize| #[trigger] positions(names, g).contains(p)
            <==> (p < names.len() && is_governance(names[p as int]) == g),
        forall|g: bool, a: int, b: int| 0 <= a < b < positions(names, g).len()
            ==> #[trigger] positions(names, g)[a] < #[trigger] positions(names, g)[b],
        positions(names, true).len() + positions(names, false).len() == names.len(),
{
    lemma_positions(names, true);
    lemma_positions(names, false);
    lemma_positions_count(names);
    assert forall|g: bool, p: usize| #[trigger] positions(names, g).contains(p)
        <==> (p < names.len() && is_governance(names[p as int]) == g) by {
        if g { } else { }
    }
    assert forall|g: bool, a: int, b: int| 0 <= a < b < positions(names, g).len()
        implies #[trigger] positions(names, g)[a] < #[trigger] positions(names, g)[b] by {
        if g { } else { }
    }
}

} // verus!
