//! Inference-side text logic: chat-template detection and prompt wrapping,
//! backend selection, axiomatic alignment and mission-plan parsing.
use vstd::prelude::*;
use crate::error::{EaiError, EaiResult};
use crate::text::{first_contained, char_vecs, is_first_hit, replace_str, replace_all, split_char, nonempty_trimmed, split_trimmed_nonempty, chars_of, contains, contains_str, seq_contains, lowercase, lower_chars,
    starts_with, seq_starts_with, push_str, string_of};

verus! {

/// The chat-turn wrapper a model expects.
#[derive(Debug, Clone, Copy, PartialEq, Eq, Structural)]
pub enum PromptFormat {
    ChatMl,
    Llama3,
    Gemma,
    Mistral,
    Raw,
}

/// The format a chat template selects, given the template and its lowercase
/// form: the first control-token family it references, else `Raw`.
pub open spec fn format_of_template(tpl: Seq<char>, lower: Seq<char>) -> PromptFormat {
    if seq_contains(tpl, "<|im_start|>"@) {
        PromptFormat::ChatMl
    } else if seq_contains(tpl, "<|start_header_id|>"@) {
        PromptFormat::Llama3
    } else if seq_contains(tpl, "<start_of_turn>"@) {
        PromptFormat::Gemma
    } else if seq_contains(lower, "[inst]"@) {
        PromptFormat::Mistral
    } else {
        PromptFormat::Raw
    }
}

/// Text placed before the prompt by each format.
pub open spec fn wrap_prefix(f: PromptFormat) -> Seq<char> {
    match f {
        PromptFormat::ChatMl => "<|im_start|>system\nYou are a helpful assistant.<|im_end|>\n<|im_start|>user\n"@,
        PromptFormat::Llama3 => "<|start_header_id|>system<|end_header_id|>\n\nYou are a helpful assistant.<|eot_id|><|start_header_id|>user<|end_header_id|>\n\n"@,
        PromptFormat::Gemma => "<start_of_turn>user\n"@,
        PromptFormat::Mistral => "[INST] "@,
        PromptFormat::Raw => Seq::empty(),
    }
}

/// Text placed after the prompt by each format.
pub open spec fn wrap_suffix(f: PromptFormat) -> Seq<char> {
    match f {
        PromptFormat::ChatMl => "<|im_end|>\n<|im_start|>assistant\n"@,
        PromptFormat::Llama3 => "<|eot_id|><|start_header_id|>assistant<|end_header_id|>\n\n"@,
        PromptFormat::Gemma => "<end_of_turn>\n<start_of_turn>model\n"@,
        PromptFormat::Mistral => " [/INST]"@,
        PromptFormat::Raw => Seq::empty(),
    }
}

impl PromptFormat {
    /// The format selected by a template and its lowercase form (the part of
    /// `detect` after lowercasing).
    pub fn detect_from_parts(tpl: &Vec<char>, lower: &Vec<char>) -> (r: PromptFormat)
        ensures
            r == format_of_template(tpl@, lower@),
    {
        if contains_str(tpl, "<|im_start|>") {
            PromptFormat::ChatMl
        } else if contains_str(tpl, "<|start_header_id|>") {
            PromptFormat::Llama3
        } else if contains_str(tpl, "<start_of_turn>") {
            PromptFormat::Gemma
        } else if contains_str(lower, "[inst]") {
            PromptFormat::Mistral
        } else {
            PromptFormat::Raw
        }
    }

    /// Detects the chat format from a model's chat template; `Raw` when
    /// there is none.
    pub fn detect(chat_template: Option<&str>) -> (r: PromptFormat)
        ensures
            r == match chat_template {
                None => PromptFormat::Raw,
                Some(t) => format_of_template(t@, lowercase(t@)),
            },
    {
        match chat_template {
            None => PromptFormat::Raw,
            Some(tpl) => {
                let t = chars_of(tpl);
                let lower = lower_chars(tpl);
                Self::detect_from_parts(&t, &lower)
            },
        }
    }

    /// Wraps a raw instruction in the turn format this model was tuned on.
    pub fn wrap(self, prompt: &str) -> (r: String)
        ensures
            r@ == wrap_prefix(self) + prompt@ + wrap_suffix(self),
    {
        let mut s = String::new();
        match self {
            PromptFormat::ChatMl => {
                push_str(&mut s, "<|im_start|>system\nYou are a helpful assistant.<|im_end|>\n<|im_start|>user\n");
                push_str(&mut s, prompt);
                push_str(&mut s, "<|im_end|>\n<|im_start|>assistant\n");
            },
            PromptFormat::Llama3 => {
                push_str(&mut s, "<|start_header_id|>system<|end_header_id|>\n\nYou are a helpful assistant.<|eot_id|><|start_header_id|>user<|end_header_id|>\n\n");
                push_str(&mut s, prompt);
                push_str(&mut s, "<|eot_id|><|start_header_id|>assistant<|end_header_id|>\n\n");
            },
            PromptFormat::Gemma => {
                push_str(&mut s, "<start_of_turn>user\n");
                push_str(&mut s, prompt);
                push_str(&mut s, "<end_of_turn>\n<start_of_turn>model\n");
            },
            PromptFormat::Mistral => {
                push_str(&mut s, "[INST] ");
                push_str(&mut s, prompt);
                push_str(&mut s, " [/INST]");
            },
            PromptFormat::Raw => {
                push_str(&mut s, prompt);
            },
        }
        proof {
            assert(s@ =~= wrap_prefix(self) + prompt@ + wrap_suffix(self));
        }
        s
    }
}

/// Loading of model weights.
pub struct InferenceHost;

impl InferenceHost {
    /// Qwen2 architectures (`qwen2`, `qwen2moe`, ...) need the bias-aware
    /// Qwen2 backend.
    pub fn needs_qwen2_backend(arch: &str) -> (b: bool)
        ensures
            b == seq_starts_with(arch@, "qwen2"@),
    {
        let a = chars_of(arch);
        let p = chars_of("qwen2");
        starts_with(&a, &p)
    }
}


/// The governance message naming a risk pattern found in model output.
pub open spec fn alignment_violation_message(pattern: Seq<char>) -> Seq<char> {
    "Axiomatic Violation: High-risk pattern '"@ + pattern + "' detected in reasoning."@
}

/// Fast reasoning generation and its guards.
pub struct GemiEngine;

impl GemiEngine {
    /// Rejects reasoning that contains any configured risk pattern (the first
    /// one found, in configured order, is named in a governance error);
    /// otherwise returns the reasoning unchanged.
    pub fn verify_axiomatic_alignment(reasoning: &str, risk_patterns: &Vec<String>) -> (r: EaiResult<String>)
        ensures
            r is Ok <==> forall|j: int| 0 <= j < risk_patterns@.len() ==> !seq_contains(reasoning@, #[trigger] risk_patterns@[j]@),
            match r {
                Ok(s) => s@ == reasoning@,
                Err(e) => exists|i: int| {
                    &&& is_first_hit(reasoning@, risk_patterns@.map_values(|p: String| p@), i)
                    &&& e == EaiError::Governance(e->Governance_0)
                    &&& e->Governance_0@ == alignment_violation_message(risk_patterns@[i]@)
                },
            },
    {
        let text = chars_of(reasoning);
        let pats = char_vecs(risk_patterns);
        match first_contained(&text, &pats) {
            Some(i) => {
                let mut msg = String::new();
                push_str(&mut msg, "Axiomatic Violation: High-risk pattern '");
                push_str(&mut msg, risk_patterns[i].as_str());
                push_str(&mut msg, "' detected in reasoning.");
                let e = EaiError::governance(msg.as_str());
                proof {
                    assert(risk_patterns@.map_values(|p: String| p@)[i as int] == risk_patterns@[i as int]@);
                    assert(pats@.map_values(|p: Vec<char>| p@) == risk_patterns@.map_values(|p: String| p@));
                    assert(seq_contains(reasoning@, risk_patterns@[i as int]@));
                }
                Err(e)
            },
            None => {
                proof {
                    assert(pats@.map_values(|p: Vec<char>| p@).len() == pats@.len());
                    assert(risk_patterns@.map_values(|p: String| p@).len() == risk_patterns@.len());
                    assert(pats@.len() == risk_patterns@.len());
                    assert forall|j: int| 0 <= j < risk_patterns@.len() implies !seq_contains(reasoning@, #[trigger] risk_patterns@[j]@) by {
                        assert(pats@[j]@ == pats@.map_values(|p: Vec<char>| p@)[j]);
                        assert(risk_patterns@.map_values(|p: String| p@)[j] == risk_patterns@[j]@);
                    }
                }
                let mut s = String::new();
                push_str(&mut s, reasoning);
                proof {
                    assert(s@ =~= reasoning@);
                }
                Ok(s)
            },
        }
    }
}

/// The sub-goals of a mission.
#[derive(Debug, Clone)]
pub struct MissionPlan {
    pub goals: Vec<String>,
}

/// The sub-goals a planner reply yields for `goal`: the trimmed, non-empty
/// comma-separated pieces of the reply when it holds a comma, else `goal`
/// alone.
pub open spec fn plan_goals(plan: Seq<char>, goal: Seq<char>) -> Seq<Seq<char>> {
    if seq_contains(plan, ","@) {
        nonempty_trimmed(split_char(plan, ','))
    } else {
        seq![goal]
    }
}

/// Splits missions into sub-goals.
pub struct MissionPlanner;

impl MissionPlanner {
    /// The planning prompt: `template` with every `{goal}` replaced by `goal`.
    pub fn plan_prompt(template: &str, goal: &str) -> (r: String)
        ensures
            r@ == replace_all(template@, "{goal}"@, goal@),
    {
        proof {
            reveal_strlit("{goal}");
        }
        replace_str(template, "{goal}", goal)
    }

    /// The refinement prompt: `template` with `{original_goal}` and then
    /// `{blackboard_state}` replaced.
    pub fn refine_prompt(template: &str, original_goal: &str, blackboard_state: &str) -> (r: String)
        ensures
            r@ == replace_all(
                replace_all(template@, "{original_goal}"@, original_goal@),
                "{blackboard_state}"@,
                blackboard_state@,
            ),
    {
        proof {
            reveal_strlit("{original_goal}");
            reveal_strlit("{blackboard_state}");
        }
        let first = replace_str(template, "{original_goal}", original_goal);
        replace_str(first.as_str(), "{blackboard_state}", blackboard_state)
    }

    /// The plan a planner reply yields for `goal`: the reply's trimmed,
    /// non-empty comma-separated pieces, or `goal` alone when the reply holds
    /// no comma. `plan_reply` is what the reasoning engine answered to
    /// `plan_prompt` of the intent-planner template and `goal`.
    pub fn plan_mission(goal: &str, plan_reply: &str) -> (r: EaiResult<MissionPlan>)
        ensures
            r matches Ok(p) && p.goals@.map_values(|x: String| x@) == plan_goals(plan_reply@, goal@),
    {
        let plan = chars_of(plan_reply);
        if contains_str(&plan, ",") {
            let goals = split_trimmed_nonempty(&plan, ',');
            proof {
                reveal_strlit(",");
                assert(","@ =~= seq![',']);
            }
            Ok(MissionPlan { goals })
        } else {
            let mut g = String::new();
            push_str(&mut g, goal);
            let mut goals: Vec<String> = Vec::new();
            goals.push(g);
            proof {
                assert(goals@.map_values(|x: String| x@) =~= seq![goal@]);
            }
            Ok(MissionPlan { goals })
        }
    }

    /// The partition of `goal` a reply to the mission-partition prompt
    /// yields; read exactly as `plan_mission` reads a plan.
    pub fn partition_mission(goal: &str, partition_reply: &str) -> (r: EaiResult<MissionPlan>)
        ensures
            r matches Ok(p) && p.goals@.map_values(|x: String| x@) == plan_goals(partition_reply@, goal@),
    {
        Self::plan_mission(goal, partition_reply)
    }

    /// The refined plan: the refinement prompt (`refine_prompt` of
    /// `refine_template`) is itself planned as a goal, so a reply without a
    /// comma yields that prompt alone. `plan_reply` is what the engine
    /// answered to the planning prompt for it.
    pub fn refine_plan(
        refine_template: &str,
        original_goal: &str,
        blackboard_state: &str,
        plan_reply: &str,
    ) -> (r: EaiResult<MissionPlan>)
        ensures
            r matches Ok(p) && p.goals@.map_values(|x: String| x@) == plan_goals(
                plan_reply@,
                replace_all(
                    replace_all(refine_template@, "{original_goal}"@, original_goal@),
                    "{blackboard_state}"@,
                    blackboard_state@,
                ),
            ),
    {
        let goal = Self::refine_prompt(refine_template, original_goal, blackboard_state);
        Self::plan_mission(goal.as_str(), plan_reply)
    }

    /// Same as `plan_mission`.
    pub fn plan_intent(goal: &str, plan_reply: &str) -> (r: EaiResult<MissionPlan>)
        ensures
            r matches Ok(p) && p.goals@.map_values(|x: String| x@) == plan_goals(plan_reply@, goal@),
    {
        Self::plan_mission(goal, plan_reply)
    }

    /// Same as `partition_mission`.
    pub fn partition_intent(goal: &str, partition_reply: &str) -> (r: EaiResult<MissionPlan>)
        ensures
            r matches Ok(p) && p.goals@.map_values(|x: String| x@) == plan_goals(partition_reply@, goal@),
    {
        Self::partition_mission(goal, partition_reply)
    }

    /// Same as `refine_plan`.
    pub fn refine_intent(
        refine_template: &str,
        original_goal: &str,
        blackboard_state: &str,
        plan_reply: &str,
    ) -> (r: EaiResult<MissionPlan>)
        ensures
            r matches Ok(p) && p.goals@.map_values(|x: String| x@) == plan_goals(
                plan_reply@,
                replace_all(
                    replace_all(refine_template@, "{original_goal}"@, original_goal@),
                    "{blackboard_state}"@,
                    blackboard_state@,
                ),
            ),
    {
        Self::refine_plan(refine_template, original_goal, blackboard_state, plan_reply)
    }
}

/// Local inference through the native GGUF engine.
pub struct LlamaCppEngine;

impl LlamaCppEngine {
    /// The engine's name.
    pub fn name(&self) -> (r: String)
        ensures
            r@ == "LlamaCppEngine"@,
    {
        let mut s = String::new();
        push_str(&mut s, "LlamaCppEngine");
        s
    }
}

/// The native GGUF inference engine.
pub struct SusiGgufEngine;

impl SusiGgufEngine {
    /// The engine's name.
    pub fn name(&self) -> (r: String)
        ensures
            r@ == "SusiGgufEngine"@,
    {
        let mut s = String::new();
        push_str(&mut s, "SusiGgufEngine");
        s
    }

    /// The tokens that end generation: the configured defaults followed by
    /// the model's own declared stop tokens, so either recognizes completion.
    pub fn stop_token_ids(configured: &Vec<u32>, declared_by_model: &Vec<u32>) -> (r: Vec<u32>)
        ensures
            r@ == configured@ + declared_by_model@,
    {
        let mut r: Vec<u32> = Vec::new();
        let mut i: usize = 0;
        while i < configured.len()
            invariant
                i <= configured.len(),
                r@ == configured@.subrange(0, i as int),
            decreases configured.len() - i,
        {
            r.push(configured[i]);
            i += 1;
        }
        let mut j: usize = 0;
        while j < declared_by_model.len()
            invariant
                j <= declared_by_model.len(),
                r@ == configured@ + declared_by_model@.subrange(0, j as int),
            decreases declared_by_model.len() - j,
        {
            r.push(declared_by_model[j]);
            j += 1;
        }
        r
    }

    /// Whether `token` ends generation.
    pub fn is_stop_token(stop_ids: &Vec<u32>, token: u32) -> (b: bool)
        ensures
            b == stop_ids@.contains(token),
    {
        let mut i: usize = 0;
        while i < stop_ids.len()
            invariant
                i <= stop_ids.len(),
                forall|k: int| 0 <= k < i ==> stop_ids@[k] != token,
            decreases stop_ids.len() - i,
        {
            if stop_ids[i] == token {
                return true;
            }
            i += 1;
        }
        false
    }

    /// The key-value cache position of generation step `step`: the first
    /// step feeds the whole prompt at position 0; each later step feeds one
    /// token after the prompt and the tokens generated before it.
    pub fn kv_position(step: usize, prompt_len: usize) -> (p: usize)
        requires
            step == 0 || prompt_len + step - 1 <= usize::MAX,
        ensures
            p == (if step == 0 { 0 } else { prompt_len + step - 1 }),
    {
        if step == 0 {
            0
        } else {
            prompt_len + (step - 1)
        }
    }

    /// The generated tokens a repetition penalty looks at: the last
    /// `repeat_last_n` of them (all, when fewer were generated). The prompt
    /// is never in the window.
    pub fn penalty_window(generated: &Vec<u32>, repeat_last_n: usize) -> (w: Vec<u32>)
        ensures
            w@ == generated@.subrange(
                if generated.len() > repeat_last_n { generated.len() - repeat_last_n } else { 0 },
                generated.len() as int,
            ),
    {
        let start: usize = generated.len().saturating_sub(repeat_last_n);
        let mut w: Vec<u32> = Vec::new();
        let mut i: usize = start;
        while i < generated.len()
            invariant
                start <= i <= generated.len(),
                start == (if generated.len() > repeat_last_n { generated.len() - repeat_last_n } else { 0 }),
                w@ == generated@.subrange(start as int, i as int),
            decreases generated.len() - i,
        {
            w.push(generated[i]);
            i += 1;
        }
        w
    }
}

/// Inference delegated to a remote federated endpoint.
pub struct SusiFederatedEngine;

impl SusiFederatedEngine {
    /// The engine's name.
    pub fn name(&self) -> (r: String)
        ensures
            r@ == "SusiFederatedEngine"@,
    {
        let mut s = String::new();
        push_str(&mut s, "SusiFederatedEngine");
        s
    }

    /// The chat-completions URL of an endpoint's API base.
    pub fn completions_url(api_base: &str) -> (r: String)
        ensures
            r@ == api_base@ + "/chat/completions"@,
    {
        let mut s = String::new();
        push_str(&mut s, api_base);
        push_str(&mut s, "/chat/completions");
        s
    }
}

/// The number of bytes UTF-8 encodes a character in.
pub open spec fn utf8_width(c: char) -> nat {
    let u = c as u32;
    if u < 0x80 { 1 } else if u < 0x800 { 2 } else if u < 0x10000 { 3 } else { 4 }
}

/// The UTF-8 length of a string, in bytes (what `str::len` returns).
pub open spec fn utf8_len(s: Seq<char>) -> nat
    decreases s.len(),
{
    if s.len() == 0 { 0 } else { utf8_len(s.drop_last()) + utf8_width(s.last()) }
}

/// Byte offset `n` of `s` lies between two characters.
pub open spec fn is_char_boundary(s: Seq<char>, n: nat) -> bool {
    exists|k: int| 0 <= k <= s.len() && #[trigger] utf8_len(s.take(k)) == n
}

/// The characters before byte offset `n` (at a character boundary).
pub open spec fn before_byte(s: Seq<char>, n: nat) -> Seq<char> {
    s.take(choose|k: int| 0 <= k <= s.len() && #[trigger] utf8_len(s.take(k)) == n)
}

/// An output shortened for the summary: past 100 bytes, its first 97
/// bytes and `...`.
pub open spec fn clipped_output(o: Seq<char>) -> Seq<char> {
    if utf8_len(o) > 100 { before_byte(o, 97) + "..."@ } else { o }
}

/// Outputs past 100 bytes can be cut at byte 97.
pub open spec fn clippable(o: Seq<char>) -> bool {
    utf8_len(o) > 100 ==> is_char_boundary(o, 97)
}

/// The summary of a blackboard's entries, in the order given.
pub open spec fn blackboard_summary(entries: Seq<(String, String)>) -> Seq<char>
    decreases entries.len(),
{
    if entries.len() == 0 {
        Seq::empty()
    } else {
        let (agent, output) = entries.last();
        blackboard_summary(entries.drop_last()) + "["@ + agent@ + ": "@ + clipped_output(output@) + "] "@
    }
}

proof fn lemma_utf8_len_strictly_grows(s: Seq<char>, j: int, k: int)
    requires
        0 <= j <= k <= s.len(),
    ensures
        j < k ==> utf8_len(s.take(j)) < utf8_len(s.take(k)),
        utf8_len(s.take(j)) <= utf8_len(s.take(k)),
    decreases k - j,
{
    if j < k {
        lemma_utf8_len_strictly_grows(s, j, k - 1);
        assert(s.take(k).drop_last() =~= s.take(k - 1));
    }
}

fn width_of(c: char) -> (w: usize)
    ensures
        w as nat == utf8_width(c),
{
    let u = c as u32;
    if u < 0x80 { 1 } else if u < 0x800 { 2 } else if u < 0x10000 { 3 } else { 4 }
}

/// An output as the summary shows it.
fn clip_output(o: &str) -> (r: String)
    requires
        clippable(o@),
    ensures
        r@ == clipped_output(o@),
{
    let cs = chars_of(o);
    let ghost s = cs@;
    let mut bytes: usize = 0;
    let mut cut: Option<usize> = None;
    let mut i: usize = 0;
    proof {
        assert(s.take(0) =~= Seq::<char>::empty());
    }
    while i < cs.len() && bytes <= 100
        invariant
            i <= s.len(),
            s == cs@,
            bytes as nat == utf8_len(s.take(i as int)),
            bytes <= 104,
            match cut {
                Some(k) => k <= i && utf8_len(s.take(k as int)) == 97,
                None => forall|k: int| 0 <= k <= i ==> utf8_len(#[trigger] s.take(k)) != 97,
            },
        decreases cs.len() - i,
    {
        proof {
            assert(s.take(i + 1).drop_last() =~= s.take(i as int));
        }
        bytes = bytes + width_of(cs[i]);
        i = i + 1;
        if bytes == 97 && cut.is_none() {
            cut = Some(i);
        }
        proof {
            if cut is None {
                assert forall|k: int| 0 <= k <= i implies utf8_len(#[trigger] s.take(k)) != 97 by {
                    if k == i {
                    } else {
                        lemma_utf8_len_strictly_grows(s, k, i as int);
                    }
                }
            }
        }
    }
    proof {
        assert(s.take(s.len() as int) =~= s);
        lemma_utf8_len_strictly_grows(s, i as int, s.len() as int);
    }
    if bytes > 100 {
        match cut {
            Some(k) => {
                proof {
                    let c = choose|j: int| 0 <= j <= s.len() && #[trigger] utf8_len(s.take(j)) == 97;
                    if c < k {
                        lemma_utf8_len_strictly_grows(s, c, k as int);
                    } else if c > k {
                        lemma_utf8_len_strictly_grows(s, k as int, c);
                    }
                    assert(c == k);
                }
                let mut r: Vec<char> = Vec::new();
                let mut j: usize = 0;
                while j < k
                    invariant
                        j <= k <= s.len(),
                        s == cs@,
                        r@ == s.take(j as int),
                    decreases k - j,
                {
                    r.push(cs[j]);
                    proof {
                        assert(s.take(j + 1) =~= s.take(j as int).push(s[j as int]));
                    }
                    j = j + 1;
                }
                let mut out = string_of(&r);
                push_str(&mut out, "...");
                out
            },
            None => {
                proof {
                    let c = choose|j: int| 0 <= j <= s.len() && #[trigger] utf8_len(s.take(j)) == 97;
                    assert(utf8_len(s.take(c)) == 97);
                    if c > i {
                        lemma_utf8_len_strictly_grows(s, i as int, c);
                    }
                    assert(false);
                }
                String::from_str(o)
            },
        }
    } else {
        String::from_str(o)
    }
}

/// Compresses a mission blackboard into a dense summary.
pub struct ContextSummarizer;

impl ContextSummarizer {
    /// The summary of a blackboard's entries (agent, output) in the order
    /// given: `[agent: output] ` for each, an output past 100 bytes cut to
    /// its first 97 bytes and `...`.
    pub fn compress_blackboard(entries: &Vec<(String, String)>) -> (r: String)
        requires
            forall|i: int| 0 <= i < entries@.len() ==> clippable((#[trigger] entries@[i]).1@),
        ensures
            r@ == blackboard_summary(entries@),
    {
        let mut summary = String::new();
        let mut i: usize = 0;
        proof {
            assert(entries@.take(0) =~= Seq::<(String, String)>::empty());
        }
        while i < entries.len()
            invariant
                i <= entries@.len(),
                forall|j: int| 0 <= j < entries@.len() ==> clippable((#[trigger] entries@[j]).1@),
                summary@ == blackboard_summary(entries@.take(i as int)),
            decreases entries.len() - i,
        {
            proof {
                assert(entries@.take(i + 1).drop_last() =~= entries@.take(i as int));
                assert(entries@.take(i + 1).last() == entries@[i as int]);
            }
            let (agent, output) = &entries[i];
            let clean = clip_output(output.as_str());
            push_str(&mut summary, "[");
            push_str(&mut summary, agent.as_str());
            push_str(&mut summary, ": ");
            push_str(&mut summary, clean.as_str());
            push_str(&mut summary, "] ");
            i = i + 1;
        }
        proof {
            assert(entries@.take(entries@.len() as int) =~= entries@);
        }
        summary
    }
}

} // verus!
