//! Zero-latency prompt classification: domain (`IntentCategory`) and
//! difficulty (`TaskComplexity`).
use vstd::prelude::*;
use crate::text::{views, hits, occurring, law_hits_counts_every_occurring_entry, count_hits, contains_any, contains_any_of, seq_contains, word_count, count_in, trim, lowercase, trimmed, count_words, count_chars_in, chars_of, string_of, to_lowercase};

verus! {

/// The domain a prompt belongs to.
#[derive(Debug, Clone, Copy, PartialEq, Eq, Structural)]
pub enum IntentCategory {
    Coding,
    Mathematics,
    Reasoning,
    Creative,
    General,
}

impl Default for IntentCategory {
    fn default() -> (r: Self)
        ensures
            r == IntentCategory::General,
    {
        IntentCategory::General
    }
}

/// How demanding a prompt likely is, on a five-level scale ordered from
/// `Trivial` to `VeryComplex`.
#[derive(Debug, Clone, Copy, PartialEq, Eq, PartialOrd, Ord, Structural)]
pub enum TaskComplexity {
    Trivial,
    Simple,
    Moderate,
    Complex,
    VeryComplex,
}

impl Default for TaskComplexity {
    /// Ambiguous prompts are treated as `Complex`.
    fn default() -> (r: Self)
        ensures
            r == TaskComplexity::Complex,
    {
        TaskComplexity::Complex
    }
}

impl TaskComplexity {
    /// Position on the severity scale, `Trivial` = 0 up to `VeryComplex` = 4.
    pub open spec fn rank(self) -> nat {
        match self {
            TaskComplexity::Trivial => 0,
            TaskComplexity::Simple => 1,
            TaskComplexity::Moderate => 2,
            TaskComplexity::Complex => 3,
            TaskComplexity::VeryComplex => 4,
        }
    }

    /// The level with the given rank (ranks above 4 give `VeryComplex`).
    pub open spec fn of_rank(r: nat) -> TaskComplexity {
        if r == 0 {
            TaskComplexity::Trivial
        } else if r == 1 {
            TaskComplexity::Simple
        } else if r == 2 {
            TaskComplexity::Moderate
        } else if r == 3 {
            TaskComplexity::Complex
        } else {
            TaskComplexity::VeryComplex
        }
    }

    /// The severity rank of this level.
    pub fn level(self) -> (r: u8)
        ensures
            r == self.rank(),
    {
        match self {
            TaskComplexity::Trivial => 0,
            TaskComplexity::Simple => 1,
            TaskComplexity::Moderate => 2,
            TaskComplexity::Complex => 3,
            TaskComplexity::VeryComplex => 4,
        }
    }

    /// One level up, saturating at `VeryComplex`.
    pub fn escalate(self) -> (r: Self)
        ensures
            r == TaskComplexity::of_rank(self.rank() + 1),
    {
        match self {
            TaskComplexity::Trivial => TaskComplexity::Simple,
            TaskComplexity::Simple => TaskComplexity::Moderate,
            TaskComplexity::Moderate => TaskComplexity::Complex,
            TaskComplexity::Complex => TaskComplexity::VeryComplex,
            TaskComplexity::VeryComplex => TaskComplexity::VeryComplex,
        }
    }
}

/// Code triggers of `IntentClassifier::classify`.
pub open spec fn code_triggers() -> Seq<Seq<char>> {
    seq![
        "code"@, "impl"@, "rust"@, "python"@, "fn "@, "def "@, "class "@, "function"@,
        "struct "@, "script"@, "debug"@, "error:"@, "panic!"@, "compiler"@,
    ]
}

fn code_trigger_list() -> (v: Vec<&'static str>)
    ensures
        views(v@) == code_triggers(),
{
    let v = vec![
        "code", "impl", "rust", "python", "fn ", "def ", "class ", "function", "struct ",
        "script", "debug", "error:", "panic!", "compiler",
    ];
    proof {
        assert(views(v@) =~= code_triggers());
    }
    v
}


/// Mathematics triggers of `IntentClassifier::classify`.
pub open spec fn math_triggers() -> Seq<Seq<char>> {
    seq![
        "math"@, "equation"@, "calculus"@, "algebra"@, "integral"@, "derivative"@,
        "solve for"@, "theorem"@, "matrix"@,
    ]
}

fn math_trigger_list() -> (v: Vec<&'static str>)
    ensures
        views(v@) == math_triggers(),
{
    let v = vec![
        "math", "equation", "calculus", "algebra", "integral", "derivative", "solve for",
        "theorem", "matrix",
    ];
    proof {
        assert(views(v@) =~= math_triggers());
    }
    v
}

/// Reasoning triggers of `IntentClassifier::classify`.
pub open spec fn logic_triggers() -> Seq<Seq<char>> {
    seq![
        "analyze"@, "reason"@, "evaluate"@, "why is"@, "compare"@, "contrast"@, "deduce"@,
        "logic"@, "explain how"@,
    ]
}

fn logic_trigger_list() -> (v: Vec<&'static str>)
    ensures
        views(v@) == logic_triggers(),
{
    let v = vec![
        "analyze", "reason", "evaluate", "why is", "compare", "contrast", "deduce", "logic",
        "explain how",
    ];
    proof {
        assert(views(v@) =~= logic_triggers());
    }
    v
}

/// Creative triggers of `IntentClassifier::classify`.
pub open spec fn creative_triggers() -> Seq<Seq<char>> {
    seq![
        "write a poem"@, "story"@, "imagine"@, "creative"@, "generate an image"@, "roleplay"@,
        "write a song"@,
    ]
}

fn creative_trigger_list() -> (v: Vec<&'static str>)
    ensures
        views(v@) == creative_triggers(),
{
    let v = vec![
        "write a poem", "story", "imagine", "creative", "generate an image", "roleplay",
        "write a song",
    ];
    proof {
        assert(views(v@) =~= creative_triggers());
    }
    v
}

/// Phrases that mark a prompt as asking for several steps.
pub open spec fn multi_step_markers() -> Seq<Seq<char>> {
    seq![
        "step by step"@, "step-by-step"@, "first,"@, "then,"@, "after that"@, "and then"@,
        "multiple steps"@, "in detail"@,
    ]
}

fn multi_step_marker_list() -> (v: Vec<&'static str>)
    ensures
        views(v@) == multi_step_markers(),
{
    let v = vec![
        "step by step", "step-by-step", "first,", "then,", "after that", "and then",
        "multiple steps", "in detail",
    ];
    proof {
        assert(views(v@) =~= multi_step_markers());
    }
    v
}

/// The largest of four counts.
pub open spec fn max4(a: nat, b: nat, c: nat, d: nat) -> nat {
    let ab = if a >= b { a } else { b };
    let cd = if c >= d { c } else { d };
    if ab >= cd { ab } else { cd }
}

/// The category of an already-lowercased prompt: the category with the most
/// trigger hits, ties going to Coding, then Mathematics, Reasoning, Creative;
/// General when no trigger occurs.
pub open spec fn intent_of(text: Seq<char>) -> IntentCategory {
    let c = hits(text, code_triggers());
    let m = hits(text, math_triggers());
    let l = hits(text, logic_triggers());
    let r = hits(text, creative_triggers());
    let mx = max4(c, m, l, r);
    if mx == 0 {
        IntentCategory::General
    } else if c == mx {
        IntentCategory::Coding
    } else if m == mx {
        IntentCategory::Mathematics
    } else if l == mx {
        IntentCategory::Reasoning
    } else {
        IntentCategory::Creative
    }
}

/// The difficulty of a prompt, given its trimmed characters and their
/// lowercase form.
pub open spec fn complexity_of(trimmed: Seq<char>, lower: Seq<char>) -> TaskComplexity {
    let words = word_count(trimmed);
    let marked = contains_any_of(lower, multi_step_markers());
    let questions = count_in(trimmed, seq!['?']);
    let sentences = count_in(trimmed, seq!['.', '!', '?']);
    let single_clause = questions <= 1 && sentences <= 1;
    if words > 60 && (marked || questions > 1) {
        TaskComplexity::VeryComplex
    } else if marked || questions > 1 || sentences > 2 || words > 60 {
        TaskComplexity::Complex
    } else if words > 25 && single_clause {
        TaskComplexity::Moderate
    } else if words > 4 && words <= 25 && single_clause {
        TaskComplexity::Simple
    } else if words <= 4 && single_clause {
        TaskComplexity::Trivial
    } else {
        TaskComplexity::Complex
    }
}

/// Heuristic prompt classifier.
pub struct IntentClassifier;

impl IntentClassifier {
    /// The difficulty of a prompt from its trimmed characters and their
    /// lowercase form (the part of `classify_complexity` after lowercasing).
    pub fn complexity_of_parts(trimmed: &Vec<char>, lower: &Vec<char>) -> (r: TaskComplexity)
        ensures
            r == complexity_of(trimmed@, lower@),
    {
        let word_count = count_words(trimmed);
        let markers = multi_step_marker_list();
        let has_multi_step_marker = contains_any(lower, &markers);
        let qs = vec!['?'];
        let ends = vec!['.', '!', '?'];
        proof {
            assert(qs@ =~= seq!['?']);
            assert(ends@ =~= seq!['.', '!', '?']);
        }
        let question_count = count_chars_in(trimmed, &qs);
        let sentence_count = count_chars_in(trimmed, &ends);
        let is_single_clause = question_count <= 1 && sentence_count <= 1;
        if word_count > 60 && (has_multi_step_marker || question_count > 1) {
            return TaskComplexity::VeryComplex;
        }
        if has_multi_step_marker || question_count > 1 || sentence_count > 2 || word_count > 60 {
            return TaskComplexity::Complex;
        }
        if word_count > 25 && is_single_clause {
            return TaskComplexity::Moderate;
        }
        if word_count > 4 && word_count <= 25 && is_single_clause {
            return TaskComplexity::Simple;
        }
        if word_count <= 4 && is_single_clause {
            return TaskComplexity::Trivial;
        }
        TaskComplexity::Complex
    }

    /// How demanding a prompt likely is; biased toward `Complex` for anything
    /// that is not clearly a lower bucket. `context_words` is accepted for
    /// callers that know the surrounding context size and does not change the
    /// result.
    pub fn classify_complexity(prompt: &str, context_words: Option<usize>) -> (r: TaskComplexity)
        ensures
            r == complexity_of(trim(prompt@), lowercase(trim(prompt@))),
    {
        let chars = chars_of(prompt);
        let t = trimmed(&chars);
        let ts = string_of(&t);
        let lower_s = to_lowercase(ts.as_str());
        let lower = chars_of(lower_s.as_str());
        Self::complexity_of_parts(&t, &lower)
    }

    /// The category of an already-lowercased prompt (the part of `classify`
    /// after lowercasing).
    pub fn classify_lowered(text: &Vec<char>) -> (r: IntentCategory)
        ensures
            r == intent_of(text@),
    {
        let code_score = count_hits(text, &code_trigger_list());
        let math_score = count_hits(text, &math_trigger_list());
        let logic_score = count_hits(text, &logic_trigger_list());
        let creative_score = count_hits(text, &creative_trigger_list());
        let ab = if code_score >= math_score { code_score } else { math_score };
        let cd = if logic_score >= creative_score { logic_score } else { creative_score };
        let max_score = if ab >= cd { ab } else { cd };
        if max_score == 0 {
            return IntentCategory::General;
        }
        if code_score == max_score {
            return IntentCategory::Coding;
        }
        if math_score == max_score {
            return IntentCategory::Mathematics;
        }
        if logic_score == max_score {
            return IntentCategory::Reasoning;
        }
        IntentCategory::Creative
    }

    /// Heuristic domain classification of a prompt by trigger phrases.
    pub fn classify(prompt: &str) -> (r: IntentCategory)
        ensures
            r == intent_of(lowercase(prompt@)),
    {
        let text = crate::text::lower_chars(prompt);
        Self::classify_lowered(&text)
    }
}

/// Escalation never lowers a level: it raises every level below
/// `VeryComplex` by exactly one and leaves `VeryComplex` where it is.
pub proof fn law_escalate_raises_one_level(c: TaskComplexity)
    ensures
        TaskComplexity::of_rank(c.rank() + 1).rank() >= c.rank(),
        c != TaskComplexity::VeryComplex ==> TaskComplexity::of_rank(c.rank() + 1).rank() == c.rank() + 1,
        c == TaskComplexity::VeryComplex ==> TaskComplexity::of_rank(c.rank() + 1) == TaskComplexity::VeryComplex,
{
}

/// A prompt is `General` exactly when no trigger phrase of any domain
/// occurs in its lowercase form.
pub proof fn law_general_iff_no_trigger(text: Seq<char>)
    ensures
        intent_of(text) == IntentCategory::General <==> {
            &&& !contains_any_of(text, code_triggers())
            &&& !contains_any_of(text, math_triggers())
            &&& !contains_any_of(text, logic_triggers())
            &&& !contains_any_of(text, creative_triggers())
        },
{
    crate::text::lemma_hits_positive(text, code_triggers());
    crate::text::lemma_hits_positive(text, math_triggers());
    crate::text::lemma_hits_positive(text, logic_triggers());
    crate::text::lemma_hits_positive(text, creative_triggers());
}

/// The chosen domain has at least as many trigger hits as every other
/// domain.
pub proof fn law_category_has_most_hits(text: Seq<char>)
    ensures
        intent_of(text) == IntentCategory::Coding ==> {
            &&& hits(text, code_triggers()) >= hits(text, math_triggers())
            &&& hits(text, code_triggers()) >= hits(text, logic_triggers())
            &&& hits(text, code_triggers()) >= hits(text, creative_triggers())
            &&& hits(text, code_triggers()) > 0
        },
        intent_of(text) == IntentCategory::Mathematics ==> {
            &&& hits(text, math_triggers()) > hits(text, code_triggers())
            &&& hits(text, math_triggers()) >= hits(text, logic_triggers())
            &&& hits(text, math_triggers()) >= hits(text, creative_triggers())
        },
        intent_of(text) == IntentCategory::Reasoning ==> {
            &&& hits(text, logic_triggers()) > hits(text, code_triggers())
            &&& hits(text, logic_triggers()) > hits(text, math_triggers())
            &&& hits(text, logic_triggers()) >= hits(text, creative_triggers())
        },
        intent_of(text) == IntentCategory::Creative ==> {
            &&& hits(text, creative_triggers()) > hits(text, code_triggers())
            &&& hits(text, creative_triggers()) > hits(text, math_triggers())
            &&& hits(text, creative_triggers()) > hits(text, logic_triggers())
        },
{
}

/// The domain with strictly more of its trigger phrases present than every
/// other domain is chosen; on a tie for the most, the earlier domain of
/// Coding, Mathematics, Reasoning, Creative wins; and a prompt with no
/// trigger phrase present is General. Each phrase present counts once.
pub proof fn law_domain_with_most_triggers_wins(text: Seq<char>)
    ensures
        ({
            let c = occurring(text, code_triggers()).len();
            let m = occurring(text, math_triggers()).len();
            let l = occurring(text, logic_triggers()).len();
            let r = occurring(text, creative_triggers()).len();
            &&& (c > m && c > l && c > r) ==> intent_of(text) == IntentCategory::Coding
            &&& (m > c && m > l && m > r) ==> intent_of(text) == IntentCategory::Mathematics
            &&& (l > c && l > m && l > r) ==> intent_of(text) == IntentCategory::Reasoning
            &&& (r > c && r > m && r > l) ==> intent_of(text) == IntentCategory::Creative
            &&& (c > 0 && c >= m && c >= l && c >= r) ==> intent_of(text) == IntentCategory::Coding
            &&& (m > 0 && m > c && m >= l && m >= r) ==> intent_of(text) == IntentCategory::Mathematics
            &&& (l > 0 && l > c && l > m && l >= r) ==> intent_of(text) == IntentCategory::Reasoning
            &&& (c == 0 && m == 0 && l == 0 && r == 0) ==> intent_of(text) == IntentCategory::General
        }),
{
    let t: Seq<char> = Seq::empty();
    law_hits_counts_every_occurring_entry(text, code_triggers(), t);
    law_hits_counts_every_occurring_entry(text, math_triggers(), t);
    law_hits_counts_every_occurring_entry(text, logic_triggers(), t);
    law_hits_counts_every_occurring_entry(text, creative_triggers(), t);
}

/// Any single strong signal (a multi-step marker, more than one question,
/// more than two sentence ends, or more than 60 words) makes a prompt at
/// least `Complex`; `VeryComplex` needs more than 60 words together with a
/// marker or several questions.
pub proof fn law_strong_signal_is_complex(trimmed: Seq<char>, lower: Seq<char>)
    ensures
        (contains_any_of(lower, multi_step_markers()) || count_in(trimmed, seq!['?']) > 1
            || count_in(trimmed, seq!['.', '!', '?']) > 2 || word_count(trimmed) > 60)
            ==> complexity_of(trimmed, lower).rank() >= 3,
        complexity_of(trimmed, lower) == TaskComplexity::VeryComplex <==> (word_count(trimmed) > 60
            && (contains_any_of(lower, multi_step_markers()) || count_in(trimmed, seq!['?']) > 1)),
{
}

/// Only short, single-clause prompts rank below `Complex`: `Trivial`
/// needs at most four words, `Simple` at most 25, and both at most one
/// question and one sentence end.
pub proof fn law_low_levels_are_single_clause(trimmed: Seq<char>, lower: Seq<char>)
    ensures
        complexity_of(trimmed, lower).rank() < 3 ==> {
            &&& count_in(trimmed, seq!['?']) <= 1
            &&& count_in(trimmed, seq!['.', '!', '?']) <= 1
            &&& !contains_any_of(lower, multi_step_markers())
            &&& word_count(trimmed) <= 60
        },
        complexity_of(trimmed, lower) == TaskComplexity::Trivial ==> word_count(trimmed) <= 4,
        complexity_of(trimmed, lower) == TaskComplexity::Simple ==> 4 < word_count(trimmed) <= 25,
        complexity_of(trimmed, lower) == TaskComplexity::Moderate ==> 25 < word_count(trimmed) <= 60,
{
}

} // verus!
