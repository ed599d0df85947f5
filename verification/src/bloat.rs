//! The bloat and security audit: the line scan of a source file (pending
//! work markers and secret patterns outside test modules), the ranking of
//! the worst offenders, and the report.
use vstd::prelude::*;
use crate::text::{
    seq_contains, seq_starts_with, trim, trimmed, chars_of, contains, contains_str, starts_with,
    count_in, count_chars_in, first_index_of, find, suffix_from, lines, split_lines, push_str,
    push_decimal, decimal, decimal_string_wide, equals_str,
};

verus! {

/// Where the line scan stands: inside a test module or not, whether the
/// last non-blank line was `#[cfg(test)]`, the test module's brace depth,
/// the markers and secret hits counted so far, and whether every depth
/// stayed within `i32`.
pub struct LineScan {
    pub in_test: bool,
    pub saw_cfg_test: bool,
    pub depth: int,
    pub todo: nat,
    pub secrets: nat,
    pub fits: bool,
}

/// The comment after the first `//` of a line, if any.
pub open spec fn comment_of(line: Seq<char>) -> Option<Seq<char>> {
    match first_index_of(line, "//"@) {
        Some(i) => Some(line.skip(i + 2)),
        None => None,
    }
}

/// A conventionally tagged pending-work comment.
pub open spec fn is_work_marker(line: Seq<char>) -> bool {
    match comment_of(line) {
        Some(c) => seq_contains(c, "TODO:"@) || seq_contains(c, "TODO("@) || seq_contains(c, "FIXME:"@)
            || seq_contains(c, "FIXME("@),
        None => false,
    }
}

/// The number of non-empty patterns a line contains.
pub open spec fn pattern_hits(line: Seq<char>, patterns: Seq<Seq<char>>) -> nat
    decreases patterns.len(),
{
    if patterns.len() == 0 {
        0
    } else {
        pattern_hits(line, patterns.drop_last()) + if patterns.last().len() > 0 && seq_contains(line, patterns.last()) {
            1nat
        } else {
            0nat
        }
    }
}

/// A value an `i32` holds.
pub open spec fn fits_i32(x: int) -> bool {
    -0x8000_0000 <= x <= 0x7fff_ffff
}

/// The brace balance of a trimmed line, and whether its counts fit `i32`.
pub open spec fn opens(t: Seq<char>) -> int {
    count_in(t, seq!['{']) as int
}

/// The closing braces of a trimmed line.
pub open spec fn closes(t: Seq<char>) -> int {
    count_in(t, seq!['}']) as int
}

/// The scan after one more line.
pub open spec fn scan_step(st: LineScan, line: Seq<char>, patterns: Seq<Seq<char>>) -> LineScan {
    let t = trim(line);
    let counts_fit = opens(t) <= 0x7fff_ffff && closes(t) <= 0x7fff_ffff;
    let moved = if st.in_test {
        let up = st.depth + opens(t);
        let d = up - closes(t);
        LineScan {
            in_test: d > 0,
            saw_cfg_test: st.saw_cfg_test,
            depth: d,
            todo: st.todo,
            secrets: st.secrets,
            fits: st.fits && counts_fit && fits_i32(up) && fits_i32(d),
        }
    } else if st.saw_cfg_test && seq_starts_with(t, "mod "@) {
        let d = opens(t) - closes(t);
        LineScan { in_test: true, saw_cfg_test: false, depth: d, todo: st.todo, secrets: st.secrets, fits: st.fits && counts_fit && fits_i32(d) }
    } else if t.len() > 0 {
        LineScan { saw_cfg_test: seq_starts_with(t, "#[cfg(test)]"@), ..st }
    } else {
        st
    };
    if moved.in_test {
        moved
    } else {
        LineScan {
            todo: moved.todo + if is_work_marker(line) { 1nat } else { 0nat },
            secrets: moved.secrets + pattern_hits(line, patterns),
            ..moved
        }
    }
}

/// The scan of a file's lines.
pub open spec fn scan_lines(ls: Seq<Seq<char>>, patterns: Seq<Seq<char>>) -> LineScan
    decreases ls.len(),
{
    if ls.len() == 0 {
        LineScan { in_test: false, saw_cfg_test: false, depth: 0, todo: 0, secrets: 0, fits: true }
    } else {
        scan_step(scan_lines(ls.drop_last(), patterns), ls.last(), patterns)
    }
}

/// Scanning one more line outside a test module adds exactly one pending-work
/// marker when the comment after the line's first `//` contains `TODO:`,
/// `TODO(`, `FIXME:` or `FIXME(`, and none when it contains none of them or
/// the line has no comment; a line inside a test module adds none.
pub proof fn law_work_markers_count_tagged_comments(ls: Seq<Seq<char>>, line: Seq<char>, patterns: Seq<Seq<char>>)
    ensures
        ({
            let before = scan_lines(ls, patterns);
            let after = scan_lines(ls.push(line), patterns);
            let tagged = match comment_of(line) {
                Some(c) => seq_contains(c, "TODO:"@) || seq_contains(c, "TODO("@)
                    || seq_contains(c, "FIXME:"@) || seq_contains(c, "FIXME("@),
                None => false,
            };
            &&& (!after.in_test && tagged) ==> after.todo == before.todo + 1
            &&& (!after.in_test && !tagged) ==> after.todo == before.todo
            &&& after.in_test ==> after.todo == before.todo
        }),
{
    assert(ls.push(line).drop_last() =~= ls);
}

proof fn lemma_count_in_bounded(s: Seq<char>, set: Seq<char>)
    ensures
        count_in(s, set) <= s.len(),
    decreases s.len(),
{
    if s.len() > 0 {
        lemma_count_in_bounded(s.drop_last(), set);
    }
}

proof fn lemma_scan_counts_bounded(ls: Seq<Seq<char>>, patterns: Seq<Seq<char>>)
    ensures
        scan_lines(ls, patterns).todo <= ls.len(),
        scan_lines(ls, patterns).secrets <= ls.len() * patterns.len(),
    decreases ls.len(),
{
    if ls.len() > 0 {
        lemma_scan_counts_bounded(ls.drop_last(), patterns);
        lemma_pattern_hits_bounded(ls.last(), patterns);
        assert((ls.len() - 1) * patterns.len() + patterns.len() == ls.len() * patterns.len()) by (nonlinear_arith);
    }
}

proof fn lemma_pattern_hits_bounded(line: Seq<char>, patterns: Seq<Seq<char>>)
    ensures
        pattern_hits(line, patterns) <= patterns.len(),
    decreases patterns.len(),
{
    if patterns.len() > 0 {
        lemma_pattern_hits_bounded(line, patterns.drop_last());
    }
}

/// Whether a line is a tagged pending-work comment.
fn work_marker(line: &Vec<char>) -> (b: bool)
    ensures
        b == is_work_marker(line@),
{
    let slashes = chars_of("//");
    proof {
        reveal_strlit("//");
    }
    match find(line, &slashes) {
        Some(i) => {
            let n = line.len();
            proof {
                assert(slashes@.len() == 2);
                assert(i + 2 <= n);
            }
            let c = suffix_from(line, i + 2);
            contains_str(&c, "TODO:") || contains_str(&c, "TODO(") || contains_str(&c, "FIXME:")
                || contains_str(&c, "FIXME(")
        },
        None => false,
    }
}

/// The number of non-empty patterns a line contains.
fn count_pattern_hits(line: &Vec<char>, patterns: &Vec<Vec<char>>) -> (n: usize)
    ensures
        n as nat == pattern_hits(line@, patterns@.map_values(|p: Vec<char>| p@)),
{
    let ghost pv = patterns@.map_values(|p: Vec<char>| p@);
    let mut n: usize = 0;
    let mut i: usize = 0;
    proof {
        assert(pv.take(0) =~= Seq::<Seq<char>>::empty());
    }
    while i < patterns.len()
        invariant
            i <= patterns@.len(),
            pv == patterns@.map_values(|p: Vec<char>| p@),
            n as nat == pattern_hits(line@, pv.take(i as int)),
            n <= i,
        decreases patterns.len() - i,
    {
        proof {
            assert(pv.take(i + 1).drop_last() =~= pv.take(i as int));
            assert(pv.take(i + 1).last() == patterns@[i as int]@);
        }
        if patterns[i].len() > 0 && contains(line, &patterns[i]) {
            n = n + 1;
        }
        i = i + 1;
    }
    proof {
        assert(pv.take(patterns@.len() as int) =~= pv);
    }
    n
}

/// Statements a function may hold before it counts as oversized.
pub const MAX_STATEMENTS_PER_FN: usize = 60;

/// Whether `syn::parse_file` accepts the text as a Rust source file.
pub uninterp spec fn parses_as_rust(content: Seq<char>) -> bool;

/// Calls `syn::parse_file` and reports whether it parsed; whether a text
/// parses is only known by the name `parses_as_rust`.
#[verifier::external_body]
fn parse_rust(content: &str) -> (ok: bool)
    ensures
        ok == parses_as_rust(content@),
{
    syn::parse_file(content).is_ok()
}

/// What a walk of a file's syntax tree met: the statement count of each
/// function (free or in an impl), the method name of each method call,
/// and the number of `unsafe` blocks.
#[derive(Debug, Clone)]
pub struct SyntaxSummary {
    pub fn_statements: Vec<usize>,
    pub method_calls: Vec<String>,
    pub unsafe_blocks: usize,
}

/// How many statement counts exceed the limit.
pub open spec fn count_oversized_fns(ns: Seq<usize>) -> nat
    decreases ns.len(),
{
    if ns.len() == 0 {
        0
    } else {
        count_oversized_fns(ns.drop_last()) + if ns.last() > MAX_STATEMENTS_PER_FN { 1nat } else { 0nat }
    }
}

/// How many method calls are named `name`.
pub open spec fn count_named(calls: Seq<Seq<char>>, name: Seq<char>) -> nat
    decreases calls.len(),
{
    if calls.len() == 0 {
        0
    } else {
        count_named(calls.drop_last(), name) + if calls.last() == name { 1nat } else { 0nat }
    }
}

/// The counts a syntax walk gives: functions, oversized functions,
/// `unwrap`, `expect` and `clone` calls, and `unsafe` blocks.
pub open spec fn summary_counts(s: SyntaxSummary) -> AstCounts {
    let calls = s.method_calls@.map_values(|c: String| c@);
    AstCounts {
        functions: s.fn_statements@.len() as usize,
        oversized_functions: count_oversized_fns(s.fn_statements@) as usize,
        unwrap_calls: count_named(calls, "unwrap"@) as usize,
        expect_calls: count_named(calls, "expect"@) as usize,
        clone_calls: count_named(calls, "clone"@) as usize,
        unsafe_blocks: s.unsafe_blocks,
    }
}

proof fn lemma_count_oversized_bounded(ns: Seq<usize>)
    ensures
        count_oversized_fns(ns) <= ns.len(),
    decreases ns.len(),
{
    if ns.len() > 0 {
        lemma_count_oversized_bounded(ns.drop_last());
    }
}

proof fn lemma_count_named_bounded(calls: Seq<Seq<char>>, name: Seq<char>)
    ensures
        count_named(calls, name) <= calls.len(),
    decreases calls.len(),
{
    if calls.len() > 0 {
        lemma_count_named_bounded(calls.drop_last(), name);
    }
}

/// What the syntax tree of a file counted: functions, those over the
/// statement limit, `.unwrap()`, `.expect()` and `.clone()` calls, and
/// `unsafe` blocks.
#[derive(Debug, Clone, Copy)]
pub struct AstCounts {
    pub functions: usize,
    pub oversized_functions: usize,
    pub unwrap_calls: usize,
    pub expect_calls: usize,
    pub clone_calls: usize,
    pub unsafe_blocks: usize,
}

/// The audit's findings for one file.
#[derive(Debug, Clone)]
pub struct FileFinding {
    pub path: String,
    pub lines: usize,
    pub functions: usize,
    pub oversized_functions: usize,
    pub unwrap_calls: usize,
    pub expect_calls: usize,
    pub clone_calls: usize,
    pub unsafe_blocks: usize,
    pub todo_markers: usize,
    pub secret_pattern_hits: usize,
    pub parse_failed: bool,
}

impl FileFinding {
    /// A field-for-field copy.
    pub fn duplicate(&self) -> (r: Self)
        ensures
            r == *self,
    {
        FileFinding {
            path: self.path.clone(),
            lines: self.lines,
            functions: self.functions,
            oversized_functions: self.oversized_functions,
            unwrap_calls: self.unwrap_calls,
            expect_calls: self.expect_calls,
            clone_calls: self.clone_calls,
            unsafe_blocks: self.unsafe_blocks,
            todo_markers: self.todo_markers,
            secret_pattern_hits: self.secret_pattern_hits,
            parse_failed: self.parse_failed,
        }
    }
}

/// How much a file's findings weigh: oversized functions ten each,
/// `unsafe` blocks eight, secret hits twenty, and each `.unwrap()`,
/// `.expect()` and `.clone()` one.
pub open spec fn bloat_score(f: FileFinding) -> nat {
    f.oversized_functions as nat * 10 + f.unsafe_blocks as nat * 8 + f.secret_pattern_hits as nat * 20
        + f.unwrap_calls as nat + f.expect_calls as nat + f.clone_calls as nat
}

/// How many leading findings weigh at least `s`.
pub open spec fn heavier_prefix(sorted: Seq<FileFinding>, s: nat) -> nat
    decreases sorted.len(),
{
    if sorted.len() == 0 {
        0
    } else if bloat_score(sorted[0]) >= s {
        1 + heavier_prefix(sorted.drop_first(), s)
    } else {
        0
    }
}

/// The findings ordered heaviest first, findings of equal weight in their
/// original order (a stable sort).
pub open spec fn by_weight(fs: Seq<FileFinding>) -> Seq<FileFinding>
    decreases fs.len(),
{
    if fs.len() == 0 {
        Seq::empty()
    } else {
        let sorted = by_weight(fs.drop_last());
        sorted.insert(heavier_prefix(sorted, bloat_score(fs.last())) as int, fs.last())
    }
}

/// A finding that weighs anything.
pub open spec fn weighs() -> spec_fn(FileFinding) -> bool {
    |f: FileFinding| bloat_score(f) > 0
}

/// The ten heaviest findings that weigh anything, heaviest first.
pub open spec fn worst_offenders(fs: Seq<FileFinding>) -> Seq<FileFinding> {
    let weighty = by_weight(fs).filter(weighs());
    if weighty.len() > 10 { weighty.take(10) } else { weighty }
}

proof fn lemma_heavier_prefix_bounded(sorted: Seq<FileFinding>, s: nat)
    ensures
        heavier_prefix(sorted, s) <= sorted.len(),
    decreases sorted.len(),
{
    if sorted.len() > 0 {
        lemma_heavier_prefix_bounded(sorted.drop_first(), s);
    }
}

proof fn lemma_by_weight_len(fs: Seq<FileFinding>)
    ensures
        by_weight(fs).len() == fs.len(),
    decreases fs.len(),
{
    if fs.len() > 0 {
        lemma_by_weight_len(fs.drop_last());
        lemma_heavier_prefix_bounded(by_weight(fs.drop_last()), bloat_score(fs.last()));
    }
}

/// Heavier findings come first.
pub open spec fn heaviest_first(s: Seq<FileFinding>) -> bool {
    forall|i: int, j: int| 0 <= i < j < s.len() ==> bloat_score(#[trigger] s[i]) >= bloat_score(#[trigger] s[j])
}

proof fn lemma_heavier_prefix_split(s: Seq<FileFinding>, v: nat)
    requires
        heaviest_first(s),
    ensures
        forall|k: int| 0 <= k < heavier_prefix(s, v) ==> bloat_score(#[trigger] s[k]) >= v,
        forall|k: int| heavier_prefix(s, v) <= k < s.len() ==> bloat_score(#[trigger] s[k]) < v,
    decreases s.len(),
{
    lemma_heavier_prefix_bounded(s, v);
    if s.len() > 0 {
        let t = s.drop_first();
        assert(heaviest_first(t)) by {
            assert forall|i: int, j: int| 0 <= i < j < t.len() implies bloat_score(#[trigger] t[i]) >= bloat_score(#[trigger] t[j]) by {
                assert(t[i] == s[i + 1] && t[j] == s[j + 1]);
            }
        }
        lemma_heavier_prefix_split(t, v);
        if bloat_score(s[0]) >= v {
            assert forall|k: int| 0 <= k < heavier_prefix(s, v) implies bloat_score(#[trigger] s[k]) >= v by {
                if k > 0 {
                    assert(s[k] == t[k - 1]);
                }
            }
            assert forall|k: int| heavier_prefix(s, v) <= k < s.len() implies bloat_score(#[trigger] s[k]) < v by {
                assert(s[k] == t[k - 1]);
            }
        } else {
            assert forall|k: int| 0 <= k < s.len() implies bloat_score(#[trigger] s[k]) < v by {
                if k > 0 {
                    assert(bloat_score(s[0]) >= bloat_score(s[k]));
                }
            }
        }
    }
}

proof fn lemma_by_weight_sorted(fs: Seq<FileFinding>)
    ensures
        heaviest_first(by_weight(fs)),
        by_weight(fs).len() == fs.len(),
    decreases fs.len(),
{
    lemma_by_weight_len(fs);
    if fs.len() > 0 {
        let sorted = by_weight(fs.drop_last());
        let x = fs.last();
        lemma_by_weight_sorted(fs.drop_last());
        let p = heavier_prefix(sorted, bloat_score(x)) as int;
        lemma_heavier_prefix_bounded(sorted, bloat_score(x));
        lemma_heavier_prefix_split(sorted, bloat_score(x));
        let r = sorted.insert(p, x);
        assert forall|i: int, j: int| 0 <= i < j < r.len() implies bloat_score(#[trigger] r[i]) >= bloat_score(#[trigger] r[j]) by {
            if i < p {
                assert(r[i] == sorted[i]);
            } else if i > p {
                assert(r[i] == sorted[i - 1]);
            }
            if j < p {
                assert(r[j] == sorted[j]);
            } else if j > p {
                assert(r[j] == sorted[j - 1]);
            }
        }
    }
}

proof fn lemma_filter_heaviest_first(s: Seq<FileFinding>)
    requires
        heaviest_first(s),
    ensures
        heaviest_first(s.filter(weighs())),
        forall|k: int| 0 <= k < s.filter(weighs()).len() ==> bloat_score(#[trigger] s.filter(weighs())[k]) > 0,
    decreases s.len(),
{
    reveal(Seq::filter);
    if s.len() > 0 {
        let t = s.drop_last();
        assert(heaviest_first(t)) by {
            assert forall|i: int, j: int| 0 <= i < j < t.len() implies bloat_score(#[trigger] t[i]) >= bloat_score(#[trigger] t[j]) by {
                assert(t[i] == s[i] && t[j] == s[j]);
            }
        }
        lemma_filter_heaviest_first(t);
        lemma_filter_at_least(t, bloat_score(s.last()));
        let f = t.filter(weighs());
        if weighs()(s.last()) {
            assert(s.filter(weighs()) == f.push(s.last()));
        } else {
            assert(s.filter(weighs()) == f);
        }
    }
}

proof fn lemma_filter_at_least(s: Seq<FileFinding>, v: nat)
    requires
        forall|k: int| 0 <= k < s.len() ==> bloat_score(#[trigger] s[k]) >= v,
    ensures
        forall|k: int| 0 <= k < s.filter(weighs()).len() ==> bloat_score(#[trigger] s.filter(weighs())[k]) >= v,
    decreases s.len(),
{
    reveal(Seq::filter);
    if s.len() > 0 {
        let t = s.drop_last();
        assert forall|k: int| 0 <= k < t.len() implies bloat_score(#[trigger] t[k]) >= v by {
            assert(t[k] == s[k]);
        }
        lemma_filter_at_least(t, v);
        assert(s.drop_last() == t);
        assert(bloat_score(s.last()) >= v);
        if weighs()(s.last()) {
            assert(s.filter(weighs()) == t.filter(weighs()).push(s.last()));
        } else {
            assert(s.filter(weighs()) == t.filter(weighs()));
        }
    }
}

/// The worst offenders are at most ten findings that each weigh
/// something, heaviest first.
pub proof fn law_offenders_heaviest_first(fs: Seq<FileFinding>)
    ensures
        worst_offenders(fs).len() <= 10,
        forall|k: int| 0 <= k < worst_offenders(fs).len() ==> bloat_score(#[trigger] worst_offenders(fs)[k]) > 0,
        heaviest_first(worst_offenders(fs)),
{
    lemma_by_weight_sorted(fs);
    lemma_filter_heaviest_first(by_weight(fs));
    let w = by_weight(fs).filter(weighs());
    if w.len() > 10 {
        assert forall|k: int| 0 <= k < 10 implies #[trigger] w.take(10)[k] == w[k] by {}
    }
}

/// A finding's weight, when it fits a `usize`.
fn weight(f: &FileFinding) -> (r: usize)
    requires
        bloat_score(*f) <= usize::MAX,
    ensures
        r as nat == bloat_score(*f),
{
    f.oversized_functions * 10 + f.unsafe_blocks * 8 + f.secret_pattern_hits * 20 + f.unwrap_calls
        + f.expect_calls + f.clone_calls
}

/// The findings ranked heaviest first (stable), keeping the ten heaviest
/// that weigh anything.
fn rank_offenders(fs: &Vec<FileFinding>) -> (r: Vec<FileFinding>)
    requires
        forall|i: int| 0 <= i < fs@.len() ==> bloat_score(#[trigger] fs@[i]) <= usize::MAX,
    ensures
        r@ == worst_offenders(fs@),
{
    let mut sorted: Vec<FileFinding> = Vec::new();
    let mut i: usize = 0;
    proof {
        assert(fs@.take(0) =~= Seq::<FileFinding>::empty());
    }
    while i < fs.len()
        invariant
            i <= fs@.len(),
            forall|k: int| 0 <= k < fs@.len() ==> bloat_score(#[trigger] fs@[k]) <= usize::MAX,
            sorted@ == by_weight(fs@.take(i as int)),
            forall|k: int| 0 <= k < sorted@.len() ==> bloat_score(#[trigger] sorted@[k]) <= usize::MAX,
        decreases fs.len() - i,
    {
        proof {
            assert(fs@.take(i + 1).drop_last() =~= fs@.take(i as int));
            assert(fs@.take(i + 1).last() == fs@[i as int]);
        }
        let x = fs[i].duplicate();
        let s = weight(&x);
        let mut p: usize = 0;
        proof {
            assert(sorted@.skip(0) =~= sorted@);
        }
        while p < sorted.len() && weight(&sorted[p]) >= s
            invariant
                p <= sorted@.len(),
                s as nat == bloat_score(x),
                forall|k: int| 0 <= k < sorted@.len() ==> bloat_score(#[trigger] sorted@[k]) <= usize::MAX,
                heavier_prefix(sorted@, s as nat) == p + heavier_prefix(sorted@.skip(p as int), s as nat),
            decreases sorted.len() - p,
        {
            proof {
                assert(sorted@.skip(p as int)[0] == sorted@[p as int]);
                assert(sorted@.skip(p as int).drop_first() =~= sorted@.skip(p + 1));
            }
            p = p + 1;
        }
        proof {
            if p < sorted@.len() {
                assert(sorted@.skip(p as int)[0] == sorted@[p as int]);
            }
            assert(heavier_prefix(sorted@, s as nat) == p);
        }
        let ghost before = sorted@;
        sorted.insert(p, x);
        proof {
            assert forall|k: int| 0 <= k < sorted@.len() implies bloat_score(#[trigger] sorted@[k]) <= usize::MAX by {
                if k < p {
                    assert(sorted@[k] == before[k]);
                } else if k > p {
                    assert(sorted@[k] == before[k - 1]);
                }
            }
        }
        i = i + 1;
    }
    proof {
        assert(fs@.take(fs@.len() as int) =~= fs@);
    }
    let mut out: Vec<FileFinding> = Vec::new();
    let mut j: usize = 0;
    let ghost all = sorted@;
    proof {
        assert(all.take(0).filter(weighs()) =~= Seq::<FileFinding>::empty());
    }
    while j < sorted.len() && out.len() < 10
        invariant
            j <= all.len(),
            all == sorted@,
            forall|k: int| 0 <= k < all.len() ==> bloat_score(#[trigger] all[k]) <= usize::MAX,
            out@ == all.take(j as int).filter(weighs()),
            out@.len() <= 10,
        decreases sorted.len() - j,
    {
        proof {
            assert(all.take(j + 1).drop_last() =~= all.take(j as int));
            assert(all.take(j + 1).last() == all[j as int]);
            reveal(Seq::filter);
        }
        if weight(&sorted[j]) > 0 {
            out.push(sorted[j].duplicate());
        }
        j = j + 1;
    }
    proof {
        let weighty = all.filter(weighs());
        lemma_filter_prefix(all, j as int);
        if j < all.len() {
            assert(out@.len() == 10);
            assert(out@ =~= weighty.take(10));
        } else {
            assert(all.take(j as int) =~= all);
            assert(out@ =~= weighty);
        }
    }
    out
}

/// A prefix's filter is a prefix of the filter.
proof fn lemma_filter_prefix(s: Seq<FileFinding>, n: int)
    requires
        0 <= n <= s.len(),
    ensures
        s.take(n).filter(weighs()).len() <= s.filter(weighs()).len(),
        s.take(n).filter(weighs()) =~= s.filter(weighs()).take(s.take(n).filter(weighs()).len() as int),
    decreases s.len() - n,
{
    reveal(Seq::filter);
    if n < s.len() {
        lemma_filter_prefix(s, n + 1);
        let a = s.take(n).filter(weighs());
        let a1 = s.take(n + 1).filter(weighs());
        let b = s.filter(weighs());
        assert(s.take(n + 1).drop_last() =~= s.take(n));
        assert(s.take(n + 1).last() == s[n]);
        if weighs()(s[n]) {
            assert(a1 == a.push(s[n]));
            assert(a =~= b.take(a1.len() as int).take(a.len() as int));
        } else {
            assert(a1 == a);
        }
    } else {
        assert(s.take(n) =~= s);
    }
}

/// The views of a list of patterns.
pub open spec fn pattern_views(ps: Seq<String>) -> Seq<Seq<char>> {
    ps.map_values(|p: String| p@)
}

/// Scans a file's lines: tagged pending-work comments and secret
/// patterns are counted outside `#[cfg(test)]` modules.
fn scan_text(content: &str, patterns: &Vec<String>) -> (r: (usize, usize, usize))
    requires
        scan_lines(lines(content@), pattern_views(patterns@)).fits,
        lines(content@).len() * patterns@.len() <= usize::MAX,
    ensures
        r.0 as nat == lines(content@).len(),
        r.1 as nat == scan_lines(lines(content@), pattern_views(patterns@)).todo,
        r.2 as nat == scan_lines(lines(content@), pattern_views(patterns@)).secrets,
{
    let chars = chars_of(content);
    let ls = split_lines(&chars);
    let ghost lv = ls@.map_values(|l: Vec<char>| l@);
    let ghost pv = pattern_views(patterns@);
    let mut pats: Vec<Vec<char>> = Vec::new();
    let mut k: usize = 0;
    while k < patterns.len()
        invariant
            k <= patterns@.len(),
            pv == pattern_views(patterns@),
            pats@.len() == k,
            forall|j: int| 0 <= j < k ==> (#[trigger] pats@[j])@ == pv[j],
        decreases patterns.len() - k,
    {
        pats.push(chars_of(patterns[k].as_str()));
        k = k + 1;
    }
    proof {
        assert(pats@.map_values(|p: Vec<char>| p@) =~= pv);
    }
    let open_brace = vec!['{'];
    let close_brace = vec!['}'];
    let module = chars_of("mod ");
    let cfg = chars_of("#[cfg(test)]");
    let mut in_test = false;
    let mut saw = false;
    let mut depth: i32 = 0;
    let mut todo: usize = 0;
    let mut secrets: usize = 0;
    let mut i: usize = 0;
    proof {
        assert(lv.take(0) =~= Seq::<Seq<char>>::empty());
        assert(open_brace@ =~= seq!['{']);
        assert(close_brace@ =~= seq!['}']);
    }
    while i < ls.len()
        invariant
            i <= lv.len(),
            lv == ls@.map_values(|l: Vec<char>| l@),
            lv == lines(content@),
            pv == pattern_views(patterns@),
            pats@.map_values(|p: Vec<char>| p@) == pv,
            open_brace@ == seq!['{'],
            close_brace@ == seq!['}'],
            module@ == "mod "@,
            cfg@ == "#[cfg(test)]"@,
            scan_lines(lv, pv).fits,
            lv.len() * pv.len() <= usize::MAX,
            ({
                let st = scan_lines(lv.take(i as int), pv);
                &&& st.in_test == in_test
                &&& st.saw_cfg_test == saw
                &&& st.depth == depth as int
                &&& st.todo == todo as nat
                &&& st.secrets == secrets as nat
                &&& st.fits
            }),
        decreases ls.len() - i,
    {
        proof {
            assert(lv.take(i + 1).drop_last() =~= lv.take(i as int));
            assert(lv.take(i + 1).last() == ls@[i as int]@);
            lemma_fits_prefix(lv, pv, i + 1);
            lemma_scan_counts_bounded(lv.take(i + 1), pv);
            assert((i + 1) * pv.len() <= lv.len() * pv.len()) by (nonlinear_arith)
                requires i + 1 <= lv.len();
        }
        let line = &ls[i];
        let t = trimmed(line);
        let o = count_chars_in(&t, &open_brace);
        let c = count_chars_in(&t, &close_brace);
        if in_test {
            let up = depth as i64 + o as i64;
            let d = up - c as i64;
            proof {
                lemma_count_in_bounded(t@, seq!['{']);
                lemma_count_in_bounded(t@, seq!['}']);
            }
            depth = d as i32;
            if d <= 0 {
                in_test = false;
            }
        } else if saw && starts_with(&t, &module) {
            in_test = true;
            depth = (o as i64 - c as i64) as i32;
            saw = false;
        } else if t.len() > 0 {
            saw = starts_with(&t, &cfg);
        }
        if !in_test {
            if work_marker(line) {
                todo = todo + 1;
            }
            let h = count_pattern_hits(line, &pats);
            secrets = secrets + h;
        }
        i = i + 1;
    }
    proof {
        assert(lv.take(lv.len() as int) =~= lv);
    }
    (ls.len(), todo, secrets)
}

/// What `scan_file` finds for a file: its path and line count, its
/// pending-work markers and secret hits outside test modules, and what
/// its syntax tree counted (all zero, and marked, when it did not parse).
pub open spec fn scanned(r: FileFinding, path: Seq<char>, content: Seq<char>, patterns: Seq<Seq<char>>, ast: Option<AstCounts>) -> bool {
    &&& r.path@ == path
    &&& r.lines as nat == lines(content).len()
    &&& r.todo_markers as nat == scan_lines(lines(content), patterns).todo
    &&& r.secret_pattern_hits as nat == scan_lines(lines(content), patterns).secrets
    &&& r.parse_failed == (ast is None)
    &&& match ast {
        Some(a) => {
            &&& r.functions == a.functions
            &&& r.oversized_functions == a.oversized_functions
            &&& r.unwrap_calls == a.unwrap_calls
            &&& r.expect_calls == a.expect_calls
            &&& r.clone_calls == a.clone_calls
            &&& r.unsafe_blocks == a.unsafe_blocks
        },
        None => r.functions == 0 && r.oversized_functions == 0 && r.unwrap_calls == 0
            && r.expect_calls == 0 && r.clone_calls == 0 && r.unsafe_blocks == 0,
    }
}

/// Whether a file can be scanned: its brace counts and depths fit `i32`
/// and its possible secret hits fit `usize`.
pub open spec fn scannable(content: Seq<char>, patterns: Seq<Seq<char>>) -> bool {
    scan_lines(lines(content), patterns).fits && lines(content).len() * patterns.len() <= usize::MAX
}

/// Scans a file for whether its counts fit.
fn scan_fits(content: &str, patterns: &Vec<String>) -> (b: bool)
    ensures
        b == scannable(content@, pattern_views(patterns@)),
{
    let chars = chars_of(content);
    let ls = split_lines(&chars);
    let ghost lv = ls@.map_values(|l: Vec<char>| l@);
    let ghost pv = pattern_views(patterns@);
    proof {
        assert(ls@.map_values(|l: Vec<char>| l@).len() == ls@.len());
        assert(pv.len() == patterns@.len());
    }
    match ls.len().checked_mul(patterns.len()) {
        None => return false,
        Some(_) => {},
    }
    let open_brace = vec!['{'];
    let close_brace = vec!['}'];
    let module = chars_of("mod ");
    let cfg = chars_of("#[cfg(test)]");
    let mut in_test = false;
    let mut saw = false;
    let mut depth: i64 = 0;
    let mut i: usize = 0;
    proof {
        assert(lv.take(0) =~= Seq::<Seq<char>>::empty());
        assert(open_brace@ =~= seq!['{']);
        assert(close_brace@ =~= seq!['}']);
    }
    while i < ls.len()
        invariant
            i <= lv.len(),
            lv == ls@.map_values(|l: Vec<char>| l@),
            lv == lines(content@),
            pv == pattern_views(patterns@),
            open_brace@ == seq!['{'],
            close_brace@ == seq!['}'],
            module@ == "mod "@,
            cfg@ == "#[cfg(test)]"@,
            ({
                let st = scan_lines(lv.take(i as int), pv);
                &&& st.in_test == in_test
                &&& st.saw_cfg_test == saw
                &&& st.depth == depth as int
                &&& st.fits
                &&& fits_i32(st.depth)
            }),
        decreases ls.len() - i,
    {
        proof {
            assert(lv.take(i + 1).drop_last() =~= lv.take(i as int));
            assert(lv.take(i + 1).last() == ls@[i as int]@);
        }
        let line = &ls[i];
        let t = trimmed(line);
        let o = count_chars_in(&t, &open_brace);
        let c = count_chars_in(&t, &close_brace);
        let counts_fit = o <= 0x7fff_ffff && c <= 0x7fff_ffff;
        if in_test {
            if !counts_fit {
                proof { lemma_unfit_stays(lv, pv, i as int + 1); }
                return false;
            }
            let up = depth + o as i64;
            let d = up - c as i64;
            if up > 0x7fff_ffff || d < -0x8000_0000 {
                proof { lemma_unfit_stays(lv, pv, i as int + 1); }
                return false;
            }
            depth = d;
            if d <= 0 {
                in_test = false;
            }
        } else if saw && starts_with(&t, &module) {
            if !counts_fit {
                proof { lemma_unfit_stays(lv, pv, i as int + 1); }
                return false;
            }
            in_test = true;
            depth = o as i64 - c as i64;
            saw = false;
        } else if t.len() > 0 {
            saw = starts_with(&t, &cfg);
        }
        i = i + 1;
    }
    proof {
        assert(lv.take(lv.len() as int) =~= lv);
    }
    true
}

proof fn lemma_unfit_stays(ls: Seq<Seq<char>>, patterns: Seq<Seq<char>>, n: int)
    requires
        0 <= n <= ls.len(),
        !scan_lines(ls.take(n), patterns).fits,
    ensures
        !scan_lines(ls, patterns).fits,
{
    if scan_lines(ls, patterns).fits {
        lemma_fits_prefix(ls, patterns, n);
    }
}

proof fn lemma_fits_prefix(ls: Seq<Seq<char>>, patterns: Seq<Seq<char>>, n: int)
    requires
        0 <= n <= ls.len(),
        scan_lines(ls, patterns).fits,
    ensures
        scan_lines(ls.take(n), patterns).fits,
    decreases ls.len() - n,
{
    if n < ls.len() {
        lemma_fits_prefix(ls, patterns, n + 1);
        assert(ls.take(n + 1).drop_last() =~= ls.take(n));
    } else {
        assert(ls.take(n) =~= ls);
    }
}

/// The sum of a count over findings.
pub open spec fn total(fs: Seq<FileFinding>, count: spec_fn(FileFinding) -> nat) -> nat
    decreases fs.len(),
{
    if fs.len() == 0 { 0 } else { total(fs.drop_last(), count) + count(fs.last()) }
}

proof fn lemma_total_prefix(fs: Seq<FileFinding>, count: spec_fn(FileFinding) -> nat, n: int)
    requires
        0 <= n <= fs.len(),
    ensures
        total(fs.take(n), count) <= total(fs, count),
    decreases fs.len() - n,
{
    if n < fs.len() {
        lemma_total_prefix(fs, count, n + 1);
        assert(fs.take(n + 1).drop_last() =~= fs.take(n));
    } else {
        assert(fs.take(n) =~= fs);
    }
}

/// The counts a report totals, by name.
pub open spec fn count_lines() -> spec_fn(FileFinding) -> nat { |f: FileFinding| f.lines as nat }
pub open spec fn count_functions() -> spec_fn(FileFinding) -> nat { |f: FileFinding| f.functions as nat }
pub open spec fn count_oversized() -> spec_fn(FileFinding) -> nat { |f: FileFinding| f.oversized_functions as nat }
pub open spec fn count_unwrap() -> spec_fn(FileFinding) -> nat { |f: FileFinding| f.unwrap_calls as nat }
pub open spec fn count_expect() -> spec_fn(FileFinding) -> nat { |f: FileFinding| f.expect_calls as nat }
pub open spec fn count_clone() -> spec_fn(FileFinding) -> nat { |f: FileFinding| f.clone_calls as nat }
pub open spec fn count_unsafe() -> spec_fn(FileFinding) -> nat { |f: FileFinding| f.unsafe_blocks as nat }
pub open spec fn count_todo() -> spec_fn(FileFinding) -> nat { |f: FileFinding| f.todo_markers as nat }
pub open spec fn count_secrets() -> spec_fn(FileFinding) -> nat { |f: FileFinding| f.secret_pattern_hits as nat }
pub open spec fn count_failed() -> spec_fn(FileFinding) -> nat { |f: FileFinding| if f.parse_failed { 1nat } else { 0nat } }

/// Every total of the findings fits a `usize`, and so does every
/// finding's weight.
pub open spec fn totals_fit(fs: Seq<FileFinding>) -> bool {
    &&& total(fs, count_lines()) <= usize::MAX
    &&& total(fs, count_functions()) <= usize::MAX
    &&& total(fs, count_oversized()) <= usize::MAX
    &&& total(fs, count_unwrap()) <= usize::MAX
    &&& total(fs, count_expect()) <= usize::MAX
    &&& total(fs, count_clone()) <= usize::MAX
    &&& total(fs, count_unsafe()) <= usize::MAX
    &&& total(fs, count_todo()) <= usize::MAX
    &&& total(fs, count_secrets()) <= usize::MAX
    &&& forall|i: int| 0 <= i < fs.len() ==> bloat_score(#[trigger] fs[i]) <= usize::MAX
}

/// The audit of a source tree.
#[derive(Debug, Clone)]
pub struct BloatAuditReport {
    pub files_scanned: usize,
    pub files_failed_to_parse: usize,
    pub total_lines: usize,
    pub total_functions: usize,
    pub oversized_functions: usize,
    pub total_unwrap_calls: usize,
    pub total_expect_calls: usize,
    pub total_clone_calls: usize,
    pub total_unsafe_blocks: usize,
    pub total_todo_markers: usize,
    pub total_secret_pattern_hits: usize,
    pub target_dir_bytes: u64,
    pub target_dir_file_count: usize,
    pub threads_used: usize,
    pub elapsed_ms: u128,
    pub worst_offenders: Vec<FileFinding>,
}

/// The report line for one offender.
pub open spec fn offender_line(f: FileFinding) -> Seq<char> {
    "- `"@ + f.path@ + "`: "@ + decimal(f.lines as nat) + " lines, "@ + decimal(f.oversized_functions as nat)
        + " oversized fns, "@ + decimal(f.unwrap_calls as nat) + " unwrap, "@ + decimal(f.clone_calls as nat)
        + " clone, "@ + decimal(f.unsafe_blocks as nat) + " unsafe, "@ + decimal(f.secret_pattern_hits as nat)
        + " secret hits\n"@
}

/// The report lines for the offenders, in order.
pub open spec fn offender_lines(ws: Seq<FileFinding>) -> Seq<char>
    decreases ws.len(),
{
    if ws.len() == 0 { Seq::empty() } else { offender_lines(ws.drop_last()) + offender_line(ws.last()) }
}

/// The rendered report, given the build directory's size as shown in
/// gigabytes.
pub open spec fn rendered_report(r: BloatAuditReport, target_gb: Seq<char>) -> Seq<char> {
    "# SUSI Bloat & Security Audit (AST + rayon parallel, Mandate 3)\n\n"@
        + "- **Files Scanned**: "@ + decimal(r.files_scanned as nat) + " ("@ + decimal(r.files_failed_to_parse as nat) + " failed to parse)\n"@
        + "- **Total Lines**: "@ + decimal(r.total_lines as nat) + "\n"@
        + "- **Threads Used**: "@ + decimal(r.threads_used as nat) + " | **Elapsed**: "@ + decimal(r.elapsed_ms as nat) + "ms\n"@
        + "- **Functions**: "@ + decimal(r.total_functions as nat) + " ("@ + decimal(r.oversized_functions as nat) + " oversized > 60 statements)\n"@
        + "- **.unwrap() / .expect() / .clone() calls**: "@ + decimal(r.total_unwrap_calls as nat) + " / "@
            + decimal(r.total_expect_calls as nat) + " / "@ + decimal(r.total_clone_calls as nat) + "\n"@
        + "- **unsafe blocks**: "@ + decimal(r.total_unsafe_blocks as nat) + "\n"@
        + "- **TODO/FIXME markers**: "@ + decimal(r.total_todo_markers as nat) + "\n"@
        + "- **Secret Pattern Hits (Security)**: "@ + decimal(r.total_secret_pattern_hits as nat) + "\n"@
        + "- **target/ Build Artifact Bloat**: "@ + target_gb + "GB across "@ + decimal(r.target_dir_file_count as nat) + " files\n"@
        + if r.worst_offenders@.len() == 0 {
            "\nNo files exceeded bloat thresholds.\n"@
        } else {
            "\n### Worst Offenders\n"@ + offender_lines(r.worst_offenders@)
        }
}

/// The secret-pattern hits over a file's lines (test modules included).
pub open spec fn line_hits(ls: Seq<Seq<char>>, patterns: Seq<Seq<char>>) -> nat
    decreases ls.len(),
{
    if ls.len() == 0 { 0 } else { line_hits(ls.drop_last(), patterns) + pattern_hits(ls.last(), patterns) }
}

/// The files (path and hit count) whose lines hit a secret pattern, in
/// order.
pub open spec fn secret_files(files: Seq<(String, String)>, patterns: Seq<Seq<char>>) -> Seq<(Seq<char>, nat)>
    decreases files.len(),
{
    if files.len() == 0 {
        Seq::empty()
    } else {
        let (path, content) = files.last();
        let h = line_hits(lines(content@), patterns);
        secret_files(files.drop_last(), patterns) + if h > 0 { seq![(path@, h)] } else { Seq::empty() }
    }
}

proof fn lemma_line_hits_bounded(ls: Seq<Seq<char>>, patterns: Seq<Seq<char>>)
    ensures
        line_hits(ls, patterns) <= ls.len() * patterns.len(),
    decreases ls.len(),
{
    if ls.len() > 0 {
        lemma_line_hits_bounded(ls.drop_last(), patterns);
        lemma_pattern_hits_bounded(ls.last(), patterns);
        assert((ls.len() - 1) * patterns.len() + patterns.len() == ls.len() * patterns.len()) by (nonlinear_arith);
    }
}

/// The deterministic, syntax-tree-backed audit of the substrate's sources.
pub struct BloatAuditor;

impl BloatAuditor {
    /// The report over the files' findings: their totals, the build
    /// directory's size, the parallelism and time taken, and the worst
    /// offenders (the ten heaviest that weigh anything, heaviest first).
    pub fn compile_report(
        findings: &Vec<FileFinding>,
        target_dir_bytes: u64,
        target_dir_file_count: usize,
        threads_used: usize,
        elapsed_ms: u128,
    ) -> (r: BloatAuditReport)
        requires
            totals_fit(findings@),
        ensures
            r.files_scanned == findings@.len(),
            r.files_failed_to_parse as nat == total(findings@, count_failed()),
            r.total_lines as nat == total(findings@, count_lines()),
            r.total_functions as nat == total(findings@, count_functions()),
            r.oversized_functions as nat == total(findings@, count_oversized()),
            r.total_unwrap_calls as nat == total(findings@, count_unwrap()),
            r.total_expect_calls as nat == total(findings@, count_expect()),
            r.total_clone_calls as nat == total(findings@, count_clone()),
            r.total_unsafe_blocks as nat == total(findings@, count_unsafe()),
            r.total_todo_markers as nat == total(findings@, count_todo()),
            r.total_secret_pattern_hits as nat == total(findings@, count_secrets()),
            r.target_dir_bytes == target_dir_bytes,
            r.target_dir_file_count == target_dir_file_count,
            r.threads_used == threads_used,
            r.elapsed_ms == elapsed_ms,
            r.worst_offenders@ == worst_offenders(findings@),
    {
        let ghost fs = findings@;
        let mut failed: usize = 0;
        let mut n_lines: usize = 0;
        let mut functions: usize = 0;
        let mut oversized: usize = 0;
        let mut unwraps: usize = 0;
        let mut expects: usize = 0;
        let mut clones: usize = 0;
        let mut unsafes: usize = 0;
        let mut todos: usize = 0;
        let mut secrets: usize = 0;
        let mut i: usize = 0;
        proof {
            assert(fs.take(0) =~= Seq::<FileFinding>::empty());
        }
        while i < findings.len()
            invariant
                i <= fs.len(),
                fs == findings@,
                totals_fit(fs),
                failed as nat == total(fs.take(i as int), count_failed()),
                failed <= i,
                n_lines as nat == total(fs.take(i as int), count_lines()),
                functions as nat == total(fs.take(i as int), count_functions()),
                oversized as nat == total(fs.take(i as int), count_oversized()),
                unwraps as nat == total(fs.take(i as int), count_unwrap()),
                expects as nat == total(fs.take(i as int), count_expect()),
                clones as nat == total(fs.take(i as int), count_clone()),
                unsafes as nat == total(fs.take(i as int), count_unsafe()),
                todos as nat == total(fs.take(i as int), count_todo()),
                secrets as nat == total(fs.take(i as int), count_secrets()),
            decreases findings.len() - i,
        {
            proof {
                let next = fs.take(i + 1);
                assert(next.drop_last() =~= fs.take(i as int));
                assert(next.last() == fs[i as int]);
                lemma_total_prefix(fs, count_lines(), i + 1);
                lemma_total_prefix(fs, count_functions(), i + 1);
                lemma_total_prefix(fs, count_oversized(), i + 1);
                lemma_total_prefix(fs, count_unwrap(), i + 1);
                lemma_total_prefix(fs, count_expect(), i + 1);
                lemma_total_prefix(fs, count_clone(), i + 1);
                lemma_total_prefix(fs, count_unsafe(), i + 1);
                lemma_total_prefix(fs, count_todo(), i + 1);
                lemma_total_prefix(fs, count_secrets(), i + 1);
            }
            let f = &findings[i];
            if f.parse_failed {
                failed = failed + 1;
            }
            n_lines = n_lines + f.lines;
            functions = functions + f.functions;
            oversized = oversized + f.oversized_functions;
            unwraps = unwraps + f.unwrap_calls;
            expects = expects + f.expect_calls;
            clones = clones + f.clone_calls;
            unsafes = unsafes + f.unsafe_blocks;
            todos = todos + f.todo_markers;
            secrets = secrets + f.secret_pattern_hits;
            i = i + 1;
        }
        proof {
            assert(fs.take(fs.len() as int) =~= fs);
        }
        let worst = rank_offenders(findings);
        BloatAuditReport {
            files_scanned: findings.len(),
            files_failed_to_parse: failed,
            total_lines: n_lines,
            total_functions: functions,
            oversized_functions: oversized,
            total_unwrap_calls: unwraps,
            total_expect_calls: expects,
            total_clone_calls: clones,
            total_unsafe_blocks: unsafes,
            total_todo_markers: todos,
            total_secret_pattern_hits: secrets,
            target_dir_bytes,
            target_dir_file_count,
            threads_used,
            elapsed_ms,
            worst_offenders: worst,
        }
    }

    /// The report as text, given the build directory's size as shown in
    /// gigabytes.
    pub fn render_report(report: &BloatAuditReport, target_gb: &str) -> (r: String)
        ensures
            r@ == rendered_report(*report, target_gb@),
    {
        let mut out = String::new();
        push_str(&mut out, "# SUSI Bloat & Security Audit (AST + rayon parallel, Mandate 3)\n\n");
        push_str(&mut out, "- **Files Scanned**: ");
        push_decimal(&mut out, report.files_scanned as u64);
        push_str(&mut out, " (");
        push_decimal(&mut out, report.files_failed_to_parse as u64);
        push_str(&mut out, " failed to parse)\n");
        push_str(&mut out, "- **Total Lines**: ");
        push_decimal(&mut out, report.total_lines as u64);
        push_str(&mut out, "\n");
        push_str(&mut out, "- **Threads Used**: ");
        push_decimal(&mut out, report.threads_used as u64);
        push_str(&mut out, " | **Elapsed**: ");
        push_str(&mut out, decimal_string_wide(report.elapsed_ms).as_str());
        push_str(&mut out, "ms\n");
        push_str(&mut out, "- **Functions**: ");
        push_decimal(&mut out, report.total_functions as u64);
        push_str(&mut out, " (");
        push_decimal(&mut out, report.oversized_functions as u64);
        push_str(&mut out, " oversized > 60 statements)\n");
        push_str(&mut out, "- **.unwrap() / .expect() / .clone() calls**: ");
        push_decimal(&mut out, report.total_unwrap_calls as u64);
        push_str(&mut out, " / ");
        push_decimal(&mut out, report.total_expect_calls as u64);
        push_str(&mut out, " / ");
        push_decimal(&mut out, report.total_clone_calls as u64);
        push_str(&mut out, "\n");
        push_str(&mut out, "- **unsafe blocks**: ");
        push_decimal(&mut out, report.total_unsafe_blocks as u64);
        push_str(&mut out, "\n");
        push_str(&mut out, "- **TODO/FIXME markers**: ");
        push_decimal(&mut out, report.total_todo_markers as u64);
        push_str(&mut out, "\n");
        push_str(&mut out, "- **Secret Pattern Hits (Security)**: ");
        push_decimal(&mut out, report.total_secret_pattern_hits as u64);
        push_str(&mut out, "\n");
        push_str(&mut out, "- **target/ Build Artifact Bloat**: ");
        push_str(&mut out, target_gb);
        push_str(&mut out, "GB across ");
        push_decimal(&mut out, report.target_dir_file_count as u64);
        push_str(&mut out, " files\n");
        let ghost head = out@;
        if report.worst_offenders.len() == 0 {
            push_str(&mut out, "\nNo files exceeded bloat thresholds.\n");
        } else {
            push_str(&mut out, "\n### Worst Offenders\n");
            let ghost start = out@;
            let ws = &report.worst_offenders;
            let mut i: usize = 0;
            proof {
                assert(ws@.take(0) =~= Seq::<FileFinding>::empty());
            }
            while i < ws.len()
                invariant
                    i <= ws@.len(),
                    out@ == start + offender_lines(ws@.take(i as int)),
                decreases ws.len() - i,
            {
                proof {
                    assert(ws@.take(i + 1).drop_last() =~= ws@.take(i as int));
                    assert(ws@.take(i + 1).last() == ws@[i as int]);
                }
                let f = &ws[i];
                let ghost before = out@;
                push_str(&mut out, "- `");
                push_str(&mut out, f.path.as_str());
                push_str(&mut out, "`: ");
                push_decimal(&mut out, f.lines as u64);
                push_str(&mut out, " lines, ");
                push_decimal(&mut out, f.oversized_functions as u64);
                push_str(&mut out, " oversized fns, ");
                push_decimal(&mut out, f.unwrap_calls as u64);
                push_str(&mut out, " unwrap, ");
                push_decimal(&mut out, f.clone_calls as u64);
                push_str(&mut out, " clone, ");
                push_decimal(&mut out, f.unsafe_blocks as u64);
                push_str(&mut out, " unsafe, ");
                push_decimal(&mut out, f.secret_pattern_hits as u64);
                push_str(&mut out, " secret hits\n");
                proof {
                    assert(out@ =~= before + offender_line(*f));
                }
                i = i + 1;
            }
            proof {
                assert(ws@.take(ws@.len() as int) =~= ws@);
            }
        }
        proof {
            assert(out@ =~= rendered_report(*report, target_gb@));
        }
        out
    }

    /// The files (relative path and text) whose lines hold secret
    /// patterns, with their hit counts: each line counts once per
    /// non-empty pattern it contains.
    pub fn collect_secret_hits(files: &Vec<(String, String)>, patterns: &Vec<String>) -> (r: Vec<(String, usize)>)
        requires
            forall|i: int| 0 <= i < files@.len() ==> lines((#[trigger] files@[i]).1@).len() * patterns@.len() <= usize::MAX,
        ensures
            r@.map_values(|x: (String, usize)| (x.0@, x.1 as nat)) == secret_files(files@, pattern_views(patterns@)),
    {
        let ghost pv = pattern_views(patterns@);
        let mut pats: Vec<Vec<char>> = Vec::new();
        let mut k: usize = 0;
        while k < patterns.len()
            invariant
                k <= patterns@.len(),
                pv == pattern_views(patterns@),
                pats@.len() == k,
                forall|j: int| 0 <= j < k ==> (#[trigger] pats@[j])@ == pv[j],
            decreases patterns.len() - k,
        {
            pats.push(chars_of(patterns[k].as_str()));
            k = k + 1;
        }
        proof {
            assert(pats@.map_values(|p: Vec<char>| p@) =~= pv);
        }
        let mut out: Vec<(String, usize)> = Vec::new();
        let mut i: usize = 0;
        proof {
            assert(files@.take(0) =~= Seq::<(String, String)>::empty());
            assert(out@.map_values(|x: (String, usize)| (x.0@, x.1 as nat)) =~= Seq::<(Seq<char>, nat)>::empty());
        }
        while i < files.len()
            invariant
                i <= files@.len(),
                pv == pattern_views(patterns@),
                pats@.map_values(|p: Vec<char>| p@) == pv,
                forall|j: int| 0 <= j < files@.len() ==> lines((#[trigger] files@[j]).1@).len() * patterns@.len() <= usize::MAX,
                out@.map_values(|x: (String, usize)| (x.0@, x.1 as nat)) == secret_files(files@.take(i as int), pv),
            decreases files.len() - i,
        {
            proof {
                assert(files@.take(i + 1).drop_last() =~= files@.take(i as int));
                assert(files@.take(i + 1).last() == files@[i as int]);
            }
            let (path, content) = &files[i];
            let ls = split_lines(&chars_of(content.as_str()));
            let ghost lv = ls@.map_values(|l: Vec<char>| l@);
            let mut hits: usize = 0;
            let mut j: usize = 0;
            proof {
                assert(lv.take(0) =~= Seq::<Seq<char>>::empty());
                assert(lv.len() * pv.len() <= usize::MAX);
            }
            while j < ls.len()
                invariant
                    j <= lv.len(),
                    lv == ls@.map_values(|l: Vec<char>| l@),
                    lv.len() * pv.len() <= usize::MAX,
                    pats@.map_values(|p: Vec<char>| p@) == pv,
                    hits as nat == line_hits(lv.take(j as int), pv),
                decreases ls.len() - j,
            {
                proof {
                    assert(lv.take(j + 1).drop_last() =~= lv.take(j as int));
                    assert(lv.take(j + 1).last() == ls@[j as int]@);
                    lemma_line_hits_bounded(lv.take(j + 1), pv);
                    assert((j + 1) * pv.len() <= lv.len() * pv.len()) by (nonlinear_arith)
                        requires j + 1 <= lv.len();
                }
                hits = hits + count_pattern_hits(&ls[j], &pats);
                j = j + 1;
            }
            proof {
                assert(lv.take(lv.len() as int) =~= lv);
            }
            let ghost before = out@.map_values(|x: (String, usize)| (x.0@, x.1 as nat));
            if hits > 0 {
                out.push((path.clone(), hits));
                proof {
                    assert(out@.map_values(|x: (String, usize)| (x.0@, x.1 as nat)) =~= before.push((path@, hits as nat)));
                }
            }
            proof {
                assert(out@.map_values(|x: (String, usize)| (x.0@, x.1 as nat)) =~= secret_files(files@.take(i + 1), pv));
            }
            i = i + 1;
        }
        proof {
            assert(files@.take(files@.len() as int) =~= files@);
        }
        out
    }

    /// A file's findings: its line count, its pending-work markers and
    /// secret hits outside test modules, and what its syntax tree counted
    /// (all zero, and marked, when it did not parse).
    pub fn scan_file(path: &str, content: &str, secret_patterns: &Vec<String>, ast: Option<AstCounts>) -> (r: FileFinding)
        requires
            scan_lines(lines(content@), pattern_views(secret_patterns@)).fits,
            lines(content@).len() * secret_patterns@.len() <= usize::MAX,
        ensures
            scanned(r, path@, content@, pattern_views(secret_patterns@), ast),
    {
        let (n_lines, todo, secrets) = scan_text(content, secret_patterns);
        let a = match ast {
            Some(a) => a,
            None => AstCounts { functions: 0, oversized_functions: 0, unwrap_calls: 0, expect_calls: 0, clone_calls: 0, unsafe_blocks: 0 },
        };
        FileFinding {
            path: String::from_str(path),
            lines: n_lines,
            functions: a.functions,
            oversized_functions: a.oversized_functions,
            unwrap_calls: a.unwrap_calls,
            expect_calls: a.expect_calls,
            clone_calls: a.clone_calls,
            unsafe_blocks: a.unsafe_blocks,
            todo_markers: todo,
            secret_pattern_hits: secrets,
            parse_failed: ast.is_none(),
        }
    }

    /// A file's findings when its counts can be scanned (brace counts and
    /// depths fit `i32`, possible secret hits fit `usize`); none otherwise.
    pub fn try_scan_file(path: &str, content: &str, secret_patterns: &Vec<String>, ast: Option<AstCounts>) -> (r: Option<FileFinding>)
        ensures
            r is Some <==> scannable(content@, pattern_views(secret_patterns@)),
            r matches Some(f) ==> scanned(f, path@, content@, pattern_views(secret_patterns@), ast),
    {
        if scan_fits(content, secret_patterns) {
            Some(Self::scan_file(path, content, secret_patterns, ast))
        } else {
            None
        }
    }

    /// The counts of a syntax walk: each function, those over the statement
    /// limit, each `unwrap`, `expect` and `clone` call, and the `unsafe`
    /// blocks.
    pub fn ast_counts(s: &SyntaxSummary) -> (a: AstCounts)
        ensures
            a == summary_counts(*s),
    {
        let ghost calls = s.method_calls@.map_values(|c: String| c@);
        let mut oversized: usize = 0;
        let mut i: usize = 0;
        proof {
            assert(s.fn_statements@.take(0) =~= Seq::<usize>::empty());
        }
        while i < s.fn_statements.len()
            invariant
                i <= s.fn_statements@.len(),
                oversized as nat == count_oversized_fns(s.fn_statements@.take(i as int)),
            decreases s.fn_statements.len() - i,
        {
            proof {
                assert(s.fn_statements@.take(i + 1).drop_last() =~= s.fn_statements@.take(i as int));
                lemma_count_oversized_bounded(s.fn_statements@.take(i as int));
            }
            if s.fn_statements[i] > MAX_STATEMENTS_PER_FN {
                oversized = oversized + 1;
            }
            i = i + 1;
        }
        proof {
            assert(s.fn_statements@.take(i as int) =~= s.fn_statements@);
        }
        let mut unwraps: usize = 0;
        let mut expects: usize = 0;
        let mut clones: usize = 0;
        let mut j: usize = 0;
        proof {
            assert(calls.take(0) =~= Seq::<Seq<char>>::empty());
        }
        while j < s.method_calls.len()
            invariant
                j <= s.method_calls@.len(),
                calls == s.method_calls@.map_values(|c: String| c@),
                unwraps as nat == count_named(calls.take(j as int), "unwrap"@),
                expects as nat == count_named(calls.take(j as int), "expect"@),
                clones as nat == count_named(calls.take(j as int), "clone"@),
            decreases s.method_calls.len() - j,
        {
            proof {
                assert(calls.take(j + 1).drop_last() =~= calls.take(j as int));
                assert(calls.take(j + 1).last() == s.method_calls@[j as int]@);
                lemma_count_named_bounded(calls.take(j as int), "unwrap"@);
                lemma_count_named_bounded(calls.take(j as int), "expect"@);
                lemma_count_named_bounded(calls.take(j as int), "clone"@);
            }
            let c = chars_of(s.method_calls[j].as_str());
            if equals_str(&c, "unwrap") {
                unwraps = unwraps + 1;
            }
            if equals_str(&c, "expect") {
                expects = expects + 1;
            }
            if equals_str(&c, "clone") {
                clones = clones + 1;
            }
            j = j + 1;
        }
        proof {
            assert(calls.take(j as int) =~= calls);
        }
        AstCounts {
            functions: s.fn_statements.len(),
            oversized_functions: oversized,
            unwrap_calls: unwraps,
            expect_calls: expects,
            clone_calls: clones,
            unsafe_blocks: s.unsafe_blocks,
        }
    }

    /// A source file's findings: the line scan, and, when `syn` parses the
    /// file, the counts of the syntax walk `summary` reports; a file that
    /// does not parse is marked so, with no syntax counts. None when the
    /// line scan's counts cannot be held.
    pub fn scan_source(path: &str, content: &str, secret_patterns: &Vec<String>, summary: &SyntaxSummary) -> (r: Option<FileFinding>)
        ensures
            r is Some <==> scannable(content@, pattern_views(secret_patterns@)),
            r matches Some(f) ==> f.parse_failed == !parses_as_rust(content@)
                && scanned(f, path@, content@, pattern_views(secret_patterns@),
                    if parses_as_rust(content@) { Some(summary_counts(*summary)) } else { None }),
    {
        let ast = if parse_rust(content) { Some(Self::ast_counts(summary)) } else { None };
        Self::try_scan_file(path, content, secret_patterns, ast)
    }
}

} // verus!
