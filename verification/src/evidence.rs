//! The evidence ledger: reading its `EV-` identifiers and staging a new
//! natural-language intent in it.
use vstd::prelude::*;
use crate::admin::{
    all_digits, digits_value, terminated, lemma_terminated_contains, lemma_contains_trans,
    intent_class, action_text, class_labels, SusiAdmin,
};
use crate::text::{
    seq_contains, seq_starts_with, trim, split_in, split_at_any, trimmed, starts_with, chars_of,
    contains_str, contains, lowercase, lines, split_lines, decimal, decimal_string, string_of,
    lower_chars, trimmed_lower, push_str, push_char, occurs_at,
};

verus! {

/// What `str::parse::<usize>` accepts: an optional `+` before a non-empty
/// run of ASCII digits whose value fits a `usize`; the value it gives.
pub open spec fn parsed_usize(s: Seq<char>) -> Option<nat> {
    let d = if s.len() > 1 && s[0] == '+' { s.drop_first() } else { s };
    if d.len() > 0 && all_digits(d) && digits_value(d) <= usize::MAX {
        Some(digits_value(d))
    } else {
        None
    }
}

/// `a` comes after `b` in the order of `str`'s `<`: lexicographic by
/// character (UTF-8 byte order and code point order agree).
pub open spec fn lex_greater(a: Seq<char>, b: Seq<char>) -> bool
    decreases a.len(),
{
    if a.len() == 0 {
        false
    } else if b.len() == 0 {
        true
    } else if a[0] != b[0] {
        (a[0] as u32) > (b[0] as u32)
    } else {
        lex_greater(a.drop_first(), b.drop_first())
    }
}

/// The suffix and index parts of the ledger identifier a line carries: a
/// line that mentions `EV-` whose second `|` cell, trimmed, starts with
/// `EV-` and has at least three `-` pieces.
pub open spec fn ev_token(line: Seq<char>) -> Option<(Seq<char>, Seq<char>)> {
    let parts = split_in(line, seq!['|']);
    if seq_contains(line, "EV-"@) && parts.len() > 1 {
        let token = trim(parts[1]);
        let sub = split_in(token, seq!['-']);
        if seq_starts_with(token, "EV-"@) && sub.len() >= 3 {
            Some((sub[1], sub[2]))
        } else {
            None
        }
    } else {
        None
    }
}

pub(crate) proof fn lemma_digits_value_prefix(s: Seq<char>, j: int, k: int)
    requires
        0 <= j <= k <= s.len(),
    ensures
        digits_value(s.take(j)) <= digits_value(s.take(k)),
    decreases k - j,
{
    if j < k {
        lemma_digits_value_prefix(s, j, k - 1);
        assert(s.take(k).drop_last() =~= s.take(k - 1));
    }
}

/// Parses a `usize` as `str::parse::<usize>` does.
pub fn parse_usize(s: &Vec<char>) -> (r: Option<usize>)
    ensures
        match parsed_usize(s@) {
            Some(v) => r == Some(v as usize),
            None => r is None,
        },
{
    let start: usize = if s.len() > 1 && s[0] == '+' { 1 } else { 0 };
    let ghost d = if s@.len() > 1 && s@[0] == '+' { s@.drop_first() } else { s@ };
    proof {
        assert(d =~= s@.skip(start as int));
        assert(parsed_usize(s@) == (if d.len() > 0 && all_digits(d) && digits_value(d) <= usize::MAX {
            Some(digits_value(d))
        } else {
            None
        }));
    }
    if start >= s.len() {
        return None;
    }
    let mut v: usize = 0;
    let mut i: usize = start;
    proof {
        assert(d.take(0) =~= Seq::<char>::empty());
    }
    while i < s.len()
        invariant
            start <= i <= s@.len(),
            d =~= s@.skip(start as int),
            parsed_usize(s@) == (if d.len() > 0 && all_digits(d) && digits_value(d) <= usize::MAX {
                Some(digits_value(d))
            } else {
                None
            }),
            all_digits(d.take(i - start)),
            v as nat == digits_value(d.take(i - start)),
        decreases s.len() - i,
    {
        let c = s[i];
        let ghost k: int = i - start;
        proof {
            assert(d[k] == c);
            assert(d.take(k + 1).drop_last() =~= d.take(k));
        }
        if !('0' <= c && c <= '9') {
            proof {
                assert(!('0' <= d[k] <= '9'));
            }
            return None;
        }
        let digit: usize = (c as u32 - 48) as usize;
        proof {
            assert(d.take(k + 1).last() == c);
            assert(digits_value(d.take(k + 1)) == v * 10 + digit);
        }
        match v.checked_mul(10) {
            None => {
                proof {
                    lemma_digits_value_prefix(d, k + 1, d.len() as int);
                    assert(d.take(d.len() as int) =~= d);
                }
                return None;
            },
            Some(t) => match t.checked_add(digit) {
                None => {
                    proof {
                        lemma_digits_value_prefix(d, k + 1, d.len() as int);
                        assert(d.take(d.len() as int) =~= d);
                    }
                    return None;
                },
                Some(w) => {
                    v = w;
                },
            },
        }
        i = i + 1;
    }
    proof {
        assert(d.take(d.len() as int) =~= d);
    }
    Some(v)
}

/// Whether `a` comes after `b` in `str` order.
pub fn is_lex_greater(a: &Vec<char>, b: &Vec<char>) -> (r: bool)
    ensures
        r == lex_greater(a@, b@),
{
    let mut i: usize = 0;
    proof {
        assert(a@.skip(0) =~= a@);
        assert(b@.skip(0) =~= b@);
    }
    while i < a.len() && i < b.len() && a[i] == b[i]
        invariant
            i <= a@.len(),
            i <= b@.len(),
            lex_greater(a@, b@) == lex_greater(a@.skip(i as int), b@.skip(i as int)),
        decreases a.len() - i,
    {
        proof {
            assert(a@.skip(i as int).drop_first() =~= a@.skip(i + 1));
            assert(b@.skip(i as int).drop_first() =~= b@.skip(i + 1));
        }
        i = i + 1;
    }
    if i >= a.len() {
        false
    } else if i >= b.len() {
        true
    } else {
        (a[i] as u32) > (b[i] as u32)
    }
}

/// The suffix and index parts of a line's ledger identifier.
pub fn ev_token_of(line: &Vec<char>) -> (r: Option<(Vec<char>, Vec<char>)>)
    ensures
        match ev_token(line@) {
            Some((s, x)) => r matches Some((a, b)) && a@ == s && b@ == x,
            None => r is None,
        },
{
    if !contains_str(line, "EV-") {
        return None;
    }
    let bar = vec!['|'];
    let parts = split_at_any(line, &bar);
    proof {
        assert(bar@ =~= seq!['|']);
        assert(parts@.len() == split_in(line@, seq!['|']).len());
    }
    if parts.len() <= 1 {
        return None;
    }
    proof {
        assert(parts@[1]@ == split_in(line@, seq!['|'])[1]);
    }
    let token = trimmed(&parts[1]);
    let ev = chars_of("EV-");
    if !starts_with(&token, &ev) {
        return None;
    }
    let dash = vec!['-'];
    let sub = split_at_any(&token, &dash);
    proof {
        assert(dash@ =~= seq!['-']);
        assert(sub@.len() == split_in(token@, seq!['-']).len());
    }
    if sub.len() < 3 {
        return None;
    }
    proof {
        assert(sub@[1]@ == split_in(token@, seq!['-'])[1]);
        assert(sub@[2]@ == split_in(token@, seq!['-'])[2]);
    }
    Some((sub[1].clone(), sub[2].clone()))
}

/// The greatest ledger suffix among the lines (in `str` order), starting
/// from `2022920`.
pub open spec fn ledger_suffix(ls: Seq<Seq<char>>) -> Seq<char>
    decreases ls.len(),
{
    if ls.len() == 0 {
        "2022920"@
    } else {
        let prev = ledger_suffix(ls.drop_last());
        match ev_token(ls.last()) {
            Some((s, _)) => if lex_greater(s, prev) { s } else { prev },
            None => prev,
        }
    }
}

/// The greatest ledger index among the lines whose index part parses
/// (zero when none does).
pub open spec fn ledger_index(ls: Seq<Seq<char>>) -> nat
    decreases ls.len(),
{
    if ls.len() == 0 {
        0
    } else {
        let prev = ledger_index(ls.drop_last());
        match ev_token(ls.last()) {
            Some((_, x)) => match parsed_usize(x) {
                Some(v) => if v > prev { v } else { prev },
                None => prev,
            },
            None => prev,
        }
    }
}

/// The index a line of the ledger carries, if it carries one that parses.
pub open spec fn line_index(line: Seq<char>) -> Option<nat> {
    match ev_token(line) {
        Some((_, x)) => parsed_usize(x),
        None => None,
    }
}

/// Decimal digits padded with zeros on the left to width three, as
/// `{:03}` writes them.
pub open spec fn padded3(d: Seq<char>) -> Seq<char> {
    if d.len() >= 3 {
        d
    } else {
        Seq::new((3 - d.len()) as nat, |_i: int| '0') + d
    }
}

/// The ledger identifier for a suffix and an index.
pub open spec fn ledger_id(suffix: Seq<char>, index: nat) -> Seq<char> {
    "EV-"@ + suffix + "-"@ + padded3(decimal(index))
}

/// The ledger row staging an intent under an identifier and a tag.
pub open spec fn ledger_entry(id: Seq<char>, tag: Seq<char>, intent: Seq<char>) -> Seq<char> {
    "| "@ + id + " | "@ + tag + " | "@ + intent + " | [manual](symbol://manual) | STAGED |"@
}

/// A heading that opens the pending section of the ledger.
pub open spec fn is_pending_heading(line: Seq<char>) -> bool {
    seq_contains(line, "## 1. Sovereign Ledger (The Monotonic Proof)"@) || seq_contains(line, "## 1. Pending"@)
}

/// A line of the table head (or a blank or rule line) that a new row goes
/// after.
pub open spec fn is_table_head(line: Seq<char>) -> bool {
    let t = trim(line);
    t.len() == 0 || seq_starts_with(t, "---"@) || seq_starts_with(t, "| ID"@) || seq_starts_with(t, "| :---"@)
}

/// The first pending heading at or after `i`.
pub open spec fn pending_heading_from(ls: Seq<Seq<char>>, i: int) -> Option<int>
    decreases ls.len() - i,
{
    if i < 0 || i >= ls.len() {
        None
    } else if is_pending_heading(ls[i]) {
        Some(i)
    } else {
        pending_heading_from(ls, i + 1)
    }
}

/// The first position at or after `i` that is not a table-head line.
pub open spec fn past_table_head(ls: Seq<Seq<char>>, i: int) -> int
    decreases ls.len() - i,
{
    if 0 <= i < ls.len() && is_table_head(ls[i]) {
        past_table_head(ls, i + 1)
    } else {
        i
    }
}

/// Where a new row goes: past the table head that follows the first
/// pending heading, or at the end when there is none.
pub open spec fn staging_position(ls: Seq<Seq<char>>) -> int {
    match pending_heading_from(ls, 0) {
        Some(h) => past_table_head(ls, h + 1),
        None => ls.len() as int,
    }
}

/// Lines joined by newlines.
pub open spec fn joined(ls: Seq<Seq<char>>) -> Seq<char> {
    if ls.len() == 0 {
        Seq::empty()
    } else {
        terminated(ls.drop_last()) + ls.last()
    }
}

/// Joining one more line adds a newline (when there were lines) and the
/// line.
pub proof fn lemma_joined_push(ls: Seq<Seq<char>>, x: Seq<char>)
    ensures
        joined(ls.push(x)) == if ls.len() == 0 { x } else { joined(ls) + "\n"@ + x },
{
    assert(ls.push(x).drop_last() =~= ls);
    if ls.len() > 0 {
        assert(ls.drop_last().push(ls.last()) =~= ls);
        assert(terminated(ls) == terminated(ls.drop_last()) + ls.last() + "\n"@);
        assert(joined(ls.push(x)) =~= joined(ls) + "\n"@ + x);
    } else {
        assert(terminated(ls) =~= Seq::<char>::empty());
        assert(joined(ls.push(x)) =~= x);
    }
}

/// Lines written back as the ledger: joined by newlines, with a final
/// newline added when the text does not already end with one.
pub open spec fn ledger_text(ls: Seq<Seq<char>>) -> Seq<char> {
    let j = joined(ls);
    if j.len() > 0 && j.last() == '\n' {
        j
    } else {
        j + "\n"@
    }
}

/// Some line of the ledger, lowercased, contains the trimmed intent,
/// lowercased.
pub open spec fn mentions_intent(ls: Seq<Seq<char>>, intent: Seq<char>) -> bool {
    exists|i: int| 0 <= i < ls.len() && seq_contains(lowercase(#[trigger] ls[i]), lowercase(trim(intent)))
}

/// The greatest suffix and index of the ledger lines.
fn scan_ledger(ls: &Vec<Vec<char>>) -> (r: (Vec<char>, usize))
    ensures
        r.0@ == ledger_suffix(ls@.map_values(|l: Vec<char>| l@)),
        r.1 as nat == ledger_index(ls@.map_values(|l: Vec<char>| l@)),
{
    let ghost lv = ls@.map_values(|l: Vec<char>| l@);
    let mut best = chars_of("2022920");
    let mut last: usize = 0;
    let mut i: usize = 0;
    proof {
        assert(lv.take(0) =~= Seq::<Seq<char>>::empty());
    }
    while i < ls.len()
        invariant
            i <= ls@.len(),
            lv == ls@.map_values(|l: Vec<char>| l@),
            best@ == ledger_suffix(lv.take(i as int)),
            last as nat == ledger_index(lv.take(i as int)),
        decreases ls.len() - i,
    {
        proof {
            assert(lv.take(i + 1).drop_last() =~= lv.take(i as int));
            assert(lv.take(i + 1).last() == ls@[i as int]@);
        }
        match ev_token_of(&ls[i]) {
            Some((suffix, index)) => {
                if is_lex_greater(&suffix, &best) {
                    best = suffix;
                }
                match parse_usize(&index) {
                    Some(v) => {
                        if v > last {
                            last = v;
                        }
                    },
                    None => {},
                }
            },
            None => {},
        }
        i = i + 1;
    }
    proof {
        assert(lv.take(ls@.len() as int) =~= lv);
    }
    (best, last)
}

/// The identifier for a suffix and an index.
fn ledger_id_of(suffix: &Vec<char>, index: usize) -> (r: String)
    ensures
        r@ == ledger_id(suffix@, index as nat),
{
    let digits = chars_of(decimal_string(index as u64).as_str());
    let mut id = String::new();
    push_str(&mut id, "EV-");
    push_str(&mut id, string_of(suffix).as_str());
    push_str(&mut id, "-");
    let mut pad: usize = digits.len();
    let ghost start = id@;
    while pad < 3
        invariant
            digits@.len() <= pad <= 3 || (digits@.len() > 3 && pad == digits@.len()),
            id@ == start + Seq::new((pad - digits@.len()) as nat, |_i: int| '0'),
        decreases 3 - pad,
    {
        push_char(&mut id, '0');
        proof {
            assert(Seq::new((pad + 1 - digits@.len()) as nat, |_i: int| '0')
                =~= Seq::new((pad - digits@.len()) as nat, |_i: int| '0').push('0'));
        }
        pad = pad + 1;
    }
    push_str(&mut id, string_of(&digits).as_str());
    proof {
        if digits@.len() >= 3 {
            assert(Seq::new(0, |_i: int| '0') =~= Seq::<char>::empty());
        }
        assert(id@ =~= ledger_id(suffix@, index as nat));
    }
    id
}

/// The ledger row for an identifier, a tag and an intent.
fn ledger_entry_of(id: &str, tag: &str, intent: &str) -> (r: String)
    ensures
        r@ == ledger_entry(id@, tag@, intent@),
{
    let mut e = String::new();
    push_str(&mut e, "| ");
    push_str(&mut e, id);
    push_str(&mut e, " | ");
    push_str(&mut e, tag);
    push_str(&mut e, " | ");
    push_str(&mut e, intent);
    push_str(&mut e, " | [manual](symbol://manual) | STAGED |");
    proof {
        assert(e@ =~= ledger_entry(id@, tag@, intent@));
    }
    e
}

/// Whether some line, lowercased, contains the trimmed intent, lowercased.
fn ledger_mentions(ls: &Vec<Vec<char>>, intent: &str) -> (r: bool)
    ensures
        r == mentions_intent(ls@.map_values(|l: Vec<char>| l@), intent@),
{
    let ghost lv = ls@.map_values(|l: Vec<char>| l@);
    let needle = trimmed_lower(intent);
    let mut i: usize = 0;
    while i < ls.len()
        invariant
            i <= ls@.len(),
            lv == ls@.map_values(|l: Vec<char>| l@),
            needle@ == lowercase(trim(intent@)),
            forall|j: int| 0 <= j < i ==> !seq_contains(lowercase(#[trigger] lv[j]), needle@),
        decreases ls.len() - i,
    {
        let line = string_of(&ls[i]);
        let lower = lower_chars(line.as_str());
        if contains(&lower, &needle) {
            proof {
                assert(seq_contains(lowercase(lv[i as int]), lowercase(trim(intent@))));
            }
            return true;
        }
        i = i + 1;
    }
    false
}

/// Where a new row goes in the ledger lines.
fn staging_position_of(ls: &Vec<Vec<char>>) -> (r: usize)
    ensures
        r as int == staging_position(ls@.map_values(|l: Vec<char>| l@)),
        r <= ls@.len(),
{
    let ghost lv = ls@.map_values(|l: Vec<char>| l@);
    let mut h: usize = 0;
    while h < ls.len()
        invariant
            h <= ls@.len(),
            lv == ls@.map_values(|l: Vec<char>| l@),
            pending_heading_from(lv, 0) == pending_heading_from(lv, h as int),
        decreases ls.len() - h,
    {
        proof {
            assert(lv[h as int] == ls@[h as int]@);
        }
        if contains_str(&ls[h], "## 1. Sovereign Ledger (The Monotonic Proof)") || contains_str(&ls[h], "## 1. Pending") {
            let mut p: usize = h + 1;
            proof {
                assert(pending_heading_from(lv, h as int) == Some(h as int));
            }
            while p < ls.len()
                invariant
                    h < p <= ls@.len(),
                    lv == ls@.map_values(|l: Vec<char>| l@),
                    staging_position(lv) == past_table_head(lv, h + 1),
                    past_table_head(lv, h + 1) == past_table_head(lv, p as int),
                decreases ls.len() - p,
            {
                proof {
                    assert(lv[p as int] == ls@[p as int]@);
                }
                let t = trimmed(&ls[p]);
                let dashes = chars_of("---");
                let id_head = chars_of("| ID");
                let rule = chars_of("| :---");
                if t.len() == 0 || starts_with(&t, &dashes) || starts_with(&t, &id_head) || starts_with(&t, &rule) {
                    p = p + 1;
                } else {
                    return p;
                }
            }
            return p;
        }
        h = h + 1;
    }
    ls.len()
}

/// Lines written back as ledger text.
fn ledger_text_of(ls: &Vec<Vec<char>>) -> (r: String)
    ensures
        r@ == ledger_text(ls@.map_values(|l: Vec<char>| l@)),
{
    let ghost lv = ls@.map_values(|l: Vec<char>| l@);
    proof {
        reveal_strlit("\n");
    }
    let mut out = String::new();
    let mut ends_nl = false;
    let mut i: usize = 0;
    proof {
        assert(lv.take(0) =~= Seq::<Seq<char>>::empty());
    }
    while i < ls.len()
        invariant
            i <= ls@.len(),
            lv == ls@.map_values(|l: Vec<char>| l@),
            out@ == joined(lv.take(i as int)),
            ends_nl == (out@.len() > 0 && out@.last() == '\n'),
        decreases ls.len() - i,
    {
        proof {
            assert(lv.take(i + 1).drop_last() =~= lv.take(i as int));
            assert(lv.take(i + 1).last() == ls@[i as int]@);
        }
        if i > 0 {
            push_char(&mut out, '\n');
            ends_nl = true;
        }
        proof {
            reveal_strlit("\n");
            if i > 0 {
                assert(lv.take(i as int).drop_last() =~= lv.take(i - 1));
                assert(lv.take(i as int).last() == lv[i - 1]);
                assert(joined(lv.take(i as int)) == terminated(lv.take(i - 1)) + lv[i - 1]);
                assert(terminated(lv.take(i as int)) == terminated(lv.take(i - 1)) + lv[i - 1] + "\n"@);
                assert(out@ =~= terminated(lv.take(i as int)));
            } else {
                assert(lv.take(0) =~= Seq::<Seq<char>>::empty());
                assert(out@ =~= terminated(lv.take(i as int)));
            }
        }
        let line = &ls[i];
        let mut k: usize = 0;
        let ghost before = out@;
        while k < line.len()
            invariant
                k <= line@.len(),
                out@ == before + line@.take(k as int),
                ends_nl == (out@.len() > 0 && out@.last() == '\n'),
            decreases line.len() - k,
        {
            let c = line[k];
            push_char(&mut out, c);
            ends_nl = c == '\n';
            proof {
                assert(line@.take(k + 1) =~= line@.take(k as int).push(c));
            }
            k = k + 1;
        }
        proof {
            assert(line@.take(line@.len() as int) =~= line@);
            assert(out@ =~= terminated(lv.take(i as int)) + lv[i as int]);
        }
        i = i + 1;
    }
    proof {
        assert(lv.take(ls@.len() as int) =~= lv);
    }
    if !ends_nl {
        push_char(&mut out, '\n');
    }
    out
}

/// What staging an intent in a ledger answers.
#[derive(Debug, Clone)]
pub enum EvidenceIngest {
    /// The ledger already mentions the intent; nothing is written.
    AlreadyPresent { message: String },
    /// The new ledger text, and the report.
    Staged { evidence: String, message: String },
}

/// The ledger lines with the row that stages an intent under a tag.
pub open spec fn staged_lines(ls: Seq<Seq<char>>, tag: Seq<char>, intent: Seq<char>) -> Seq<Seq<char>> {
    let id = ledger_id(ledger_suffix(ls), ledger_index(ls) + 1);
    ls.insert(staging_position(ls), ledger_entry(id, tag, intent))
}

/// Every index in the ledger is at most the greatest one.
proof fn lemma_ledger_index_bounds(ls: Seq<Seq<char>>, i: int)
    requires
        0 <= i < ls.len(),
    ensures
        line_index(ls[i]) matches Some(v) ==> v <= ledger_index(ls),
    decreases ls.len(),
{
    if i < ls.len() - 1 {
        lemma_ledger_index_bounds(ls.drop_last(), i);
        assert(ls.drop_last()[i] == ls[i]);
    }
}

/// The index a new row takes is fresh: every identifier already in the
/// ledger carries a smaller index.
pub proof fn law_staged_index_is_fresh(ls: Seq<Seq<char>>, i: int)
    requires
        0 <= i < ls.len(),
    ensures
        line_index(ls[i]) matches Some(v) ==> v < ledger_index(ls) + 1,
{
    lemma_ledger_index_bounds(ls, i);
}

proof fn lemma_pending_heading_in_range(ls: Seq<Seq<char>>, i: int)
    ensures
        pending_heading_from(ls, i) matches Some(h) ==> 0 <= i <= h < ls.len(),
    decreases ls.len() - i,
{
    if 0 <= i < ls.len() && !is_pending_heading(ls[i]) {
        lemma_pending_heading_in_range(ls, i + 1);
    }
}

proof fn lemma_past_table_head_in_range(ls: Seq<Seq<char>>, i: int)
    requires
        0 <= i <= ls.len(),
    ensures
        i <= past_table_head(ls, i) <= ls.len(),
    decreases ls.len() - i,
{
    if i < ls.len() && is_table_head(ls[i]) {
        lemma_past_table_head_in_range(ls, i + 1);
    }
}

/// Every line of a ledger occurs in its text.
proof fn lemma_ledger_text_contains(ls: Seq<Seq<char>>, i: int)
    requires
        0 <= i < ls.len(),
    ensures
        seq_contains(ledger_text(ls), ls[i]),
{
    let j = joined(ls);
    let init = terminated(ls.drop_last());
    if i == ls.len() - 1 {
        assert(j.subrange(init.len() as int, init.len() + ls[i].len() as int) =~= ls[i]);
        assert(occurs_at(j, ls[i], init.len() as int));
    } else {
        lemma_terminated_contains(ls.drop_last(), i);
        assert(ls.drop_last()[i] == ls[i]);
        let k = choose|k: int| occurs_at(init, ls[i], k);
        assert(j.subrange(k, k + ls[i].len()) =~= init.subrange(k, k + ls[i].len()));
        assert(occurs_at(j, ls[i], k));
    }
    let t = ledger_text(ls);
    assert(t.subrange(0, j.len() as int) =~= j);
    assert(seq_contains(t, j)) by {
        assert(occurs_at(t, j, 0));
    }
    lemma_contains_trans(t, j, ls[i]);
}

/// Staging keeps the ledger: the new row goes in at one position (past
/// the table head of the pending section, or at the end), removing it
/// gives back the ledger's lines, and the written text holds the row.
pub proof fn law_staging_keeps_ledger(ls: Seq<Seq<char>>, tag: Seq<char>, intent: Seq<char>)
    ensures
        0 <= staging_position(ls) <= ls.len(),
        staged_lines(ls, tag, intent).remove(staging_position(ls)) == ls,
        seq_contains(
            ledger_text(staged_lines(ls, tag, intent)),
            ledger_entry(ledger_id(ledger_suffix(ls), ledger_index(ls) + 1), tag, intent),
        ),
{
    lemma_pending_heading_in_range(ls, 0);
    if let Some(h) = pending_heading_from(ls, 0) {
        lemma_past_table_head_in_range(ls, h + 1);
    }
    let pos = staging_position(ls);
    let staged = staged_lines(ls, tag, intent);
    assert(staged.remove(pos) =~= ls);
    lemma_ledger_text_contains(staged, pos);
}

impl SusiAdmin {
    /// The greatest index among the identifiers of a ledger (zero when it
    /// has none).
    pub fn last_ledger_index(evidence: &str) -> (r: usize)
        ensures
            r as nat == ledger_index(lines(evidence@)),
    {
        let chars = chars_of(evidence);
        let ls = split_lines(&chars);
        let (_suffix, last) = scan_ledger(&ls);
        last
    }

    /// Stages a natural-language intent in the evidence ledger text: the
    /// intent is classified (by its keywords, else by the reflex action
    /// proposed for it); a ledger that already mentions it is left alone;
    /// otherwise a `STAGED` row with the next identifier (the greatest
    /// suffix, the greatest index plus one) goes after the table head of
    /// the pending section, or at the end.
    pub fn ingest_natural_intent(evidence: &str, intent: &str, reflex_action: Option<&str>) -> (r: EvidenceIngest)
        requires
            ledger_index(lines(evidence@)) < usize::MAX,
        ensures
            ({
                let ls = lines(evidence@);
                let tag = class_labels(intent_class(intent@, action_text(reflex_action))).0;
                if mentions_intent(ls, intent@) {
                    &&& r matches EvidenceIngest::AlreadyPresent { message }
                    &&& message@ == "Intent '"@ + intent@ + "' is already present in memory ("@ + tag + ")"@
                } else {
                    &&& r matches EvidenceIngest::Staged { evidence: e, message: m }
                    &&& e@ == ledger_text(staged_lines(ls, tag, intent@))
                    &&& m@ == "Intent ingested successfully as "@ + tag + " into sovereign memory"@
                }
            }),
    {
        let (tag, _category) = Self::classify_natural_intent(intent, reflex_action);
        let chars = chars_of(evidence);
        let mut ls = split_lines(&chars);
        let ghost lv = ls@.map_values(|l: Vec<char>| l@);
        if ledger_mentions(&ls, intent) {
            let mut message = String::new();
            push_str(&mut message, "Intent '");
            push_str(&mut message, intent);
            push_str(&mut message, "' is already present in memory (");
            push_str(&mut message, tag);
            push_str(&mut message, ")");
            proof {
                assert(message@ =~= "Intent '"@ + intent@ + "' is already present in memory ("@ + tag@ + ")"@);
            }
            return EvidenceIngest::AlreadyPresent { message };
        }
        let (suffix, last) = scan_ledger(&ls);
        let id = ledger_id_of(&suffix, last + 1);
        let entry = ledger_entry_of(id.as_str(), tag, intent);
        let pos = staging_position_of(&ls);
        ls.insert(pos, chars_of(entry.as_str()));
        proof {
            assert(ls@.map_values(|l: Vec<char>| l@) =~= lv.insert(pos as int, entry@));
        }
        let text = ledger_text_of(&ls);
        let mut message = String::new();
        push_str(&mut message, "Intent ingested successfully as ");
        push_str(&mut message, tag);
        push_str(&mut message, " into sovereign memory");
        proof {
            assert(message@ =~= "Intent ingested successfully as "@ + tag@ + " into sovereign memory"@);
        }
        EvidenceIngest::Staged { evidence: text, message }
    }
}

} // verus!
