//! Character-sequence primitives shared by the classifiers and formatters.
use vstd::prelude::*;

verus! {

/// `n` occurs in `h` starting at index `i`.
pub open spec fn occurs_at(h: Seq<char>, n: Seq<char>, i: int) -> bool {
    0 <= i && i + n.len() <= h.len() && h.subrange(i, i + n.len()) == n
}

/// `n` occurs somewhere in `h` (an empty `n` occurs everywhere).
pub open spec fn seq_contains(h: Seq<char>, n: Seq<char>) -> bool {
    exists|i: int| occurs_at(h, n, i)
}

/// The characters of `s`, in order.
pub fn chars_of(s: &str) -> (r: Vec<char>)
    ensures
        r@ == s@,
{
    let mut r: Vec<char> = Vec::new();
    for c in it: s.chars()
        invariant
            r@ == it.seq().take(it.index() as int),
    {
        r.push(c);
        proof {
            assert(it.seq().take(it.index() + 1) =~= it.seq().take(it.index() as int).push(c));
        }
    }
    r
}


/// `n` is a prefix of `h`.
pub open spec fn seq_starts_with(h: Seq<char>, n: Seq<char>) -> bool {
    n.len() <= h.len() && h.subrange(0, n.len() as int) == n
}

/// `n` is a suffix of `h`.
pub open spec fn seq_ends_with(h: Seq<char>, n: Seq<char>) -> bool {
    n.len() <= h.len() && h.subrange(h.len() - n.len(), h.len() as int) == n
}

/// Whether `n` occurs in `h` at index `i`.
pub fn matches_at(h: &Vec<char>, n: &Vec<char>, i: usize) -> (b: bool)
    ensures
        b == occurs_at(h@, n@, i as int),
{
    if i > h.len() || n.len() > h.len() - i {
        return false;
    }
    let mut k: usize = 0;
    while k < n.len()
        invariant
            i + n.len() <= h.len(),
            k <= n.len(),
            forall|j: int| 0 <= j < k ==> h@[i + j] == n@[j],
        decreases n.len() - k,
    {
        if h[i + k] != n[k] {
            proof {
                assert(h@.subrange(i as int, i + n.len())[k as int] != n@[k as int]);
            }
            return false;
        }
        k = k + 1;
    }
    proof {
        assert(h@.subrange(i as int, i + n.len()) =~= n@);
    }
    true
}

/// Whether `n` occurs anywhere in `h`.
pub fn contains(h: &Vec<char>, n: &Vec<char>) -> (b: bool)
    ensures
        b == seq_contains(h@, n@),
{
    if n.len() > h.len() {
        return false;
    }
    let last = h.len() - n.len();
    let mut i: usize = 0;
    while i < last
        invariant
            last == h.len() - n.len(),
            n.len() <= h.len(),
            i <= last,
            forall|j: int| 0 <= j < i ==> !occurs_at(h@, n@, j),
        decreases last - i,
    {
        if matches_at(h, n, i) {
            return true;
        }
        i = i + 1;
    }
    if matches_at(h, n, last) {
        return true;
    }
    assert forall|j: int| !occurs_at(h@, n@, j) by {
        if 0 <= j && j + n@.len() <= h@.len() {
            assert(j <= last);
        }
    }
    false
}

/// Whether `h` contains the literal `n`.
pub fn contains_str(h: &Vec<char>, n: &str) -> (b: bool)
    ensures
        b == seq_contains(h@, n@),
{
    let nv = chars_of(n);
    contains(h, &nv)
}

/// Whether `h` starts with `n`.
pub fn starts_with(h: &Vec<char>, n: &Vec<char>) -> (b: bool)
    ensures
        b == seq_starts_with(h@, n@),
{
    let b = matches_at(h, n, 0);
    proof {
        assert(h@.subrange(0, n@.len() as int) =~= h@.subrange(0, 0 + n@.len() as int));
    }
    b
}

/// Whether `h` ends with `n`.
pub fn ends_with(h: &Vec<char>, n: &Vec<char>) -> (b: bool)
    ensures
        b == seq_ends_with(h@, n@),
{
    if n.len() > h.len() {
        return false;
    }
    let b = matches_at(h, n, h.len() - n.len());
    b
}


/// Unicode `White_Space` property, the set that `char::is_whitespace` tests.
pub open spec fn is_ws(c: char) -> bool {
    let u = c as u32;
    (0x09 <= u <= 0x0D) || u == 0x20 || u == 0x85 || u == 0xA0 || u == 0x1680 || (0x2000 <= u
        <= 0x200A) || u == 0x2028 || u == 0x2029 || u == 0x202F || u == 0x205F || u == 0x3000
}

/// Whether `c` is a whitespace character.
pub fn is_whitespace(c: char) -> (b: bool)
    ensures
        b == is_ws(c),
{
    let u = c as u32;
    (0x09 <= u && u <= 0x0D) || u == 0x20 || u == 0x85 || u == 0xA0 || u == 0x1680 || (0x2000 <= u
        && u <= 0x200A) || u == 0x2028 || u == 0x2029 || u == 0x202F || u == 0x205F || u == 0x3000
}

/// `s` without its leading whitespace.
pub open spec fn trim_start(s: Seq<char>) -> Seq<char>
    decreases s.len(),
{
    if s.len() > 0 && is_ws(s[0]) {
        trim_start(s.drop_first())
    } else {
        s
    }
}

/// `s` without its trailing whitespace.
pub open spec fn trim_end(s: Seq<char>) -> Seq<char>
    decreases s.len(),
{
    if s.len() > 0 && is_ws(s.last()) {
        trim_end(s.drop_last())
    } else {
        s
    }
}

/// `s` without leading or trailing whitespace, as `str::trim` gives it.
pub open spec fn trim(s: Seq<char>) -> Seq<char> {
    trim_end(trim_start(s))
}

/// `s` with its leading and trailing whitespace removed.
pub fn trimmed(s: &Vec<char>) -> (r: Vec<char>)
    ensures
        r@ == trim(s@),
{
    let n = s.len();
    let mut a: usize = 0;
    proof {
        assert(s@.subrange(0, n as int) =~= s@);
    }
    while a < n && is_whitespace(s[a])
        invariant
            n == s@.len(),
            a <= n,
            trim_start(s@) == trim_start(s@.subrange(a as int, n as int)),
        decreases n - a,
    {
        proof {
            assert(s@.subrange(a as int, n as int).drop_first() =~= s@.subrange(a + 1, n as int));
        }
        a = a + 1;
    }
    proof {
        let t = s@.subrange(a as int, n as int);
        if a < n {
            assert(t[0] == s@[a as int]);
        }
        assert(trim_start(t) == t);
    }
    let mut b: usize = n;
    while b > a && is_whitespace(s[b - 1])
        invariant
            n == s@.len(),
            a <= b <= n,
            trim(s@) == trim_end(s@.subrange(a as int, b as int)),
        decreases b - a,
    {
        proof {
            assert(s@.subrange(a as int, b as int).drop_last() =~= s@.subrange(a as int, b - 1));
        }
        b = b - 1;
    }
    proof {
        let t = s@.subrange(a as int, b as int);
        if a < b {
            assert(t.last() == s@[b - 1]);
        }
        assert(trim_end(t) == t);
    }
    let mut r: Vec<char> = Vec::new();
    let mut k: usize = a;
    while k < b
        invariant
            a <= k <= b <= n,
            n == s@.len(),
            r@ == s@.subrange(a as int, k as int),
        decreases b - k,
    {
        r.push(s[k]);
        proof {
            assert(s@.subrange(a as int, k + 1) =~= s@.subrange(a as int, k as int).push(s@[k as int]));
        }
        k = k + 1;
    }
    r
}

/// `s` with its leading whitespace removed.
pub fn trimmed_start(s: &Vec<char>) -> (r: Vec<char>)
    ensures
        r@ == trim_start(s@),
{
    let n = s.len();
    let mut a: usize = 0;
    proof {
        assert(s@.subrange(0, n as int) =~= s@);
    }
    while a < n && is_whitespace(s[a])
        invariant
            n == s@.len(),
            a <= n,
            trim_start(s@) == trim_start(s@.subrange(a as int, n as int)),
        decreases n - a,
    {
        proof {
            assert(s@.subrange(a as int, n as int).drop_first() =~= s@.subrange(a + 1, n as int));
        }
        a = a + 1;
    }
    proof {
        let t = s@.subrange(a as int, n as int);
        if a < n {
            assert(t[0] == s@[a as int]);
        }
        assert(trim_start(t) == t);
        assert(t =~= s@.skip(a as int));
    }
    suffix_from(s, a)
}

/// Number of maximal runs of non-whitespace characters, as
/// `str::split_whitespace().count()` gives it.
pub open spec fn word_count(s: Seq<char>) -> nat
    decreases s.len(),
{
    if s.len() == 0 {
        0
    } else {
        word_count(s.drop_last()) + if !is_ws(s.last()) && (s.len() == 1 || is_ws(s[s.len() - 2])) {
            1nat
        } else {
            0nat
        }
    }
}

proof fn lemma_word_count_bound(s: Seq<char>)
    ensures
        word_count(s) <= s.len(),
    decreases s.len(),
{
    if s.len() > 0 {
        lemma_word_count_bound(s.drop_last());
    }
}

/// Number of whitespace-separated words in `s`.
pub fn count_words(s: &Vec<char>) -> (n: usize)
    ensures
        n == word_count(s@),
{
    let mut c: usize = 0;
    let mut i: usize = 0;
    while i < s.len()
        invariant
            i <= s@.len(),
            c == word_count(s@.take(i as int)),
        decreases s.len() - i,
    {
        proof {
            assert(s@.take(i + 1).drop_last() =~= s@.take(i as int));
            lemma_word_count_bound(s@.take(i as int));
        }
        if !is_whitespace(s[i]) && (i == 0 || is_whitespace(s[i - 1])) {
            c = c + 1;
        }
        i = i + 1;
    }
    proof {
        assert(s@.take(s@.len() as int) =~= s@);
    }
    c
}

/// Number of characters of `s` that belong to `set`.
pub open spec fn count_in(s: Seq<char>, set: Seq<char>) -> nat
    decreases s.len(),
{
    if s.len() == 0 {
        0
    } else {
        count_in(s.drop_last(), set) + if set.contains(s.last()) {
            1nat
        } else {
            0nat
        }
    }
}

proof fn lemma_count_in_bound(s: Seq<char>, set: Seq<char>)
    ensures
        count_in(s, set) <= s.len(),
    decreases s.len(),
{
    if s.len() > 0 {
        lemma_count_in_bound(s.drop_last(), set);
    }
}

/// Whether `c` is one of the characters of `set`.
pub fn member(set: &Vec<char>, c: char) -> (b: bool)
    ensures
        b == set@.contains(c),
{
    let mut i: usize = 0;
    while i < set.len()
        invariant
            i <= set@.len(),
            forall|j: int| 0 <= j < i ==> set@[j] != c,
        decreases set.len() - i,
    {
        if set[i] == c {
            return true;
        }
        i = i + 1;
    }
    false
}

/// Number of characters of `s` that occur in `set`.
pub fn count_chars_in(s: &Vec<char>, set: &Vec<char>) -> (n: usize)
    ensures
        n == count_in(s@, set@),
{
    let mut c: usize = 0;
    let mut i: usize = 0;
    while i < s.len()
        invariant
            i <= s@.len(),
            c == count_in(s@.take(i as int), set@),
        decreases s.len() - i,
    {
        proof {
            assert(s@.take(i + 1).drop_last() =~= s@.take(i as int));
            lemma_count_in_bound(s@.take(i as int), set@);
        }
        if member(set, s[i]) {
            c = c + 1;
        }
        i = i + 1;
    }
    proof {
        assert(s@.take(s@.len() as int) =~= s@);
    }
    c
}


/// What `str::to_lowercase` returns for a string of these characters
/// (Unicode lowercase mapping, including its context-dependent cases).
pub uninterp spec fn lowercase(s: Seq<char>) -> Seq<char>;

/// Every character is ASCII.
pub open spec fn all_ascii(s: Seq<char>) -> bool {
    forall|i: int| 0 <= i < s.len() ==> (#[trigger] s[i] as u32) < 128
}

/// ASCII lowercasing: `A`..=`Z` become `a`..=`z`, all else stays.
pub open spec fn ascii_lower(s: Seq<char>) -> Seq<char> {
    s.map_values(|c: char| if 'A' <= c && c <= 'Z' { ((c as u32) + 32) as char } else { c })
}

/// Calls `str::to_lowercase`; its result is only known by the name
/// `lowercase` of the input's characters, except that on ASCII text it
/// maps `A`..=`Z` to `a`..=`z` and leaves every other character as it is
/// (the Unicode lowercase mapping of ASCII).
#[verifier::external_body]
pub(crate) fn to_lowercase(s: &str) -> (r: String)
    ensures
        r@ == lowercase(s@),
        all_ascii(s@) ==> r@ == ascii_lower(s@),
{
    s.to_lowercase()
}

/// Calls `String::push`, which appends one character.
#[verifier::external_body]
pub(crate) fn push_char(s: &mut String, c: char)
    ensures
        final(s)@ == old(s)@.push(c),
{
    s.push(c)
}

/// A `String` holding exactly the characters of `v`.
pub fn string_of(v: &Vec<char>) -> (r: String)
    ensures
        r@ == v@,
{
    let mut r = String::new();
    let mut i: usize = 0;
    while i < v.len()
        invariant
            i <= v@.len(),
            r@ == v@.take(i as int),
        decreases v.len() - i,
    {
        push_char(&mut r, v[i]);
        proof {
            assert(v@.take(i + 1) =~= v@.take(i as int).push(v@[i as int]));
        }
        i = i + 1;
    }
    proof {
        assert(v@.take(v@.len() as int) =~= v@);
    }
    r
}

/// Appends the characters of `t` to `s`.
pub fn push_str(s: &mut String, t: &str)
    ensures
        final(s)@ == old(s)@ + t@,
{
    s.append(t);
}

/// The lowercase form of `s`, as characters.
pub fn lower_chars(s: &str) -> (r: Vec<char>)
    ensures
        r@ == lowercase(s@),
        all_ascii(s@) ==> r@ == ascii_lower(s@),
{
    let l = to_lowercase(s);
    chars_of(l.as_str())
}


/// The character sequences of a list of string slices.
pub open spec fn views(v: Seq<&str>) -> Seq<Seq<char>> {
    v.map_values(|t: &str| t@)
}

/// How many entries of `list` occur in `text`.
pub open spec fn hits(text: Seq<char>, list: Seq<Seq<char>>) -> nat
    decreases list.len(),
{
    if list.len() == 0 {
        0
    } else {
        hits(text, list.drop_last()) + if seq_contains(text, list.last()) {
            1nat
        } else {
            0nat
        }
    }
}

/// The entries of `list` that occur in `text`, in list order.
pub open spec fn occurring(text: Seq<char>, list: Seq<Seq<char>>) -> Seq<Seq<char>> {
    list.filter(|t: Seq<char>| seq_contains(text, t))
}

/// `hits` counts every entry of the list that occurs in the text, each
/// once: it is the number of occurring entries, and one more entry adds
/// one exactly when it occurs.
pub proof fn law_hits_counts_every_occurring_entry(text: Seq<char>, list: Seq<Seq<char>>, t: Seq<char>)
    ensures
        hits(text, list) == occurring(text, list).len(),
        hits(text, list.push(t)) == hits(text, list) + (if seq_contains(text, t) { 1nat } else { 0nat }),
    decreases list.len(),
{
    reveal(Seq::filter);
    if list.len() > 0 {
        law_hits_counts_every_occurring_entry(text, list.drop_last(), t);
    }
    assert(list.push(t).drop_last() =~= list);
}

/// Some entry of `list` occurs in `text`.
pub open spec fn contains_any_of(text: Seq<char>, list: Seq<Seq<char>>) -> bool {
    exists|i: int| 0 <= i < list.len() && seq_contains(text, list[i])
}

proof fn lemma_hits_bound(text: Seq<char>, list: Seq<Seq<char>>)
    ensures
        hits(text, list) <= list.len(),
    decreases list.len(),
{
    if list.len() > 0 {
        lemma_hits_bound(text, list.drop_last());
    }
}

/// `hits` is positive exactly when some entry occurs.
pub proof fn lemma_hits_positive(text: Seq<char>, list: Seq<Seq<char>>)
    ensures
        (hits(text, list) > 0) == contains_any_of(text, list),
    decreases list.len(),
{
    if list.len() > 0 {
        let init = list.drop_last();
        lemma_hits_positive(text, init);
        if contains_any_of(text, init) {
            let i = choose|i: int| 0 <= i < init.len() && seq_contains(text, init[i]);
            assert(list[i] == init[i]);
        }
        if contains_any_of(text, list) && !seq_contains(text, list.last()) {
            let i = choose|i: int| 0 <= i < list.len() && seq_contains(text, list[i]);
            assert(i < init.len());
            assert(init[i] == list[i]);
        }
    }
}

/// Number of entries of `list` that occur in `text`.
pub fn count_hits(text: &Vec<char>, list: &Vec<&str>) -> (n: usize)
    ensures
        n == hits(text@, views(list@)),
{
    let mut c: usize = 0;
    let mut i: usize = 0;
    while i < list.len()
        invariant
            i <= list@.len(),
            c == hits(text@, views(list@.take(i as int))),
        decreases list.len() - i,
    {
        proof {
            assert(views(list@.take(i + 1)).drop_last() =~= views(list@.take(i as int)));
            lemma_hits_bound(text@, views(list@.take(i as int)));
        }
        if contains_str(text, list[i]) {
            c = c + 1;
        }
        i = i + 1;
    }
    proof {
        assert(list@.take(list@.len() as int) =~= list@);
    }
    c
}

/// Whether some entry of `list` occurs in `text`.
pub fn contains_any(text: &Vec<char>, list: &Vec<&str>) -> (b: bool)
    ensures
        b == contains_any_of(text@, views(list@)),
{
    let n = count_hits(text, list);
    proof {
        lemma_hits_positive(text@, views(list@));
    }
    n > 0
}


/// The ASCII digit for `d` (`d` below ten).
pub open spec fn digit_char(d: nat) -> char {
    if d == 0 { '0' } else if d == 1 { '1' } else if d == 2 { '2' } else if d == 3 { '3' }
    else if d == 4 { '4' } else if d == 5 { '5' } else if d == 6 { '6' } else if d == 7 { '7' }
    else if d == 8 { '8' } else { '9' }
}

/// Decimal notation of `n`, as `{}` formatting writes an unsigned integer.
pub open spec fn decimal(n: nat) -> Seq<char>
    decreases n,
{
    if n < 10 {
        seq![digit_char(n)]
    } else {
        decimal(n / 10).push(digit_char(n % 10))
    }
}

pub(crate) fn digit(d: u64) -> (c: char)
    requires
        d < 10,
    ensures
        c == digit_char(d as nat),
{
    if d == 0 { '0' } else if d == 1 { '1' } else if d == 2 { '2' } else if d == 3 { '3' }
    else if d == 4 { '4' } else if d == 5 { '5' } else if d == 6 { '6' } else if d == 7 { '7' }
    else if d == 8 { '8' } else { '9' }
}

/// Decimal notation of `n`.
pub fn decimal_string(n: u64) -> (r: String)
    ensures
        r@ == decimal(n as nat),
    decreases n,
{
    if n < 10 {
        let mut r = String::new();
        push_char(&mut r, digit(n));
        proof {
            assert(r@ =~= seq![digit_char(n as nat)]);
        }
        r
    } else {
        let mut r = decimal_string(n / 10);
        push_char(&mut r, digit(n % 10));
        r
    }
}

/// Decimal notation of a 128-bit `n`.
pub fn decimal_string_wide(n: u128) -> (r: String)
    ensures
        r@ == decimal(n as nat),
    decreases n,
{
    if n < 10 {
        let mut r = String::new();
        push_char(&mut r, digit(n as u64));
        proof {
            assert(r@ =~= seq![digit_char(n as nat)]);
        }
        r
    } else {
        let mut r = decimal_string_wide(n / 10);
        push_char(&mut r, digit((n % 10) as u64));
        r
    }
}

/// Appends the decimal notation of `n` to `s`.
pub fn push_decimal(s: &mut String, n: u64)
    ensures
        final(s)@ == old(s)@ + decimal(n as nat),
{
    let d = decimal_string(n);
    push_str(s, d.as_str());
}


/// `i` is the first index of `pats` whose entry occurs in `text`.
pub open spec fn is_first_hit(text: Seq<char>, pats: Seq<Seq<char>>, i: int) -> bool {
    &&& 0 <= i < pats.len()
    &&& seq_contains(text, pats[i])
    &&& forall|j: int| 0 <= j < i ==> !seq_contains(text, #[trigger] pats[j])
}

/// The index of the first entry of `pats` that occurs in `text`, if any.
pub fn first_contained(text: &Vec<char>, pats: &Vec<Vec<char>>) -> (r: Option<usize>)
    ensures
        match r {
            Some(i) => is_first_hit(text@, pats@.map_values(|p: Vec<char>| p@), i as int),
            None => forall|j: int| 0 <= j < pats@.len() ==> !seq_contains(text@, #[trigger] pats@[j]@),
        },
{
    let ghost ps = pats@.map_values(|p: Vec<char>| p@);
    let mut i: usize = 0;
    while i < pats.len()
        invariant
            i <= pats@.len(),
            ps == pats@.map_values(|p: Vec<char>| p@),
            forall|j: int| 0 <= j < i ==> !seq_contains(text@, #[trigger] pats@[j]@),
        decreases pats.len() - i,
    {
        if contains(text, &pats[i]) {
            proof {
                assert forall|j: int| 0 <= j < i implies !seq_contains(text@, #[trigger] ps[j]) by {
                    assert(ps[j] == pats@[j]@);
                }
            }
            return Some(i);
        }
        i = i + 1;
    }
    None
}

/// The character vectors of a list of strings.
pub fn char_vecs(v: &Vec<String>) -> (r: Vec<Vec<char>>)
    ensures
        r@.map_values(|p: Vec<char>| p@) == v@.map_values(|s: String| s@),
{
    let mut r: Vec<Vec<char>> = Vec::new();
    let mut i: usize = 0;
    while i < v.len()
        invariant
            i <= v@.len(),
            r@.len() == i,
            forall|j: int| 0 <= j < i ==> #[trigger] r@[j]@ == v@[j]@,
        decreases v.len() - i,
    {
        r.push(chars_of(v[i].as_str()));
        i = i + 1;
    }
    proof {
        assert(r@.map_values(|p: Vec<char>| p@) =~= v@.map_values(|s: String| s@));
    }
    r
}

/// The character vectors of a list of string slices.
pub fn char_vecs_of_strs(v: &Vec<&str>) -> (r: Vec<Vec<char>>)
    ensures
        r@.map_values(|p: Vec<char>| p@) == views(v@),
{
    let mut r: Vec<Vec<char>> = Vec::new();
    let mut i: usize = 0;
    while i < v.len()
        invariant
            i <= v@.len(),
            r@.len() == i,
            forall|j: int| 0 <= j < i ==> #[trigger] r@[j]@ == v@[j]@,
        decreases v.len() - i,
    {
        r.push(chars_of(v[i]));
        i = i + 1;
    }
    proof {
        assert(r@.map_values(|p: Vec<char>| p@) =~= views(v@));
    }
    r
}


/// `s` with every non-overlapping occurrence of the non-empty `pat`,
/// scanning left to right, replaced by `rep` (as `str::replace` does).
pub open spec fn replace_all(s: Seq<char>, pat: Seq<char>, rep: Seq<char>) -> Seq<char>
    decreases s.len(),
{
    if s.len() == 0 || pat.len() == 0 {
        s
    } else if seq_starts_with(s, pat) {
        rep + replace_all(s.skip(pat.len() as int), pat, rep)
    } else {
        seq![s[0]] + replace_all(s.drop_first(), pat, rep)
    }
}

/// `s` with every occurrence of the non-empty `pat` replaced by `rep`.
pub fn replace_str(s: &str, pat: &str, rep: &str) -> (r: String)
    requires
        pat@.len() > 0,
    ensures
        r@ == replace_all(s@, pat@, rep@),
{
    let sv = chars_of(s);
    let pv = chars_of(pat);
    let mut out = String::new();
    let mut i: usize = 0;
    proof {
        assert(sv@.skip(0) =~= sv@);
        assert(out@ + replace_all(sv@.skip(0), pv@, rep@) =~= replace_all(s@, pat@, rep@));
    }
    while i < sv.len()
        invariant
            i <= sv@.len(),
            pv@.len() > 0,
            sv@ == s@,
            pv@ == pat@,
            out@ + replace_all(sv@.skip(i as int), pv@, rep@) == replace_all(s@, pat@, rep@),
        decreases sv.len() - i,
    {
        let ghost rest = sv@.skip(i as int);
        if matches_at(&sv, &pv, i) {
            proof {
                assert(rest.subrange(0, pv@.len() as int) =~= sv@.subrange(i as int, i + pv@.len()));
                assert(rest.skip(pv@.len() as int) =~= sv@.skip(i + pv@.len()));
                assert(out@ + rep@ + replace_all(sv@.skip(i + pv@.len()), pv@, rep@)
                    =~= out@ + (rep@ + replace_all(rest.skip(pv@.len() as int), pv@, rep@)));
            }
            push_str(&mut out, rep);
            i = i + pv.len();
        } else {
            proof {
                if pv@.len() <= rest.len() {
                    assert(rest.subrange(0, pv@.len() as int) =~= sv@.subrange(i as int, i + pv@.len()));
                }
                assert(rest.drop_first() =~= sv@.skip(i + 1));
                assert(out@.push(sv@[i as int]) + replace_all(sv@.skip(i + 1), pv@, rep@)
                    =~= out@ + (seq![rest[0]] + replace_all(rest.drop_first(), pv@, rep@)));
            }
            push_char(&mut out, sv[i]);
            i = i + 1;
        }
    }
    proof {
        assert(sv@.skip(i as int).len() == 0);
        assert(out@ + sv@.skip(i as int) =~= out@);
    }
    out
}


/// The pieces of `s` between occurrences of `c` (as `str::split(c)` yields
/// them; there is always at least one piece).
pub open spec fn split_char(s: Seq<char>, c: char) -> Seq<Seq<char>>
    decreases s.len(),
{
    if s.len() == 0 {
        seq![Seq::empty()]
    } else {
        let prev = split_char(s.drop_last(), c);
        if s.last() == c {
            prev.push(Seq::empty())
        } else {
            prev.update(prev.len() - 1, prev.last().push(s.last()))
        }
    }
}

/// `split_char` always yields at least one piece.
pub proof fn lemma_split_char_nonempty(s: Seq<char>, c: char)
    ensures
        split_char(s, c).len() >= 1,
    decreases s.len(),
{
    if s.len() > 0 {
        lemma_split_char_nonempty(s.drop_last(), c);
    }
}

/// The trimmed, non-empty pieces among `pieces`.
pub open spec fn nonempty_trimmed(pieces: Seq<Seq<char>>) -> Seq<Seq<char>> {
    pieces.map_values(|p: Seq<char>| trim(p)).filter(|p: Seq<char>| p.len() > 0)
}

proof fn lemma_nonempty_trimmed_push(pieces: Seq<Seq<char>>, x: Seq<char>)
    ensures
        nonempty_trimmed(pieces.push(x)) == if trim(x).len() > 0 {
            nonempty_trimmed(pieces).push(trim(x))
        } else {
            nonempty_trimmed(pieces)
        },
{
    let m = pieces.push(x).map_values(|p: Seq<char>| trim(p));
    assert(m.drop_last() =~= pieces.map_values(|p: Seq<char>| trim(p)));
    reveal_with_fuel(Seq::<_>::filter, 1);
}

/// The trimmed, non-empty pieces of `s` split at `c`, as strings.
pub fn split_trimmed_nonempty(s: &Vec<char>, c: char) -> (r: Vec<String>)
    ensures
        r@.map_values(|x: String| x@) == nonempty_trimmed(split_char(s@, c)),
{
    let mut done: Vec<String> = Vec::new();
    let mut cur: Vec<char> = Vec::new();
    let mut i: usize = 0;
    proof {
        assert(s@.take(0) =~= Seq::<char>::empty());
        assert(split_char(s@.take(0), c) =~= seq![Seq::<char>::empty()]);
        assert(split_char(s@.take(0), c).drop_last() =~= Seq::<Seq<char>>::empty());
        assert(nonempty_trimmed(Seq::<Seq<char>>::empty()) =~= Seq::<Seq<char>>::empty());
        assert(done@.map_values(|x: String| x@) =~= Seq::<Seq<char>>::empty());
    }
    while i < s.len()
        invariant
            i <= s@.len(),
            split_char(s@.take(i as int), c).len() >= 1,
            cur@ == split_char(s@.take(i as int), c).last(),
            done@.map_values(|x: String| x@) == nonempty_trimmed(
                split_char(s@.take(i as int), c).drop_last(),
            ),
        decreases s.len() - i,
    {
        let ghost prev = split_char(s@.take(i as int), c);
        proof {
            assert(s@.take(i + 1).drop_last() =~= s@.take(i as int));
            assert(s@.take(i + 1).last() == s@[i as int]);
        }
        if s[i] == c {
            let t = trimmed(&cur);
            proof {
                assert(prev.push(Seq::empty()).drop_last() =~= prev);
                assert(prev =~= prev.drop_last().push(prev.last()));
                lemma_nonempty_trimmed_push(prev.drop_last(), prev.last());
            }
            if t.len() > 0 {
                let ts = string_of(&t);
                done.push(ts);
                proof {
                    assert(done@.map_values(|x: String| x@) =~= nonempty_trimmed(prev.drop_last()).push(trim(prev.last())));
                }
            }
            cur = Vec::new();
            proof {
                assert(cur@ =~= Seq::<char>::empty());
            }
        } else {
            cur.push(s[i]);
            proof {
                let next = prev.update(prev.len() - 1, prev.last().push(s@[i as int]));
                assert(next.drop_last() =~= prev.drop_last());
            }
        }
        i = i + 1;
    }
    proof {
        assert(s@.take(s@.len() as int) =~= s@);
        let sp = split_char(s@, c);
        assert(sp =~= sp.drop_last().push(sp.last()));
        lemma_nonempty_trimmed_push(sp.drop_last(), sp.last());
    }
    let t = trimmed(&cur);
    if t.len() > 0 {
        done.push(string_of(&t));
        proof {
            let sp = split_char(s@, c);
            assert(done@.map_values(|x: String| x@) =~= nonempty_trimmed(sp.drop_last()).push(trim(sp.last())));
        }
    }
    done
}


/// The pieces of `s` split at `c`, as strings.
pub fn split_at_char(s: &Vec<char>, c: char) -> (r: Vec<String>)
    ensures
        r@.map_values(|x: String| x@) == split_char(s@, c),
{
    let mut done: Vec<String> = Vec::new();
    let mut cur: Vec<char> = Vec::new();
    let mut i: usize = 0;
    proof {
        assert(s@.take(0) =~= Seq::<char>::empty());
        assert(split_char(s@.take(0), c) =~= seq![Seq::<char>::empty()]);
        assert(done@.map_values(|x: String| x@) =~= split_char(s@.take(0), c).drop_last());
    }
    while i < s.len()
        invariant
            i <= s@.len(),
            split_char(s@.take(i as int), c).len() >= 1,
            cur@ == split_char(s@.take(i as int), c).last(),
            done@.map_values(|x: String| x@) == split_char(s@.take(i as int), c).drop_last(),
        decreases s.len() - i,
    {
        let ghost prev = split_char(s@.take(i as int), c);
        proof {
            assert(s@.take(i + 1).drop_last() =~= s@.take(i as int));
            assert(s@.take(i + 1).last() == s@[i as int]);
        }
        if s[i] == c {
            let piece = string_of(&cur);
            done.push(piece);
            proof {
                assert(prev.push(Seq::empty()).drop_last() =~= prev);
                assert(prev =~= prev.drop_last().push(prev.last()));
                assert(done@.map_values(|x: String| x@) =~= prev.drop_last().push(prev.last()));
            }
            cur = Vec::new();
            proof {
                assert(cur@ =~= Seq::<char>::empty());
            }
        } else {
            cur.push(s[i]);
            proof {
                let next = prev.update(prev.len() - 1, prev.last().push(s@[i as int]));
                assert(next.drop_last() =~= prev.drop_last());
            }
        }
        i = i + 1;
    }
    proof {
        assert(s@.take(s@.len() as int) =~= s@);
    }
    let last = string_of(&cur);
    done.push(last);
    proof {
        let sp = split_char(s@, c);
        assert(sp =~= sp.drop_last().push(sp.last()));
        assert(done@.map_values(|x: String| x@) =~= sp.drop_last().push(sp.last()));
    }
    done
}

/// Whether the characters of `a` are exactly those of `b`.
pub fn equals_str(a: &Vec<char>, b: &str) -> (r: bool)
    ensures
        r == (a@ == b@),
{
    let bv = chars_of(b);
    if a.len() != bv.len() {
        return false;
    }
    let mut i: usize = 0;
    while i < a.len()
        invariant
            a@.len() == bv@.len(),
            bv@ == b@,
            i <= a@.len(),
            forall|j: int| 0 <= j < i ==> a@[j] == bv@[j],
        decreases a.len() - i,
    {
        if a[i] != bv[i] {
            proof {
                assert(a@[i as int] != bv@[i as int]);
                assert(a@ != bv@);
            }
            return false;
        }
        i = i + 1;
    }
    proof {
        assert(a@ =~= bv@);
    }
    true
}

/// A path joined with a relative component on a Unix host: the component
/// alone for an empty base, otherwise separated by exactly one `/`.
pub open spec fn join_path(base: Seq<char>, name: Seq<char>) -> Seq<char> {
    if base.len() == 0 {
        name
    } else if base.last() == '/' {
        base + name
    } else {
        base + "/"@ + name
    }
}

/// `base` joined with the relative component `name`.
pub fn join(base: &str, name: &str) -> (r: String)
    ensures
        r@ == join_path(base@, name@),
{
    let b = chars_of(base);
    let mut s = String::new();
    push_str(&mut s, base);
    if b.len() > 0 && b[b.len() - 1] != '/' {
        push_str(&mut s, "/");
    }
    push_str(&mut s, name);
    proof {
        assert(s@ =~= join_path(base@, name@));
    }
    s
}

/// The maximal runs of non-whitespace characters of `s`, in order, as
/// `str::split_whitespace` yields them.
pub open spec fn words(s: Seq<char>) -> Seq<Seq<char>>
    decreases s.len(),
{
    if s.len() == 0 {
        Seq::empty()
    } else {
        let prev = words(s.drop_last());
        if is_ws(s.last()) {
            prev
        } else if s.len() == 1 || is_ws(s[s.len() - 2]) {
            prev.push(seq![s.last()])
        } else {
            prev.update(prev.len() - 1, prev.last().push(s.last()))
        }
    }
}

/// The whitespace-separated words of `s`.
pub fn split_words(s: &Vec<char>) -> (r: Vec<Vec<char>>)
    ensures
        r@.map_values(|w: Vec<char>| w@) == words(s@),
{
    let mut done: Vec<Vec<char>> = Vec::new();
    let mut cur: Vec<char> = Vec::new();
    let mut i: usize = 0;
    proof {
        assert(s@.take(0) =~= Seq::<char>::empty());
        assert(done@.map_values(|w: Vec<char>| w@) =~= Seq::<Seq<char>>::empty());
    }
    while i < s.len()
        invariant
            i <= s@.len(),
            cur@.len() > 0 <==> (i > 0 && !is_ws(s@[i - 1])),
            words(s@.take(i as int)) == if cur@.len() > 0 {
                done@.map_values(|w: Vec<char>| w@).push(cur@)
            } else {
                done@.map_values(|w: Vec<char>| w@)
            },
        decreases s.len() - i,
    {
        let ghost dv = done@.map_values(|w: Vec<char>| w@);
        let ghost prev = words(s@.take(i as int));
        let c = s[i];
        proof {
            assert(s@.take(i + 1).drop_last() =~= s@.take(i as int));
            assert(s@.take(i + 1).last() == c);
            if i > 0 {
                assert(s@.take(i + 1)[i - 1] == s@[i - 1]);
            }
        }
        if is_whitespace(c) {
            if cur.len() > 0 {
                let w = cur;
                done.push(w);
                cur = Vec::new();
                proof {
                    assert(done@.map_values(|w: Vec<char>| w@) =~= dv.push(w@));
                }
            }
        } else {
            let ghost oc = cur@;
            cur.push(c);
            proof {
                if i == 0 || is_ws(s@[i - 1]) {
                    assert(cur@ =~= seq![c]);
                } else {
                    assert(prev == dv.push(oc));
                    assert(oc == cur@.drop_last());
                    assert(prev.update(prev.len() - 1, prev.last().push(c)) =~= dv.push(cur@));
                }
            }
        }
        i = i + 1;
    }
    proof {
        assert(s@.take(s@.len() as int) =~= s@);
    }
    if cur.len() > 0 {
        let ghost dv = done@.map_values(|w: Vec<char>| w@);
        let w = cur;
        done.push(w);
        proof {
            assert(done@.map_values(|w: Vec<char>| w@) =~= dv.push(w@));
        }
    }
    done
}

/// `s` without the leading characters that belong to `set`.
pub open spec fn strip_start_in(s: Seq<char>, set: Seq<char>) -> Seq<char>
    decreases s.len(),
{
    if s.len() > 0 && set.contains(s[0]) {
        strip_start_in(s.drop_first(), set)
    } else {
        s
    }
}

/// `s` without the trailing characters that belong to `set`.
pub open spec fn strip_end_in(s: Seq<char>, set: Seq<char>) -> Seq<char>
    decreases s.len(),
{
    if s.len() > 0 && set.contains(s.last()) {
        strip_end_in(s.drop_last(), set)
    } else {
        s
    }
}

/// `s` without leading or trailing characters of `set`, as
/// `str::trim_matches` with a character set gives it.
pub open spec fn strip_in(s: Seq<char>, set: Seq<char>) -> Seq<char> {
    strip_end_in(strip_start_in(s, set), set)
}

/// `s` with its leading characters of `set` removed.
pub fn stripped_start(s: &Vec<char>, set: &Vec<char>) -> (r: Vec<char>)
    ensures
        r@ == strip_start_in(s@, set@),
{
    let n = s.len();
    let mut a: usize = 0;
    proof {
        assert(s@.subrange(0, n as int) =~= s@);
    }
    while a < n && member(set, s[a])
        invariant
            n == s@.len(),
            a <= n,
            strip_start_in(s@, set@) == strip_start_in(s@.subrange(a as int, n as int), set@),
        decreases n - a,
    {
        proof {
            assert(s@.subrange(a as int, n as int).drop_first() =~= s@.subrange(a + 1, n as int));
        }
        a = a + 1;
    }
    let mut r: Vec<char> = Vec::new();
    let mut k: usize = a;
    while k < n
        invariant
            a <= k <= n,
            n == s@.len(),
            r@ == s@.subrange(a as int, k as int),
        decreases n - k,
    {
        r.push(s[k]);
        proof {
            assert(s@.subrange(a as int, k + 1) =~= s@.subrange(a as int, k as int).push(s@[k as int]));
        }
        k = k + 1;
    }
    proof {
        let t = s@.subrange(a as int, n as int);
        if a < n {
            assert(t[0] == s@[a as int]);
        }
        assert(strip_start_in(t, set@) == t);
    }
    r
}

/// `s` with its trailing characters of `set` removed.
pub fn stripped_end(s: &Vec<char>, set: &Vec<char>) -> (r: Vec<char>)
    ensures
        r@ == strip_end_in(s@, set@),
{
    let mut b: usize = s.len();
    proof {
        assert(s@.subrange(0, b as int) =~= s@);
    }
    while b > 0 && member(set, s[b - 1])
        invariant
            b <= s@.len(),
            strip_end_in(s@, set@) == strip_end_in(s@.subrange(0, b as int), set@),
        decreases b,
    {
        proof {
            assert(s@.subrange(0, b as int).drop_last() =~= s@.subrange(0, b - 1));
        }
        b = b - 1;
    }
    let mut r: Vec<char> = Vec::new();
    let mut k: usize = 0;
    while k < b
        invariant
            k <= b <= s@.len(),
            r@ == s@.subrange(0, k as int),
        decreases b - k,
    {
        r.push(s[k]);
        proof {
            assert(s@.subrange(0, k + 1) =~= s@.subrange(0, k as int).push(s@[k as int]));
        }
        k = k + 1;
    }
    proof {
        let t = s@.subrange(0, b as int);
        if b > 0 {
            assert(t.last() == s@[b - 1]);
        }
        assert(strip_end_in(t, set@) == t);
    }
    r
}

/// The part of `s` before the first `c` (all of `s` when there is none),
/// the first piece `str::split(c)` yields.
pub open spec fn prefix_before(s: Seq<char>, c: char) -> Seq<char>
    decreases s.len(),
{
    if s.len() == 0 {
        s
    } else if s[0] == c {
        Seq::empty()
    } else {
        seq![s[0]] + prefix_before(s.drop_first(), c)
    }
}

/// The characters of `s` before its first `c`.
pub fn before_char(s: &Vec<char>, c: char) -> (r: Vec<char>)
    ensures
        r@ == prefix_before(s@, c),
{
    let n = s.len();
    let mut k: usize = 0;
    proof {
        assert(s@.skip(0) =~= s@);
        assert(s@.take(0) + prefix_before(s@, c) =~= prefix_before(s@, c));
    }
    while k < n && s[k] != c
        invariant
            k <= n == s@.len(),
            prefix_before(s@, c) == s@.take(k as int) + prefix_before(s@.skip(k as int), c),
        decreases n - k,
    {
        proof {
            let t = s@.skip(k as int);
            assert(t[0] == s@[k as int]);
            assert(t.drop_first() =~= s@.skip(k + 1));
            assert(s@.take(k + 1) =~= s@.take(k as int) + seq![s@[k as int]]);
        }
        k = k + 1;
    }
    proof {
        if k < n {
            assert(s@.skip(k as int)[0] == c);
        } else {
            assert(s@.skip(k as int).len() == 0);
        }
        assert(s@.take(k as int) + prefix_before(s@.skip(k as int), c) =~= s@.take(k as int));
    }
    let mut r: Vec<char> = Vec::new();
    let mut i: usize = 0;
    while i < k
        invariant
            i <= k <= s@.len(),
            r@ == s@.take(i as int),
        decreases k - i,
    {
        r.push(s[i]);
        proof {
            assert(s@.take(i + 1) =~= s@.take(i as int).push(s@[i as int]));
        }
        i = i + 1;
    }
    r
}

/// `p` ends with one of the entries of `list`.
pub open spec fn ends_with_any(p: Seq<char>, list: Seq<Seq<char>>) -> bool {
    exists|i: int| 0 <= i < list.len() && seq_ends_with(p, list[i])
}

/// Whether `p` ends with one of the entries of `list`.
pub fn ends_with_one_of(p: &Vec<char>, list: &Vec<Vec<char>>) -> (b: bool)
    ensures
        b == ends_with_any(p@, list@.map_values(|x: Vec<char>| x@)),
{
    let ghost l = list@.map_values(|x: Vec<char>| x@);
    let mut i: usize = 0;
    while i < list.len()
        invariant
            i <= list@.len(),
            l == list@.map_values(|x: Vec<char>| x@),
            forall|j: int| 0 <= j < i ==> !seq_ends_with(p@, #[trigger] l[j]),
        decreases list.len() - i,
    {
        if ends_with(p, &list[i]) {
            proof {
                assert(l[i as int] == list@[i as int]@);
            }
            return true;
        }
        proof {
            assert(l[i as int] == list@[i as int]@);
        }
        i = i + 1;
    }
    false
}

/// Signed decimal notation, as `{}` and `{:?}` write a signed integer.
pub open spec fn signed_decimal(n: int) -> Seq<char> {
    if n < 0 { "-"@ + decimal((-n) as nat) } else { decimal(n as nat) }
}

/// Appends the signed decimal notation of `n` to `s`.
pub fn push_signed(s: &mut String, n: i64)
    ensures
        final(s)@ == old(s)@ + signed_decimal(n as int),
{
    if n < 0 {
        let ghost start = s@;
        push_str(s, "-");
        let m: u64 = (-(n as i128)) as u64;
        push_decimal(s, m);
        proof {
            assert(s@ =~= start + signed_decimal(n as int));
        }
    } else {
        push_decimal(s, n as u64);
    }
}

/// What `char::escape_debug` yields for `c`.
pub uninterp spec fn char_debug(c: char) -> Seq<char>;

/// Calls `char::escape_debug` and collects what it yields; the escape is
/// only known by the name `char_debug`.
#[verifier::external_body]
pub(crate) fn escape_char_debug(c: char) -> (r: String)
    ensures
        r@ == char_debug(c),
{
    c.escape_debug().to_string()
}

/// The escaped characters of a string as `str`'s `Debug` writes them:
/// each character as `char::escape_debug` escapes it, except that a
/// single quote stays as it is.
pub open spec fn debug_chars(s: Seq<char>) -> Seq<char>
    decreases s.len(),
{
    if s.len() == 0 {
        Seq::empty()
    } else {
        debug_chars(s.drop_last()) + if s.last() == '\'' { seq!['\''] } else { char_debug(s.last()) }
    }
}

/// `format!("{:?}", s)` of a string: quoted and escaped.
pub open spec fn debug_str(s: Seq<char>) -> Seq<char> {
    "\""@ + debug_chars(s) + "\""@
}

/// Appends the `Debug` rendering of a string.
pub fn push_debug_str(out: &mut String, s: &str)
    ensures
        final(out)@ == old(out)@ + debug_str(s@),
{
    let ghost start = out@;
    let cs = chars_of(s);
    push_str(out, "\"");
    let mut i: usize = 0;
    while i < cs.len()
        invariant
            i <= cs@.len(),
            cs@ == s@,
            out@ == start + "\""@ + debug_chars(cs@.take(i as int)),
        decreases cs.len() - i,
    {
        proof {
            assert(cs@.take(i + 1).drop_last() =~= cs@.take(i as int));
            assert(cs@.take(i + 1).last() == cs@[i as int]);
        }
        let c = cs[i];
        if c == '\'' {
            push_char(out, '\'');
        } else {
            let e = escape_char_debug(c);
            push_str(out, e.as_str());
        }
        i = i + 1;
    }
    push_str(out, "\"");
    proof {
        assert(cs@.take(i as int) =~= s@);
        assert(out@ =~= start + debug_str(s@));
    }
}

/// Items joined with `, `.
pub open spec fn comma_joined(items: Seq<Seq<char>>) -> Seq<char>
    decreases items.len(),
{
    if items.len() == 0 {
        Seq::empty()
    } else if items.len() == 1 {
        items[0]
    } else {
        comma_joined(items.drop_last()) + ", "@ + items.last()
    }
}

/// What `format!("{:?}", list)` renders for a list of strings: the
/// bracketed, comma-separated, quoted and escaped items.
pub open spec fn debug_list(items: Seq<Seq<char>>) -> Seq<char> {
    "["@ + comma_joined(items.map_values(|s: Seq<char>| debug_str(s))) + "]"@
}

/// Renders a list of strings as `format!("{:?}", ..)` does.
pub(crate) fn debug_list_string(items: &Vec<String>) -> (r: String)
    ensures
        r@ == debug_list(items@.map_values(|s: String| s@)),
{
    let ghost iv = items@.map_values(|s: String| s@);
    let mut out = String::new();
    push_str(&mut out, "[");
    let mut i: usize = 0;
    while i < items.len()
        invariant
            i <= items@.len(),
            iv == items@.map_values(|s: String| s@),
            out@ == "["@ + comma_joined(iv.take(i as int).map_values(|s: Seq<char>| debug_str(s))),
        decreases items.len() - i,
    {
        let ghost before = out@;
        if i > 0 {
            push_str(&mut out, ", ");
        }
        push_debug_str(&mut out, items[i].as_str());
        proof {
            let prev = iv.take(i as int).map_values(|s: Seq<char>| debug_str(s));
            let next = iv.take(i + 1).map_values(|s: Seq<char>| debug_str(s));
            assert(iv[i as int] == items@[i as int]@);
            assert(next =~= prev.push(debug_str(iv[i as int])));
            assert(next.drop_last() =~= prev);
            if i == 0 {
                assert(prev.len() == 0);
                assert(comma_joined(prev) =~= Seq::<char>::empty());
            }
            assert(out@ =~= "["@ + comma_joined(next));
        }
        i = i + 1;
    }
    push_str(&mut out, "]");
    proof {
        assert(iv.take(i as int) =~= iv);
    }
    out
}

/// `p` starts with one of the entries of `list`.
pub open spec fn starts_with_any(p: Seq<char>, list: Seq<Seq<char>>) -> bool {
    exists|i: int| 0 <= i < list.len() && seq_starts_with(p, list[i])
}

/// Whether `p` starts with one of the entries of `list`.
pub fn starts_with_one_of(p: &Vec<char>, list: &Vec<Vec<char>>) -> (b: bool)
    ensures
        b == starts_with_any(p@, list@.map_values(|x: Vec<char>| x@)),
{
    let ghost l = list@.map_values(|x: Vec<char>| x@);
    let mut i: usize = 0;
    while i < list.len()
        invariant
            i <= list@.len(),
            l == list@.map_values(|x: Vec<char>| x@),
            forall|j: int| 0 <= j < i ==> !seq_starts_with(p@, #[trigger] l[j]),
        decreases list.len() - i,
    {
        if starts_with(p, &list[i]) {
            proof {
                assert(l[i as int] == list@[i as int]@);
            }
            return true;
        }
        proof {
            assert(l[i as int] == list@[i as int]@);
        }
        i = i + 1;
    }
    false
}

/// The lowercase form of `s` with surrounding whitespace removed, as
/// `s.trim().to_lowercase()` gives it.
pub fn trimmed_lower(s: &str) -> (r: Vec<char>)
    ensures
        r@ == lowercase(trim(s@)),
{
    let chars = chars_of(s);
    let t = trimmed(&chars);
    let ts = string_of(&t);
    lower_chars(ts.as_str())
}

/// The pieces of `s` between characters of `set` (as `str::split` with a
/// character set yields them; there is always at least one piece).
pub open spec fn split_in(s: Seq<char>, set: Seq<char>) -> Seq<Seq<char>>
    decreases s.len(),
{
    if s.len() == 0 {
        seq![Seq::empty()]
    } else {
        let prev = split_in(s.drop_last(), set);
        if set.contains(s.last()) {
            prev.push(Seq::empty())
        } else {
            prev.update(prev.len() - 1, prev.last().push(s.last()))
        }
    }
}

/// `split_in` always yields at least one piece.
pub proof fn lemma_split_in_nonempty(s: Seq<char>, set: Seq<char>)
    ensures
        split_in(s, set).len() >= 1,
    decreases s.len(),
{
    if s.len() > 0 {
        lemma_split_in_nonempty(s.drop_last(), set);
    }
}

/// The pieces of `s` between characters of `set`.
pub fn split_at_any(s: &Vec<char>, set: &Vec<char>) -> (r: Vec<Vec<char>>)
    ensures
        r@.map_values(|p: Vec<char>| p@) == split_in(s@, set@),
{
    let mut done: Vec<Vec<char>> = Vec::new();
    let mut cur: Vec<char> = Vec::new();
    let mut i: usize = 0;
    proof {
        assert(s@.take(0) =~= Seq::<char>::empty());
        assert(done@.map_values(|p: Vec<char>| p@).push(cur@) =~= seq![Seq::<char>::empty()]);
    }
    while i < s.len()
        invariant
            i <= s@.len(),
            split_in(s@.take(i as int), set@) == done@.map_values(|p: Vec<char>| p@).push(cur@),
        decreases s.len() - i,
    {
        let ghost dv = done@.map_values(|p: Vec<char>| p@);
        let ghost oc = cur@;
        proof {
            assert(s@.take(i + 1).drop_last() =~= s@.take(i as int));
            assert(s@.take(i + 1).last() == s@[i as int]);
        }
        if member(set, s[i]) {
            let w = cur;
            done.push(w);
            cur = Vec::new();
            proof {
                assert(done@.map_values(|p: Vec<char>| p@) =~= dv.push(oc));
                assert(dv.push(oc).push(Seq::<char>::empty()) =~= done@.map_values(|p: Vec<char>| p@).push(cur@));
            }
        } else {
            cur.push(s[i]);
            proof {
                assert(dv.push(oc).update(dv.len() as int, oc.push(s@[i as int])) =~= dv.push(cur@));
            }
        }
        i = i + 1;
    }
    proof {
        assert(s@.take(s@.len() as int) =~= s@);
    }
    let ghost dv = done@.map_values(|p: Vec<char>| p@);
    let w = cur;
    done.push(w);
    proof {
        assert(done@.map_values(|p: Vec<char>| p@) =~= dv.push(w@));
    }
    done
}

/// The first index at which `pat` occurs in `h`, if any.
#[verifier::opaque]
pub open spec fn first_index_of(h: Seq<char>, pat: Seq<char>) -> Option<int> {
    if seq_contains(h, pat) {
        Some(choose|i: int| occurs_at(h, pat, i) && forall|j: int| 0 <= j < i ==> !occurs_at(h, pat, j))
    } else {
        None
    }
}

/// The first index at which `n` occurs in `h`, if any.
pub fn find(h: &Vec<char>, n: &Vec<char>) -> (r: Option<usize>)
    ensures
        match r {
            Some(i) => first_index_of(h@, n@) == Some(i as int) && occurs_at(h@, n@, i as int),
            None => first_index_of(h@, n@) is None,
        },
{
    proof {
        reveal(first_index_of);
    }
    if n.len() > h.len() {
        proof {
            assert forall|j: int| !occurs_at(h@, n@, j) by {}
        }
        return None;
    }
    let last = h.len() - n.len();
    let mut i: usize = 0;
    while i < last
        invariant
            last == h.len() - n.len(),
            n.len() <= h.len(),
            i <= last,
            forall|j: int| 0 <= j < i ==> !occurs_at(h@, n@, j),
        decreases last - i,
    {
        if matches_at(h, n, i) {
            proof {
                lemma_first_index(h@, n@, i as int);
            }
            return Some(i);
        }
        i = i + 1;
    }
    if matches_at(h, n, last) {
        proof {
            lemma_first_index(h@, n@, last as int);
        }
        return Some(last);
    }
    proof {
        assert forall|j: int| !occurs_at(h@, n@, j) by {
            if 0 <= j && j + n@.len() <= h@.len() {
                assert(j <= last);
            }
        }
    }
    None
}

proof fn lemma_first_index(h: Seq<char>, n: Seq<char>, i: int)
    requires
        occurs_at(h, n, i),
        forall|j: int| 0 <= j < i ==> !occurs_at(h, n, j),
    ensures
        first_index_of(h, n) == Some(i),
{
    reveal(first_index_of);
    let w = choose|k: int| occurs_at(h, n, k) && forall|j: int| 0 <= j < k ==> !occurs_at(h, n, j);
    assert(occurs_at(h, n, w));
    if w < i {
        assert(!occurs_at(h, n, w));
    } else if w > i {
        assert(!occurs_at(h, n, i));
    }
}

/// The text of `s` after the first `pat` and before the next one (the
/// second piece `str::split(pat)` yields), if `pat` occurs.
pub open spec fn second_piece(s: Seq<char>, pat: Seq<char>) -> Option<Seq<char>> {
    match first_index_of(s, pat) {
        None => None,
        Some(i) => {
            let rest = s.skip(i + pat.len());
            match first_index_of(rest, pat) {
                None => Some(rest),
                Some(k) => Some(rest.take(k)),
            }
        },
    }
}

/// The characters of `s` from index `start` on.
pub fn suffix_from(s: &Vec<char>, start: usize) -> (r: Vec<char>)
    requires
        start <= s@.len(),
    ensures
        r@ == s@.skip(start as int),
{
    let mut rest: Vec<char> = Vec::new();
    let mut k: usize = start;
    while k < s.len()
        invariant
            start <= k <= s@.len(),
            rest@ == s@.subrange(start as int, k as int),
        decreases s.len() - k,
    {
        rest.push(s[k]);
        proof {
            assert(s@.subrange(start as int, k + 1) =~= s@.subrange(start as int, k as int).push(s@[k as int]));
        }
        k = k + 1;
    }
    proof {
        assert(rest@ =~= s@.skip(start as int));
    }
    rest
}

/// The first `e` characters of `s`.
fn prefix_of(s: &Vec<char>, e: usize) -> (r: Vec<char>)
    requires
        e <= s@.len(),
    ensures
        r@ == s@.take(e as int),
{
    let mut out: Vec<char> = Vec::new();
    let mut m: usize = 0;
    while m < e
        invariant
            m <= e <= s@.len(),
            out@ == s@.take(m as int),
        decreases e - m,
    {
        out.push(s[m]);
        proof {
            assert(s@.take(m + 1) =~= s@.take(m as int).push(s@[m as int]));
        }
        m = m + 1;
    }
    out
}

/// The second piece of `s` split at `pat`, if `pat` occurs.
pub fn second_piece_of(s: &Vec<char>, pat: &Vec<char>) -> (r: Option<Vec<char>>)
    ensures
        match r {
            Some(v) => second_piece(s@, pat@) == Some(v@),
            None => second_piece(s@, pat@) is None,
        },
{
    match find(s, pat) {
        None => None,
        Some(i) => {
            let sl = s.len();
            assert(occurs_at(s@, pat@, i as int));
            assert(i + pat@.len() <= sl);
            let rest = suffix_from(s, i + pat.len());
            match find(&rest, pat) {
                None => Some(rest),
                Some(e) => Some(prefix_of(&rest, e)),
            }
        },
    }
}

/// A line without the carriage return that ended it.
pub open spec fn strip_cr(l: Seq<char>) -> Seq<char> {
    if l.len() > 0 && l.last() == '\r' {
        l.drop_last()
    } else {
        l
    }
}

/// The lines of `s`, as `str::lines` yields them: split at `\n`, each
/// terminated line without a final `\r`, and no empty line after a final
/// `\n`.
pub open spec fn lines(s: Seq<char>) -> Seq<Seq<char>> {
    let p = split_in(s, seq!['\n']);
    let terminated = p.drop_last().map_values(|l: Seq<char>| strip_cr(l));
    if p.last().len() == 0 {
        terminated
    } else {
        terminated.push(p.last())
    }
}

/// The lines of `s`.
pub fn split_lines(s: &Vec<char>) -> (r: Vec<Vec<char>>)
    ensures
        r@.map_values(|l: Vec<char>| l@) == lines(s@),
{
    let nl = vec!['\n'];
    proof {
        assert(nl@ =~= seq!['\n']);
        lemma_split_in_nonempty(s@, seq!['\n']);
    }
    let pieces = split_at_any(s, &nl);
    let ghost pv = pieces@.map_values(|l: Vec<char>| l@);
    let n = pieces.len();
    let mut out: Vec<Vec<char>> = Vec::new();
    let mut i: usize = 0;
    while i + 1 < n
        invariant
            n == pieces@.len(),
            n >= 1,
            i + 1 <= n,
            pv == pieces@.map_values(|l: Vec<char>| l@),
            out@.map_values(|l: Vec<char>| l@) == pv.take(i as int).map_values(|l: Seq<char>| strip_cr(l)),
        decreases n - i,
    {
        let ghost ov = out@.map_values(|l: Vec<char>| l@);
        let piece = &pieces[i];
        let mut line: Vec<char> = Vec::new();
        let len = piece.len();
        let keep = if len > 0 && piece[len - 1] == '\r' { len - 1 } else { len };
        let mut k: usize = 0;
        while k < keep
            invariant
                keep <= piece@.len(),
                k <= keep,
                line@ == piece@.take(k as int),
            decreases keep - k,
        {
            line.push(piece[k]);
            proof {
                assert(piece@.take(k + 1) =~= piece@.take(k as int).push(piece@[k as int]));
            }
            k = k + 1;
        }
        proof {
            assert(pv[i as int] == piece@);
            assert(line@ =~= strip_cr(piece@));
        }
        out.push(line);
        proof {
            assert(out@.map_values(|l: Vec<char>| l@) =~= ov.push(strip_cr(pv[i as int])));
            assert(pv.take(i + 1).map_values(|l: Seq<char>| strip_cr(l))
                =~= pv.take(i as int).map_values(|l: Seq<char>| strip_cr(l)).push(strip_cr(pv[i as int])));
        }
        i = i + 1;
    }
    proof {
        assert(pv.take(i as int) =~= pv.drop_last());
    }
    if pieces[n - 1].len() > 0 {
        let ghost ov = out@.map_values(|l: Vec<char>| l@);
        let mut last: Vec<char> = Vec::new();
        let mut k: usize = 0;
        while k < pieces[n - 1].len()
            invariant
                n == pieces@.len(),
                n >= 1,
                k <= pieces@[n - 1]@.len(),
                last@ == pieces@[n - 1]@.take(k as int),
            decreases pieces@[n - 1]@.len() - k,
        {
            last.push(pieces[n - 1][k]);
            proof {
                let pl = pieces@[n - 1]@;
                assert(pl.take(k + 1) =~= pl.take(k as int).push(pl[k as int]));
            }
            k = k + 1;
        }
        proof {
            let pl = pieces@[n - 1]@;
            assert(last@ =~= pl);
            assert(pv.last() == pl);
        }
        out.push(last);
        proof {
            assert(out@.map_values(|l: Vec<char>| l@) =~= ov.push(pv.last()));
        }
    }
    out
}

/// `prefix_before` is the part of `s` up to its first `c`: a prefix of
/// `s`, free of `c`, followed in `s` by `c` when shorter than `s`.
pub proof fn lemma_prefix_before(s: Seq<char>, c: char)
    ensures
        prefix_before(s, c).len() <= s.len(),
        prefix_before(s, c) == s.take(prefix_before(s, c).len() as int),
        !prefix_before(s, c).contains(c),
        prefix_before(s, c).len() < s.len() ==> s[prefix_before(s, c).len() as int] == c,
    decreases s.len(),
{
    if s.len() > 0 && s[0] != c {
        lemma_prefix_before(s.drop_first(), c);
        let p = prefix_before(s.drop_first(), c);
        assert(prefix_before(s, c) == seq![s[0]] + p);
        assert(seq![s[0]] + p =~= s.take(p.len() as int + 1));
        assert(!(seq![s[0]] + p).contains(c)) by {
            if (seq![s[0]] + p).contains(c) {
                let i = choose|i: int| 0 <= i < (seq![s[0]] + p).len() && (seq![s[0]] + p)[i] == c;
                if i > 0 {
                    assert(p[i - 1] == c);
                }
            }
        }
    } else if s.len() > 0 {
        assert(s.take(0) =~= Seq::<char>::empty());
    } else {
        assert(s.take(0) =~= s);
    }
}

} // verus!
