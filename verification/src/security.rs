//! Secret-leak and exfiltration screening of tool arguments, and redaction
//! of secret tokens from text bound for logs.
use vstd::prelude::*;
use crate::error::{EaiError, EaiResult};
use crate::text::{seq_contains, lowercase, chars_of, contains, lower_chars, push_str, push_char, string_of};

verus! {

#[verifier::external_type_specification]
#[verifier::external_body]
pub struct ExRegex(regex::Regex);

/// Characters that `regex::escape` prefixes with a backslash.
pub open spec fn regex_meta(c: char) -> bool {
    c == '\\' || c == '.' || c == '+' || c == '*' || c == '?' || c == '(' || c == ')' || c == '|'
        || c == '[' || c == ']' || c == '{' || c == '}' || c == '^' || c == '$' || c == '#'
        || c == '&' || c == '-' || c == '~'
}

/// `text` with every regex meta character prefixed by a backslash, as
/// `regex::escape` returns it.
pub open spec fn regex_escaped(text: Seq<char>) -> Seq<char>
    decreases text.len(),
{
    if text.len() == 0 {
        Seq::empty()
    } else {
        let prev = regex_escaped(text.drop_last());
        let c = text.last();
        if regex_meta(c) {
            prev + seq!['\\', c]
        } else {
            prev.push(c)
        }
    }
}

/// Calls `regex::escape`, which backslash-escapes each meta character and
/// keeps every other character.
#[verifier::external_body]
fn escape(text: &str) -> (r: String)
    ensures
        r@ == regex_escaped(text@),
{
    regex::escape(text)
}

/// Whether `regex::Regex::new` accepts this pattern source (its syntax and
/// its compiled size under the default limits).
pub uninterp spec fn regex_accepts(source: Seq<char>) -> bool;

/// What `regex::Regex::replace_all` returns for a regex compiled from
/// `source`, a haystack and a literal replacement: every non-overlapping
/// leftmost-first match replaced.
pub uninterp spec fn regex_replace_all(source: Seq<char>, haystack: Seq<char>, rep: Seq<char>) -> Seq<char>;

/// A regex together with the pattern source it was compiled from.
pub struct CompiledRegex {
    source: String,
    re: regex::Regex,
}

impl CompiledRegex {
    /// The pattern source.
    pub closed spec fn source(&self) -> Seq<char> {
        self.source@
    }
}

/// Calls `regex::Regex::new`; it succeeds exactly when the source is
/// accepted, and the regex is kept with the source it came from.
#[verifier::external_body]
fn compile(source: &str) -> (r: Option<CompiledRegex>)
    ensures
        r is Some <==> regex_accepts(source@),
        r matches Some(c) ==> c.source() == source@,
{
    match regex::Regex::new(source) {
        Ok(re) => Some(CompiledRegex { source: source.to_string(), re }),
        Err(_) => None,
    }
}

/// Calls `regex::Regex::replace_all` with a literal replacement; its result
/// is only known by the name `regex_replace_all`.
#[verifier::external_body]
fn replace_all(c: &CompiledRegex, haystack: &str, rep: &str) -> (r: String)
    ensures
        r@ == regex_replace_all(c.source(), haystack@, rep@),
{
    c.re.replace_all(haystack, regex::NoExpand(rep)).to_string()
}

/// The regex source that matches a secret token and its trailing
/// token-shaped characters.
pub open spec fn token_regex(pattern: Seq<char>) -> Seq<char> {
    regex_escaped(pattern) + "[A-Za-z0-9_-]*"@
}

/// A character that may belong to a secret token: an ASCII letter or
/// digit, an underscore or a hyphen.
pub open spec fn token_char(c: char) -> bool {
    ||| ('A' as u32 <= c as u32 && c as u32 <= 'Z' as u32)
    ||| ('a' as u32 <= c as u32 && c as u32 <= 'z' as u32)
    ||| ('0' as u32 <= c as u32 && c as u32 <= '9' as u32)
    ||| c == '_'
    ||| c == '-'
}

/// Whether the body of a regex bracket class (the text between `[` and
/// `]`, without escapes or a leading `^`) admits `c`: `x-y` admits the
/// range from `x` to `y`, and any other character, a `-` at either end
/// among them, admits itself.
pub open spec fn class_accepts(body: Seq<char>, c: char) -> bool
    decreases body.len(),
{
    if body.len() == 0 {
        false
    } else if body.len() >= 3 && body[1] == '-' {
        (body[0] as u32 <= c as u32 && c as u32 <= body[2] as u32) || class_accepts(body.skip(3), c)
    } else {
        body[0] == c || class_accepts(body.skip(1), c)
    }
}

/// The redaction regex of a token is the token taken literally (escaped)
/// followed by a repeated bracket class that admits exactly the token
/// characters, so the whole run of letters, digits, `_` and `-` after the
/// token is redacted with it, and nothing else.
pub proof fn law_redaction_covers_the_token_run(pattern: Seq<char>)
    ensures
        ({
            let src = token_regex(pattern);
            let n = regex_escaped(pattern).len();
            let tail = src.skip(n as int);
            let body = tail.subrange(1, tail.len() - 2);
            &&& src.take(n as int) == regex_escaped(pattern)
            &&& tail.len() >= 3
            &&& tail[0] == '['
            &&& tail[tail.len() - 2] == ']'
            &&& tail[tail.len() - 1] == '*'
            &&& body.len() > 0 && body[0] != '^'
            &&& forall|i: int| 0 <= i < body.len() ==> body[i] != ']' && body[i] != '\\' && body[i] != '['
            &&& forall|c: char| class_accepts(body, c) <==> token_char(c)
        }),
{
    reveal_strlit("[A-Za-z0-9_-]*");
    let src = token_regex(pattern);
    let n = regex_escaped(pattern).len();
    let tail = src.skip(n as int);
    assert(src.take(n as int) =~= regex_escaped(pattern));
    assert(tail =~= "[A-Za-z0-9_-]*"@);
    let body = tail.subrange(1, tail.len() - 2);
    assert(body =~= seq!['A', '-', 'Z', 'a', '-', 'z', '0', '-', '9', '_', '-']);
    assert(body.skip(3) =~= seq!['a', '-', 'z', '0', '-', '9', '_', '-']);
    assert(body.skip(3).skip(3) =~= seq!['0', '-', '9', '_', '-']);
    assert(body.skip(3).skip(3).skip(3) =~= seq!['_', '-']);
    assert(body.skip(3).skip(3).skip(3).skip(1) =~= seq!['-']);
    assert(body.skip(3).skip(3).skip(3).skip(1).skip(1) =~= Seq::<char>::empty());
    assert forall|c: char| class_accepts(body, c) <==> token_char(c) by {
        reveal_with_fuel(class_accepts, 6);
    }
}

/// Redaction applies the configured tokens one after another: no tokens
/// leave the text as it is, an empty token changes nothing, and every other
/// token whose regex compiles replaces each match of the token, taken
/// literally, with its run of letters, digits, `_` and `-` by
/// `[REDACTED]` in the text redacted so far.
pub proof fn law_redaction_applies_tokens_in_order(text: Seq<char>, ps: Seq<Seq<char>>, p: Seq<char>)
    ensures
        redacted(text, Seq::empty()) == text,
        p.len() == 0 ==> redacted(text, ps.push(p)) == redacted(text, ps),
        (p.len() > 0 && regex_accepts(regex_escaped(p) + "[A-Za-z0-9_-]*"@)) ==> redacted(text, ps.push(p))
            == regex_replace_all(regex_escaped(p) + "[A-Za-z0-9_-]*"@, redacted(text, ps), "[REDACTED]"@),
{
    assert(ps.push(p).drop_last() =~= ps);
}

/// `text` with every configured secret token (and its trailing token
/// characters) replaced by `[REDACTED]`, one pattern after another;
/// empty patterns and patterns whose regex does not compile are skipped.
pub open spec fn redacted(text: Seq<char>, patterns: Seq<Seq<char>>) -> Seq<char>
    decreases patterns.len(),
{
    if patterns.len() == 0 {
        text
    } else {
        let prev = redacted(text, patterns.drop_last());
        let p = patterns.last();
        if p.len() == 0 || !regex_accepts(token_regex(p)) {
            prev
        } else {
            regex_replace_all(token_regex(p), prev, "[REDACTED]"@)
        }
    }
}

/// The first index of `patterns` whose entry occurs in `text`.
pub open spec fn first_in(text: Seq<char>, patterns: Seq<Seq<char>>, i: int) -> bool {
    &&& 0 <= i < patterns.len()
    &&& seq_contains(text, patterns[i])
    &&& forall|j: int| 0 <= j < i ==> !seq_contains(text, #[trigger] patterns[j])
}

/// No configured secret token occurs in the argument, and no configured
/// exfiltration vector occurs in it, ignoring case.
pub open spec fn audit_clean(arg: Seq<char>, secret_tokens: Seq<String>, exfiltration_vectors: Seq<String>) -> bool {
    let secrets = secret_tokens.map_values(|p: String| p@);
    let vectors = exfiltration_vectors.map_values(|p: String| lowercase(p@));
    &&& forall|j: int| 0 <= j < secrets.len() ==> !seq_contains(arg, #[trigger] secrets[j])
    &&& forall|j: int| 0 <= j < vectors.len() ==> !seq_contains(lowercase(arg), #[trigger] vectors[j])
}

/// The governance error that rejects an argument: it names the first
/// secret token the argument holds, or, when it holds none, the first
/// exfiltration vector it holds ignoring case.
pub open spec fn audit_rejection(arg: Seq<char>, secret_tokens: Seq<String>, exfiltration_vectors: Seq<String>, e: EaiError) -> bool {
    let secrets = secret_tokens.map_values(|p: String| p@);
    let vectors = exfiltration_vectors.map_values(|p: String| lowercase(p@));
    let lower = lowercase(arg);
    e == EaiError::Governance(e->Governance_0) && (
        (exists|i: int| first_in(arg, secrets, i)
            && e->Governance_0@ == "Suspicious secret or API key pattern detected ('"@ + secrets[i] + "')"@)
        || ((forall|j: int| 0 <= j < secrets.len() ==> !seq_contains(arg, #[trigger] secrets[j]))
            && exists|i: int| first_in(lower, vectors, i)
            && e->Governance_0@ == "Suspicious network exfiltration pattern detected ('"@
                + exfiltration_vectors[i]@ + "')"@)
    )
}

/// Secret-leak and exfiltration screening.
pub struct SecurityDetector;

impl SecurityDetector {
    /// Rejects an argument that holds a configured secret-token pattern
    /// (checked first, case-sensitively) or, ignoring case, a configured
    /// exfiltration vector; the first offending pattern is named.
    pub fn audit_action(
        tool_name: &str,
        arg: &str,
        secret_tokens: &Vec<String>,
        exfiltration_vectors: &Vec<String>,
    ) -> (r: EaiResult<()>)
        ensures
            match r {
                Ok(_) => audit_clean(arg@, secret_tokens@, exfiltration_vectors@),
                Err(e) => audit_rejection(arg@, secret_tokens@, exfiltration_vectors@, e),
            },
    {
        let text = chars_of(arg);
        let ghost secrets = secret_tokens@.map_values(|p: String| p@);
        let mut i: usize = 0;
        while i < secret_tokens.len()
            invariant
                i <= secret_tokens@.len(),
                text@ == arg@,
                secrets == secret_tokens@.map_values(|p: String| p@),
                forall|j: int| 0 <= j < i ==> !seq_contains(arg@, #[trigger] secrets[j]),
            decreases secret_tokens.len() - i,
        {
            let p = chars_of(secret_tokens[i].as_str());
            proof {
                assert(secrets[i as int] == secret_tokens@[i as int]@);
            }
            if contains(&text, &p) {
                let mut msg = String::new();
                push_str(&mut msg, "Suspicious secret or API key pattern detected ('");
                push_str(&mut msg, secret_tokens[i].as_str());
                push_str(&mut msg, "')");
                let e = EaiError::governance(msg.as_str());
                proof {
                    assert(first_in(arg@, secrets, i as int)
                        && e->Governance_0@ == "Suspicious secret or API key pattern detected ('"@ + secrets[i as int] + "')"@);
                }
                return Err(e);
            }
            i = i + 1;
        }
        let lower = lower_chars(arg);
        let ghost vectors = exfiltration_vectors@.map_values(|p: String| lowercase(p@));
        let mut k: usize = 0;
        while k < exfiltration_vectors.len()
            invariant
                k <= exfiltration_vectors@.len(),
                lower@ == lowercase(arg@),
                vectors == exfiltration_vectors@.map_values(|p: String| lowercase(p@)),
                secrets == secret_tokens@.map_values(|p: String| p@),
                forall|j: int| 0 <= j < secrets.len() ==> !seq_contains(arg@, #[trigger] secrets[j]),
                forall|j: int| 0 <= j < k ==> !seq_contains(lower@, #[trigger] vectors[j]),
            decreases exfiltration_vectors.len() - k,
        {
            let p = lower_chars(exfiltration_vectors[k].as_str());
            proof {
                assert(vectors[k as int] == lowercase(exfiltration_vectors@[k as int]@));
            }
            if contains(&lower, &p) {
                let mut msg = String::new();
                push_str(&mut msg, "Suspicious network exfiltration pattern detected ('");
                push_str(&mut msg, exfiltration_vectors[k].as_str());
                push_str(&mut msg, "')");
                let e = EaiError::governance(msg.as_str());
                proof {
                    assert(first_in(lower@, vectors, k as int));
                    assert(first_in(lowercase(arg@), vectors, k as int)
                        && e->Governance_0@ == "Suspicious network exfiltration pattern detected ('"@
                            + exfiltration_vectors@[k as int]@ + "')"@);
                }
                return Err(e);
            }
            k = k + 1;
        }
        Ok(())
    }

    /// Redacts every configured secret-token pattern, with the token
    /// characters that follow it, from text bound for logs.
    pub fn redact(text: &str, secret_tokens: &Vec<String>) -> (r: String)
        ensures
            r@ == redacted(text@, secret_tokens@.map_values(|p: String| p@)),
    {
        let ghost pats = secret_tokens@.map_values(|p: String| p@);
        let mut out = String::new();
        push_str(&mut out, text);
        let mut i: usize = 0;
        proof {
            assert(pats.take(0) =~= Seq::<Seq<char>>::empty());
        }
        while i < secret_tokens.len()
            invariant
                i <= secret_tokens@.len(),
                pats == secret_tokens@.map_values(|p: String| p@),
                out@ == redacted(text@, pats.take(i as int)),
            decreases secret_tokens.len() - i,
        {
            proof {
                assert(pats.take(i + 1).drop_last() =~= pats.take(i as int));
                assert(pats.take(i + 1).last() == secret_tokens@[i as int]@);
            }
            let pattern = secret_tokens[i].as_str();
            let pchars = chars_of(pattern);
            if pchars.len() > 0 {
                let mut source = escape(pattern);
                push_str(&mut source, "[A-Za-z0-9_-]*");
                match compile(source.as_str()) {
                    Some(re) => {
                        out = replace_all(&re, out.as_str(), "[REDACTED]");
                    },
                    None => {},
                }
            }
            i = i + 1;
        }
        proof {
            assert(pats.take(secret_tokens@.len() as int) =~= pats);
        }
        out
    }
}

} // verus!
