//! Evidence records: a claim, where it comes from, and a SHA-256 signature
//! that links the record's fields.
use vstd::prelude::*;
use vstd::utf8::encode_utf8;
use crate::digests::{hex_encode, hex_lower, sha256, sha256_digest};
use crate::text::{chars_of, debug_str, decimal, digit, digit_char, equals_str, push_char, push_debug_str,
    push_decimal, push_signed, push_str, signed_decimal};

verus! {

/// Where a claim's evidence comes from.
#[derive(Debug, Clone)]
pub enum EvidenceSource {
    /// A workspace file and the hex SHA-256 of its contents.
    File { path: String, hash: String },
    /// A command, its exit code and the hash of its output.
    Command { command: String, exit_code: i32, output_hash: String },
    /// A system metric and its value.
    System { metric: String, value: String },
    /// What an agent observed, and its reasoning.
    AgentObservation { observation: String, reasoning_trace: String },
}

/// A claim: subject, predicate and value.
#[derive(Debug, Clone)]
pub struct Claim {
    pub subject: String,
    pub predicate: String,
    pub value: String,
}

/// A signed evidence record. Rank and confidence are kept in hundredths,
/// the precision at which records are shown.
#[derive(Debug, Clone)]
pub struct EvidenceRecord {
    pub agent_id: String,
    pub rank_hundredths: u32,
    pub timestamp: u64,
    pub claim: Claim,
    pub source: EvidenceSource,
    pub confidence_hundredths: u32,
    /// The hex SHA-256 linking the record's fields.
    pub signature: String,
}

/// What `format!("{:?}", source)` renders: the derived `Debug` layout,
/// the variant's name and its fields in declaration order (a path shows
/// as its text does).
pub open spec fn source_text(s: EvidenceSource) -> Seq<char> {
    match s {
        EvidenceSource::File { path, hash } =>
            "File { path: "@ + debug_str(path@) + ", hash: "@ + debug_str(hash@) + " }"@,
        EvidenceSource::Command { command, exit_code, output_hash } =>
            "Command { command: "@ + debug_str(command@) + ", exit_code: "@ + signed_decimal(exit_code as int)
                + ", output_hash: "@ + debug_str(output_hash@) + " }"@,
        EvidenceSource::System { metric, value } =>
            "System { metric: "@ + debug_str(metric@) + ", value: "@ + debug_str(value@) + " }"@,
        EvidenceSource::AgentObservation { observation, reasoning_trace } =>
            "AgentObservation { observation: "@ + debug_str(observation@) + ", reasoning_trace: "@
                + debug_str(reasoning_trace@) + " }"@,
    }
}

/// Renders a source as its derived `Debug` does.
fn render_source(s: &EvidenceSource) -> (r: String)
    ensures
        r@ == source_text(*s),
{
    let mut out = String::new();
    match s {
        EvidenceSource::File { path, hash } => {
            push_str(&mut out, "File { path: ");
            push_debug_str(&mut out, path.as_str());
            push_str(&mut out, ", hash: ");
            push_debug_str(&mut out, hash.as_str());
        },
        EvidenceSource::Command { command, exit_code, output_hash } => {
            push_str(&mut out, "Command { command: ");
            push_debug_str(&mut out, command.as_str());
            push_str(&mut out, ", exit_code: ");
            push_signed(&mut out, *exit_code as i64);
            push_str(&mut out, ", output_hash: ");
            push_debug_str(&mut out, output_hash.as_str());
        },
        EvidenceSource::System { metric, value } => {
            push_str(&mut out, "System { metric: ");
            push_debug_str(&mut out, metric.as_str());
            push_str(&mut out, ", value: ");
            push_debug_str(&mut out, value.as_str());
        },
        EvidenceSource::AgentObservation { observation, reasoning_trace } => {
            push_str(&mut out, "AgentObservation { observation: ");
            push_debug_str(&mut out, observation.as_str());
            push_str(&mut out, ", reasoning_trace: ");
            push_debug_str(&mut out, reasoning_trace.as_str());
        },
    }
    push_str(&mut out, " }");
    out
}

/// The `n` low bytes of `t`, least significant first.
pub open spec fn le_bytes(t: nat, n: nat) -> Seq<u8>
    decreases n,
{
    if n == 0 {
        Seq::empty()
    } else {
        seq![(t % 256) as u8] + le_bytes(t / 256, (n - 1) as nat)
    }
}

/// The bytes a record's signature covers: the agent id, the timestamp's
/// eight little-endian bytes, the claim's subject, predicate and value,
/// and the source's debug rendering, each text in UTF-8.
pub open spec fn signed_bytes(agent_id: Seq<char>, timestamp: u64, claim: Claim, shown_source: Seq<char>) -> Seq<u8> {
    encode_utf8(agent_id) + le_bytes(timestamp as nat, 8) + encode_utf8(claim.subject@)
        + encode_utf8(claim.predicate@) + encode_utf8(claim.value@) + encode_utf8(shown_source)
}

/// The signature a record's fields call for.
pub open spec fn expected_signature(r: EvidenceRecord) -> Seq<char> {
    hex_lower(sha256_digest(signed_bytes(r.agent_id@, r.timestamp, r.claim, source_text(r.source))))
}

/// Whether the source stands up, given the named file's contents (none
/// when it is missing or unreadable): a file must hash to the recorded
/// value, a command must have exited with zero; other sources stand.
pub open spec fn source_stands(s: EvidenceSource, file: Option<Seq<u8>>) -> bool {
    match s {
        EvidenceSource::File { hash, .. } => file matches Some(b) && hex_lower(sha256_digest(b)) == hash@,
        EvidenceSource::Command { exit_code, .. } => exit_code == 0,
        _ => true,
    }
}

/// Two decimals of a quantity in hundredths, as `{:.2}` shows it.
pub open spec fn hundredths_text(n: nat) -> Seq<char> {
    decimal(n / 100) + seq!['.', digit_char((n % 100) / 10), digit_char(n % 10)]
}

/// The record as shown to the reasoning engine.
pub open spec fn record_text(r: EvidenceRecord) -> Seq<char> {
    "[VERIFIED AGENT: "@ + r.agent_id@ + " (Rank: "@ + hundredths_text(r.rank_hundredths as nat)
        + ", Confidence: "@ + hundredths_text(r.confidence_hundredths as nat) + ")]\nClaim: "@
        + r.claim.subject@ + " "@ + r.claim.predicate@ + " "@ + r.claim.value@ + "\nSource: "@
        + source_text(r.source) + "\nSignature: "@ + r.signature@ + "\n"@
}

fn push_bytes(out: &mut Vec<u8>, b: &[u8])
    ensures
        final(out)@ == old(out)@ + b@,
{
    let ghost start = out@;
    let mut i: usize = 0;
    while i < b.len()
        invariant
            i <= b@.len(),
            out@ == start + b@.take(i as int),
        decreases b@.len() - i,
    {
        out.push(b[i]);
        i = i + 1;
        proof {
            assert(b@.take(i as int) =~= b@.take(i - 1).push(b@[i - 1]));
        }
    }
    proof {
        assert(b@.take(i as int) =~= b@);
    }
}

fn push_le_bytes(out: &mut Vec<u8>, t: u64)
    ensures
        final(out)@ == old(out)@ + le_bytes(t as nat, 8),
{
    let ghost start = out@;
    let mut v: u64 = t;
    let mut k: u64 = 8;
    while k > 0
        invariant
            k <= 8,
            out@ + le_bytes(v as nat, k as nat) == start + le_bytes(t as nat, 8),
        decreases k,
    {
        let ghost before = out@;
        out.push((v % 256) as u8);
        proof {
            assert(le_bytes(v as nat, k as nat) == seq![(v % 256) as u8] + le_bytes((v / 256) as nat, (k - 1) as nat));
            assert(out@ + le_bytes((v / 256) as nat, (k - 1) as nat) =~= before + le_bytes(v as nat, k as nat));
        }
        v = v / 256;
        k = k - 1;
    }
    proof {
        assert(out@ + le_bytes(v as nat, 0) =~= out@);
    }
}

fn push_hundredths(s: &mut String, n: u32)
    ensures
        final(s)@ == old(s)@ + hundredths_text(n as nat),
{
    let ghost start = s@;
    push_decimal(s, (n / 100) as u64);
    push_char(s, '.');
    push_char(s, digit(((n % 100) / 10) as u64));
    push_char(s, digit((n % 10) as u64));
    proof {
        assert(s@ =~= start + hundredths_text(n as nat));
    }
}

impl EvidenceRecord {
    /// A record of the claim, signed over its fields.
    pub fn new(
        agent_id: String,
        rank_hundredths: u32,
        timestamp: u64,
        claim: Claim,
        source: EvidenceSource,
        confidence_hundredths: u32,
    ) -> (r: Self)
        ensures
            r.agent_id == agent_id,
            r.rank_hundredths == rank_hundredths,
            r.timestamp == timestamp,
            r.claim == claim,
            r.source == source,
            r.confidence_hundredths == confidence_hundredths,
            r.signature@ == expected_signature(r),
    {
        let mut record = EvidenceRecord {
            agent_id,
            rank_hundredths,
            timestamp,
            claim,
            source,
            confidence_hundredths,
            signature: String::new(),
        };
        record.signature = record.calculate_signature();
        record
    }

    /// The signature the record's fields call for: the lowercase hex
    /// SHA-256 of the bytes it covers.
    pub fn calculate_signature(&self) -> (r: String)
        ensures
            r@ == expected_signature(*self),
    {
        let mut bytes: Vec<u8> = Vec::new();
        push_bytes(&mut bytes, self.agent_id.as_str().as_bytes());
        push_le_bytes(&mut bytes, self.timestamp);
        push_bytes(&mut bytes, self.claim.subject.as_str().as_bytes());
        push_bytes(&mut bytes, self.claim.predicate.as_str().as_bytes());
        push_bytes(&mut bytes, self.claim.value.as_str().as_bytes());
        let src_text = render_source(&self.source);
        push_bytes(&mut bytes, src_text.as_str().as_bytes());
        proof {
            assert(bytes@ =~= signed_bytes(self.agent_id@, self.timestamp, self.claim, src_text@));
        }
        let digest = sha256(bytes.as_slice());
        hex_encode(digest.as_slice())
    }

    /// The record as shown to the reasoning engine.
    pub fn render_for_gemi(&self) -> (r: String)
        ensures
            r@ == record_text(*self),
    {
        let mut out = String::new();
        push_str(&mut out, "[VERIFIED AGENT: ");
        push_str(&mut out, self.agent_id.as_str());
        push_str(&mut out, " (Rank: ");
        push_hundredths(&mut out, self.rank_hundredths);
        push_str(&mut out, ", Confidence: ");
        push_hundredths(&mut out, self.confidence_hundredths);
        push_str(&mut out, ")]\nClaim: ");
        push_str(&mut out, self.claim.subject.as_str());
        push_str(&mut out, " ");
        push_str(&mut out, self.claim.predicate.as_str());
        push_str(&mut out, " ");
        push_str(&mut out, self.claim.value.as_str());
        push_str(&mut out, "\nSource: ");
        let src_text = render_source(&self.source);
        push_str(&mut out, src_text.as_str());
        push_str(&mut out, "\nSignature: ");
        push_str(&mut out, self.signature.as_str());
        push_str(&mut out, "\n");
        out
    }

    /// Whether the record stands: its signature is the one its fields call
    /// for, and its source stands, given the contents of the file a file
    /// source names (none when that file is missing or unreadable).
    pub fn verify_reality(&self, file: Option<&[u8]>) -> (b: bool)
        ensures
            b == (self.signature@ == expected_signature(*self) && source_stands(
                self.source,
                match file { Some(f) => Some(f@), None => None },
            )),
    {
        let expected = self.calculate_signature();
        if !equals_str(&chars_of(self.signature.as_str()), expected.as_str()) {
            return false;
        }
        match &self.source {
            EvidenceSource::File { hash, .. } => {
                match file {
                    Some(content) => {
                        let digest = sha256(content);
                        let actual = hex_encode(digest.as_slice());
                        equals_str(&chars_of(actual.as_str()), hash.as_str())
                    },
                    None => false,
                }
            },
            EvidenceSource::Command { exit_code, .. } => *exit_code == 0,
            _ => true,
        }
    }
}

/// Rank and confidence are not signed: records that agree on every
/// signed field call for the same signature, so re-ranking a record keeps
/// its signature valid.
pub proof fn law_rank_is_not_signed(a: EvidenceRecord, b: EvidenceRecord)
    requires
        a.agent_id@ == b.agent_id@,
        a.timestamp == b.timestamp,
        a.claim.subject@ == b.claim.subject@,
        a.claim.predicate@ == b.claim.predicate@,
        a.claim.value@ == b.claim.value@,
        source_text(a.source) == source_text(b.source),
    ensures
        expected_signature(a) == expected_signature(b),
{
    assert(signed_bytes(a.agent_id@, a.timestamp, a.claim, source_text(a.source))
        =~= signed_bytes(b.agent_id@, b.timestamp, b.claim, source_text(b.source)));
}

} // verus!
