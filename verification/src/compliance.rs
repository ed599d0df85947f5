//! The compliance audit: what it reports of the substrate's sources, its
//! workspace hygiene, its model files, its executable and its manifests,
//! and when it fails.
use vstd::prelude::*;
use crate::admin::SusiAdmin;
use crate::error::{EaiError, EaiResult, displayed};
use crate::text::{seq_contains, contains_str, chars_of, push_str};

verus! {

/// A source file the audit reads: its file name, its path as displayed,
/// and its text.
#[derive(Debug, Clone)]
pub struct AuditedSource {
    pub name: String,
    pub path: String,
    pub content: String,
}

/// The integrity verdict on one local model file.
#[derive(Debug, Clone)]
pub struct ModelCheck {
    pub model_id: String,
    pub checksum_verified: bool,
}

/// What the audit found outside the sources: the `.gitignore` text (when
/// there is one), the model checks, the executable's integrity (when the
/// executable could be located) and the version alignment (the version
/// the manifests were aligned to, or why not).
#[derive(Debug)]
pub struct AuditFindings {
    pub gitignore: Option<String>,
    pub models: Vec<ModelCheck>,
    pub binary_integrity: Option<EaiResult<bool>>,
    pub version_consistency: EaiResult<String>,
}

/// Sources whose names hold the secret patterns by design are not
/// scanned.
pub open spec fn is_audited(name: Seq<char>) -> bool {
    !seq_contains(name, "security.rs"@) && !seq_contains(name, "admin.rs"@) && !seq_contains(name, "manager.rs"@)
}

/// The report line for a secret pattern found in a file.
pub open spec fn secret_line(pattern: Seq<char>, path: Seq<char>) -> Seq<char> {
    "- [FAIL] Security: Potential secret matching '"@ + pattern + "' detected in "@ + path + ".\n"@
}

/// The report lines for the patterns a file's text contains, in pattern
/// order.
pub open spec fn file_hits(path: Seq<char>, content: Seq<char>, patterns: Seq<Seq<char>>) -> Seq<char>
    decreases patterns.len(),
{
    if patterns.len() == 0 {
        Seq::empty()
    } else {
        file_hits(path, content, patterns.drop_last())
            + if seq_contains(content, patterns.last()) { secret_line(patterns.last(), path) } else { Seq::empty() }
    }
}

/// The report lines for every scanned source, in source order.
pub open spec fn secret_hits(sources: Seq<AuditedSource>, patterns: Seq<Seq<char>>) -> Seq<char>
    decreases sources.len(),
{
    if sources.len() == 0 {
        Seq::empty()
    } else {
        let s = sources.last();
        secret_hits(sources.drop_last(), patterns)
            + if is_audited(s.name@) { file_hits(s.path@, s.content@, patterns) } else { Seq::empty() }
    }
}

/// The security section: the hits, or a pass line when there are none.
pub open spec fn security_section(hits: Seq<char>) -> Seq<char> {
    if hits.len() == 0 { "- [PASS] Security: No hardcoded secrets detected.\n"@ } else { hits }
}

/// The `.gitignore` keeps the substrate's own directory out of version
/// control.
pub open spec fn gitignore_pure(g: Seq<char>) -> bool {
    seq_contains(g, ".susi"@) || seq_contains(g, ".susi/"@)
}

/// The workspace-purity section (nothing when there is no `.gitignore`).
pub open spec fn purity_section(gitignore: Option<Seq<char>>) -> Seq<char> {
    match gitignore {
        None => Seq::empty(),
        Some(g) => if gitignore_pure(g) {
            "- [PASS] Workspace Purity: .susi is correctly git-ignored.\n"@
        } else {
            "- [FAIL] Workspace Purity: .susi is NOT git-ignored.\n"@
        },
    }
}

/// `{}` of a `bool`.
pub open spec fn bool_text(b: bool) -> Seq<char> {
    if b { "true"@ } else { "false"@ }
}

/// The report line for one model check.
pub open spec fn model_line(m: ModelCheck) -> Seq<char> {
    "- ["@ + (if m.checksum_verified { "PASS"@ } else { "FAIL"@ }) + "] Model Integrity: "@ + m.model_id@
        + " (Verified: "@ + bool_text(m.checksum_verified) + ")\n"@
}

/// The lines for the model checks, in order.
pub open spec fn model_lines(models: Seq<ModelCheck>) -> Seq<char>
    decreases models.len(),
{
    if models.len() == 0 {
        Seq::empty()
    } else {
        model_lines(models.drop_last()) + model_line(models.last())
    }
}

/// The model section: a warning when there are no models.
pub open spec fn model_section(models: Seq<ModelCheck>) -> Seq<char> {
    if models.len() == 0 { "- [WARNING] Models: No local model substrates found.\n"@ } else { model_lines(models) }
}

/// The executable-integrity section.
pub open spec fn binary_section(b: Option<EaiResult<bool>>) -> Seq<char> {
    match b {
        None => Seq::empty(),
        Some(Ok(true)) => "- [PASS] Binary Integrity: Executable hash matches trusted genome.\n"@,
        Some(Ok(false)) => "- [FAIL] Binary Integrity: Executable hash MISMATCH. Potential tampering or build drift.\n"@,
        Some(Err(e)) => "- [WARNING] Binary Integrity: Could not verify ("@ + displayed(e) + ")\n"@,
    }
}

/// The version-consistency section.
pub open spec fn version_section(v: EaiResult<String>) -> Seq<char> {
    match v {
        Ok(version) => "- [PASS] Version Consistency: All manifests synchronized to v"@ + version@ + ".\n"@,
        Err(e) => "- [FAIL] Version Consistency: "@ + displayed(e) + "\n"@,
    }
}

/// The audit's heading, with the target when there is one.
pub open spec fn audit_heading(target: Option<Seq<char>>) -> Seq<char> {
    "# SUSI Compliance Audit\n\n"@ + match target {
        Some(t) => "Target: "@ + t + "\n\n"@,
        None => Seq::empty(),
    }
}

/// The whole report.
pub open spec fn audit_report(
    target: Option<Seq<char>>,
    sources: Seq<AuditedSource>,
    patterns: Seq<Seq<char>>,
    f: AuditFindings,
) -> Seq<char> {
    audit_heading(target)
        + security_section(secret_hits(sources, patterns))
        + purity_section(match f.gitignore { Some(g) => Some(g@), None => None })
        + model_section(f.models@)
        + binary_section(f.binary_integrity)
        + version_section(f.version_consistency)
}

/// The audit passes: no secret found, the workspace is pure (or has no
/// `.gitignore`), every model verified, the executable not found
/// tampered with, and the manifests aligned.
pub open spec fn audit_passes(sources: Seq<AuditedSource>, patterns: Seq<Seq<char>>, f: AuditFindings) -> bool {
    &&& secret_hits(sources, patterns).len() == 0
    &&& match f.gitignore { Some(g) => gitignore_pure(g@), None => true }
    &&& forall|i: int| 0 <= i < f.models@.len() ==> (#[trigger] f.models@[i]).checksum_verified
    &&& f.binary_integrity != Some(Ok::<bool, EaiError>(false))
    &&& f.version_consistency is Ok
}

/// The views of a list of strings.
pub open spec fn string_views(v: Seq<String>) -> Seq<Seq<char>> {
    v.map_values(|p: String| p@)
}

/// Appends the hit lines of one file.
fn push_file_hits(out: &mut String, path: &str, content: &Vec<char>, patterns: &Vec<String>)
    ensures
        final(out)@ == old(out)@ + file_hits(path@, content@, string_views(patterns@)),
{
    let ghost pv = string_views(patterns@);
    let ghost start = out@;
    let mut i: usize = 0;
    proof {
        assert(pv.take(0) =~= Seq::<Seq<char>>::empty());
        assert(out@ =~= start + file_hits(path@, content@, pv.take(0)));
    }
    while i < patterns.len()
        invariant
            i <= patterns@.len(),
            pv == string_views(patterns@),
            out@ == start + file_hits(path@, content@, pv.take(i as int)),
        decreases patterns.len() - i,
    {
        proof {
            assert(pv.take(i + 1).drop_last() =~= pv.take(i as int));
            assert(pv.take(i + 1).last() == patterns@[i as int]@);
        }
        let p = patterns[i].as_str();
        if contains_str(content, p) {
            push_str(out, "- [FAIL] Security: Potential secret matching '");
            push_str(out, p);
            push_str(out, "' detected in ");
            push_str(out, path);
            push_str(out, ".\n");
            proof {
                assert(out@ =~= start + file_hits(path@, content@, pv.take(i as int)) + secret_line(p@, path@));
            }
        } else {
            proof {
                assert(out@ =~= start + file_hits(path@, content@, pv.take(i as int)) + Seq::<char>::empty());
            }
        }
        i = i + 1;
    }
    proof {
        assert(pv.take(patterns@.len() as int) =~= pv);
    }
}

/// The hit lines of every scanned source.
fn scan_sources(sources: &Vec<AuditedSource>, patterns: &Vec<String>) -> (r: String)
    ensures
        r@ == secret_hits(sources@, string_views(patterns@)),
{
    let ghost pv = string_views(patterns@);
    let mut out = String::new();
    let mut i: usize = 0;
    proof {
        assert(sources@.take(0) =~= Seq::<AuditedSource>::empty());
    }
    while i < sources.len()
        invariant
            i <= sources@.len(),
            pv == string_views(patterns@),
            out@ == secret_hits(sources@.take(i as int), pv),
        decreases sources.len() - i,
    {
        proof {
            assert(sources@.take(i + 1).drop_last() =~= sources@.take(i as int));
            assert(sources@.take(i + 1).last() == sources@[i as int]);
        }
        let src = &sources[i];
        let name = chars_of(src.name.as_str());
        if !contains_str(&name, "security.rs") && !contains_str(&name, "admin.rs") && !contains_str(&name, "manager.rs") {
            let content = chars_of(src.content.as_str());
            push_file_hits(&mut out, src.path.as_str(), &content, patterns);
        } else {
            proof {
                assert(out@ =~= out@ + Seq::<char>::empty());
            }
        }
        i = i + 1;
    }
    proof {
        assert(sources@.take(sources@.len() as int) =~= sources@);
    }
    out
}

/// Appends the model section.
fn push_model_section(out: &mut String, models: &Vec<ModelCheck>)
    ensures
        final(out)@ == old(out)@ + model_section(models@),
{
    if models.len() == 0 {
        push_str(out, "- [WARNING] Models: No local model substrates found.\n");
        return;
    }
    let ghost start = out@;
    let mut i: usize = 0;
    proof {
        assert(models@.take(0) =~= Seq::<ModelCheck>::empty());
        assert(out@ =~= start + model_lines(models@.take(0)));
    }
    while i < models.len()
        invariant
            i <= models@.len(),
            out@ == start + model_lines(models@.take(i as int)),
        decreases models.len() - i,
    {
        proof {
            assert(models@.take(i + 1).drop_last() =~= models@.take(i as int));
            assert(models@.take(i + 1).last() == models@[i as int]);
        }
        let m = &models[i];
        let ghost before = out@;
        push_str(out, "- [");
        if m.checksum_verified {
            push_str(out, "PASS");
        } else {
            push_str(out, "FAIL");
        }
        push_str(out, "] Model Integrity: ");
        push_str(out, m.model_id.as_str());
        push_str(out, " (Verified: ");
        if m.checksum_verified {
            push_str(out, "true");
        } else {
            push_str(out, "false");
        }
        push_str(out, ")\n");
        proof {
            assert(out@ =~= before + model_line(*m));
        }
        i = i + 1;
    }
    proof {
        assert(models@.take(models@.len() as int) =~= models@);
    }
}

/// Appends an error as `{}` shows it.
fn push_displayed(out: &mut String, e: &EaiError)
    ensures
        final(out)@ == old(out)@ + displayed(*e),
{
    let d = e.to_display_string();
    push_str(out, d.as_str());
}

/// The security section, and whether it found nothing.
fn security_part(sources: &Vec<AuditedSource>, patterns: &Vec<String>) -> (r: (String, bool))
    ensures
        r.0@ == security_section(secret_hits(sources@, string_views(patterns@))),
        r.1 == (secret_hits(sources@, string_views(patterns@)).len() == 0),
{
    let hits = scan_sources(sources, patterns);
    if chars_of(hits.as_str()).len() == 0 {
        (String::from_str("- [PASS] Security: No hardcoded secrets detected.\n"), true)
    } else {
        (hits, false)
    }
}

/// The purity section, and whether it passed.
fn purity_part(gitignore: &Option<String>) -> (r: (String, bool))
    ensures
        r.0@ == purity_section(match gitignore { Some(g) => Some(g@), None => None }),
        r.1 == (match gitignore { Some(g) => gitignore_pure(g@), None => true }),
{
    match gitignore {
        Some(g) => {
            let gc = chars_of(g.as_str());
            if contains_str(&gc, ".susi") || contains_str(&gc, ".susi/") {
                (String::from_str("- [PASS] Workspace Purity: .susi is correctly git-ignored.\n"), true)
            } else {
                (String::from_str("- [FAIL] Workspace Purity: .susi is NOT git-ignored.\n"), false)
            }
        },
        None => (String::new(), true),
    }
}

/// Whether every model verified.
fn models_verified(models: &Vec<ModelCheck>) -> (r: bool)
    ensures
        r == forall|i: int| 0 <= i < models@.len() ==> (#[trigger] models@[i]).checksum_verified,
{
    let mut k: usize = 0;
    while k < models.len()
        invariant
            k <= models@.len(),
            forall|j: int| 0 <= j < k ==> (#[trigger] models@[j]).checksum_verified,
        decreases models.len() - k,
    {
        if !models[k].checksum_verified {
            return false;
        }
        k = k + 1;
    }
    true
}

/// The integrity section, and whether it found no tampering.
fn binary_part(b: &Option<EaiResult<bool>>) -> (r: (String, bool))
    ensures
        r.0@ == binary_section(*b),
        r.1 == (*b != Some(Ok::<bool, EaiError>(false))),
{
    let mut out = String::new();
    match b {
        None => (out, true),
        Some(Ok(true)) => (String::from_str("- [PASS] Binary Integrity: Executable hash matches trusted genome.\n"), true),
        Some(Ok(false)) => (
            String::from_str("- [FAIL] Binary Integrity: Executable hash MISMATCH. Potential tampering or build drift.\n"),
            false,
        ),
        Some(Err(e)) => {
            push_str(&mut out, "- [WARNING] Binary Integrity: Could not verify (");
            push_displayed(&mut out, e);
            push_str(&mut out, ")\n");
            (out, true)
        },
    }
}

/// The version section, and whether the manifests were aligned.
fn version_part(v: &EaiResult<String>) -> (r: (String, bool))
    ensures
        r.0@ == version_section(*v),
        r.1 == (*v is Ok),
{
    let mut out = String::new();
    match v {
        Ok(version) => {
            push_str(&mut out, "- [PASS] Version Consistency: All manifests synchronized to v");
            push_str(&mut out, version.as_str());
            push_str(&mut out, ".\n");
            (out, true)
        },
        Err(e) => {
            push_str(&mut out, "- [FAIL] Version Consistency: ");
            push_displayed(&mut out, e);
            push_str(&mut out, "\n");
            (out, false)
        },
    }
}

impl SusiAdmin {
    /// The compliance audit: the report of the secret scan over the
    /// sources (every pattern a scanned file contains is a finding), the
    /// workspace purity, the model checks, the executable's integrity and
    /// the version alignment. It is returned when every check passes, and
    /// is otherwise the message of a governance error.
    pub fn audit_compliance(
        target: Option<&str>,
        sources: &Vec<AuditedSource>,
        secret_tokens: &Vec<String>,
        findings: &AuditFindings,
    ) -> (r: EaiResult<String>)
        ensures
            ({
                let t = match target { Some(t) => Some(t@), None => None };
                let report = audit_report(t, sources@, string_views(secret_tokens@), *findings);
                if audit_passes(sources@, string_views(secret_tokens@), *findings) {
                    r matches Ok(s) && s@ == report
                } else {
                    r matches Err(e) && e == EaiError::Governance(e->Governance_0)
                        && e->Governance_0@ == "Compliance Audit Failed:\n"@ + report
                }
            }),
    {
        let mut report = String::new();
        push_str(&mut report, "# SUSI Compliance Audit\n\n");
        match target {
            Some(t) => {
                push_str(&mut report, "Target: ");
                push_str(&mut report, t);
                push_str(&mut report, "\n\n");
            },
            None => {},
        }
        let ghost t = match target { Some(t) => Some(t@), None => None };
        proof {
            assert(report@ =~= audit_heading(t));
        }
        let (security, clean) = security_part(sources, secret_tokens);
        let (purity, pure) = purity_part(&findings.gitignore);
        let mut models = String::new();
        push_model_section(&mut models, &findings.models);
        let verified = models_verified(&findings.models);
        let (binary, untampered) = binary_part(&findings.binary_integrity);
        let (version, aligned) = version_part(&findings.version_consistency);
        push_str(&mut report, security.as_str());
        push_str(&mut report, purity.as_str());
        push_str(&mut report, models.as_str());
        push_str(&mut report, binary.as_str());
        push_str(&mut report, version.as_str());
        proof {
            assert(models@ =~= model_section(findings.models@));
            assert(report@ =~= audit_report(t, sources@, string_views(secret_tokens@), *findings));
        }
        if clean && pure && verified && untampered && aligned {
            Ok(report)
        } else {
            let mut m = String::new();
            push_str(&mut m, "Compliance Audit Failed:\n");
            push_str(&mut m, report.as_str());
            Err(EaiError::Governance(m))
        }
    }
}

} // verus!
