//! Daemon bookkeeping: the files it keeps and its self-audit reports.
use vstd::prelude::*;
use crate::hardware::HardwareProfile;
use crate::text::{join, join_path, push_str, push_decimal, decimal, trim, chars_of, trimmed};
use crate::digests::{hex_lower, sha256_digest, sha256, hex_encode};

verus! {

/// The always-on substrate daemon.
pub struct SusiDaemon;

impl SusiDaemon {
    /// The lock file in the global directory.
    pub fn get_lock_file(global_dir: &str) -> (r: String)
        ensures
            r@ == join_path(global_dir@, "substrate.lock"@),
    {
        join(global_dir, "substrate.lock")
    }

    /// The file holding the last recorded binary digest.
    pub fn get_hash_file(global_dir: &str) -> (r: String)
        ensures
            r@ == join_path(global_dir@, "binary.hash"@),
    {
        join(global_dir, "binary.hash")
    }

    /// The signature of a binary: the lowercase hexadecimal SHA-256 of its
    /// contents.
    pub fn calculate_binary_hash(contents: &[u8]) -> (r: String)
        ensures
            r@ == hex_lower(sha256_digest(contents@)),
    {
        let digest = sha256(contents);
        hex_encode(digest.as_slice())
    }

    /// Compares the running binary's signature with the one last recorded:
    /// equal signatures (ignoring surrounding whitespace) are intact; a
    /// differing or unreadable record is not, and is overwritten; with no
    /// record yet the binary counts as intact and its signature is recorded.
    pub fn verify_binary_integrity(saved: &SavedDigest, current_sig: &str) -> (r: IntegrityVerdict)
        ensures
            r == integrity_verdict(*saved, current_sig@),
    {
        match saved {
            SavedDigest::Absent => IntegrityVerdict { intact: true, rewrite: true },
            SavedDigest::Unreadable => IntegrityVerdict { intact: false, rewrite: true },
            SavedDigest::Saved(s) => {
                let a = trimmed(&chars_of(s.as_str()));
                let b = trimmed(&chars_of(current_sig));
                let mut same = a.len() == b.len();
                let mut i: usize = 0;
                while same && i < a.len()
                    invariant
                        a@ == trim(s@),
                        b@ == trim(current_sig@),
                        i <= a@.len(),
                        same ==> a@.len() == b@.len() && forall|j: int| 0 <= j < i ==> a@[j] == b@[j],
                        !same ==> a@ != b@,
                    decreases a@.len() - i,
                {
                    if a[i] != b[i] {
                        same = false;
                    }
                    i = i + 1;
                }
                proof {
                    if same {
                        assert(a@ =~= b@);
                    }
                }
                if same {
                    IntegrityVerdict { intact: true, rewrite: false }
                } else {
                    IntegrityVerdict { intact: false, rewrite: true }
                }
            },
        }
    }
}

/// What the signature record held when the binary was checked.
#[derive(Debug, Clone)]
pub enum SavedDigest {
    /// No record exists yet.
    Absent,
    /// A record exists but could not be read.
    Unreadable,
    /// The recorded signature.
    Saved(String),
}

/// The outcome of an integrity check: whether the binary is intact, and
/// whether its current signature must be written to the record.
#[derive(Debug, Clone, Copy, PartialEq, Eq, Structural)]
pub struct IntegrityVerdict {
    pub intact: bool,
    pub rewrite: bool,
}

/// The integrity verdict for a record and the current signature.
pub open spec fn integrity_verdict(saved: SavedDigest, current: Seq<char>) -> IntegrityVerdict {
    match saved {
        SavedDigest::Absent => IntegrityVerdict { intact: true, rewrite: true },
        SavedDigest::Unreadable => IntegrityVerdict { intact: false, rewrite: true },
        SavedDigest::Saved(s) => if trim(s@) == trim(current) {
            IntegrityVerdict { intact: true, rewrite: false }
        } else {
            IntegrityVerdict { intact: false, rewrite: true }
        },
    }
}

/// A signature the check records is accepted by the next check of the same
/// binary, which then has nothing to rewrite.
pub proof fn law_recorded_signature_is_accepted(recorded: String, current: Seq<char>)
    requires
        recorded@ == current,
    ensures
        integrity_verdict(SavedDigest::Saved(recorded), current) == (IntegrityVerdict { intact: true, rewrite: false }),
{
}

/// Autonomous substrate administration.
pub struct SusiRuntimeAdmin;

/// The note a hardware audit records, if any.
pub open spec fn audit_note(p: HardwareProfile) -> Option<Seq<char>> {
    if p.acceleration_active {
        Some("GPU Acceleration Verified Optimal."@)
    } else if p.ram_gb >= 16 {
        Some("System RAM sufficient for high-fidelity CPU inference."@)
    } else {
        None
    }
}

impl SusiRuntimeAdmin {
    /// The hardware-saturation note the substrate audit records: GPU
    /// acceleration when active, else sufficient RAM from 16 GB, else none.
    pub fn perform_substrate_audit(profile: &HardwareProfile) -> (r: Option<&'static str>)
        ensures
            match r {
                Some(s) => audit_note(*profile) == Some(s@),
                None => audit_note(*profile) is None,
            },
    {
        if profile.acceleration_active {
            Some("GPU Acceleration Verified Optimal.")
        } else if profile.ram_gb >= 16 {
            Some("System RAM sufficient for high-fidelity CPU inference.")
        } else {
            None
        }
    }

    /// The self-validation report for a hardware profile, a description of
    /// the neural device and the number of compiled genome rules.
    pub fn execute_autonomous_self_validation(
        profile: &HardwareProfile,
        device: &str,
        rule_count: usize,
    ) -> (r: String)
        ensures
            r@ == "# SUSI Substrate Self-Validation Report\n\n- **Hardware Profile**: "@
                + profile.cpu_brand@ + " | "@ + decimal(profile.ram_gb as nat) + "GB RAM | "@
                + profile.gpu_info@ + "\n- **Neural Device**: "@ + device@
                + "\n- **Genome Integrity**: "@ + decimal(rule_count as nat)
                + " Compiled Rules Verified.\n"@,
    {
        let mut report = String::new();
        push_str(&mut report, "# SUSI Substrate Self-Validation Report\n\n- **Hardware Profile**: ");
        push_str(&mut report, profile.cpu_brand.as_str());
        push_str(&mut report, " | ");
        push_decimal(&mut report, profile.ram_gb as u64);
        push_str(&mut report, "GB RAM | ");
        push_str(&mut report, profile.gpu_info.as_str());
        push_str(&mut report, "\n- **Neural Device**: ");
        push_str(&mut report, device);
        push_str(&mut report, "\n- **Genome Integrity**: ");
        push_decimal(&mut report, rule_count as u64);
        push_str(&mut report, " Compiled Rules Verified.\n");
        report
    }
}

} // verus!
