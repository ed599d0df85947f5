//! The protocol knowledge base's data handling: which remembered missions
//! are consolidated for distillation, the reflex dataset, the weights on
//! hand, and the substrate's verification.
use vstd::prelude::*;
use crate::error::{EaiError, EaiResult};
use crate::gawd::{ProtocolKnowledgeBase, ProtocolReflex};
use crate::gmcp::{json_member_str, member_str, parent_text};
use crate::engine::utf8_len;
use crate::text::{
    seq_contains, seq_ends_with, chars_of, contains_str, ends_with, lines, split_lines, push_str,
    push_decimal, decimal, replace_all, replace_str, string_of,
};

verus! {

/// The intent a remembered mission records (empty when it has none).
pub open spec fn remembered_intent(line: Seq<char>) -> Seq<char> {
    match json_member_str(line, None, "intent"@) {
        Some(i) => i,
        None => Seq::empty(),
    }
}

/// The (intent, outcome) pairs worth distilling among remembered missions,
/// one JSON object per line: those whose outcome is longer than 100 bytes
/// and reports no failure.
pub open spec fn consolidated(ls: Seq<Seq<char>>) -> Seq<(Seq<char>, Seq<char>)>
    decreases ls.len(),
{
    if ls.len() == 0 {
        Seq::empty()
    } else {
        let l = ls.last();
        consolidated(ls.drop_last()) + match json_member_str(l, None, "outcome"@) {
            Some(o) => if utf8_len(o) > 100 && !seq_contains(o, "[FAIL]"@) {
                seq![(remembered_intent(l), o)]
            } else {
                Seq::empty()
            },
            None => Seq::empty(),
        }
    }
}

/// The byte length of text, when it exceeds `n`.
fn longer_than(s: &str, n: usize) -> (b: bool)
    requires
        n <= 1_000_000,
    ensures
        b == (utf8_len(s@) > n),
{
    let cs = chars_of(s);
    let ghost t = cs@;
    let mut bytes: usize = 0;
    let mut i: usize = 0;
    proof {
        assert(t.take(0) =~= Seq::<char>::empty());
    }
    while i < cs.len() && bytes <= n
        invariant
            i <= t.len(),
            t == cs@,
            n <= 1_000_000,
            bytes as nat == utf8_len(t.take(i as int)),
            bytes <= n + 4,
        decreases cs.len() - i,
    {
        proof {
            assert(t.take(i + 1).drop_last() =~= t.take(i as int));
        }
        let u = cs[i] as u32;
        let w: usize = if u < 0x80 { 1 } else if u < 0x800 { 2 } else if u < 0x10000 { 3 } else { 4 };
        bytes = bytes + w;
        i = i + 1;
    }
    proof {
        assert(t.take(t.len() as int) =~= t);
        lemma_utf8_len_monotone(t, i as int, t.len() as int);
    }
    bytes > n
}

proof fn lemma_utf8_len_monotone(s: Seq<char>, j: int, k: int)
    requires
        0 <= j <= k <= s.len(),
    ensures
        utf8_len(s.take(j)) <= utf8_len(s.take(k)),
    decreases k - j,
{
    if j < k {
        lemma_utf8_len_monotone(s, j, k - 1);
        assert(s.take(k).drop_last() =~= s.take(k - 1));
    }
}

/// The weight files worth listing: safetensors and GGUF files.
pub open spec fn is_weight_file(name: Seq<char>) -> bool {
    seq_ends_with(name, ".safetensors"@) || seq_ends_with(name, ".gguf"@)
}

impl ProtocolKnowledgeBase {
    /// The remembered missions worth distilling (one JSON object per line
    /// of `memory`): those whose outcome is longer than 100 bytes and
    /// reports no failure, as (intent, outcome) pairs.
    pub fn consolidate_recent_interactions(memory: &str) -> (r: Vec<(String, String)>)
        ensures
            r@.map_values(|x: (String, String)| (x.0@, x.1@)) == consolidated(lines(memory@)),
    {
        let ls = split_lines(&chars_of(memory));
        let ghost lv = ls@.map_values(|l: Vec<char>| l@);
        let mut out: Vec<(String, String)> = Vec::new();
        let mut i: usize = 0;
        proof {
            assert(lv.take(0) =~= Seq::<Seq<char>>::empty());
            assert(out@.map_values(|x: (String, String)| (x.0@, x.1@)) =~= Seq::<(Seq<char>, Seq<char>)>::empty());
        }
        while i < ls.len()
            invariant
                i <= lv.len(),
                lv == ls@.map_values(|l: Vec<char>| l@),
                lv == lines(memory@),
                out@.map_values(|x: (String, String)| (x.0@, x.1@)) == consolidated(lv.take(i as int)),
            decreases ls.len() - i,
        {
            proof {
                assert(lv.take(i + 1).drop_last() =~= lv.take(i as int));
                assert(lv.take(i + 1).last() == ls@[i as int]@);
            }
            let line = string_of(&ls[i]);
            let ghost before = out@.map_values(|x: (String, String)| (x.0@, x.1@));
            match member_str(line.as_str(), None, "outcome") {
                Some(o) => {
                    let oc = chars_of(o.as_str());
                    if longer_than(o.as_str(), 100) && !contains_str(&oc, "[FAIL]") {
                        let intent = match member_str(line.as_str(), None, "intent") {
                            Some(t) => t,
                            None => String::new(),
                        };
                        let ghost pair = (intent@, o@);
                        out.push((intent, o));
                        proof {
                            assert(out@.map_values(|x: (String, String)| (x.0@, x.1@)) =~= before.push(pair));
                        }
                    }
                },
                None => {},
            }
            proof {
                assert(out@.map_values(|x: (String, String)| (x.0@, x.1@)) =~= consolidated(lv.take(i + 1)));
            }
            i = i + 1;
        }
        proof {
            assert(lv.take(lv.len() as int) =~= lv);
        }
        out
    }

    /// Where a reflex distilled for an intent is written, relative to the
    /// workspace: spaces in the intent become underscores.
    pub fn reflex_binary_path(intent: &str) -> (r: String)
        ensures
            r@ == ".susi/reflexes/"@ + replace_all(intent@, " "@, "_"@) + ".bin"@,
    {
        proof {
            reveal_strlit(" ");
        }
        let mut p = String::new();
        push_str(&mut p, ".susi/reflexes/");
        push_str(&mut p, replace_str(intent, " ", "_").as_str());
        push_str(&mut p, ".bin");
        p
    }

    /// The reflex dataset: the bootstrap reflexes, then those mined from
    /// the audit log.
    pub fn reflex_dataset(log_content: &str) -> (r: Vec<ProtocolReflex>)
        ensures
            r@.len() == 2 + crate::gawd::mission_intents(lines(log_content@)).len(),
            r@[0].intent@ == "install"@,
            r@[0].action@ == "SandboxManager::ensure_global_sandbox"@,
            r@[0].context@ == "CORE_INITIALIZATION"@,
            r@[0].verified,
            r@[1].intent@ == "audit compliance"@,
            r@[1].action@ == "SusiAdmin::audit_compliance"@,
            r@[1].context@ == "GOVERNANCE_ENFORCEMENT"@,
            r@[1].verified,
            forall|i: int| 0 <= i < crate::gawd::mission_intents(lines(log_content@)).len()
                ==> {
                    &&& (#[trigger] r@[i + 2]).intent@ == crate::gawd::mission_intents(lines(log_content@))[i]
                    &&& r@[i + 2].action@ == "PENDING_DISTILLATION"@
                    &&& r@[i + 2].context@ == "SYNTHETIC_AUDIT_DERIVED"@
                    &&& !r@[i + 2].verified
                },
    {
        let mut all = Self::bootstrap_alpha_reflexes();
        match Self::synthesize_training_data(log_content) {
            Ok(mut mined) => {
                all.append(&mut mined);
            },
            Err(_) => {},
        }
        all
    }

    /// The report of an export.
    pub fn export_report(count: usize, export_path: &str) -> (r: String)
        ensures
            r@ == "Exported "@ + decimal(count as nat) + " neural reflexes to "@ + export_path@,
    {
        let mut m = String::new();
        push_str(&mut m, "Exported ");
        push_decimal(&mut m, count as u64);
        push_str(&mut m, " neural reflexes to ");
        push_str(&mut m, export_path);
        m
    }

    /// The weight files on hand: the model directory's safetensors and
    /// GGUF files in listing order, then the workspace's release weights
    /// when present.
    pub fn list_reflex_weights(model_files: &Vec<String>, release_weights_present: bool) -> (r: Vec<String>)
        ensures
            r@.map_values(|x: String| x@) == model_files@.map_values(|x: String| x@).filter(|n: Seq<char>| is_weight_file(n))
                + if release_weights_present { seq!["target/release/susi-alpha.safetensors"@] } else { Seq::empty() },
    {
        let ghost names = model_files@.map_values(|x: String| x@);
        let mut out: Vec<String> = Vec::new();
        let mut i: usize = 0;
        let safet = chars_of(".safetensors");
        let gguf = chars_of(".gguf");
        proof {
            assert(names.take(0).filter(|n: Seq<char>| is_weight_file(n)) =~= Seq::<Seq<char>>::empty());
            assert(out@.map_values(|x: String| x@) =~= Seq::<Seq<char>>::empty());
        }
        while i < model_files.len()
            invariant
                i <= names.len(),
                names == model_files@.map_values(|x: String| x@),
                safet@ == ".safetensors"@,
                gguf@ == ".gguf"@,
                out@.map_values(|x: String| x@) == names.take(i as int).filter(|n: Seq<char>| is_weight_file(n)),
            decreases model_files.len() - i,
        {
            proof {
                assert(names.take(i + 1).drop_last() =~= names.take(i as int));
                assert(names.take(i + 1).last() == model_files@[i as int]@);
                reveal(Seq::filter);
            }
            let n = chars_of(model_files[i].as_str());
            let ghost before = out@.map_values(|x: String| x@);
            if ends_with(&n, &safet) || ends_with(&n, &gguf) {
                out.push(model_files[i].clone());
                proof {
                    assert(out@.map_values(|x: String| x@) =~= before.push(model_files@[i as int]@));
                }
            }
            i = i + 1;
        }
        proof {
            assert(names.take(names.len() as int) =~= names);
        }
        let ghost filtered = out@.map_values(|x: String| x@);
        if release_weights_present {
            out.push(String::from_str("target/release/susi-alpha.safetensors"));
            proof {
                assert(out@.map_values(|x: String| x@) =~= filtered + seq!["target/release/susi-alpha.safetensors"@]);
            }
        } else {
            proof {
                assert(out@.map_values(|x: String| x@) =~= filtered + Seq::<Seq<char>>::empty());
            }
        }
        out
    }

    /// The substrate's verification, given the weights' path and their
    /// size when they exist.
    pub fn verify_alpha_substrate(weights_path: &str, weights_size: Option<u64>) -> (r: EaiResult<String>)
        ensures
            match weights_size {
                Some(n) => r matches Ok(m) && m@ == "SUSI-Alpha Substrate Verified: "@ + weights_path@ + " ("@ + decimal(n as nat) + " bytes)"@,
                None => r matches Err(e) && e == EaiError::Inference(e->Inference_0)
                    && e->Inference_0@ == "SUSI-Alpha weights missing. Run 'susi install'."@,
            },
    {
        match weights_size {
            Some(n) => {
                let mut m = String::new();
                push_str(&mut m, "SUSI-Alpha Substrate Verified: ");
                push_str(&mut m, weights_path);
                push_str(&mut m, " (");
                push_decimal(&mut m, n);
                push_str(&mut m, " bytes)");
                Ok(m)
            },
            None => Err(EaiError::inference("SUSI-Alpha weights missing. Run 'susi install'.")),
        }
    }

    /// A synthetic training pair for an intent: the intent, the safety
    /// agent's verdict when it gave one, and the action the pulse brain
    /// chose (a status query when it chose none).
    pub fn generate_synthetic_intent_pair(intent: &str, safety_verdict: Option<&str>, action: Option<&str>) -> (r: String)
        ensures
            r@ == "INTENT: "@ + intent@ + "\n"@
                + (match safety_verdict { Some(v) => "REFLEX_GUARD (SafetyAgent): "@ + v@ + "\n"@, None => Seq::empty() })
                + "FINAL_ACTION: "@ + (match action { Some(a) => a@, None => "ACTION: status"@ }) + "\n"@,
    {
        let mut p = String::new();
        push_str(&mut p, "INTENT: ");
        push_str(&mut p, intent);
        push_str(&mut p, "\n");
        match safety_verdict {
            Some(v) => {
                push_str(&mut p, "REFLEX_GUARD (SafetyAgent): ");
                push_str(&mut p, v);
                push_str(&mut p, "\n");
            },
            None => {},
        }
        push_str(&mut p, "FINAL_ACTION: ");
        match action {
            Some(a) => push_str(&mut p, a),
            None => push_str(&mut p, "ACTION: status"),
        }
        push_str(&mut p, "\n");
        proof {
            assert(p@ =~= "INTENT: "@ + intent@ + "\n"@
                + (match safety_verdict { Some(v) => "REFLEX_GUARD (SafetyAgent): "@ + v@ + "\n"@, None => Seq::empty() })
                + "FINAL_ACTION: "@ + (match action { Some(a) => a@, None => "ACTION: status"@ }) + "\n"@);
        }
        p
    }
}

} // verus!
