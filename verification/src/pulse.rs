//! The tier-0 pulse brain's reflex cache: actions remembered by trimmed
//! prompt, forgotten whenever the neural substrate's fingerprint changes.
use vstd::prelude::*;
use crate::error::{EaiError, EaiResult};
use crate::text::{chars_of, trim, trimmed, string_of, equals_str, contains_str, seq_contains, push_str};

verus! {

/// The action remembered for a key: the first entry with that key.
pub open spec fn remembered(entries: Seq<(String, String)>, key: Seq<char>) -> Option<Seq<char>>
    decreases entries.len(),
{
    if entries.len() == 0 {
        None
    } else if entries[0].0@ == key {
        Some(entries[0].1@)
    } else {
        remembered(entries.drop_first(), key)
    }
}

/// The reflex cache: the fingerprint of the substrate it was filled
/// under, and the remembered actions by prompt.
pub struct PulseCache {
    fingerprint: String,
    entries: Vec<(String, String)>,
}

impl PulseCache {
    /// The fingerprint the cache was filled under.
    pub closed spec fn fingerprint_of(&self) -> Seq<char> {
        self.fingerprint@
    }

    /// The action remembered for a (trimmed) prompt.
    pub closed spec fn recall_of(&self, key: Seq<char>) -> Option<Seq<char>> {
        remembered(self.entries@, key)
    }

    /// An empty cache with no fingerprint.
    pub fn new() -> (r: Self)
        ensures
            r.fingerprint_of() == Seq::<char>::empty(),
            forall|k: Seq<char>| r.recall_of(k) is None,
    {
        PulseCache { fingerprint: String::new(), entries: Vec::new() }
    }

    /// Brings the cache in line with the substrate's fingerprint: when it
    /// changed, every remembered action is forgotten. Returns whether it
    /// changed.
    pub fn sync(&mut self, fingerprint: &str) -> (changed: bool)
        ensures
            changed == (old(self).fingerprint_of() != fingerprint@),
            final(self).fingerprint_of() == fingerprint@,
            changed ==> forall|k: Seq<char>| final(self).recall_of(k) is None,
            !changed ==> forall|k: Seq<char>| final(self).recall_of(k) == old(self).recall_of(k),
    {
        let current = chars_of(self.fingerprint.as_str());
        if equals_str(&current, fingerprint) {
            false
        } else {
            self.fingerprint = string_of(&chars_of(fingerprint));
            self.entries = Vec::new();
            true
        }
    }

    /// The action remembered for a prompt (trimmed).
    pub fn lookup(&self, prompt: &str) -> (r: Option<String>)
        ensures
            match self.recall_of(trim(prompt@)) {
                Some(a) => r matches Some(x) && x@ == a,
                None => r is None,
            },
    {
        let key = trimmed(&chars_of(prompt));
        let mut i: usize = 0;
        proof {
            assert(self.entries@.skip(0) =~= self.entries@);
        }
        while i < self.entries.len()
            invariant
                i <= self.entries@.len(),
                key@ == trim(prompt@),
                remembered(self.entries@, key@) == remembered(self.entries@.skip(i as int), key@),
            decreases self.entries.len() - i,
        {
            proof {
                assert(self.entries@.skip(i as int)[0] == self.entries@[i as int]);
                assert(self.entries@.skip(i as int).drop_first() =~= self.entries@.skip(i + 1));
            }
            if equals_str(&key, self.entries[i].0.as_str()) {
                return Some(string_of(&chars_of(self.entries[i].1.as_str())));
            }
            i = i + 1;
        }
        None
    }

    /// Remembers an action for a prompt (trimmed), in place of any earlier
    /// one; every other prompt keeps its action.
    pub fn remember(&mut self, prompt: &str, action: &str)
        ensures
            final(self).fingerprint_of() == old(self).fingerprint_of(),
            final(self).recall_of(trim(prompt@)) == Some(action@),
            forall|k: Seq<char>| k != trim(prompt@) ==> final(self).recall_of(k) == old(self).recall_of(k),
    {
        let key = trimmed(&chars_of(prompt));
        let entry = (string_of(&key), string_of(&chars_of(action)));
        let ghost old_entries = self.entries@;
        proof {
            lemma_remembered_push_front(old_entries, entry);
        }
        let mut rest = Vec::new();
        std::mem::swap(&mut rest, &mut self.entries);
        let mut fresh: Vec<(String, String)> = Vec::new();
        fresh.push(entry);
        fresh.append(&mut rest);
        proof {
            assert(fresh@ =~= seq![entry] + old_entries);
        }
        self.entries = fresh;
    }
}

/// A new first entry answers for its key and leaves every other key's
/// answer unchanged.
proof fn lemma_remembered_push_front(entries: Seq<(String, String)>, e: (String, String))
    ensures
        remembered(seq![e] + entries, e.0@) == Some(e.1@),
        forall|k: Seq<char>| k != e.0@ ==> remembered(seq![e] + entries, k) == remembered(entries, k),
{
    assert((seq![e] + entries).drop_first() =~= entries);
}

/// What the neural substrate made of a prompt.
#[derive(Debug, Clone)]
pub enum PulsePrediction {
    /// The action it predicted.
    Predicted(String),
    /// It could not decide with confidence.
    LowConfidence,
    /// No substrate could be loaded.
    Missing,
}

/// The action the pulse brain settles on for a prediction: a directory
/// listing is pinned to the workspace.
pub open spec fn settled_action(predicted: Seq<char>, workspace: Seq<char>) -> Seq<char> {
    if seq_contains(predicted, "list_directory"@) {
        "ACTION: list_directory "@ + workspace
    } else {
        predicted
    }
}

/// The tier-0 native bootstrap brain.
pub struct SusiPulse;

impl SusiPulse {
    /// The remembered action for a prompt under the substrate's current
    /// fingerprint (the cache forgets everything when it changed).
    pub fn recall(cache: &mut PulseCache, prompt: &str, fingerprint: &str) -> (r: Option<String>)
        ensures
            final(cache).fingerprint_of() == fingerprint@,
            old(cache).fingerprint_of() != fingerprint@ ==> r is None,
            old(cache).fingerprint_of() == fingerprint@ ==> match old(cache).recall_of(trim(prompt@)) {
                Some(a) => r matches Some(x) && x@ == a,
                None => r is None,
            },
    {
        cache.sync(fingerprint);
        cache.lookup(prompt)
    }

    /// Settles a prediction: a predicted action (a directory listing pinned
    /// to the workspace) is remembered for the prompt and returned; a
    /// low-confidence or missing substrate escalates to deep reasoning.
    pub fn reason(cache: &mut PulseCache, prompt: &str, workspace: &str, prediction: PulsePrediction) -> (r: EaiResult<String>)
        ensures
            final(cache).fingerprint_of() == old(cache).fingerprint_of(),
            match prediction {
                PulsePrediction::Predicted(p) => {
                    &&& r matches Ok(a) && a@ == settled_action(p@, workspace@)
                    &&& final(cache).recall_of(trim(prompt@)) == Some(settled_action(p@, workspace@))
                    &&& forall|k: Seq<char>| k != trim(prompt@) ==> final(cache).recall_of(k) == old(cache).recall_of(k)
                },
                PulsePrediction::LowConfidence => {
                    &&& r matches Err(e) && e == EaiError::Inference(e->Inference_0)
                        && e->Inference_0@ == "Low confidence reflex. Escalating to Tier 2 Deep Reasoning..."@
                    &&& forall|k: Seq<char>| final(cache).recall_of(k) == old(cache).recall_of(k)
                },
                PulsePrediction::Missing => {
                    &&& r matches Err(e) && e == EaiError::Inference(e->Inference_0)
                        && e->Inference_0@ == "Pulse Brain: Neural substrate missing. Transitioning to Tier 2..."@
                    &&& forall|k: Seq<char>| final(cache).recall_of(k) == old(cache).recall_of(k)
                },
            },
    {
        match prediction {
            PulsePrediction::Predicted(p) => {
                let pc = chars_of(p.as_str());
                let action = if contains_str(&pc, "list_directory") {
                    let mut a = String::new();
                    push_str(&mut a, "ACTION: list_directory ");
                    push_str(&mut a, workspace);
                    a
                } else {
                    p
                };
                cache.remember(prompt, action.as_str());
                Ok(action)
            },
            PulsePrediction::LowConfidence => Err(EaiError::inference("Low confidence reflex. Escalating to Tier 2 Deep Reasoning...")),
            PulsePrediction::Missing => Err(EaiError::inference("Pulse Brain: Neural substrate missing. Transitioning to Tier 2...")),
        }
    }
}

} // verus!
