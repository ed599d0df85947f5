//! Making a GGUF file's metadata readable as llama metadata: each common
//! hyper-parameter missing under its `llama.` key is copied from a key
//! that ends the same way, and a missing rope dimension is derived from
//! the embedding length and head count.
use vstd::prelude::*;
use crate::engine::InferenceHost;
use crate::text::{chars_of, ends_with, equals_str, push_str, seq_ends_with};

verus! {

/// A metadata value as the shim sees it: the position, in the file's
/// metadata, of the value it copies (none for a derived value), and its
/// reading as a `u32`, if it has one.
#[derive(Debug, Clone, Copy, PartialEq, Eq, Structural)]
pub struct MetaValue {
    pub source: Option<usize>,
    pub as_u32: Option<u32>,
}

/// A metadata entry.
#[derive(Debug, Clone)]
pub struct MetaEntry {
    pub key: String,
    pub value: MetaValue,
}

/// The entries as keys and values.
pub open spec fn meta_view(es: Seq<MetaEntry>) -> Seq<(Seq<char>, MetaValue)> {
    es.map_values(|e: MetaEntry| (e.key@, e.value))
}

/// The value stored under `key` (the first entry with it).
pub open spec fn lookup(es: Seq<(Seq<char>, MetaValue)>, key: Seq<char>) -> Option<MetaValue>
    decreases es.len(),
{
    if es.len() == 0 {
        None
    } else if es[0].0 == key {
        Some(es[0].1)
    } else {
        lookup(es.drop_first(), key)
    }
}

/// The value of the first entry whose key ends with `suffix`.
pub open spec fn suffix_lookup(es: Seq<(Seq<char>, MetaValue)>, suffix: Seq<char>) -> Option<MetaValue>
    decreases es.len(),
{
    if es.len() == 0 {
        None
    } else if seq_ends_with(es[0].0, suffix) {
        Some(es[0].1)
    } else {
        suffix_lookup(es.drop_first(), suffix)
    }
}

/// The hyper-parameters the llama loader reads.
pub open spec fn common_keys() -> Seq<Seq<char>> {
    seq![
        "attention.head_count"@,
        "attention.head_count_kv"@,
        "embedding_length"@,
        "feed_forward_length"@,
        "block_count"@,
        "attention.layer_norm_rms_epsilon"@,
        "rope.dimension_count"@,
    ]
}

/// One copy step: when `llama.<k>` is missing, the value of the first key
/// ending with `k` is stored under it.
pub open spec fn copy_step(es: Seq<(Seq<char>, MetaValue)>, k: Seq<char>) -> Seq<(Seq<char>, MetaValue)> {
    if lookup(es, "llama."@ + k) is Some {
        es
    } else {
        match suffix_lookup(es, k) {
            Some(v) => es.push(("llama."@ + k, v)),
            None => es,
        }
    }
}

/// The copy steps for the first `n` common keys, in order.
pub open spec fn copied(es: Seq<(Seq<char>, MetaValue)>, n: nat) -> Seq<(Seq<char>, MetaValue)>
    decreases n,
{
    if n == 0 { es } else { copy_step(copied(es, (n - 1) as nat), common_keys()[n - 1]) }
}

/// The rope step: a missing `llama.rope.dimension_count` is the embedding
/// length divided by the head count, when both read as `u32`, the head
/// count is not zero and divides the length.
pub open spec fn rope_step(es: Seq<(Seq<char>, MetaValue)>) -> Seq<(Seq<char>, MetaValue)> {
    if lookup(es, "llama.rope.dimension_count"@) is Some {
        es
    } else {
        let hc = match lookup(es, "llama.attention.head_count"@) { Some(v) => v.as_u32, None => None };
        let el = match lookup(es, "llama.embedding_length"@) { Some(v) => v.as_u32, None => None };
        match (hc, el) {
            (Some(h), Some(e)) => if h > 0 && e % h == 0 {
                es.push(("llama.rope.dimension_count"@, MetaValue { source: None, as_u32: Some((e / h) as u32) }))
            } else {
                es
            },
            _ => es,
        }
    }
}

/// The shimmed metadata.
pub open spec fn shimmed(es: Seq<(Seq<char>, MetaValue)>) -> Seq<(Seq<char>, MetaValue)> {
    rope_step(copied(es, 7))
}

fn find_key(es: &Vec<MetaEntry>, key: &str) -> (r: Option<MetaValue>)
    ensures
        r == lookup(meta_view(es@), key@),
{
    let mut i: usize = 0;
    proof {
        assert(meta_view(es@).skip(0) =~= meta_view(es@));
    }
    while i < es.len()
        invariant
            i <= es@.len(),
            lookup(meta_view(es@), key@) == lookup(meta_view(es@).skip(i as int), key@),
        decreases es.len() - i,
    {
        let ghost v = meta_view(es@).skip(i as int);
        proof {
            assert(v[0] == (es@[i as int].key@, es@[i as int].value));
            assert(v.drop_first() =~= meta_view(es@).skip(i + 1));
        }
        if equals_str(&chars_of(es[i].key.as_str()), key) {
            return Some(es[i].value);
        }
        i = i + 1;
    }
    proof {
        assert(meta_view(es@).skip(i as int) =~= Seq::<(Seq<char>, MetaValue)>::empty());
    }
    None
}

fn find_suffix(es: &Vec<MetaEntry>, suffix: &str) -> (r: Option<MetaValue>)
    ensures
        r == suffix_lookup(meta_view(es@), suffix@),
{
    let sv = chars_of(suffix);
    let mut i: usize = 0;
    proof {
        assert(meta_view(es@).skip(0) =~= meta_view(es@));
    }
    while i < es.len()
        invariant
            i <= es@.len(),
            sv@ == suffix@,
            suffix_lookup(meta_view(es@), suffix@) == suffix_lookup(meta_view(es@).skip(i as int), suffix@),
        decreases es.len() - i,
    {
        let ghost v = meta_view(es@).skip(i as int);
        proof {
            assert(v[0] == (es@[i as int].key@, es@[i as int].value));
            assert(v.drop_first() =~= meta_view(es@).skip(i + 1));
        }
        if ends_with(&chars_of(es[i].key.as_str()), &sv) {
            return Some(es[i].value);
        }
        i = i + 1;
    }
    proof {
        assert(meta_view(es@).skip(i as int) =~= Seq::<(Seq<char>, MetaValue)>::empty());
    }
    None
}

fn push_entry(es: &mut Vec<MetaEntry>, key: String, value: MetaValue)
    ensures
        meta_view(final(es)@) == meta_view(old(es)@).push((key@, value)),
{
    es.push(MetaEntry { key, value });
    proof {
        assert(meta_view(es@) =~= meta_view(old(es)@).push((key@, value)));
    }
}

fn common_key(i: usize) -> (r: &'static str)
    requires
        i < 7,
    ensures
        r@ == common_keys()[i as int],
{
    if i == 0 { "attention.head_count" }
    else if i == 1 { "attention.head_count_kv" }
    else if i == 2 { "embedding_length" }
    else if i == 3 { "feed_forward_length" }
    else if i == 4 { "block_count" }
    else if i == 5 { "attention.layer_norm_rms_epsilon" }
    else { "rope.dimension_count" }
}

impl InferenceHost {
    /// Makes GGUF metadata readable as llama metadata: for each common
    /// hyper-parameter, in order, a missing `llama.<key>` takes the value of
    /// the first entry whose key ends with that key; then a missing
    /// `llama.rope.dimension_count` is derived as the embedding length
    /// divided by the head count when the head count is non-zero and
    /// divides it. Nothing else changes.
    pub fn shim_llama_compatible_metadata(metadata: &mut Vec<MetaEntry>)
        ensures
            meta_view(final(metadata)@) == shimmed(meta_view(old(metadata)@)),
    {
        let ghost start = meta_view(metadata@);
        let mut i: usize = 0;
        while i < 7
            invariant
                i <= 7,
                meta_view(metadata@) == copied(start, i as nat),
            decreases 7 - i,
        {
            let k = common_key(i);
            let mut llama_key = String::new();
            push_str(&mut llama_key, "llama.");
            push_str(&mut llama_key, k);
            if find_key(metadata, llama_key.as_str()).is_none() {
                match find_suffix(metadata, k) {
                    Some(v) => push_entry(metadata, llama_key, v),
                    None => {},
                }
            }
            i = i + 1;
        }
        if find_key(metadata, "llama.rope.dimension_count").is_none() {
            let hc = match find_key(metadata, "llama.attention.head_count") { Some(v) => v.as_u32, None => None };
            let el = match find_key(metadata, "llama.embedding_length") { Some(v) => v.as_u32, None => None };
            match (hc, el) {
                (Some(h), Some(e)) => {
                    if h > 0 && e % h == 0 {
                        let mut key = String::new();
                        push_str(&mut key, "llama.rope.dimension_count");
                        push_entry(metadata, key, MetaValue { source: None, as_u32: Some(e / h) });
                    }
                },
                _ => {},
            }
        }
    }
}

} // verus!
