//! The mission blackboard: a capacity-capped string map over a concurrent
//! `DashMap`, which evicts some entry when a new key arrives at capacity.
use vstd::prelude::*;
use dashmap::DashMap;
use crate::text::chars_of;

verus! {

#[verifier::external_type_specification]
#[verifier::external_body]
#[verifier::reject_recursive_types(K)]
#[verifier::reject_recursive_types(V)]
#[verifier::reject_recursive_types(S)]
pub struct ExDashMap<K, V, S>(DashMap<K, V, S>);

/// What a `DashMap` of strings holds: its keys' characters to its values'
/// characters.
pub uninterp spec fn dash_contents(m: DashMap<String, String>) -> Map<Seq<char>, Seq<char>>;

/// Calls `DashMap::new`, which makes an empty map.
#[verifier::external_body]
fn dash_new() -> (r: DashMap<String, String>)
    ensures
        dash_contents(r).dom() == Set::<Seq<char>>::empty(),
{
    DashMap::new()
}

/// Calls `DashMap::len`, the number of entries.
#[verifier::external_body]
fn dash_len(m: &DashMap<String, String>) -> (r: usize)
    ensures
        r as nat == dash_contents(*m).len(),
{
    m.len()
}

/// Calls `DashMap::contains_key`.
#[verifier::external_body]
fn dash_contains(m: &DashMap<String, String>, key: &str) -> (r: bool)
    ensures
        r == dash_contents(*m).contains_key(key@),
{
    m.contains_key(key)
}

/// Calls `DashMap::get` and clones the value it refers to.
#[verifier::external_body]
fn dash_get(m: &DashMap<String, String>, key: &str) -> (r: Option<String>)
    ensures
        match r {
            Some(v) => dash_contents(*m).contains_key(key@) && dash_contents(*m)[key@] == v@,
            None => !dash_contents(*m).contains_key(key@),
        },
{
    m.get(key).map(|e| e.value().clone())
}

/// Calls `DashMap::iter` and clones the key of the first entry it
/// yields: some key of the map (which one the source leaves open), or
/// none for an empty map.
#[verifier::external_body]
fn dash_some_key(m: &DashMap<String, String>) -> (r: Option<String>)
    ensures
        match r {
            Some(k) => dash_contents(*m).contains_key(k@),
            None => dash_contents(*m).dom() == Set::<Seq<char>>::empty(),
        },
{
    m.iter().next().map(|e| e.key().clone())
}

/// Calls `DashMap::remove`, which drops the key's entry.
#[verifier::external_body]
fn dash_remove(m: &mut DashMap<String, String>, key: &str)
    ensures
        dash_contents(*final(m)) == dash_contents(*old(m)).remove(key@),
{
    m.remove(key);
}

/// Calls `DashMap::insert`, which sets the key's value.
#[verifier::external_body]
fn dash_insert(m: &mut DashMap<String, String>, key: String, value: String)
    ensures
        dash_contents(*final(m)) == dash_contents(*old(m)).insert(key@, value@),
{
    m.insert(key, value);
}

/// Calls `DashMap::iter` and clones each entry it yields (in the map's
/// own order): every entry once.
#[verifier::external_body]
fn dash_pairs(m: &DashMap<String, String>) -> (r: Vec<(String, String)>)
    ensures
        r@.len() == dash_contents(*m).len(),
        forall|i: int| 0 <= i < r@.len() ==> dash_contents(*m).contains_key((#[trigger] r@[i]).0@)
            && dash_contents(*m)[r@[i].0@] == r@[i].1@,
        forall|i: int, j: int| 0 <= i < j < r@.len() ==> (#[trigger] r@[i]).0@ != (#[trigger] r@[j]).0@,
{
    m.iter().map(|e| (e.key().clone(), e.value().clone())).collect()
}

/// Setting `key` to `value` in a store of capacity `cap` holding `before`
/// leaves it holding `after`: when the key is already there or there is
/// room, that is all; otherwise some entry makes way first (an empty
/// store of capacity zero has none to give).
pub open spec fn evicting_insert(
    before: Map<Seq<char>, Seq<char>>,
    cap: nat,
    key: Seq<char>,
    value: Seq<char>,
    after: Map<Seq<char>, Seq<char>>,
) -> bool {
    if before.contains_key(key) || before.len() < cap {
        after == before.insert(key, value)
    } else {
        ||| before.len() == 0 && after == before.insert(key, value)
        ||| exists|e: Seq<char>| #[trigger] before.contains_key(e) && after == before.remove(e).insert(key, value)
    }
}

/// A capacity-capped string map: past its capacity, a new key evicts some
/// entry (none in particular).
#[derive(Debug)]
pub struct HighDensityContextStore {
    inner: DashMap<String, String>,
    capacity_limit: usize,
}

impl HighDensityContextStore {
    /// The entries, by key.
    pub closed spec fn contents(&self) -> Map<Seq<char>, Seq<char>> {
        dash_contents(self.inner)
    }

    /// The capacity the store was made with.
    pub closed spec fn capacity(&self) -> nat {
        self.capacity_limit as nat
    }

    /// Finitely many entries, and no more than the capacity (a store made
    /// with capacity zero still keeps the latest entry).
    pub open spec fn wf(&self) -> bool {
        &&& self.contents().dom().finite()
        &&& self.contents().len() <= if self.capacity() == 0 { 1 } else { self.capacity() }
    }

    /// An empty store with the given capacity.
    pub fn new(capacity: usize) -> (r: Self)
        ensures
            r.wf(),
            r.capacity() == capacity,
            r.contents() == Map::<Seq<char>, Seq<char>>::empty(),
    {
        let inner = dash_new();
        proof {
            assert(dash_contents(inner) =~= Map::<Seq<char>, Seq<char>>::empty());
        }
        HighDensityContextStore { inner, capacity_limit: capacity }
    }

    /// Sets a key's value. A new key arriving at capacity first evicts
    /// some other entry; otherwise nothing else changes.
    pub fn insert(&mut self, key: String, value: String)
        requires
            old(self).wf(),
        ensures
            final(self).wf(),
            final(self).capacity() == old(self).capacity(),
            evicting_insert(old(self).contents(), old(self).capacity(), key@, value@, final(self).contents()),
    {
        let len = dash_len(&self.inner);
        let ghost start = dash_contents(self.inner);
        let ghost mut evicted: Option<Seq<char>> = None;
        if len >= self.capacity_limit && !dash_contains(&self.inner, key.as_str()) {
            let victim = dash_some_key(&self.inner);
            match victim {
                Some(v) => {
                    dash_remove(&mut self.inner, v.as_str());
                    proof {
                        evicted = Some(v@);
                    }
                },
                None => {},
            }
        }
        let ghost mid = dash_contents(self.inner);
        dash_insert(&mut self.inner, key, value);
        proof {
            match evicted {
                Some(e) => {
                    assert(start.contains_key(e) && dash_contents(self.inner) == start.remove(e).insert(key@, value@));
                },
                None => {
                    if !(start.contains_key(key@) || start.len() < self.capacity_limit) {
                        assert(start.dom() =~= Set::<Seq<char>>::empty());
                        assert(start.len() == 0);
                    }
                },
            }
            assert(evicting_insert(start, self.capacity_limit as nat, key@, value@, dash_contents(self.inner)));
            lemma_evicting_insert_bounded(start, self.capacity_limit as nat, key@, value@, dash_contents(self.inner));
        }
    }

    /// The value of a key, if it has one.
    pub fn get(&self, key: &str) -> (r: Option<String>)
        ensures
            match r {
                Some(v) => self.contents().contains_key(key@) && self.contents()[key@] == v@,
                None => !self.contents().contains_key(key@),
            },
    {
        dash_get(&self.inner, key)
    }

    /// Whether the key has a value.
    pub fn contains_key(&self, key: &str) -> (b: bool)
        ensures
            b == self.contents().contains_key(key@),
    {
        dash_contains(&self.inner, key)
    }

    /// Whether the store holds nothing.
    pub fn is_empty(&self) -> (b: bool)
        requires
            self.wf(),
        ensures
            b == (self.contents().len() == 0),
    {
        dash_len(&self.inner) == 0
    }

    /// Every entry once, in the map's own order.
    pub fn iter(&self) -> (r: Vec<(String, String)>)
        ensures
            r@.len() == self.contents().len(),
            forall|i: int| 0 <= i < r@.len() ==> self.contents().contains_key((#[trigger] r@[i]).0@)
                && self.contents()[r@[i].0@] == r@[i].1@,
            forall|i: int, j: int| 0 <= i < j < r@.len() ==> (#[trigger] r@[i]).0@ != (#[trigger] r@[j]).0@,
    {
        dash_pairs(&self.inner)
    }
}

impl Default for HighDensityContextStore {
    fn default() -> (r: Self)
        ensures
            r.wf(),
            r.capacity() == 1024,
            r.contents() == Map::<Seq<char>, Seq<char>>::empty(),
    {
        HighDensityContextStore::new(1024)
    }
}

/// What a write gives back: after a key is set, reading it gives the value
/// written, and the store stays within its capacity.
pub proof fn law_read_after_write(before: HighDensityContextStore, after: HighDensityContextStore, key: Seq<char>, value: Seq<char>)
    requires
        before.wf(),
        evicting_insert(before.contents(), before.capacity(), key, value, after.contents()),
    ensures
        after.contents().contains_key(key),
        after.contents()[key] == value,
        after.contents().len() <= if before.capacity() == 0 { 1 } else { before.capacity() },
        forall|k: Seq<char>| k != key && #[trigger] after.contents().contains_key(k)
            ==> before.contents().contains_key(k) && after.contents()[k] == before.contents()[k],
{
    lemma_evicting_insert_bounded(before.contents(), before.capacity(), key, value, after.contents());
}

proof fn lemma_evicting_insert_bounded(
    before: Map<Seq<char>, Seq<char>>,
    cap: nat,
    key: Seq<char>,
    value: Seq<char>,
    after: Map<Seq<char>, Seq<char>>,
)
    requires
        before.dom().finite(),
        before.len() <= if cap == 0 { 1 } else { cap },
        evicting_insert(before, cap, key, value, after),
    ensures
        after.dom().finite(),
        after.len() <= if cap == 0 { 1 } else { cap },
{
    if before.contains_key(key) {
        assert(after.dom() =~= before.dom());
    } else if before.len() < cap {
        assert(after.dom() =~= before.dom().insert(key));
    } else if before.len() == 0 && after == before.insert(key, value) {
        assert(after.dom() =~= before.dom().insert(key));
    } else {
        let e = choose|e: Seq<char>| #[trigger] before.contains_key(e) && after == before.remove(e).insert(key, value);
        assert(before.remove(e).dom() =~= before.dom().remove(e));
        assert(after.dom() =~= before.dom().remove(e).insert(key));
    }
}

} // verus!
