//! A small map keyed by identifiers that keeps its keys in insertion order.

use crate::ids::{
    AgentEntryId, AgentRunId, EventId, ExecutionId, LogicalToolCallId, ModelAttemptId,
    ToolAttemptId,
};
use vstd::prelude::*;

verus! {

/// An identifier that can be compared at run time.
pub trait IdKey: Copy {
    fn same_key(&self, other: &Self) -> (r: bool)
        ensures
            r == (*self == *other);
}

impl IdKey for ExecutionId {
    fn same_key(&self, other: &Self) -> (r: bool) {
        self.0 == other.0
    }
}

impl IdKey for EventId {
    fn same_key(&self, other: &Self) -> (r: bool) {
        self.0 == other.0
    }
}

impl IdKey for AgentRunId {
    fn same_key(&self, other: &Self) -> (r: bool) {
        self.0 == other.0
    }
}

impl IdKey for AgentEntryId {
    fn same_key(&self, other: &Self) -> (r: bool) {
        self.0 == other.0
    }
}

impl IdKey for ModelAttemptId {
    fn same_key(&self, other: &Self) -> (r: bool) {
        self.0 == other.0
    }
}

impl IdKey for ToolAttemptId {
    fn same_key(&self, other: &Self) -> (r: bool) {
        self.0 == other.0
    }
}

impl IdKey for LogicalToolCallId {
    fn same_key(&self, other: &Self) -> (r: bool) {
        self.0 == other.0
    }
}

/// The index of the first pair whose key is `k`, looking from index `i` on.
pub open spec fn assoc_index_from<K, V>(s: Seq<(K, V)>, k: K, i: int) -> Option<int>
    decreases s.len() - i,
{
    if i < 0 || i >= s.len() {
        None
    } else if s[i].0 == k {
        Some(i)
    } else {
        assoc_index_from(s, k, i + 1)
    }
}

/// The index of the first pair whose key is `k`.
pub open spec fn assoc_index<K, V>(s: Seq<(K, V)>, k: K) -> Option<int> {
    assoc_index_from(s, k, 0)
}

/// The value of the first pair whose key is `k`.
pub open spec fn assoc_get<K, V>(s: Seq<(K, V)>, k: K) -> Option<V> {
    match assoc_index(s, k) {
        Some(i) => Some(s[i].1),
        None => None,
    }
}

/// `k` mapped to `v`: the first pair of key `k` is replaced, or a new pair is
/// appended.
pub open spec fn assoc_insert<K, V>(s: Seq<(K, V)>, k: K, v: V) -> Seq<(K, V)> {
    match assoc_index(s, k) {
        Some(i) => s.update(i, (k, v)),
        None => s.push((k, v)),
    }
}

/// The search from position `i` finds the first pair of key `k` at or after
/// `i`, or there is none.
pub proof fn lemma_assoc_index_from_range<K, V>(s: Seq<(K, V)>, k: K, i: int)
    requires
        0 <= i,
    ensures
        assoc_index_from(s, k, i) matches Some(j) ==> i <= j < s.len() && s[j].0 == k && forall|m: int|
            i <= m < j ==> s[m].0 != k,
        assoc_index_from(s, k, i) is None ==> forall|j: int| i <= j < s.len() ==> s[j].0 != k,
    decreases s.len() - i,
{
    if i < s.len() && s[i].0 != k {
        lemma_assoc_index_from_range(s, k, i + 1);
    }
}

/// The search from `i` finds `j` when `j` holds the key and nothing between
/// does.
proof fn lemma_assoc_index_from_first<K, V>(s: Seq<(K, V)>, k: K, i: int, j: int)
    requires
        0 <= i <= j < s.len(),
        s[j].0 == k,
        forall|m: int| i <= m < j ==> s[m].0 != k,
    ensures
        assoc_index_from(s, k, i) == Some(j),
    decreases j - i,
{
    if i < j {
        lemma_assoc_index_from_first(s, k, i + 1, j);
    }
}

/// Two sequences with the same keys at every position search alike.
proof fn lemma_assoc_index_from_same_keys<K, V>(s: Seq<(K, V)>, t: Seq<(K, V)>, k: K, i: int)
    requires
        0 <= i,
        s.len() == t.len(),
        forall|m: int| 0 <= m < s.len() ==> s[m].0 == t[m].0,
    ensures
        assoc_index_from(s, k, i) == assoc_index_from(t, k, i),
    decreases s.len() - i,
{
    if i < s.len() {
        lemma_assoc_index_from_same_keys(s, t, k, i + 1);
    }
}

/// A pair of another key added at the end changes no search.
proof fn lemma_assoc_index_from_push<K, V>(s: Seq<(K, V)>, k: K, p: (K, V), i: int)
    requires
        0 <= i <= s.len(),
        p.0 != k,
    ensures
        assoc_index_from(s.push(p), k, i) == assoc_index_from(s, k, i),
    decreases s.len() - i,
{
    if i < s.len() {
        lemma_assoc_index_from_push(s, k, p, i + 1);
    } else {
        assert(assoc_index_from(s.push(p), k, i + 1) is None);
    }
}

/// After `k` is mapped to `v`, `k` reads `v` and every other key reads what
/// it read before.
pub proof fn lemma_assoc_get_insert<K, V>(s: Seq<(K, V)>, k: K, v: V, k2: K)
    ensures
        assoc_get(assoc_insert(s, k, v), k2) == (if k2 == k {
            Some(v)
        } else {
            assoc_get(s, k2)
        }),
{
    lemma_assoc_index_from_range(s, k, 0);
    lemma_assoc_index_from_range(s, k2, 0);
    match assoc_index(s, k) {
        Some(i) => {
            let t = s.update(i, (k, v));
            if k2 == k {
                lemma_assoc_index_from_first(t, k, 0, i);
            } else {
                lemma_assoc_index_from_same_keys(s, t, k2, 0);
            }
        },
        None => {
            let t = s.push((k, v));
            if k2 == k {
                lemma_assoc_index_from_first(t, k, 0, s.len() as int);
            } else {
                lemma_assoc_index_from_push(s, k2, (k, v), 0);
            }
        },
    }
}

/// Identifiers mapped to values, in the order in which keys were first added.
#[derive(Debug, PartialEq)]
pub struct IdMap<K, V> {
    entries: Vec<(K, V)>,
}

impl<K, V> View for IdMap<K, V> {
    type V = Seq<(K, V)>;

    closed spec fn view(&self) -> Seq<(K, V)> {
        self.entries@
    }
}

impl<K: IdKey, V> IdMap<K, V> {
    pub fn new() -> (r: IdMap<K, V>)
        ensures
            r@ == Seq::<(K, V)>::empty(),
    {
        IdMap { entries: Vec::new() }
    }

    pub fn len(&self) -> (r: usize)
        ensures
            r == self@.len(),
    {
        self.entries.len()
    }

    pub fn is_empty(&self) -> (r: bool)
        ensures
            r == (self@.len() == 0),
    {
        self.entries.len() == 0
    }

    /// The position of key `k`.
    pub fn index_of(&self, k: &K) -> (r: Option<usize>)
        ensures
            r matches Some(i) ==> assoc_index(self@, *k) == Some(i as int) && i < self@.len(),
            r is None ==> assoc_index(self@, *k) is None,
    {
        let mut i: usize = 0;
        while i < self.entries.len()
            invariant
                0 <= i <= self@.len(),
                self@ == self.entries@,
                assoc_index(self@, *k) == assoc_index_from(self@, *k, i as int),
            decreases self.entries.len() - i,
        {
            if self.entries[i].0.same_key(k) {
                return Some(i);
            }
            i = i + 1;
        }
        None
    }

    pub fn contains_key(&self, k: &K) -> (r: bool)
        ensures
            r == assoc_index(self@, *k) is Some,
    {
        self.index_of(k).is_some()
    }

    /// The value of key `k`.
    pub fn get(&self, k: &K) -> (r: Option<&V>)
        ensures
            r matches Some(v) ==> assoc_get(self@, *k) == Some(*v),
            r is None ==> assoc_get(self@, *k) is None,
    {
        match self.index_of(k) {
            Some(i) => Some(&self.entries[i].1),
            None => None,
        }
    }

    /// The key at position `i`.
    pub fn key_at(&self, i: usize) -> (r: K)
        requires
            i < self@.len(),
        ensures
            r == self@[i as int].0,
    {
        self.entries[i].0
    }

    /// The value at position `i`.
    pub fn value_at(&self, i: usize) -> (r: &V)
        requires
            i < self@.len(),
        ensures
            *r == self@[i as int].1,
    {
        &self.entries[i].1
    }

    /// Replaces the value at position `i`, keeping its key.
    pub fn set_value_at(&mut self, i: usize, v: V)
        requires
            i < old(self)@.len(),
        ensures
            final(self)@ == old(self)@.update(i as int, (old(self)@[i as int].0, v)),
    {
        let k = self.entries[i].0;
        self.entries.set(i, (k, v));
    }

    /// Replaces the value at position `i`, keeping its key, and hands back
    /// the value it held.
    pub fn replace_value_at(&mut self, i: usize, v: V) -> (r: V)
        requires
            i < old(self)@.len(),
        ensures
            r == old(self)@[i as int].1,
            final(self)@ == old(self)@.update(i as int, (old(self)@[i as int].0, v)),
    {
        let (k, held) = self.entries.remove(i);
        self.entries.insert(i, (k, v));
        proof {
            assert(self.entries@ =~= old(self).entries@.update(i as int, (k, v)));
        }
        held
    }

    /// Maps `k` to `v`.
    pub fn insert(&mut self, k: K, v: V)
        ensures
            final(self)@ == assoc_insert(old(self)@, k, v),
    {
        match self.index_of(&k) {
            Some(i) => {
                self.entries.set(i, (k, v));
            },
            None => {
                self.entries.push((k, v));
            },
        }
    }
}

} // verus!
