//! Small verified helpers shared across the crate: fresh identifiers,
//! deep clones, and association sequences keyed by node id.

use vstd::prelude::*;
use crate::node::NodeId;

verus! {

/// Whether some entry of `s` is keyed by node `n`.
pub open spec fn has_key<T>(s: Seq<(NodeId, T)>, n: NodeId) -> bool {
    exists|i: int| 0 <= i < s.len() && s[i].0 == n
}

/// The index of the entry keyed by node `n`; meaningful when `has_key`
/// holds and keys are unique.
pub open spec fn key_index<T>(s: Seq<(NodeId, T)>, n: NodeId) -> int {
    choose|i: int| 0 <= i < s.len() && s[i].0 == n
}

/// All keys of `s` are distinct.
pub open spec fn unique_keys<T>(s: Seq<(NodeId, T)>) -> bool {
    forall|i: int, j: int| 0 <= i < j < s.len() ==> s[i].0 != s[j].0
}

/// The value of the entry keyed by node `n`; meaningful when `has_key`
/// holds and keys are unique.
pub open spec fn key_value<T>(s: Seq<(NodeId, T)>, n: NodeId) -> T {
    s[key_index(s, n)].1
}

/// `s` with the entry of node `n` set to `v`: updated in place if present,
/// appended otherwise.
pub open spec fn upsert<T>(s: Seq<(NodeId, T)>, n: NodeId, v: T) -> Seq<(NodeId, T)> {
    if has_key(s, n) {
        s.update(key_index(s, n), (n, v))
    } else {
        s.push((n, v))
    }
}

/// `s` with the entry of node `n` removed, if present.
pub open spec fn remove_key<T>(s: Seq<(NodeId, T)>, n: NodeId) -> Seq<(NodeId, T)> {
    if has_key(s, n) {
        s.remove(key_index(s, n))
    } else {
        s
    }
}

/// A fresh random 128-bit UUID value.
///
/// Relies on uuid::Uuid::new_v4; the value drawn is random, so nothing is
/// assumed about it.
#[verifier::external_body]
pub(crate) fn fresh_uuid() -> u128 {
    uuid::Uuid::new_v4().as_u128()
}

/// Clone a vector of strings, preserving its contents.
pub(crate) fn clone_strings(v: &Vec<String>) -> (r: Vec<String>)
    ensures
        r.deep_view() == v.deep_view(),
{
    let mut r: Vec<String> = Vec::new();
    let mut i: usize = 0;
    while i < v.len()
        invariant
            0 <= i <= v.len(),
            r@.len() == i,
            forall|j: int| 0 <= j < i ==> r.deep_view()[j] == v.deep_view()[j],
        decreases v.len() - i,
    {
        let c = v[i].clone();
        assert(c@ == v@[i as int]@);
        r.push(c);
        i = i + 1;
    }
    proof {
        assert(r.deep_view() =~= v.deep_view());
    }
    r
}

/// Clone a vector of string pairs, preserving its contents.
pub(crate) fn clone_string_pairs(v: &Vec<(String, String)>) -> (r: Vec<(String, String)>)
    ensures
        r.deep_view() == v.deep_view(),
{
    let mut r: Vec<(String, String)> = Vec::new();
    let mut i: usize = 0;
    while i < v.len()
        invariant
            0 <= i <= v.len(),
            r@.len() == i,
            forall|j: int| 0 <= j < i ==> r.deep_view()[j] == v.deep_view()[j],
        decreases v.len() - i,
    {
        let k = v[i].0.clone();
        let w = v[i].1.clone();
        assert(k@ == v@[i as int].0@);
        assert(w@ == v@[i as int].1@);
        r.push((k, w));
        i = i + 1;
    }
    proof {
        assert(r.deep_view() =~= v.deep_view());
    }
    r
}

} // verus!
