//! Capability registry.
//!
//! Stores the capabilities this node offers and the last-known capability
//! lists of remote peers. Remote lists are replaced wholesale on each
//! gossip update, never merged, so stale entries vanish automatically.

use vstd::prelude::*;
use crate::node::NodeId;
use crate::util::clone_string_pairs;
use crate::cost::COST_SCALE;

verus! {

/// Abstract value of a capability.
#[verifier::ext_equal]
pub ghost struct CapabilityView {
    pub id: u128,
    pub capability_type: Seq<char>,
    pub name: Seq<char>,
    pub description: Seq<char>,
    pub version: Seq<char>,
    pub available: bool,
    pub cost_weight: u64,
    pub metadata: Seq<(Seq<char>, Seq<char>)>,
}

/// A capability that a node can provide, e.g. camera access or compute.
#[derive(Debug)]
pub struct Capability {
    /// Unique identifier for this capability instance (a UUID value).
    pub id: u128,
    /// Type of capability (e.g. "camera", "compute", "storage").
    pub capability_type: String,
    /// Human-readable name.
    pub name: String,
    /// Detailed description.
    pub description: String,
    /// Version of this capability.
    pub version: String,
    /// Whether this capability is currently available.
    pub available: bool,
    /// Cost multiplier for using this capability, in ten-thousandths:
    /// 10000 stands for a weight of one; higher means more expensive.
    pub cost_weight: u64,
    /// Custom metadata, as key-value pairs.
    pub metadata: Vec<(String, String)>,
}

impl View for Capability {
    type V = CapabilityView;

    open spec fn view(&self) -> CapabilityView {
        CapabilityView {
            id: self.id,
            capability_type: self.capability_type@,
            name: self.name@,
            description: self.description@,
            version: self.version@,
            available: self.available,
            cost_weight: self.cost_weight,
            metadata: self.metadata.deep_view(),
        }
    }
}

impl DeepView for Capability {
    type V = CapabilityView;

    open spec fn deep_view(&self) -> CapabilityView {
        self.view()
    }
}

impl Clone for Capability {
    /// An identical copy of the capability.
    fn clone(&self) -> (r: Self)
        ensures
            r@ == self@,
    {
        let r = Capability {
            id: self.id,
            capability_type: self.capability_type.clone(),
            name: self.name.clone(),
            description: self.description.clone(),
            version: self.version.clone(),
            available: self.available,
            cost_weight: self.cost_weight,
            metadata: clone_string_pairs(&self.metadata),
        };
        proof {
            assert(r@ =~= self@);
        }
        r
    }
}

impl Capability {
    /// Create a new capability of the given type and name, available, with
    /// a fresh random id, version "1.0.0" and a cost weight of one.
    pub fn new(capability_type: &str, name: &str) -> (r: Self)
        ensures
            r@.capability_type == capability_type@,
            r@.name == name@,
            r@.description == Seq::<char>::empty(),
            r@.version == "1.0.0"@,
            r@.available,
            r@.cost_weight == COST_SCALE,
            r@.metadata == Seq::<(Seq<char>, Seq<char>)>::empty(),
    {
        let r = Capability {
            id: crate::util::fresh_uuid(),
            capability_type: capability_type.to_owned(),
            name: name.to_owned(),
            description: String::new(),
            version: "1.0.0".to_owned(),
            available: true,
            cost_weight: COST_SCALE,
            metadata: Vec::new(),
        };
        proof {
            assert(r.metadata.deep_view() =~= Seq::<(Seq<char>, Seq<char>)>::empty());
        }
        r
    }

    /// Set the description.
    pub fn with_description(self, description: &str) -> (r: Self)
        ensures
            r@ == (CapabilityView { description: description@, ..self@ }),
    {
        let r = Capability { description: description.to_owned(), ..self };
        proof {
            assert(r@ =~= (CapabilityView { description: description@, ..self@ }));
        }
        r
    }

    /// Set the version.
    pub fn with_version(self, version: &str) -> (r: Self)
        ensures
            r@ == (CapabilityView { version: version@, ..self@ }),
    {
        let r = Capability { version: version.to_owned(), ..self };
        proof {
            assert(r@ =~= (CapabilityView { version: version@, ..self@ }));
        }
        r
    }

    /// Set the cost weight, in ten-thousandths.
    pub fn with_cost_weight(self, weight: u64) -> (r: Self)
        ensures
            r@ == (CapabilityView { cost_weight: weight, ..self@ }),
    {
        let r = Capability { cost_weight: weight, ..self };
        proof {
            assert(r@ =~= (CapabilityView { cost_weight: weight, ..self@ }));
        }
        r
    }

    /// Add a metadata entry.
    pub fn with_metadata(self, key: &str, value: &str) -> (r: Self)
        ensures
            r@ == (CapabilityView { metadata: self@.metadata.push((key@, value@)), ..self@ }),
    {
        let ghost old_self = self@;
        let Capability { id, capability_type, name, description, version, available, cost_weight, mut metadata } = self;
        metadata.push((key.to_owned(), value.to_owned()));
        let r = Capability { id, capability_type, name, description, version, available, cost_weight, metadata };
        proof {
            assert(r.metadata.deep_view() =~= old_self.metadata.push((key@, value@)));
            assert(r@ =~= (CapabilityView { metadata: old_self.metadata.push((key@, value@)), ..old_self }));
        }
        r
    }
}

/// Whether a capability matches a requested type and is available.
pub open spec fn matches_type(c: CapabilityView, t: Seq<char>) -> bool {
    c.capability_type == t && c.available
}

/// The capabilities of `s` that match type `t` and are available, in order.
pub open spec fn filter_avail(s: Seq<CapabilityView>, t: Seq<char>) -> Seq<CapabilityView>
    decreases s.len(),
{
    if s.len() == 0 {
        Seq::empty()
    } else {
        let pre = filter_avail(s.drop_last(), t);
        if matches_type(s.last(), t) {
            pre.push(s.last())
        } else {
            pre
        }
    }
}

/// Pair every capability of `s` with the node `n`.
pub open spec fn tag_with(n: NodeId, s: Seq<CapabilityView>) -> Seq<(NodeId, CapabilityView)> {
    Seq::new(s.len(), |i: int| (n, s[i]))
}

/// All (peer, capability) pairs across `s` whose capability matches type
/// `t` and is available, peers in order, capabilities in order within a peer.
pub open spec fn peers_with(
    s: Seq<(NodeId, Seq<CapabilityView>)>,
    t: Seq<char>,
) -> Seq<(NodeId, CapabilityView)>
    decreases s.len(),
{
    if s.len() == 0 {
        Seq::empty()
    } else {
        peers_with(s.drop_last(), t) + tag_with(s.last().0, filter_avail(s.last().1, t))
    }
}

/// Whether some capability in `s` carries the id `id`.
pub open spec fn has_id(s: Seq<CapabilityView>, id: u128) -> bool {
    exists|i: int| 0 <= i < s.len() && s[i].id == id
}

/// The index of the capability with id `id`; meaningful when `has_id` holds
/// and ids are unique.
pub open spec fn index_of_id(s: Seq<CapabilityView>, id: u128) -> int {
    choose|i: int| 0 <= i < s.len() && s[i].id == id
}

/// All capability ids in `s` are distinct.
pub open spec fn unique_ids(s: Seq<CapabilityView>) -> bool {
    forall|i: int, j: int| 0 <= i < j < s.len() ==> s[i].id != s[j].id
}

/// The capability of `s` with id `id`, if any.
pub open spec fn lookup(s: Seq<CapabilityView>, id: u128) -> Option<CapabilityView> {
    if has_id(s, id) {
        Some(s[index_of_id(s, id)])
    } else {
        None
    }
}

/// `s` with `c` registered: replaced in place if its id is present,
/// appended otherwise.
pub open spec fn spec_register(s: Seq<CapabilityView>, c: CapabilityView) -> Seq<CapabilityView> {
    if has_id(s, c.id) {
        s.update(index_of_id(s, c.id), c)
    } else {
        s.push(c)
    }
}

/// `s` with the capability of id `id` removed, if present.
pub open spec fn spec_unregister(s: Seq<CapabilityView>, id: u128) -> Seq<CapabilityView> {
    if has_id(s, id) {
        s.remove(index_of_id(s, id))
    } else {
        s
    }
}

/// Whether some entry of `s` belongs to peer `n`.
pub open spec fn has_peer(s: Seq<(NodeId, Seq<CapabilityView>)>, n: NodeId) -> bool {
    exists|i: int| 0 <= i < s.len() && s[i].0 == n
}

/// The index of the entry for peer `n`; meaningful when `has_peer` holds
/// and peers are unique.
pub open spec fn index_of_peer(s: Seq<(NodeId, Seq<CapabilityView>)>, n: NodeId) -> int {
    choose|i: int| 0 <= i < s.len() && s[i].0 == n
}

/// All peer keys in `s` are distinct.
pub open spec fn unique_peers(s: Seq<(NodeId, Seq<CapabilityView>)>) -> bool {
    forall|i: int, j: int| 0 <= i < j < s.len() ==> s[i].0 != s[j].0
}

/// The capability list of peer `n` in `s`, or the empty list.
pub open spec fn peer_caps(s: Seq<(NodeId, Seq<CapabilityView>)>, n: NodeId) -> Seq<CapabilityView> {
    if has_peer(s, n) {
        s[index_of_peer(s, n)].1
    } else {
        Seq::empty()
    }
}

/// `s` with the list of peer `n` replaced wholesale by `caps`: updated in
/// place if present, appended otherwise.
pub open spec fn spec_upsert(
    s: Seq<(NodeId, Seq<CapabilityView>)>,
    n: NodeId,
    caps: Seq<CapabilityView>,
) -> Seq<(NodeId, Seq<CapabilityView>)> {
    if has_peer(s, n) {
        s.update(index_of_peer(s, n), (n, caps))
    } else {
        s.push((n, caps))
    }
}

/// `s` with the entry of peer `n` removed, if present.
pub open spec fn spec_remove_peer(
    s: Seq<(NodeId, Seq<CapabilityView>)>,
    n: NodeId,
) -> Seq<(NodeId, Seq<CapabilityView>)> {
    if has_peer(s, n) {
        s.remove(index_of_peer(s, n))
    } else {
        s
    }
}

/// The total number of capabilities across all entries of `s`.
pub open spec fn sum_caps(s: Seq<(NodeId, Seq<CapabilityView>)>) -> int
    decreases s.len(),
{
    if s.len() == 0 {
        0
    } else {
        sum_caps(s.drop_last()) + s.last().1.len()
    }
}

/// The abstract value of an optional capability.
pub open spec fn opt_cap_view(r: Option<Capability>) -> Option<CapabilityView> {
    match r {
        Some(c) => Some(c@),
        None => None,
    }
}

/// Everything `filter_avail` keeps matches the type and is available, comes
/// from `s`, and something is kept exactly when something in `s` matches.
pub proof fn lemma_filter_avail(s: Seq<CapabilityView>, t: Seq<char>)
    ensures
        forall|k: int| 0 <= k < filter_avail(s, t).len() ==>
            matches_type(#[trigger] filter_avail(s, t)[k], t) && s.contains(filter_avail(s, t)[k]),
        filter_avail(s, t).len() <= s.len(),
        (filter_avail(s, t).len() > 0) <==>
            (exists|i: int| 0 <= i < s.len() && matches_type(#[trigger] s[i], t)),
    decreases s.len(),
{
    if s.len() == 0 {
    } else {
        lemma_filter_avail(s.drop_last(), t);
        let pre = filter_avail(s.drop_last(), t);
        assert forall|k: int| 0 <= k < filter_avail(s, t).len() implies
            matches_type(filter_avail(s, t)[k], t) && s.contains(filter_avail(s, t)[k]) by {
            if k < pre.len() {
                assert(s.drop_last().contains(pre[k]));
                let w = choose|w: int| 0 <= w < s.drop_last().len() && s.drop_last()[w] == pre[k];
                assert(s[w] == pre[k]);
            } else {
                assert(filter_avail(s, t)[k] == s.last());
                assert(s[s.len() - 1] == s.last());
            }
        }
        if filter_avail(s, t).len() > 0 {
            if matches_type(s.last(), t) {
                assert(matches_type(s[s.len() - 1], t));
            } else {
                let i = choose|i: int| 0 <= i < s.drop_last().len() && matches_type(s.drop_last()[i], t);
                assert(matches_type(s[i], t));
            }
        }
        if exists|i: int| 0 <= i < s.len() && matches_type(s[i], t) {
            let i = choose|i: int| 0 <= i < s.len() && matches_type(s[i], t);
            if i < s.len() - 1 {
                assert(matches_type(s.drop_last()[i], t));
            }
        }
    }
}

/// Registry of capabilities: this node's own, and the last-known lists
/// advertised by remote peers.
#[derive(Debug)]
pub struct CapabilityRegistry {
    /// Local capabilities, in registration order, ids unique.
    local: Vec<Capability>,
    /// Remote capability lists, one entry per peer, peers unique.
    remote: Vec<(NodeId, Vec<Capability>)>,
}

/// Abstract value of a capability registry.
#[verifier::ext_equal]
pub ghost struct RegistryView {
    pub local: Seq<CapabilityView>,
    pub remote: Seq<(NodeId, Seq<CapabilityView>)>,
}

impl View for CapabilityRegistry {
    type V = RegistryView;

    closed spec fn view(&self) -> RegistryView {
        RegistryView {
            local: self.local.deep_view(),
            remote: Seq::new(self.remote@.len(), |i: int| (self.remote@[i].0, self.remote@[i].1.deep_view())),
        }
    }
}

impl CapabilityRegistry {
    /// Well-formedness: local capability ids and remote peer keys are
    /// distinct. Constructors establish it and every method preserves it.
    pub open spec fn wf(&self) -> bool {
        unique_ids(self@.local) && unique_peers(self@.remote)
    }

    /// Create a new empty registry.
    pub fn new() -> (r: Self)
        ensures
            r.wf(),
            r@.local == Seq::<CapabilityView>::empty(),
            r@.remote == Seq::<(NodeId, Seq<CapabilityView>)>::empty(),
    {
        let r = CapabilityRegistry { local: Vec::new(), remote: Vec::new() };
        proof {
            assert(r@.local =~= Seq::<CapabilityView>::empty());
            assert(r@.remote =~= Seq::<(NodeId, Seq<CapabilityView>)>::empty());
        }
        r
    }

    /// Index of the local capability with the given id, if any.
    #[verifier::loop_isolation(false)]
    fn find_local_index(&self, id: u128) -> (r: Option<usize>)
        requires
            self.wf(),
        ensures
            r is Some <==> has_id(self@.local, id),
            r matches Some(ix) ==> 0 <= ix < self@.local.len() && self@.local[ix as int].id == id
                && ix as int == index_of_id(self@.local, id),
    {
        let n = self.local.len();
        let mut i: usize = 0;
        while i < n
            invariant
                0 <= i <= n == self@.local.len(),
                forall|j: int| 0 <= j < i ==> self@.local[j].id != id,
            decreases n - i,
        {
            if self.local[i].id == id {
                proof {
                    assert(unique_ids(self@.local));
                    assert(self@.local[i as int].id == id);
                    assert(has_id(self@.local, id));
                    let w = index_of_id(self@.local, id);
                    assert(0 <= w < self@.local.len() && self@.local[w].id == id);
                    if w != i as int {
                        let ii = if w < i as int { w } else { i as int };
                        let jj = if w < i as int { i as int } else { w };
                        assert(0 <= ii < jj < self@.local.len());
                        assert(self@.local[ii].id != self@.local[jj].id);
                        assert(false);
                    }
                }
                return Some(i);
            }
            i = i + 1;
        }
        None
    }

    /// Register a local capability under its own id; a capability already
    /// registered under the same id is replaced in place. Returns the id.
    pub fn register(&mut self, capability: Capability) -> (id: u128)
        requires
            old(self).wf(),
        ensures
            final(self).wf(),
            id == capability@.id,
            final(self)@.local == spec_register(old(self)@.local, capability@),
            final(self)@.remote == old(self)@.remote,
    {
        let id = capability.id;
        let found = self.find_local_index(id);
        match found {
            Some(ix) => {
                let ghost old_local = self@.local;
                self.local.remove(ix);
                self.local.insert(ix, capability);
                proof {
                    assert(self@.local =~= old_local.update(ix as int, capability@));
                    assert(self@.remote =~= old(self)@.remote);
                    assert forall|i: int, j: int| 0 <= i < j < self@.local.len() implies
                        self@.local[i].id != self@.local[j].id by {
                        assert(old_local[i].id != old_local[j].id);
                    }
                }
            },
            None => {
                let ghost old_local = self@.local;
                self.local.push(capability);
                proof {
                    assert(self@.local =~= old_local.push(capability@));
                    assert(self@.remote =~= old(self)@.remote);
                    assert forall|i: int, j: int| 0 <= i < j < self@.local.len() implies
                        self@.local[i].id != self@.local[j].id by {
                        if j < self@.local.len() - 1 {
                            assert(old_local[i].id != old_local[j].id);
                        } else {
                            assert(self@.local[i] == old_local[i]);
                            assert(!has_id(old_local, id));
                        }
                    }
                }
            },
        }
        id
    }

    /// Remove a local capability by id, returning it if it was present.
    pub fn unregister(&mut self, id: u128) -> (r: Option<Capability>)
        requires
            old(self).wf(),
        ensures
            final(self).wf(),
            opt_cap_view(r) == lookup(old(self)@.local, id),
            final(self)@.local == spec_unregister(old(self)@.local, id),
            final(self)@.remote == old(self)@.remote,
    {
        let found = self.find_local_index(id);
        match found {
            Some(ix) => {
                let ghost old_local = self@.local;
                let c = self.local.remove(ix);
                proof {
                    assert(self@.local =~= old_local.remove(ix as int));
                    assert(self@.remote =~= old(self)@.remote);
                    assert forall|i: int, j: int| 0 <= i < j < self@.local.len() implies
                        self@.local[i].id != self@.local[j].id by {
                        let i0 = if i < ix as int { i } else { i + 1 };
                        let j0 = if j < ix as int { j } else { j + 1 };
                        assert(old_local[i0].id != old_local[j0].id);
                    }
                }
                Some(c)
            },
            None => None,
        }
    }

    /// Look up a local capability by id.
    pub fn get(&self, id: u128) -> (r: Option<Capability>)
        requires
            self.wf(),
        ensures
            opt_cap_view(r) == lookup(self@.local, id),
    {

        let found = self.find_local_index(id);
        match found {
            Some(ix) => Some(self.local[ix].clone()),
            None => None,
        }
    }

    /// All local capabilities, in registration order.
    #[verifier::loop_isolation(false)]
    pub fn list_local(&self) -> (r: Vec<Capability>)
        ensures
            r.deep_view() == self@.local,
    {
        let mut r: Vec<Capability> = Vec::new();
        let mut i: usize = 0;
        let n = self.local.len();
        while i < n
            invariant
                0 <= i <= n == self@.local.len(),
                r@.len() == i,
                forall|j: int| 0 <= j < i ==> r.deep_view()[j] == self@.local[j],
            decreases n - i,
        {
            let c = self.local[i].clone();
            assert(c@ == self@.local[i as int]);
            let ghost r0 = r@;
            proof {
                assert forall|j: int| 0 <= j < r0.len() implies r0[j]@ == self@.local[j] by {
                    assert(r.deep_view()[j] == r@[j]@);
                }
            }
            r.push(c);
            proof {
                assert forall|j: int| 0 <= j < i + 1 implies r.deep_view()[j] == self@.local[j] by {
                    assert(r.deep_view()[j] == r@[j]@);
                    if j < i as int {
                        assert(r@[j] == r0[j]);
                    } else {
                        assert(r@[j] == c);
                    }
                }
            }
            i = i + 1;
        }
        proof {
            assert(r.deep_view() =~= self@.local);
        }
        r
    }

    /// All available local capabilities of the given type, in registration
    /// order. Never returns a capability whose `available` flag is off.
    #[verifier::loop_isolation(false)]
    pub fn find_local_by_type(&self, capability_type: &str) -> (r: Vec<Capability>)
        ensures
            r.deep_view() == filter_avail(self@.local, capability_type@),
            forall|k: int| 0 <= k < r.deep_view().len() ==>
                matches_type(#[trigger] r.deep_view()[k], capability_type@),
    {
        let mut r: Vec<Capability> = Vec::new();
        let mut i: usize = 0;
        let n = self.local.len();
        let t: String = capability_type.to_owned();
        while i < n
            invariant
                0 <= i <= n == self@.local.len(),
                t@ == capability_type@,
                r.deep_view() =~= filter_avail(self@.local.take(i as int), capability_type@),
            decreases n - i,
        {
            let c = &self.local[i];
            proof {
                assert(self@.local.take(i + 1).drop_last() =~= self@.local.take(i as int));
                assert(self@.local.take(i + 1).last() == self@.local[i as int]);
            }
            if c.available && c.capability_type.eq(&t) {
                r.push(c.clone());
            }
            assert(r.deep_view() =~= filter_avail(self@.local.take(i + 1), capability_type@));
            i = i + 1;
        }
        proof {
            assert(self@.local.take(n as int) =~= self@.local);
            lemma_filter_avail(self@.local, capability_type@);
        }
        r
    }

    /// Index of the remote entry for the given peer, if any.
    #[verifier::loop_isolation(false)]
    fn find_remote_index(&self, node_id: &NodeId) -> (r: Option<usize>)
        requires
            self.wf(),
        ensures
            r is Some <==> has_peer(self@.remote, *node_id),
            r matches Some(ix) ==> 0 <= ix < self@.remote.len() && self@.remote[ix as int].0 == *node_id
                && ix as int == index_of_peer(self@.remote, *node_id),
    {
        let n = self.remote.len();
        let mut i: usize = 0;
        while i < n
            invariant
                0 <= i <= n == self@.remote.len(),
                forall|j: int| 0 <= j < i ==> self@.remote[j].0 != *node_id,
            decreases n - i,
        {
            if self.remote[i].0 == *node_id {
                proof {
                    assert(self@.remote[i as int].0 == *node_id);
                    assert(has_peer(self@.remote, *node_id));
                    let w = index_of_peer(self@.remote, *node_id);
                    assert(0 <= w < self@.remote.len() && self@.remote[w].0 == *node_id);
                    if w < i as int {
                        assert(self@.remote[w].0 != self@.remote[i as int].0);
                    }
                    if w > i as int {
                        assert(self@.remote[i as int].0 != self@.remote[w].0);
                    }
                }
                return Some(i);
            }
            i = i + 1;
        }
        None
    }

    /// Replace the capability list of a peer wholesale; the previous list,
    /// if any, is discarded entirely.
    pub fn update_remote(&mut self, node_id: NodeId, capabilities: Vec<Capability>)
        requires
            old(self).wf(),
        ensures
            final(self).wf(),
            final(self)@.remote == spec_upsert(old(self)@.remote, node_id, capabilities.deep_view()),
            final(self)@.local == old(self)@.local,
    {
        let found = self.find_remote_index(&node_id);
        match found {
            Some(ix) => {
                let ghost old_remote = self@.remote;
                self.remote.remove(ix);
                self.remote.insert(ix, (node_id, capabilities));
                proof {
                    assert(self@.remote =~= old_remote.update(ix as int, (node_id, capabilities.deep_view())));
                    assert(self@.local =~= old(self)@.local);
                    assert forall|i: int, j: int| 0 <= i < j < self@.remote.len() implies
                        self@.remote[i].0 != self@.remote[j].0 by {
                        assert(old_remote[i].0 != old_remote[j].0);
                    }
                }
            },
            None => {
                let ghost old_remote = self@.remote;
                self.remote.push((node_id, capabilities));
                proof {
                    assert(self@.remote =~= old_remote.push((node_id, capabilities.deep_view())));
                    assert(self@.local =~= old(self)@.local);
                    assert forall|i: int, j: int| 0 <= i < j < self@.remote.len() implies
                        self@.remote[i].0 != self@.remote[j].0 by {
                        if j < self@.remote.len() - 1 {
                            assert(old_remote[i].0 != old_remote[j].0);
                        } else {
                            assert(self@.remote[i] == old_remote[i]);
                            assert(!has_peer(old_remote, node_id));
                        }
                    }
                }
            },
        }
    }

    /// Remove a peer's capability list, if present.
    pub fn remove_remote(&mut self, node_id: &NodeId)
        requires
            old(self).wf(),
        ensures
            final(self).wf(),
            final(self)@.remote == spec_remove_peer(old(self)@.remote, *node_id),
            final(self)@.local == old(self)@.local,
    {
        let found = self.find_remote_index(node_id);
        match found {
            Some(ix) => {
                let ghost old_remote = self@.remote;
                self.remote.remove(ix);
                proof {
                    assert(self@.remote =~= old_remote.remove(ix as int));
                    assert(self@.local =~= old(self)@.local);
                    assert forall|i: int, j: int| 0 <= i < j < self@.remote.len() implies
                        self@.remote[i].0 != self@.remote[j].0 by {
                        let i0 = if i < ix as int { i } else { i + 1 };
                        let j0 = if j < ix as int { j } else { j + 1 };
                        assert(old_remote[i0].0 != old_remote[j0].0);
                    }
                }
            },
            None => {},
        }
    }

    /// The last-known capability list of a peer, empty if unknown.
    #[verifier::loop_isolation(false)]
    pub fn get_remote(&self, node_id: &NodeId) -> (r: Vec<Capability>)
        requires
            self.wf(),
        ensures
            r.deep_view() == peer_caps(self@.remote, *node_id),
    {

        let found = self.find_remote_index(node_id);
        match found {
            Some(ix) => {
                let caps = &self.remote[ix].1;
                let mut r: Vec<Capability> = Vec::new();
                let mut i: usize = 0;
                let n = caps.len();
                while i < n
                    invariant
                        0 <= i <= n == caps@.len(),
                        r@.len() == i,
                        forall|j: int| 0 <= j < i ==> r.deep_view()[j] == caps.deep_view()[j],
                    decreases n - i,
                {
                    let c = caps[i].clone();
                    assert(c@ == caps.deep_view()[i as int]);
                    let ghost r0 = r@;
                    proof {
                        assert forall|j: int| 0 <= j < r0.len() implies r0[j]@ == caps.deep_view()[j] by {
                            assert(r.deep_view()[j] == r@[j]@);
                        }
                    }
                    r.push(c);
                    proof {
                        assert forall|j: int| 0 <= j < i + 1 implies r.deep_view()[j] == caps.deep_view()[j] by {
                            assert(r.deep_view()[j] == r@[j]@);
                            if j < i as int {
                                assert(r@[j] == r0[j]);
                            } else {
                                assert(r@[j] == c);
                            }
                        }
                    }
                    i = i + 1;
                }
                proof {
                    assert(r.deep_view() =~= caps.deep_view());
                }
                r
            },
            None => {
                let r: Vec<Capability> = Vec::new();
                proof {
                    assert(r.deep_view() =~= Seq::<CapabilityView>::empty());
                }
                r
            },
        }
    }

    /// All (peer, capability) pairs across remote peers whose capability
    /// matches the given type and is available.
    #[verifier::loop_isolation(false)]
    pub fn find_peers_with_capability(&self, capability_type: &str) -> (r: Vec<(NodeId, Capability)>)
        ensures
            r.deep_view() == peers_with(self@.remote, capability_type@),
    {
        let mut r: Vec<(NodeId, Capability)> = Vec::new();
        let mut i: usize = 0;
        let n = self.remote.len();
        let t: String = capability_type.to_owned();
        while i < n
            invariant
                0 <= i <= n == self@.remote.len(),
                t@ == capability_type@,
                r.deep_view() =~= peers_with(self@.remote.take(i as int), capability_type@),
            decreases n - i,
        {
            let peer_id = self.remote[i].0;
            let caps = &self.remote[i].1;
            let m = caps.len();
            let mut k: usize = 0;
            while k < m
                invariant
                    0 <= k <= m == caps@.len(),
                    t@ == capability_type@,
                    0 <= i < self@.remote.len(),
                    peer_id == self@.remote[i as int].0,
                    caps.deep_view() == self@.remote[i as int].1,
                    r.deep_view() =~= peers_with(self@.remote.take(i as int), capability_type@)
                        + tag_with(peer_id, filter_avail(caps.deep_view().take(k as int), capability_type@)),
                decreases m - k,
            {
                let c = &caps[k];
                let ghost f1 = filter_avail(caps.deep_view().take(k as int), capability_type@);
                proof {
                    assert(caps.deep_view().take(k + 1).drop_last() =~= caps.deep_view().take(k as int));
                    assert(caps.deep_view().take(k + 1).last() == caps.deep_view()[k as int]);
                }
                let ghost f2 = filter_avail(caps.deep_view().take(k + 1), capability_type@);
                let ghost base = peers_with(self@.remote.take(i as int), capability_type@)
                    + tag_with(peer_id, f1);
                if c.available && c.capability_type.eq(&t) {
                    let cc = c.clone();
                    assert(cc@ == caps.deep_view()[k as int]);
                    let ghost r0 = r@;
                    proof {
                        assert forall|j: int| 0 <= j < r0.len() implies (r0[j].0, r0[j].1@) == base[j] by {
                            assert(r.deep_view()[j] == base[j]);
                            assert(r.deep_view()[j] == (r@[j].0, r@[j].1@));
                        }
                    }
                    r.push((peer_id, cc));
                    proof {
                        let ghost x = (peer_id, caps.deep_view()[k as int]);
                        assert forall|j: int| 0 <= j < r@.len() implies r.deep_view()[j] == base.push(x)[j] by {
                            assert(r.deep_view()[j] == (r@[j].0, r@[j].1@));
                            if j < r0.len() {
                                assert(r@[j] == r0[j]);
                            } else {
                                assert(r@[j] == (peer_id, cc));
                            }
                        }
                        assert(r.deep_view() =~= base.push(x));
                        assert(f2 =~= f1.push(caps.deep_view()[k as int]));
                        assert(tag_with(peer_id, f2) =~= tag_with(peer_id, f1).push(x));
                        assert(base.push(x) =~= peers_with(self@.remote.take(i as int), capability_type@)
                            + tag_with(peer_id, f2));
                        assert(r.deep_view() =~= peers_with(self@.remote.take(i as int), capability_type@)
                            + tag_with(peer_id, f2));
                    }
                } else {
                    assert(f2 == f1);
                }
                k = k + 1;
            }
            proof {
                assert(caps.deep_view().take(m as int) =~= caps.deep_view());
                assert(self@.remote.take(i + 1).drop_last() =~= self@.remote.take(i as int));
                assert(self@.remote.take(i + 1).last() == self@.remote[i as int]);
                assert(r.deep_view() =~= peers_with(self@.remote.take(i + 1), capability_type@));
            }
            i = i + 1;
        }
        proof {
            assert(self@.remote.take(n as int) =~= self@.remote);
        }
        r
    }

    /// Whether this node offers an available capability of the given type.
    #[verifier::loop_isolation(false)]
    pub fn has_local_capability(&self, capability_type: &str) -> (r: bool)
        ensures
            r == exists|i: int| 0 <= i < self@.local.len()
                && matches_type(#[trigger] self@.local[i], capability_type@),
    {
        let mut i: usize = 0;
        let n = self.local.len();
        let t: String = capability_type.to_owned();
        while i < n
            invariant
                0 <= i <= n == self@.local.len(),
                t@ == capability_type@,
                forall|j: int| 0 <= j < i ==> !matches_type(#[trigger] self@.local[j], capability_type@),
            decreases n - i,
        {
            let c = &self.local[i];
            if c.available && c.capability_type.eq(&t) {
                assert(matches_type(self@.local[i as int], capability_type@));
                return true;
            }
            i = i + 1;
        }
        false
    }

    /// The count of all capabilities, local plus remote, saturating at the
    /// machine limit.
    #[verifier::loop_isolation(false)]
    pub fn total_count(&self) -> (r: usize)
        ensures
            r == vstd::math::min(
                self@.local.len() as int + sum_caps(self@.remote),
                usize::MAX as int,
            ),
    {
        let mut total: usize = self.local.len();
        let mut i: usize = 0;
        let n = self.remote.len();
        while i < n
            invariant
                0 <= i <= n == self@.remote.len(),
                total == vstd::math::min(
                    self@.local.len() as int + sum_caps(self@.remote.take(i as int)),
                    usize::MAX as int,
                ),
        decreases n - i,
        {
            let l = self.remote[i].1.len();
            proof {
                assert(self@.remote.take(i + 1).drop_last() =~= self@.remote.take(i as int));
                assert(self@.remote.take(i + 1).last() == self@.remote[i as int]);
                lemma_sum_caps_nonneg(self@.remote.take(i as int));
            }
            total = if total <= usize::MAX - l { total + l } else { usize::MAX };
            i = i + 1;
        }
        proof {
            assert(self@.remote.take(n as int) =~= self@.remote);
        }
        total
    }
}

/// The remote capability count is never negative.
pub proof fn lemma_sum_caps_nonneg(s: Seq<(NodeId, Seq<CapabilityView>)>)
    ensures
        sum_caps(s) >= 0,
    decreases s.len(),
{
    if s.len() > 0 {
        lemma_sum_caps_nonneg(s.drop_last());
    }
}

/// Law: registering a capability makes it what lookup finds under its id.
pub proof fn lemma_register_then_lookup(s: Seq<CapabilityView>, c: CapabilityView)
    requires
        unique_ids(s),
    ensures
        lookup(spec_register(s, c), c.id) == Some(c),
{
    let u = spec_register(s, c);
    if has_id(s, c.id) {
        let ix = index_of_id(s, c.id);
        assert(0 <= ix < s.len() && s[ix].id == c.id);
        assert(u[ix] == c);
        assert(has_id(u, c.id));
        let w = index_of_id(u, c.id);
        assert(0 <= w < u.len() && u[w].id == c.id);
        if w != ix {
            assert(u[w] == s[w]);
            if w < ix {
                assert(s[w].id != s[ix].id);
            } else {
                assert(s[ix].id != s[w].id);
            }
        }
        assert(u[w] == c);
    } else {
        let last = s.len() as int;
        assert(u[last] == c);
        assert(has_id(u, c.id));
        let w = index_of_id(u, c.id);
        assert(0 <= w < u.len() && u[w].id == c.id);
        if w < last {
            assert(u[w] == s[w]);
            assert(has_id(s, c.id));
        }
        assert(u[w] == c);
    }
}

/// Law: after unregistering an id, lookup of that id finds nothing.
pub proof fn lemma_unregister_then_lookup(s: Seq<CapabilityView>, id: u128)
    requires
        unique_ids(s),
    ensures
        lookup(spec_unregister(s, id), id) == None::<CapabilityView>,
{
    let u = spec_unregister(s, id);
    if has_id(s, id) {
        let ix = index_of_id(s, id);
        assert(0 <= ix < s.len() && s[ix].id == id);
        if has_id(u, id) {
            let w = choose|i: int| 0 <= i < u.len() && u[i].id == id;
            let w0 = if w < ix { w } else { w + 1 };
            assert(u[w] == s[w0]);
            assert(s[w0].id == id);
            if w0 < ix {
                assert(s[w0].id != s[ix].id);
            } else {
                assert(s[ix].id != s[w0].id);
            }
        }
    }
}

/// Law: registering one capability leaves the lookup of any other id
/// unchanged.
pub proof fn lemma_register_preserves_others(s: Seq<CapabilityView>, c: CapabilityView, id: u128)
    requires
        unique_ids(s),
        c.id != id,
    ensures
        lookup(spec_register(s, c), id) == lookup(s, id),
{
    let u = spec_register(s, c);
    if has_id(s, c.id) {
        let ix = index_of_id(s, c.id);
        assert(0 <= ix < s.len() && s[ix].id == c.id);
        assert forall|i: int| 0 <= i < u.len() implies u[i].id == s[i].id by {
            if i == ix {
                assert(u[i] == c);
            } else {
                assert(u[i] == s[i]);
            }
        }
        if has_id(s, id) {
            let w = index_of_id(s, id);
            assert(0 <= w < s.len() && s[w].id == id);
            assert(u[w].id == id);
            assert(has_id(u, id));
            let w2 = index_of_id(u, id);
            assert(0 <= w2 < u.len() && u[w2].id == id);
            if w2 != w {
                assert(s[w2].id == id);
                if w2 < w {
                    assert(s[w2].id != s[w].id);
                } else {
                    assert(s[w].id != s[w2].id);
                }
            }
            assert(w2 != ix);
            assert(u[w2] == s[w2]);
            assert(s[w2] == s[w]) by {
                if w2 != w {
                    if w2 < w {
                        assert(s[w2].id != s[w].id);
                    } else {
                        assert(s[w].id != s[w2].id);
                    }
                }
            }
        } else {
            if has_id(u, id) {
                let w2 = choose|i: int| 0 <= i < u.len() && u[i].id == id;
                assert(s[w2].id == id);
                assert(has_id(s, id));
            }
        }
    } else {
        let last = s.len() as int;
        if has_id(s, id) {
            let w = index_of_id(s, id);
            assert(0 <= w < s.len() && s[w].id == id);
            assert(u[w] == s[w]);
            assert(has_id(u, id));
            let w2 = index_of_id(u, id);
            assert(0 <= w2 < u.len() && u[w2].id == id);
            assert(w2 != last);
            assert(u[w2] == s[w2]);
            if w2 != w {
                if w2 < w {
                    assert(s[w2].id != s[w].id);
                } else {
                    assert(s[w].id != s[w2].id);
                }
            }
        } else {
            if has_id(u, id) {
                let w2 = choose|i: int| 0 <= i < u.len() && u[i].id == id;
                assert(w2 != last);
                assert(s[w2].id == id);
                assert(has_id(s, id));
            }
        }
    }
}

/// Law: unregistering one id leaves the lookup of any other id unchanged.
pub proof fn lemma_unregister_preserves_others(s: Seq<CapabilityView>, rid: u128, id: u128)
    requires
        unique_ids(s),
        rid != id,
    ensures
        lookup(spec_unregister(s, rid), id) == lookup(s, id),
{
    let u = spec_unregister(s, rid);
    if has_id(s, rid) {
        let ix = index_of_id(s, rid);
        assert(0 <= ix < s.len() && s[ix].id == rid);
        assert forall|i: int| 0 <= i < u.len() implies
            u[i] == s[if i < ix { i } else { i + 1 }] by {}
        if has_id(s, id) {
            let w = index_of_id(s, id);
            assert(0 <= w < s.len() && s[w].id == id);
            assert(w != ix);
            let wu = if w < ix { w } else { w - 1 };
            assert(u[wu] == s[w]);
            assert(has_id(u, id));
            let w2 = index_of_id(u, id);
            assert(0 <= w2 < u.len() && u[w2].id == id);
            let w2s = if w2 < ix { w2 } else { w2 + 1 };
            assert(u[w2] == s[w2s]);
            assert(s[w2s].id == id);
            if w2s != w {
                if w2s < w {
                    assert(s[w2s].id != s[w].id);
                } else {
                    assert(s[w].id != s[w2s].id);
                }
            }
        } else {
            if has_id(u, id) {
                let w2 = choose|i: int| 0 <= i < u.len() && u[i].id == id;
                let w2s = if w2 < ix { w2 } else { w2 + 1 };
                assert(u[w2] == s[w2s]);
                assert(s[w2s].id == id);
                assert(has_id(s, id));
            }
        }
    }
}

/// Law: replacing a peer's remote list wholesale makes that list exactly
/// what is afterwards read back for the peer — no merge with prior state.
pub proof fn lemma_update_remote_then_get(
    s: Seq<(NodeId, Seq<CapabilityView>)>,
    n: NodeId,
    caps: Seq<CapabilityView>,
)
    requires
        unique_peers(s),
    ensures
        peer_caps(spec_upsert(s, n, caps), n) == caps,
{
    let u = spec_upsert(s, n, caps);
    if has_peer(s, n) {
        let ix = index_of_peer(s, n);
        assert(0 <= ix < s.len() && s[ix].0 == n);
        assert(u[ix] == (n, caps));
        assert(has_peer(u, n));
        let w = index_of_peer(u, n);
        assert(0 <= w < u.len() && u[w].0 == n);
        if w != ix {
            assert(u[w] == s[w]);
            if w < ix {
                assert(s[w].0 != s[ix].0);
            } else {
                assert(s[ix].0 != s[w].0);
            }
        }
        assert(u[w].1 == caps);
    } else {
        let last = s.len() as int;
        assert(u[last] == (n, caps));
        assert(has_peer(u, n));
        let w = index_of_peer(u, n);
        assert(0 <= w < u.len() && u[w].0 == n);
        if w < last {
            assert(u[w] == s[w]);
            assert(has_peer(s, n));
        }
        assert(u[w].1 == caps);
    }
}

} // verus!
