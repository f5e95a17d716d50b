//! Cost model and collection.
//!
//! Turns platform metrics into a normalized cost score for the local node
//! and caches reported cost scores for peers. All cost values are fixed
//! point, in ten-thousandths of full scale: `COST_SCALE` stands for a cost
//! of 1.0.

use vstd::prelude::*;
use crate::clock::now_ms;
use crate::metrics::PlatformMetrics;
use crate::node::NodeId;
use crate::util::{has_key, key_index, key_value, remove_key, unique_keys, upsert};
use vstd::multiset::Multiset;

verus! {

/// Full scale of the fixed-point cost values: 10000 stands for a cost of 1.0.
pub const COST_SCALE: u64 = 10000;

/// Fixed baseline network cost (0.2 of full scale); this core performs no
/// live network-quality probing.
pub const NETWORK_COST_BASE: u64 = 2000;

/// Cost metrics for a node. Each factor is in ten-thousandths of full
/// scale: 0 means no cost, `COST_SCALE` means maximal cost.
#[derive(Debug, Clone, Copy, PartialEq, Eq, Structural)]
pub struct NodeCost {
    /// Battery cost factor.
    pub battery_cost: u64,
    /// CPU cost factor.
    pub cpu_cost: u64,
    /// Memory cost factor.
    pub memory_cost: u64,
    /// Network cost factor.
    pub network_cost: u64,
    /// Combined weighted cost score.
    pub total_cost: u64,
    /// Milliseconds since the epoch when this cost was calculated.
    pub timestamp_ms: u64,
}

impl Default for NodeCost {
    /// A neutral cost: every factor at half scale, timestamp 0.
    fn default() -> (r: Self)
        ensures
            r == (NodeCost {
                battery_cost: 5000,
                cpu_cost: 5000,
                memory_cost: 5000,
                network_cost: 5000,
                total_cost: 5000,
                timestamp_ms: 0,
            }),
    {
        NodeCost {
            battery_cost: 5000,
            cpu_cost: 5000,
            memory_cost: 5000,
            network_cost: 5000,
            total_cost: 5000,
            timestamp_ms: 0,
        }
    }
}

/// Weights blending the four cost factors into the total, each in
/// ten-thousandths. By convention they sum to `COST_SCALE`; this is not
/// enforced.
#[derive(Debug, Clone, Copy, PartialEq, Eq, Structural)]
pub struct CostWeights {
    pub battery: u64,
    pub cpu: u64,
    pub memory: u64,
    pub network: u64,
}

/// The default weights: battery 0.4, CPU 0.25, memory 0.2, network 0.15,
/// favouring battery for mobile-first deployment.
pub open spec fn spec_default_weights() -> CostWeights {
    CostWeights { battery: 4000, cpu: 2500, memory: 2000, network: 1500 }
}

impl Default for CostWeights {
    /// Battery 0.4, CPU 0.25, memory 0.2, network 0.15.
    fn default() -> (r: Self)
        ensures
            r == spec_default_weights(),
    {
        CostWeights { battery: 4000, cpu: 2500, memory: 2000, network: 1500 }
    }
}

/// The battery cost factor: 0.1 when plugged in; on battery, 1.0 at or
/// below 10%, 0.8 at or below 20%, `1 - 0.8 * percent/100` above that
/// (never below zero), and 0.5 when the percentage is unknown.
pub open spec fn spec_battery_cost(on_battery: bool, percent: Option<u32>) -> u64 {
    if !on_battery {
        1000
    } else {
        match percent {
            Some(p) => {
                if p <= 10 {
                    10000
                } else if p <= 20 {
                    8000
                } else if (p as int) * 80 >= 10000 {
                    0
                } else {
                    (10000 - (p as int) * 80) as u64
                }
            },
            None => 5000,
        }
    }
}

/// The CPU cost factor: the reported load, capped at full scale.
pub open spec fn spec_cpu_cost(load: u64) -> u64 {
    if load > COST_SCALE {
        COST_SCALE
    } else {
        load
    }
}

/// The memory cost factor: the used fraction of memory `1 - available/total`,
/// clamped to [0, 1]; 0.5 when the total is unknown.
pub open spec fn spec_memory_cost(available_mb: u64, total_mb: u64) -> u64 {
    if total_mb == 0 {
        5000
    } else {
        let ratio = (available_mb as int) * (COST_SCALE as int) / (total_mb as int);
        if ratio >= COST_SCALE as int {
            0
        } else {
            (COST_SCALE as int - ratio) as u64
        }
    }
}

/// The weighted total of the four factors, scaled back down by
/// `COST_SCALE` and saturating at the machine limit.
pub open spec fn spec_total_cost(b: u64, c: u64, m: u64, n: u64, w: CostWeights) -> u64 {
    let sum = (b as int) * (w.battery as int) + (c as int) * (w.cpu as int)
        + (m as int) * (w.memory as int) + (n as int) * (w.network as int);
    let t = sum / (COST_SCALE as int);
    if t > u64::MAX as int {
        u64::MAX
    } else {
        t as u64
    }
}

/// The local cost score that a collector in the given state computes,
/// apart from its timestamp.
pub open spec fn spec_local_cost<M: PlatformMetrics>(metrics: M, weights: CostWeights) -> NodeCost {
    let b = spec_battery_cost(metrics.is_on_battery_spec(), metrics.battery_percent_spec());
    let c = spec_cpu_cost(metrics.cpu_load_spec());
    let m = spec_memory_cost(metrics.available_memory_mb_spec(), metrics.total_memory_mb_spec());
    let n = NETWORK_COST_BASE;
    NodeCost {
        battery_cost: b,
        cpu_cost: c,
        memory_cost: m,
        network_cost: n,
        total_cost: spec_total_cost(b, c, m, n, weights),
        timestamp_ms: 0,
    }
}

/// Entries of `s` appear in ascending order of total cost.
pub open spec fn sorted_by_cost(s: Seq<(NodeId, NodeCost)>) -> bool {
    forall|i: int, j: int| 0 <= i <= j < s.len() ==> s[i].1.total_cost <= s[j].1.total_cost
}

/// Index `i` holds the first entry of `s` with minimal total cost.
pub open spec fn is_first_min(s: Seq<(NodeId, NodeCost)>, i: int) -> bool {
    &&& 0 <= i < s.len()
    &&& forall|j: int| 0 <= j < s.len() ==> s[i].1.total_cost <= #[trigger] s[j].1.total_cost
    &&& forall|j: int| 0 <= j < i ==> #[trigger] s[j].1.total_cost > s[i].1.total_cost
}

/// Collects and calculates node costs based on platform metrics.
///
/// The peer cache is keyed by node id, one entry per peer, kept in
/// insertion order; ties on cost are broken by that order, first-seen
/// first.
#[derive(Debug)]
pub struct CostCollector<M: PlatformMetrics> {
    /// Platform metrics provider.
    metrics: M,
    /// Cost calculation weights.
    weights: CostWeights,
    /// Cached peer costs, one entry per peer.
    peer_costs: Vec<(NodeId, NodeCost)>,
}

impl<M: PlatformMetrics> CostCollector<M> {
    /// The metrics provider in use.
    pub closed spec fn metrics_spec(&self) -> M {
        self.metrics
    }

    /// The current weights.
    pub closed spec fn weights_spec(&self) -> CostWeights {
        self.weights
    }

    /// The cached peer costs, in insertion order.
    pub closed spec fn peers_spec(&self) -> Seq<(NodeId, NodeCost)> {
        self.peer_costs@
    }

    /// Well-formedness: one cache entry per peer.
    pub open spec fn wf(&self) -> bool {
        unique_keys(self.peers_spec())
    }

    /// Create a new cost collector with the given metrics provider and the
    /// default weights.
    pub fn new(metrics: M) -> (r: Self)
        ensures
            r.wf(),
            r.metrics_spec() == metrics,
            r.weights_spec() == spec_default_weights(),
            r.peers_spec() == Seq::<(NodeId, NodeCost)>::empty(),
    {
        let r = CostCollector {
            metrics,
            weights: CostWeights::default(),
            peer_costs: Vec::new(),
        };
        proof {
            assert(r.peers_spec() =~= Seq::<(NodeId, NodeCost)>::empty());
        }
        r
    }

    /// The battery cost factor from the current metrics.
    fn calculate_battery_cost(&self) -> (r: u64)
        ensures
            r == spec_battery_cost(
                self.metrics_spec().is_on_battery_spec(),
                self.metrics_spec().battery_percent_spec(),
            ),
            r <= COST_SCALE,
    {
        if !self.metrics.is_on_battery() {
            return 1000;
        }
        match self.metrics.battery_percent() {
            Some(p) => {
                if p <= 10 {
                    10000
                } else if p <= 20 {
                    8000
                } else {
                    let prod: u64 = (p as u64) * 80;
                    if prod >= 10000 {
                        0
                    } else {
                        10000 - prod
                    }
                }
            },
            None => 5000,
        }
    }

    /// The memory cost factor from the current metrics.
    fn calculate_memory_cost(&self) -> (r: u64)
        ensures
            r == spec_memory_cost(
                self.metrics_spec().available_memory_mb_spec(),
                self.metrics_spec().total_memory_mb_spec(),
            ),
            r <= COST_SCALE,
    {
        let available = self.metrics.available_memory_mb();
        let total = self.metrics.total_memory_mb();
        if total == 0 {
            return 5000;
        }
        let ratio: u128 = (available as u128) * (COST_SCALE as u128) / (total as u128);
        if ratio >= COST_SCALE as u128 {
            0
        } else {
            proof {
                assert(ratio == (available as int) * (COST_SCALE as int) / (total as int));
            }
            COST_SCALE - (ratio as u64)
        }
    }

    /// Calculate the current cost score for this node, fresh on every call:
    /// nothing is cached. Every field but the timestamp is a function of
    /// the metrics readings and the current weights; the timestamp comes
    /// from the wall clock.
    pub fn calculate_local_cost(&self) -> (r: NodeCost)
        ensures
            r == (NodeCost {
                timestamp_ms: r.timestamp_ms,
                ..spec_local_cost(self.metrics_spec(), self.weights_spec())
            }),
    {
        let battery_cost = self.calculate_battery_cost();
        let cpu_load = self.metrics.cpu_load();
        let cpu_cost = if cpu_load > COST_SCALE { COST_SCALE } else { cpu_load };
        let memory_cost = self.calculate_memory_cost();
        let network_cost = NETWORK_COST_BASE;

        let w = self.weights;
        proof {
            vstd::arithmetic::mul::lemma_mul_upper_bound(
                battery_cost as int, COST_SCALE as int, w.battery as int, u64::MAX as int);
            vstd::arithmetic::mul::lemma_mul_upper_bound(
                cpu_cost as int, COST_SCALE as int, w.cpu as int, u64::MAX as int);
            vstd::arithmetic::mul::lemma_mul_upper_bound(
                memory_cost as int, COST_SCALE as int, w.memory as int, u64::MAX as int);
            vstd::arithmetic::mul::lemma_mul_upper_bound(
                network_cost as int, COST_SCALE as int, w.network as int, u64::MAX as int);
        }
        let sum: u128 = (battery_cost as u128) * (w.battery as u128)
            + (cpu_cost as u128) * (w.cpu as u128)
            + (memory_cost as u128) * (w.memory as u128)
            + (network_cost as u128) * (w.network as u128);
        let scaled: u128 = sum / (COST_SCALE as u128);
        let total_cost: u64 = if scaled > u64::MAX as u128 { u64::MAX } else { scaled as u64 };
        proof {
            assert(total_cost == spec_total_cost(battery_cost, cpu_cost, memory_cost, network_cost, w));
        }

        let timestamp_ms = now_ms();
        NodeCost {
            battery_cost,
            cpu_cost,
            memory_cost,
            network_cost,
            total_cost,
            timestamp_ms,
        }
    }

    /// Replace the cost weights.
    pub fn set_weights(&mut self, weights: CostWeights)
        requires
            old(self).wf(),
        ensures
            final(self).wf(),
            final(self).weights_spec() == weights,
            final(self).metrics_spec() == old(self).metrics_spec(),
            final(self).peers_spec() == old(self).peers_spec(),
    {
        self.weights = weights;
    }

    /// The current cost weights.
    pub fn get_weights(&self) -> (r: CostWeights)
        ensures
            r == self.weights_spec(),
    {
        self.weights
    }

    /// Index of the cache entry for the given peer, if any.
    #[verifier::loop_isolation(false)]
    fn find_peer_index(&self, node_id: &NodeId) -> (r: Option<usize>)
        requires
            self.wf(),
        ensures
            r is Some <==> has_key(self.peers_spec(), *node_id),
            r matches Some(ix) ==> 0 <= ix < self.peers_spec().len()
                && self.peers_spec()[ix as int].0 == *node_id
                && ix as int == key_index(self.peers_spec(), *node_id),
    {
        let n = self.peer_costs.len();
        let mut i: usize = 0;
        while i < n
            invariant
                0 <= i <= n == self.peers_spec().len(),
                forall|j: int| 0 <= j < i ==> self.peers_spec()[j].0 != *node_id,
            decreases n - i,
        {
            if self.peer_costs[i].0 == *node_id {
                proof {
                    assert(self.peers_spec()[i as int].0 == *node_id);
                    assert(has_key(self.peers_spec(), *node_id));
                    let w = key_index(self.peers_spec(), *node_id);
                    assert(0 <= w < self.peers_spec().len() && self.peers_spec()[w].0 == *node_id);
                    if w != i as int {
                        let ii = if w < i as int { w } else { i as int };
                        let jj = if w < i as int { i as int } else { w };
                        assert(self.peers_spec()[ii].0 != self.peers_spec()[jj].0);
                    }
                }
                return Some(i);
            }
            i = i + 1;
        }
        None
    }

    /// Store a peer's reported cost, replacing any previous entry for that
    /// peer. Entries never expire on their own; callers must treat stale
    /// timestamps as untrustworthy.
    pub fn update_peer_cost(&mut self, node_id: NodeId, cost: NodeCost)
        requires
            old(self).wf(),
        ensures
            final(self).wf(),
            final(self).peers_spec() == upsert(old(self).peers_spec(), node_id, cost),
            final(self).weights_spec() == old(self).weights_spec(),
            final(self).metrics_spec() == old(self).metrics_spec(),
    {
        let found = self.find_peer_index(&node_id);
        match found {
            Some(ix) => {
                let ghost old_peers = self.peers_spec();
                self.peer_costs.remove(ix);
                self.peer_costs.insert(ix, (node_id, cost));
                proof {
                    assert(self.peers_spec() =~= old_peers.update(ix as int, (node_id, cost)));
                    assert forall|i: int, j: int| 0 <= i < j < self.peers_spec().len() implies
                        self.peers_spec()[i].0 != self.peers_spec()[j].0 by {
                        assert(old_peers[i].0 != old_peers[j].0);
                    }
                }
            },
            None => {
                let ghost old_peers = self.peers_spec();
                self.peer_costs.push((node_id, cost));
                proof {
                    assert(self.peers_spec() =~= old_peers.push((node_id, cost)));
                    assert forall|i: int, j: int| 0 <= i < j < self.peers_spec().len() implies
                        self.peers_spec()[i].0 != self.peers_spec()[j].0 by {
                        if j < self.peers_spec().len() - 1 {
                            assert(old_peers[i].0 != old_peers[j].0);
                        } else {
                            assert(self.peers_spec()[i] == old_peers[i]);
                            assert(!has_key(old_peers, node_id));
                        }
                    }
                }
            },
        }
    }

    /// The cached cost of a peer, if any.
    pub fn get_peer_cost(&self, node_id: &NodeId) -> (r: Option<NodeCost>)
        requires
            self.wf(),
        ensures
            r == if has_key(self.peers_spec(), *node_id) {
                Some(key_value(self.peers_spec(), *node_id))
            } else {
                None::<NodeCost>
            },
    {
        let found = self.find_peer_index(node_id);
        match found {
            Some(ix) => Some(self.peer_costs[ix].1),
            None => None,
        }
    }

    /// Drop the cached cost of a peer, if any.
    pub fn remove_peer_cost(&mut self, node_id: &NodeId)
        requires
            old(self).wf(),
        ensures
            final(self).wf(),
            final(self).peers_spec() == remove_key(old(self).peers_spec(), *node_id),
            final(self).weights_spec() == old(self).weights_spec(),
            final(self).metrics_spec() == old(self).metrics_spec(),
    {
        let found = self.find_peer_index(node_id);
        match found {
            Some(ix) => {
                let ghost old_peers = self.peers_spec();
                self.peer_costs.remove(ix);
                proof {
                    assert(self.peers_spec() =~= old_peers.remove(ix as int));
                    assert forall|i: int, j: int| 0 <= i < j < self.peers_spec().len() implies
                        self.peers_spec()[i].0 != self.peers_spec()[j].0 by {
                        let i0 = if i < ix as int { i } else { i + 1 };
                        let j0 = if j < ix as int { j } else { j + 1 };
                        assert(old_peers[i0].0 != old_peers[j0].0);
                    }
                }
            },
            None => {},
        }
    }

    /// All cached peer costs, in ascending order of total cost. Entries of
    /// equal cost keep their insertion order, first-seen first.
    #[verifier::loop_isolation(false)]
    pub fn get_sorted_peer_costs(&self) -> (r: Vec<(NodeId, NodeCost)>)
        requires
            self.wf(),
        ensures
            sorted_by_cost(r@),
            r@.to_multiset() == self.peers_spec().to_multiset(),
            r@.len() == self.peers_spec().len(),
    {
        broadcast use vstd::seq_lib::group_to_multiset_ensures;

        let mut r: Vec<(NodeId, NodeCost)> = Vec::new();
        let mut i: usize = 0;
        let n = self.peer_costs.len();
        while i < n
            invariant
                0 <= i <= n,
                sorted_by_cost(r@),
                r@.to_multiset() == self.peers_spec().take(i as int).to_multiset(),
                r@.len() == i,
            decreases n - i,
        {
            let entry = self.peer_costs[i];
            let mut k: usize = 0;
            let m = r.len();
            while k < m
                invariant
                    0 <= k <= m == r@.len(),
                    forall|j: int| 0 <= j < k ==> r@[j].1.total_cost <= entry.1.total_cost,
                decreases m - k,
            {
                if r[k].1.total_cost > entry.1.total_cost {
                    break;
                }
                k = k + 1;
            }
            let ghost r0 = r@;
            r.insert(k, entry);
            proof {
                assert(r@ =~= r0.take(k as int).push(entry) + r0.skip(k as int));
                assert forall|a: int, b: int| 0 <= a <= b < r@.len() implies
                    r@[a].1.total_cost <= r@[b].1.total_cost by {
                    assert(forall|j: int| 0 <= j < r0.len() ==> r@[if j < k as int { j } else { j + 1 }] == r0[j]);
                }
                vstd::seq_lib::lemma_multiset_commutative(r0.take(k as int).push(entry), r0.skip(k as int));
                vstd::seq_lib::lemma_multiset_commutative(r0.take(k as int), r0.skip(k as int));
                assert(r0.take(k as int) + r0.skip(k as int) =~= r0);
                assert(r0.take(k as int).push(entry) =~= r0.take(k as int) + seq![entry]);
                vstd::seq_lib::lemma_multiset_commutative(r0.take(k as int), seq![entry]);
                assert(seq![entry].to_multiset() =~= Multiset::empty().insert(entry));
                assert(self.peers_spec().take(i + 1).drop_last() =~= self.peers_spec().take(i as int));
                assert(self.peers_spec().take(i + 1) =~= self.peers_spec().take(i as int).push(entry));
                assert(self.peers_spec().take(i as int).push(entry) =~= self.peers_spec().take(i as int) + seq![entry]);
                vstd::seq_lib::lemma_multiset_commutative(self.peers_spec().take(i as int), seq![entry]);
                assert(r@.to_multiset() =~= self.peers_spec().take(i + 1).to_multiset());
            }
            i = i + 1;
        }
        proof {
            assert(self.peers_spec().take(n as int) =~= self.peers_spec());
        }
        r
    }

    /// The peer with the lowest cached total cost, if the cache is
    /// non-empty; ties are broken by insertion order, first-seen first.
    #[verifier::loop_isolation(false)]
    pub fn find_lowest_cost_peer(&self) -> (r: Option<NodeId>)
        requires
            self.wf(),
        ensures
            r is Some <==> self.peers_spec().len() > 0,
            r matches Some(id) ==> exists|i: int|
                is_first_min(self.peers_spec(), i) && id == #[trigger] self.peers_spec()[i].0,
    {
        let n = self.peer_costs.len();
        if n == 0 {
            return None;
        }
        let mut best: usize = 0;
        let mut i: usize = 1;
        while i < n
            invariant
                0 <= best < i <= n,
                forall|j: int| 0 <= j < i ==> self.peers_spec()[best as int].1.total_cost
                    <= #[trigger] self.peers_spec()[j].1.total_cost,
                forall|j: int| 0 <= j < best ==> #[trigger] self.peers_spec()[j].1.total_cost
                    > self.peers_spec()[best as int].1.total_cost,
            decreases n - i,
        {
            if self.peer_costs[i].1.total_cost < self.peer_costs[best].1.total_cost {
                best = i;
            }
            i = i + 1;
        }
        proof {
            assert(is_first_min(self.peers_spec(), best as int));
        }
        Some(self.peer_costs[best].0)
    }
}

/// Law: on battery power, a lower battery percentage never yields a lower
/// battery cost — except across the 20% threshold, where the piecewise
/// formula dips: between a percentage at or below 20 and one strictly
/// between 20 and 25, the order reverses, so those pairs are left out.
pub proof fn lemma_battery_cost_monotone(p1: u32, p2: u32)
    requires
        p1 <= p2,
        !(10 < p1 && p1 <= 20 && 20 < p2 && p2 < 25),
    ensures
        spec_battery_cost(true, Some(p1)) >= spec_battery_cost(true, Some(p2)),
{
}

/// Law: for a fixed total, less available memory — a higher usage ratio —
/// never yields a lower memory cost.
pub proof fn lemma_memory_cost_monotone(a1: u64, a2: u64, total: u64)
    requires
        a1 <= a2,
    ensures
        spec_memory_cost(a1, total) >= spec_memory_cost(a2, total),
{
    if total != 0 {
        vstd::arithmetic::mul::lemma_mul_inequality(a1 as int, a2 as int, COST_SCALE as int);
        vstd::arithmetic::div_mod::lemma_div_is_ordered(
            (a1 as int) * (COST_SCALE as int),
            (a2 as int) * (COST_SCALE as int),
            total as int,
        );
        vstd::arithmetic::mul::lemma_mul_nonnegative(a1 as int, COST_SCALE as int);
        vstd::arithmetic::div_mod::lemma_div_pos_is_pos((a1 as int) * (COST_SCALE as int), total as int);
    }
}

} // verus!
