//! Intent router.
//!
//! Routes intents — high-level requests for a capability — to capable
//! nodes based on capability matching and cost, and tracks the lifecycle
//! of each submitted intent.

use vstd::prelude::*;
use crate::capability::{filter_avail, peers_with, CapabilityRegistry, CapabilityView};
use crate::clock::now_ms;
use crate::cost::{spec_local_cost, CostCollector, NodeCost, COST_SCALE};
use crate::error::AtmosphereError;
use crate::metrics::PlatformMetrics;
use crate::node::NodeId;
use crate::util::{clone_string_pairs, fresh_uuid, has_key, key_value};

verus! {

use vstd::string::StringExecFns;

/// Abstract value of an intent.
#[verifier::ext_equal]
pub ghost struct IntentView {
    pub id: u128,
    pub capability_type: Seq<char>,
    pub action: Seq<char>,
    pub params: Seq<(Seq<char>, Seq<char>)>,
    pub priority: u8,
    pub max_cost: u64,
    pub prefer_local: bool,
    pub created_at_ms: u64,
    pub timeout_ms: u64,
}

/// An intent to be routed to a capable node. Immutable once submitted: the
/// router tracks its own copy.
#[derive(Debug)]
pub struct Intent {
    /// Unique identifier for this intent (a UUID value).
    pub id: u128,
    /// Required capability type.
    pub capability_type: String,
    /// Action to perform.
    pub action: String,
    /// Parameters for the action, as key-value pairs.
    pub params: Vec<(String, String)>,
    /// Priority; higher is more urgent.
    pub priority: u8,
    /// Maximum cost willing to pay, in ten-thousandths of full scale.
    pub max_cost: u64,
    /// Prefer local execution if available.
    pub prefer_local: bool,
    /// Creation timestamp, milliseconds since the epoch.
    pub created_at_ms: u64,
    /// Timeout in milliseconds.
    pub timeout_ms: u64,
}

impl View for Intent {
    type V = IntentView;

    open spec fn view(&self) -> IntentView {
        IntentView {
            id: self.id,
            capability_type: self.capability_type@,
            action: self.action@,
            params: self.params.deep_view(),
            priority: self.priority,
            max_cost: self.max_cost,
            prefer_local: self.prefer_local,
            created_at_ms: self.created_at_ms,
            timeout_ms: self.timeout_ms,
        }
    }
}

impl Clone for Intent {
    /// An identical copy of the intent.
    fn clone(&self) -> (r: Self)
        ensures
            r@ == self@,
    {
        let r = Intent {
            id: self.id,
            capability_type: self.capability_type.clone(),
            action: self.action.clone(),
            params: clone_string_pairs(&self.params),
            priority: self.priority,
            max_cost: self.max_cost,
            prefer_local: self.prefer_local,
            created_at_ms: self.created_at_ms,
            timeout_ms: self.timeout_ms,
        };
        proof {
            assert(r@ =~= self@);
        }
        r
    }
}

impl Intent {
    /// Create a new intent for the given capability type and action, with
    /// a fresh random id, priority 5, the full cost budget, local execution
    /// preferred, a 30 s timeout, and the current time as creation stamp.
    pub fn new(capability_type: &str, action: &str) -> (r: Self)
        ensures
            r@.capability_type == capability_type@,
            r@.action == action@,
            r@.params == Seq::<(Seq<char>, Seq<char>)>::empty(),
            r@.priority == 5,
            r@.max_cost == COST_SCALE,
            r@.prefer_local,
            r@.timeout_ms == 30000,
    {
        let now = now_ms();
        let r = Intent {
            id: fresh_uuid(),
            capability_type: capability_type.to_owned(),
            action: action.to_owned(),
            params: Vec::new(),
            priority: 5,
            max_cost: COST_SCALE,
            prefer_local: true,
            created_at_ms: now,
            timeout_ms: 30000,
        };
        proof {
            assert(r.params.deep_view() =~= Seq::<(Seq<char>, Seq<char>)>::empty());
        }
        r
    }

    /// Add a parameter.
    pub fn with_param(self, key: &str, value: &str) -> (r: Self)
        ensures
            r@ == (IntentView { params: self@.params.push((key@, value@)), ..self@ }),
    {
        let ghost old_self = self@;
        let Intent {
            id, capability_type, action, mut params, priority, max_cost, prefer_local,
            created_at_ms, timeout_ms,
        } = self;
        params.push((key.to_owned(), value.to_owned()));
        let r = Intent {
            id, capability_type, action, params, priority, max_cost, prefer_local,
            created_at_ms, timeout_ms,
        };
        proof {
            assert(r.params.deep_view() =~= old_self.params.push((key@, value@)));
            assert(r@ =~= (IntentView { params: old_self.params.push((key@, value@)), ..old_self }));
        }
        r
    }

    /// Set the priority.
    pub fn with_priority(self, priority: u8) -> (r: Self)
        ensures
            r@ == (IntentView { priority, ..self@ }),
    {
        let r = Intent { priority, ..self };
        proof {
            assert(r@ =~= (IntentView { priority, ..self@ }));
        }
        r
    }

    /// Set the maximum cost, in ten-thousandths of full scale.
    pub fn with_max_cost(self, max_cost: u64) -> (r: Self)
        ensures
            r@ == (IntentView { max_cost, ..self@ }),
    {
        let r = Intent { max_cost, ..self };
        proof {
            assert(r@ =~= (IntentView { max_cost, ..self@ }));
        }
        r
    }

    /// Prefer remote execution.
    pub fn prefer_remote(self) -> (r: Self)
        ensures
            r@ == (IntentView { prefer_local: false, ..self@ }),
    {
        let r = Intent { prefer_local: false, ..self };
        proof {
            assert(r@ =~= (IntentView { prefer_local: false, ..self@ }));
        }
        r
    }

    /// Set the timeout.
    pub fn with_timeout_ms(self, timeout_ms: u64) -> (r: Self)
        ensures
            r@ == (IntentView { timeout_ms, ..self@ }),
    {
        let r = Intent { timeout_ms, ..self };
        proof {
            assert(r@ =~= (IntentView { timeout_ms, ..self@ }));
        }
        r
    }
}

/// Abstract value of an intent status.
#[verifier::ext_equal]
pub ghost enum StatusView {
    Pending,
    Routed { target: NodeId },
    Executing { target: NodeId },
    Completed { target: NodeId },
    Failed { reason: Seq<char> },
    TimedOut,
    Cancelled,
}

/// Status of a tracked intent. Transitions are one-directional:
/// Pending -> Routed -> Executing -> Completed, with Failed, TimedOut and
/// Cancelled reachable as terminal exits from any non-terminal state.
#[derive(Debug, PartialEq, Eq)]
pub enum IntentStatus {
    /// Waiting to be routed.
    Pending,
    /// Routed to a node, awaiting execution.
    Routed { target: NodeId },
    /// Currently executing.
    Executing { target: NodeId },
    /// Successfully completed.
    Completed { target: NodeId },
    /// Failed to execute.
    Failed { reason: String },
    /// Timed out.
    TimedOut,
    /// Cancelled by the caller.
    Cancelled,
}

impl View for IntentStatus {
    type V = StatusView;

    open spec fn view(&self) -> StatusView {
        match self {
            IntentStatus::Pending => StatusView::Pending,
            IntentStatus::Routed { target } => StatusView::Routed { target: *target },
            IntentStatus::Executing { target } => StatusView::Executing { target: *target },
            IntentStatus::Completed { target } => StatusView::Completed { target: *target },
            IntentStatus::Failed { reason } => StatusView::Failed { reason: reason@ },
            IntentStatus::TimedOut => StatusView::TimedOut,
            IntentStatus::Cancelled => StatusView::Cancelled,
        }
    }
}

impl Clone for IntentStatus {
    /// An identical copy of the status.
    fn clone(&self) -> (r: Self)
        ensures
            r@ == self@,
    {
        match self {
            IntentStatus::Pending => IntentStatus::Pending,
            IntentStatus::Routed { target } => IntentStatus::Routed { target: *target },
            IntentStatus::Executing { target } => IntentStatus::Executing { target: *target },
            IntentStatus::Completed { target } => IntentStatus::Completed { target: *target },
            IntentStatus::Failed { reason } => IntentStatus::Failed { reason: reason.clone() },
            IntentStatus::TimedOut => IntentStatus::TimedOut,
            IntentStatus::Cancelled => IntentStatus::Cancelled,
        }
    }
}

/// A status counts as active while the intent still awaits work.
pub open spec fn is_active(st: StatusView) -> bool {
    match st {
        StatusView::Pending => true,
        StatusView::Routed { .. } => true,
        StatusView::Executing { .. } => true,
        _ => false,
    }
}

/// A status is terminal once no further transition will happen.
pub open spec fn is_terminal(st: StatusView) -> bool {
    match st {
        StatusView::Completed { .. } => true,
        StatusView::Failed { .. } => true,
        StatusView::TimedOut => true,
        StatusView::Cancelled => true,
        _ => false,
    }
}

/// The target a routed or executing status names, if any.
pub open spec fn status_target(st: StatusView) -> Option<NodeId> {
    match st {
        StatusView::Routed { target } => Some(target),
        StatusView::Executing { target } => Some(target),
        _ => None,
    }
}

/// Result of a successful route: which node, at what effective cost, with
/// which capability instance.
#[derive(Debug, Clone, Copy, PartialEq, Eq, Structural)]
pub struct RoutingDecision {
    /// Chosen target node.
    pub target: NodeId,
    /// Whether the target is the local node.
    pub is_local: bool,
    /// Effective cost of execution on the target, in ten-thousandths.
    pub cost: u64,
    /// Capability id on the target.
    pub capability_id: u128,
}

/// Abstract value of a tracked intent.
#[verifier::ext_equal]
pub ghost struct TrackedView {
    pub intent: IntentView,
    pub status: StatusView,
    pub result: Option<Seq<char>>,
}

/// A tracked intent with its status and, once completed, its result.
#[derive(Debug)]
struct TrackedIntent {
    intent: Intent,
    status: IntentStatus,
    result: Option<String>,
}

impl View for TrackedIntent {
    type V = TrackedView;

    closed spec fn view(&self) -> TrackedView {
        TrackedView {
            intent: self.intent@,
            status: self.status@,
            result: match self.result {
                Some(ref s) => Some(s@),
                None => None,
            },
        }
    }
}

impl DeepView for TrackedIntent {
    type V = TrackedView;

    closed spec fn deep_view(&self) -> TrackedView {
        self.view()
    }
}

/// Whether some tracked intent in `s` carries the id `id`.
pub open spec fn has_intent(s: Seq<TrackedView>, id: u128) -> bool {
    exists|i: int| 0 <= i < s.len() && s[i].intent.id == id
}

/// The index of the tracked intent with id `id`; meaningful when
/// `has_intent` holds and ids are unique.
pub open spec fn intent_index(s: Seq<TrackedView>, id: u128) -> int {
    choose|i: int| 0 <= i < s.len() && s[i].intent.id == id
}

/// All tracked intent ids in `s` are distinct.
pub open spec fn unique_intent_ids(s: Seq<TrackedView>) -> bool {
    forall|i: int, j: int| 0 <= i < j < s.len() ==> s[i].intent.id != s[j].intent.id
}

/// `s` with `iv` registered as a fresh Pending entry: replaced in place if
/// its id is present, appended otherwise.
pub open spec fn spec_track(s: Seq<TrackedView>, iv: IntentView) -> Seq<TrackedView> {
    let entry = TrackedView { intent: iv, status: StatusView::Pending, result: None };
    if has_intent(s, iv.id) {
        s.update(intent_index(s, iv.id), entry)
    } else {
        s.push(entry)
    }
}

/// `s` with the status of intent `id` set to `st`, if the id is present.
pub open spec fn spec_set_status(s: Seq<TrackedView>, id: u128, st: StatusView) -> Seq<TrackedView> {
    if has_intent(s, id) {
        let i = intent_index(s, id);
        s.update(i, TrackedView { status: st, ..s[i] })
    } else {
        s
    }
}

/// `s` with intent `id` completed: status `Completed { target }` and the
/// result recorded.
pub open spec fn spec_set_completed(
    s: Seq<TrackedView>,
    id: u128,
    target: NodeId,
    result: Seq<char>,
) -> Seq<TrackedView> {
    if has_intent(s, id) {
        let i = intent_index(s, id);
        s.update(i, TrackedView {
            status: StatusView::Completed { target },
            result: Some(result),
            ..s[i]
        })
    } else {
        s
    }
}

/// The number of active (Pending, Routed or Executing) intents in `s`.
pub open spec fn spec_active_count(s: Seq<TrackedView>) -> int
    decreases s.len(),
{
    if s.len() == 0 {
        0
    } else {
        spec_active_count(s.drop_last()) + if is_active(s.last().status) { 1int } else { 0int }
    }
}

/// `a - b`, saturating at zero.
pub open spec fn sat_sub(a: u64, b: u64) -> u64 {
    if a >= b {
        (a - b) as u64
    } else {
        0
    }
}

/// Whether a cleanup at time `now` keeps a tracked intent: non-terminal
/// intents always stay; terminal ones stay while younger than `max_age`.
pub open spec fn spec_keeps(t: TrackedView, now: u64, max_age: u64) -> bool {
    !is_terminal(t.status) || sat_sub(now, t.intent.created_at_ms) < max_age
}

/// The tracked intents of `s` that a cleanup at time `now` keeps, in order.
pub open spec fn spec_cleanup(s: Seq<TrackedView>, now: u64, max_age: u64) -> Seq<TrackedView>
    decreases s.len(),
{
    if s.len() == 0 {
        Seq::empty()
    } else {
        let pre = spec_cleanup(s.drop_last(), now, max_age);
        if spec_keeps(s.last(), now, max_age) {
            pre.push(s.last())
        } else {
            pre
        }
    }
}

/// Cleanup keeps ids unique and introduces none.
proof fn lemma_cleanup_unique(s: Seq<TrackedView>, now: u64, max_age: u64)
    requires
        unique_intent_ids(s),
    ensures
        unique_intent_ids(spec_cleanup(s, now, max_age)),
        forall|id: u128| has_intent(spec_cleanup(s, now, max_age), id) ==> has_intent(s, id),
    decreases s.len(),
{
    if s.len() > 0 {
        assert(unique_intent_ids(s.drop_last())) by {
            assert forall|i: int, j: int| 0 <= i < j < s.drop_last().len() implies
                s.drop_last()[i].intent.id != s.drop_last()[j].intent.id by {
                assert(s[i].intent.id != s[j].intent.id);
            }
        }
        lemma_cleanup_unique(s.drop_last(), now, max_age);
        let pre = spec_cleanup(s.drop_last(), now, max_age);
        assert forall|id: u128| has_intent(spec_cleanup(s, now, max_age), id) implies has_intent(s, id) by {
            let c = spec_cleanup(s, now, max_age);
            let w = choose|i: int| 0 <= i < c.len() && c[i].intent.id == id;
            if w < pre.len() {
                assert(c[w] == pre[w]);
                assert(pre[w].intent.id == id);
                assert(has_intent(pre, id));
                assert(has_intent(s.drop_last(), id));
                let v = choose|i: int| 0 <= i < s.drop_last().len() && s.drop_last()[i].intent.id == id;
                assert(s.drop_last()[v] == s[v]);
                assert(s[v].intent.id == id);
            } else {
                assert(c[w] == s.last());
                assert(s[s.len() - 1].intent.id == id);
            }
        }
        if spec_keeps(s.last(), now, max_age) {
            assert forall|i: int, j: int|
                0 <= i < j < spec_cleanup(s, now, max_age).len() implies
                spec_cleanup(s, now, max_age)[i].intent.id
                    != spec_cleanup(s, now, max_age)[j].intent.id by {
                let c = spec_cleanup(s, now, max_age);
                if j < pre.len() {
                } else {
                    assert(c[j] == s.last());
                    assert(has_intent(pre, c[i].intent.id)) by {
                        assert(pre[i].intent.id == c[i].intent.id);
                    }
                    assert(has_intent(s.drop_last(), c[i].intent.id));
                    let v = choose|k: int| 0 <= k < s.drop_last().len()
                        && s.drop_last()[k].intent.id == c[i].intent.id;
                    assert(s[v].intent.id != s[s.len() - 1].intent.id);
                }
            }
        }
    }
}

/// The base cost a candidate peer is assumed to run at: its cached total
/// cost, or the neutral half scale if none is cached.
pub open spec fn spec_base_cost(peers: Seq<(NodeId, NodeCost)>, peer: NodeId) -> u64 {
    if has_key(peers, peer) {
        key_value(peers, peer).total_cost
    } else {
        5000
    }
}

/// `base * weight`, scaled back down by `COST_SCALE` and saturating at the
/// machine limit.
pub open spec fn spec_scaled_cost(base: u64, weight: u64) -> u64 {
    let s = (base as int) * (weight as int) / (COST_SCALE as int);
    if s > u64::MAX as int {
        u64::MAX
    } else {
        s as u64
    }
}

/// The effective cost of routing to remote candidate `j` of `cands`.
pub open spec fn candidate_cost(
    peers: Seq<(NodeId, NodeCost)>,
    cands: Seq<(NodeId, CapabilityView)>,
    j: int,
) -> u64 {
    spec_scaled_cost(spec_base_cost(peers, cands[j].0), cands[j].1.cost_weight)
}

/// Index `i` holds the first candidate within budget of minimal effective
/// cost: ties are broken by candidate order, first-seen first.
pub open spec fn is_best_candidate(
    peers: Seq<(NodeId, NodeCost)>,
    cands: Seq<(NodeId, CapabilityView)>,
    max_cost: u64,
    i: int,
) -> bool {
    &&& 0 <= i < cands.len()
    &&& candidate_cost(peers, cands, i) <= max_cost
    &&& forall|j: int| 0 <= j < cands.len() && #[trigger] candidate_cost(peers, cands, j) <= max_cost
        ==> candidate_cost(peers, cands, i) <= candidate_cost(peers, cands, j)
    &&& forall|j: int| 0 <= j < i && #[trigger] candidate_cost(peers, cands, j) <= max_cost
        ==> candidate_cost(peers, cands, j) > candidate_cost(peers, cands, i)
}

/// No candidate of `cands` is within the budget.
pub open spec fn no_candidate_in_budget(
    peers: Seq<(NodeId, NodeCost)>,
    cands: Seq<(NodeId, CapabilityView)>,
    max_cost: u64,
) -> bool {
    forall|j: int| 0 <= j < cands.len() ==> #[trigger] candidate_cost(peers, cands, j) > max_cost
}

/// Whether `r` is a success carrying exactly the decision `d`.
pub open spec fn is_ok_with(r: Result<RoutingDecision, AtmosphereError>, d: RoutingDecision) -> bool {
    match r {
        Ok(x) => x == d,
        Err(_) => false,
    }
}

/// Whether `r` is a no-capable-peer error naming the capability type `t`.
pub open spec fn is_err_no_capable_peer(
    r: Result<RoutingDecision, AtmosphereError>,
    t: Seq<char>,
) -> bool {
    match r {
        Ok(_) => false,
        Err(e) => match e {
            AtmosphereError::NoCapablePeer(m) => m@ == t,
            _ => false,
        },
    }
}

/// Whether `r` is a not-initialized error.
pub open spec fn is_err_not_initialized(r: Result<RoutingDecision, AtmosphereError>) -> bool {
    match r {
        Ok(_) => false,
        Err(e) => e is NotInitialized,
    }
}

/// Routes intents to capable nodes and tracks their lifecycle.
///
/// Owns the capability registry and the cost collector it consults; the
/// node that owns the router reaches them through it.
#[derive(Debug)]
pub struct IntentRouter<M: PlatformMetrics> {
    /// Capability registry.
    capabilities: CapabilityRegistry,
    /// Cost collector.
    cost_collector: CostCollector<M>,
    /// Tracked intents, in tracking order, ids unique.
    active_intents: Vec<TrackedIntent>,
    /// The local node id; must be set before local routing decisions can
    /// be stamped.
    local_node_id: Option<NodeId>,
}

/// What a routing call leaves behind and returns, as a relation between
/// the router state before (`pre`) and after (`post`), the intent `iv`,
/// and the returned value `r`. The decision procedure, in order:
///
/// 1. The intent is tracked as Pending.
/// 2. Fast path: with a matching local capability, local preference set
///    and the fresh local total cost within budget, the intent is routed
///    locally at that cost, to the first matching capability.
/// 3. With no matching capability anywhere, routing fails: no capable node.
/// 4. Among remote candidates within budget, the first of minimal
///    effective cost (cached peer cost, or half scale if unknown, times
///    the capability's cost weight) wins.
/// 5. With no remote candidate in budget but a local capability, the
///    intent falls back to local execution with no budget check.
/// 6. Otherwise routing fails: no peer within the cost budget.
///
/// A local decision needs the local node id: if it is unset, routing
/// fails with a not-initialized error instead of fabricating an id.
pub open spec fn route_post<M: PlatformMetrics>(
    pre: IntentRouter<M>,
    post: IntentRouter<M>,
    iv: IntentView,
    r: Result<RoutingDecision, AtmosphereError>,
) -> bool {
    let locals = filter_avail(pre.registry_spec()@.local, iv.capability_type);
    let cands = peers_with(pre.registry_spec()@.remote, iv.capability_type);
    let peers = pre.collector_spec().peers_spec();
    let lc = spec_local_cost(
        pre.collector_spec().metrics_spec(),
        pre.collector_spec().weights_spec(),
    ).total_cost;
    let table = spec_track(pre.intents_spec(), iv);
    let fast = locals.len() > 0 && iv.prefer_local && lc <= iv.max_cost;
    let none_at_all = locals.len() == 0 && cands.len() == 0;
    let no_qual = no_candidate_in_budget(peers, cands, iv.max_cost);
    &&& post.registry_spec() == pre.registry_spec()
    &&& post.collector_spec() == pre.collector_spec()
    &&& post.local_node_id_spec() == pre.local_node_id_spec()
    &&& (fast ==> local_route_post(pre, post, iv, r, locals, lc, table))
    &&& (!fast && none_at_all ==> {
        &&& is_err_no_capable_peer(r, iv.capability_type)
        &&& post.intents_spec() == spec_set_status(table, iv.id, StatusView::Failed {
            reason: "No capable node found for: "@ + iv.capability_type,
        })
    })
    &&& (!fast && !none_at_all && !no_qual ==> exists|i: int|
        #[trigger] is_best_candidate(peers, cands, iv.max_cost, i)
        && is_ok_with(r, RoutingDecision {
            target: cands[i].0,
            is_local: false,
            cost: candidate_cost(peers, cands, i),
            capability_id: cands[i].1.id,
        })
        && post.intents_spec() == spec_set_status(table, iv.id, StatusView::Routed {
            target: cands[i].0,
        }))
    &&& (!fast && !none_at_all && no_qual && locals.len() > 0
        ==> local_route_post(pre, post, iv, r, locals, lc, table))
    &&& (!fast && !none_at_all && no_qual && locals.len() == 0 ==> {
        &&& is_err_no_capable_peer(r, iv.capability_type)
        &&& post.intents_spec() == spec_set_status(table, iv.id, StatusView::Failed {
            reason: "No peer within cost budget"@,
        })
    })
}

/// A routing call that ends in a local decision: with the local node id
/// set, success at the fresh local cost `lc` on the first matching local
/// capability; with it unset, a not-initialized failure.
pub open spec fn local_route_post<M: PlatformMetrics>(
    pre: IntentRouter<M>,
    post: IntentRouter<M>,
    iv: IntentView,
    r: Result<RoutingDecision, AtmosphereError>,
    locals: Seq<CapabilityView>,
    lc: u64,
    table: Seq<TrackedView>,
) -> bool {
    match pre.local_node_id_spec() {
        Some(lid) => {
            &&& is_ok_with(r, RoutingDecision {
                target: lid,
                is_local: true,
                cost: lc,
                capability_id: locals[0].id,
            })
            &&& post.intents_spec() == spec_set_status(table, iv.id, StatusView::Routed {
                target: lid,
            })
        },
        None => {
            &&& is_err_not_initialized(r)
            &&& post.intents_spec() == spec_set_status(table, iv.id, StatusView::Failed {
                reason: "local node id not set"@,
            })
        },
    }
}

impl<M: PlatformMetrics> IntentRouter<M> {
    /// The capability registry the router consults.
    pub closed spec fn registry_spec(&self) -> CapabilityRegistry {
        self.capabilities
    }

    /// The cost collector the router consults.
    pub closed spec fn collector_spec(&self) -> CostCollector<M> {
        self.cost_collector
    }

    /// The tracked intents, in tracking order.
    pub closed spec fn intents_spec(&self) -> Seq<TrackedView> {
        self.active_intents.deep_view()
    }

    /// The local node id, if set.
    pub closed spec fn local_node_id_spec(&self) -> Option<NodeId> {
        self.local_node_id
    }

    /// Well-formedness: the registry and collector are well formed and
    /// tracked intent ids are distinct.
    pub open spec fn wf(&self) -> bool {
        &&& self.registry_spec().wf()
        &&& self.collector_spec().wf()
        &&& unique_intent_ids(self.intents_spec())
    }

    /// Create a new intent router over the given registry and collector.
    pub fn new(capabilities: CapabilityRegistry, cost_collector: CostCollector<M>) -> (r: Self)
        requires
            capabilities.wf(),
            cost_collector.wf(),
        ensures
            r.wf(),
            r.registry_spec() == capabilities,
            r.collector_spec() == cost_collector,
            r.intents_spec() == Seq::<TrackedView>::empty(),
            r.local_node_id_spec() == None::<NodeId>,
    {
        let r = IntentRouter {
            capabilities,
            cost_collector,
            active_intents: Vec::new(),
            local_node_id: None,
        };
        proof {
            assert(r.intents_spec() =~= Seq::<TrackedView>::empty());
        }
        r
    }

    /// Borrow the capability registry.
    pub fn capabilities(&self) -> (r: &CapabilityRegistry)
        ensures
            *r == self.registry_spec(),
    {
        &self.capabilities
    }

    /// Borrow the capability registry for mutation.
    pub fn capabilities_mut(&mut self) -> (r: &mut CapabilityRegistry)
        ensures
            *r == old(self).registry_spec(),
            final(self).registry_spec() == *final(r),
            final(self).collector_spec() == old(self).collector_spec(),
            final(self).intents_spec() == old(self).intents_spec(),
            final(self).local_node_id_spec() == old(self).local_node_id_spec(),
    {
        &mut self.capabilities
    }

    /// Borrow the cost collector.
    pub fn cost_collector(&self) -> (r: &CostCollector<M>)
        ensures
            *r == self.collector_spec(),
    {
        &self.cost_collector
    }

    /// Borrow the cost collector for mutation.
    pub fn cost_collector_mut(&mut self) -> (r: &mut CostCollector<M>)
        ensures
            *r == old(self).collector_spec(),
            final(self).collector_spec() == *final(r),
            final(self).registry_spec() == old(self).registry_spec(),
            final(self).intents_spec() == old(self).intents_spec(),
            final(self).local_node_id_spec() == old(self).local_node_id_spec(),
    {
        &mut self.cost_collector
    }

    /// Set the local node id; required before routing can stamp local
    /// decisions.
    pub fn set_local_node_id(&mut self, node_id: NodeId)
        ensures
            final(self).local_node_id_spec() == Some(node_id),
            final(self).registry_spec() == old(self).registry_spec(),
            final(self).collector_spec() == old(self).collector_spec(),
            final(self).intents_spec() == old(self).intents_spec(),
    {
        self.local_node_id = Some(node_id);
    }

    /// Index of the tracked intent with the given id, if any.
    #[verifier::loop_isolation(false)]
    fn find_intent_index(&self, id: u128) -> (r: Option<usize>)
        requires
            unique_intent_ids(self.intents_spec()),
        ensures
            r is Some <==> has_intent(self.intents_spec(), id),
            r matches Some(ix) ==> 0 <= ix < self.intents_spec().len()
                && self.intents_spec()[ix as int].intent.id == id
                && ix as int == intent_index(self.intents_spec(), id),
    {
        let n = self.active_intents.len();
        let mut i: usize = 0;
        while i < n
            invariant
                0 <= i <= n == self.intents_spec().len(),
                forall|j: int| 0 <= j < i ==> self.intents_spec()[j].intent.id != id,
            decreases n - i,
        {
            if self.active_intents[i].intent.id == id {
                proof {
                    assert(self.intents_spec()[i as int].intent.id == id);
                    assert(has_intent(self.intents_spec(), id));
                    let w = intent_index(self.intents_spec(), id);
                    assert(0 <= w < self.intents_spec().len()
                        && self.intents_spec()[w].intent.id == id);
                    if w != i as int {
                        let ii = if w < i as int { w } else { i as int };
                        let jj = if w < i as int { i as int } else { w };
                        assert(self.intents_spec()[ii].intent.id != self.intents_spec()[jj].intent.id);
                    }
                }
                return Some(i);
            }
            i = i + 1;
        }
        None
    }

    /// Register an intent as Pending in the tracking table, without
    /// routing it; an entry already tracked under the same id is replaced.
    pub fn track(&mut self, intent: Intent)
        requires
            old(self).wf(),
        ensures
            final(self).wf(),
            final(self).intents_spec() == spec_track(old(self).intents_spec(), intent@),
            final(self).registry_spec() == old(self).registry_spec(),
            final(self).collector_spec() == old(self).collector_spec(),
            final(self).local_node_id_spec() == old(self).local_node_id_spec(),
    {
        let entry = TrackedIntent { intent, status: IntentStatus::Pending, result: None };
        let found = self.find_intent_index(entry.intent.id);
        match found {
            Some(ix) => {
                let ghost old_intents = self.intents_spec();
                self.active_intents.remove(ix);
                self.active_intents.insert(ix, entry);
                proof {
                    assert(self.intents_spec() =~= old_intents.update(ix as int, entry@));
                    assert forall|i: int, j: int| 0 <= i < j < self.intents_spec().len() implies
                        self.intents_spec()[i].intent.id != self.intents_spec()[j].intent.id by {
                        assert(old_intents[i].intent.id != old_intents[j].intent.id);
                    }
                }
            },
            None => {
                let ghost old_intents = self.intents_spec();
                self.active_intents.push(entry);
                proof {
                    assert(self.intents_spec() =~= old_intents.push(entry@));
                    assert forall|i: int, j: int| 0 <= i < j < self.intents_spec().len() implies
                        self.intents_spec()[i].intent.id != self.intents_spec()[j].intent.id by {
                        if j < self.intents_spec().len() - 1 {
                            assert(old_intents[i].intent.id != old_intents[j].intent.id);
                        } else {
                            assert(self.intents_spec()[i] == old_intents[i]);
                            assert(!has_intent(old_intents, entry@.intent.id));
                        }
                    }
                }
            },
        }
    }

    /// Set the status of a tracked intent; ignored if the id is unknown.
    fn update_status(&mut self, intent_id: u128, status: IntentStatus)
        requires
            old(self).wf(),
        ensures
            final(self).wf(),
            final(self).intents_spec()
                == spec_set_status(old(self).intents_spec(), intent_id, status@),
            final(self).registry_spec() == old(self).registry_spec(),
            final(self).collector_spec() == old(self).collector_spec(),
            final(self).local_node_id_spec() == old(self).local_node_id_spec(),
    {
        let found = self.find_intent_index(intent_id);
        match found {
            Some(ix) => {
                let ghost old_intents = self.intents_spec();
                let mut t = self.active_intents.remove(ix);
                t.status = status;
                self.active_intents.insert(ix, t);
                proof {
                    assert(self.intents_spec() =~= old_intents.update(
                        ix as int,
                        TrackedView { status: status@, ..old_intents[ix as int] },
                    ));
                    assert forall|i: int, j: int| 0 <= i < j < self.intents_spec().len() implies
                        self.intents_spec()[i].intent.id != self.intents_spec()[j].intent.id by {
                        assert(old_intents[i].intent.id != old_intents[j].intent.id);
                    }
                }
            },
            None => {},
        }
    }

    /// The effective cost of a remote candidate: its cached total cost, or
    /// half scale if unknown, times the capability's cost weight.
    fn effective_cost(&self, node_id: &NodeId, weight: u64) -> (r: u64)
        requires
            self.collector_spec().wf(),
        ensures
            r == spec_scaled_cost(
                spec_base_cost(self.collector_spec().peers_spec(), *node_id),
                weight,
            ),
    {
        let base: u64 = match self.cost_collector.get_peer_cost(node_id) {
            Some(pc) => pc.total_cost,
            None => 5000,
        };
        proof {
            vstd::arithmetic::mul::lemma_mul_upper_bound(
                base as int, u64::MAX as int, weight as int, u64::MAX as int);
        }
        let prod: u128 = (base as u128) * (weight as u128);
        let scaled: u128 = prod / (COST_SCALE as u128);
        if scaled > u64::MAX as u128 {
            u64::MAX
        } else {
            scaled as u64
        }
    }

    /// Route an intent to a capable node, as `route_post` describes:
    /// local-preference fast path, then cheapest remote candidate within
    /// budget, then local fallback without a budget check, else failure.
    /// On success the tracked status becomes Routed; on failure, Failed.
    #[verifier::loop_isolation(false)]
    pub fn route(&mut self, intent: Intent) -> (r: Result<RoutingDecision, AtmosphereError>)
        requires
            old(self).wf(),
        ensures
            final(self).wf(),
            route_post(*old(self), *final(self), intent@, r),
    {
        let intent_id = intent.id;
        let ghost iv = intent@;

        self.track(intent.clone());
        let ghost table = self.intents_spec();

        let local_caps = self.capabilities.find_local_by_type(intent.capability_type.as_str());
        let ghost locals = filter_avail(self.registry_spec()@.local, iv.capability_type);
        let ghost peers = self.collector_spec().peers_spec();

        if local_caps.len() > 0 && intent.prefer_local {
            let local_cost = self.cost_collector.calculate_local_cost();
            if local_cost.total_cost <= intent.max_cost {
                match self.local_node_id {
                    Some(lid) => {
                        self.update_status(intent_id, IntentStatus::Routed { target: lid });
                        return Ok(RoutingDecision {
                            target: lid,
                            is_local: true,
                            cost: local_cost.total_cost,
                            capability_id: local_caps[0].id,
                        });
                    },
                    None => {
                        self.update_status(intent_id, IntentStatus::Failed {
                            reason: "local node id not set".to_owned(),
                        });
                        return Err(AtmosphereError::NotInitialized);
                    },
                }
            }
        }

        let remote_caps = self.capabilities.find_peers_with_capability(intent.capability_type.as_str());
        let ghost cands = peers_with(self.registry_spec()@.remote, iv.capability_type);

        if remote_caps.len() == 0 && local_caps.len() == 0 {
            let mut reason = "No capable node found for: ".to_owned();
            reason.append(intent.capability_type.as_str());
            self.update_status(intent_id, IntentStatus::Failed { reason });
            return Err(AtmosphereError::NoCapablePeer(intent.capability_type.clone()));
        }

        let mut best: Option<(NodeId, u128, u64)> = None;
        let ghost mut best_idx: int = 0;
        let n = remote_caps.len();
        let mut k: usize = 0;
        while k < n
            invariant
                0 <= k <= n == cands.len(),
                remote_caps.deep_view() == cands,
                best is None ==> forall|j: int| 0 <= j < k
                    ==> #[trigger] candidate_cost(peers, cands, j) > intent.max_cost,
                best matches Some((bn, bc, bv)) ==> {
                    &&& 0 <= best_idx < k
                    &&& cands[best_idx].0 == bn
                    &&& cands[best_idx].1.id == bc
                    &&& candidate_cost(peers, cands, best_idx) == bv
                    &&& bv <= intent.max_cost
                    &&& forall|j: int| 0 <= j < k && #[trigger] candidate_cost(peers, cands, j)
                        <= intent.max_cost ==> bv <= candidate_cost(peers, cands, j)
                    &&& forall|j: int| 0 <= j < best_idx
                        && #[trigger] candidate_cost(peers, cands, j) <= intent.max_cost
                        ==> candidate_cost(peers, cands, j) > bv
                },
            decreases n - k,
        {
            let node_id = remote_caps[k].0;
            let weight = remote_caps[k].1.cost_weight;
            proof {
                assert(cands[k as int].0 == node_id);
                assert(cands[k as int].1.cost_weight == weight);
            }
            let cost = self.effective_cost(&node_id, weight);
            proof {
                assert(cost == candidate_cost(peers, cands, k as int));
            }
            if cost <= intent.max_cost {
                match best {
                    None => {
                        best = Some((node_id, remote_caps[k].1.id, cost));
                        proof {
                            best_idx = k as int;
                        }
                    },
                    Some((_, _, best_cost)) => {
                        if cost < best_cost {
                            best = Some((node_id, remote_caps[k].1.id, cost));
                            proof {
                                best_idx = k as int;
                            }
                        }
                    },
                }
            }
            k = k + 1;
        }

        if best.is_none() && local_caps.len() > 0 {
            let local_cost = self.cost_collector.calculate_local_cost();
            match self.local_node_id {
                Some(lid) => {
                    self.update_status(intent_id, IntentStatus::Routed { target: lid });
                    return Ok(RoutingDecision {
                        target: lid,
                        is_local: true,
                        cost: local_cost.total_cost,
                        capability_id: local_caps[0].id,
                    });
                },
                None => {
                    self.update_status(intent_id, IntentStatus::Failed {
                        reason: "local node id not set".to_owned(),
                    });
                    return Err(AtmosphereError::NotInitialized);
                },
            }
        }

        match best {
            Some((node_id, cap_id, cost)) => {
                proof {
                    assert(is_best_candidate(peers, cands, iv.max_cost, best_idx));
                }
                self.update_status(intent_id, IntentStatus::Routed { target: node_id });
                Ok(RoutingDecision {
                    target: node_id,
                    is_local: false,
                    cost,
                    capability_id: cap_id,
                })
            },
            None => {
                self.update_status(intent_id, IntentStatus::Failed {
                    reason: "No peer within cost budget".to_owned(),
                });
                Err(AtmosphereError::NoCapablePeer(intent.capability_type.clone()))
            },
        }
    }

    /// The status of a tracked intent, if known.
    pub fn get_status(&self, intent_id: u128) -> (r: Option<IntentStatus>)
        requires
            self.wf(),
        ensures
            r is Some <==> has_intent(self.intents_spec(), intent_id),
            r matches Some(st) ==> st@
                == self.intents_spec()[intent_index(self.intents_spec(), intent_id)].status,
    {
        let found = self.find_intent_index(intent_id);
        match found {
            Some(ix) => Some(self.active_intents[ix].status.clone()),
            None => None,
        }
    }

    /// Mark an intent as completed with a result. The recorded target is
    /// the one the intent was routed to or executing on; completing an
    /// intent in any other state records a fresh random target, as no
    /// meaningful one exists.
    pub fn complete(&mut self, intent_id: u128, result: String)
        requires
            old(self).wf(),
        ensures
            final(self).wf(),
            final(self).registry_spec() == old(self).registry_spec(),
            final(self).collector_spec() == old(self).collector_spec(),
            final(self).local_node_id_spec() == old(self).local_node_id_spec(),
            !has_intent(old(self).intents_spec(), intent_id)
                ==> final(self).intents_spec() == old(self).intents_spec(),
            has_intent(old(self).intents_spec(), intent_id) ==> {
                let st = old(self).intents_spec()[
                    intent_index(old(self).intents_spec(), intent_id)].status;
                match status_target(st) {
                    Some(t) => final(self).intents_spec()
                        == spec_set_completed(old(self).intents_spec(), intent_id, t, result@),
                    None => exists|t: NodeId| final(self).intents_spec()
                        == spec_set_completed(old(self).intents_spec(), intent_id, t, result@),
                }
            },
    {
        let found = self.find_intent_index(intent_id);
        match found {
            Some(ix) => {
                let ghost old_intents = self.intents_spec();
                let mut t = self.active_intents.remove(ix);
                let target = match &t.status {
                    IntentStatus::Routed { target } => *target,
                    IntentStatus::Executing { target } => *target,
                    _ => NodeId::new(),
                };
                t.status = IntentStatus::Completed { target };
                t.result = Some(result);
                self.active_intents.insert(ix, t);
                proof {
                    assert(self.intents_spec() =~= old_intents.update(
                        ix as int,
                        TrackedView {
                            status: StatusView::Completed { target },
                            result: Some(result@),
                            ..old_intents[ix as int]
                        },
                    ));
                    assert(self.intents_spec()
                        == spec_set_completed(old_intents, intent_id, target, result@));
                    assert forall|i: int, j: int| 0 <= i < j < self.intents_spec().len() implies
                        self.intents_spec()[i].intent.id != self.intents_spec()[j].intent.id by {
                        assert(old_intents[i].intent.id != old_intents[j].intent.id);
                    }
                }
            },
            None => {},
        }
    }

    /// Mark an intent as failed, with a reason.
    pub fn fail(&mut self, intent_id: u128, reason: String)
        requires
            old(self).wf(),
        ensures
            final(self).wf(),
            final(self).intents_spec() == spec_set_status(
                old(self).intents_spec(),
                intent_id,
                StatusView::Failed { reason: reason@ },
            ),
            final(self).registry_spec() == old(self).registry_spec(),
            final(self).collector_spec() == old(self).collector_spec(),
            final(self).local_node_id_spec() == old(self).local_node_id_spec(),
    {
        self.update_status(intent_id, IntentStatus::Failed { reason });
    }

    /// Cancel an intent.
    pub fn cancel(&mut self, intent_id: u128)
        requires
            old(self).wf(),
        ensures
            final(self).wf(),
            final(self).intents_spec() == spec_set_status(
                old(self).intents_spec(),
                intent_id,
                StatusView::Cancelled,
            ),
            final(self).registry_spec() == old(self).registry_spec(),
            final(self).collector_spec() == old(self).collector_spec(),
            final(self).local_node_id_spec() == old(self).local_node_id_spec(),
    {
        self.update_status(intent_id, IntentStatus::Cancelled);
    }

    /// The recorded result of an intent, if it has one.
    pub fn get_result(&self, intent_id: u128) -> (r: Option<String>)
        requires
            self.wf(),
        ensures
            match r {
                Some(s) => has_intent(self.intents_spec(), intent_id)
                    && self.intents_spec()[intent_index(self.intents_spec(), intent_id)].result
                        == Some(s@),
                None => !has_intent(self.intents_spec(), intent_id)
                    || self.intents_spec()[intent_index(self.intents_spec(), intent_id)].result
                        is None,
            },
    {
        let found = self.find_intent_index(intent_id);
        match found {
            Some(ix) => match &self.active_intents[ix].result {
                Some(s) => Some(s.clone()),
                None => None,
            },
            None => None,
        }
    }

    /// Remove terminal-state intents whose age at time `now_ms` exceeds
    /// `max_age_ms`; ages saturate at zero, so clock skew never underflows.
    #[verifier::loop_isolation(false)]
    pub fn cleanup_at(&mut self, now_ms: u64, max_age_ms: u64)
        requires
            old(self).wf(),
        ensures
            final(self).wf(),
            final(self).intents_spec()
                == spec_cleanup(old(self).intents_spec(), now_ms, max_age_ms),
            final(self).registry_spec() == old(self).registry_spec(),
            final(self).collector_spec() == old(self).collector_spec(),
            final(self).local_node_id_spec() == old(self).local_node_id_spec(),
    {
        let ghost old_intents = self.intents_spec();
        let mut kept: Vec<TrackedIntent> = Vec::new();
        let mut i: usize = 0;
        let n = self.active_intents.len();
        while i < n
            invariant
                0 <= i <= n == old_intents.len(),
                self.intents_spec() == old_intents,
                kept.deep_view() =~= spec_cleanup(old_intents.take(i as int), now_ms, max_age_ms),
            decreases n - i,
        {
            proof {
                assert(old_intents.take(i + 1).drop_last() =~= old_intents.take(i as int));
                assert(old_intents.take(i + 1).last() == old_intents[i as int]);
            }
            let t = &self.active_intents[i];
            let terminal = match &t.status {
                IntentStatus::Completed { .. } => true,
                IntentStatus::Failed { .. } => true,
                IntentStatus::TimedOut => true,
                IntentStatus::Cancelled => true,
                _ => false,
            };
            let age = if now_ms >= t.intent.created_at_ms {
                now_ms - t.intent.created_at_ms
            } else {
                0
            };
            if !terminal || age < max_age_ms {
                let intent = t.intent.clone();
                let status = t.status.clone();
                let result = match &t.result {
                    Some(s) => Some(s.clone()),
                    None => None,
                };
                let copy = TrackedIntent { intent, status, result };
                assert(copy@ =~= old_intents[i as int]);
                let ghost k0 = kept@;
                proof {
                    assert forall|j: int| 0 <= j < k0.len() implies
                        k0[j]@ == spec_cleanup(old_intents.take(i as int), now_ms, max_age_ms)[j] by {
                        assert(kept.deep_view()[j] == kept@[j]@);
                    }
                }
                kept.push(copy);
                proof {
                    assert forall|j: int| 0 <= j < kept.deep_view().len() implies
                        kept.deep_view()[j]
                            == spec_cleanup(old_intents.take(i + 1), now_ms, max_age_ms)[j] by {
                        assert(kept.deep_view()[j] == kept@[j]@);
                        if j < k0.len() {
                            assert(kept@[j] == k0[j]);
                        } else {
                            assert(kept@[j] == copy);
                        }
                    }
                    assert(kept.deep_view()
                        =~= spec_cleanup(old_intents.take(i + 1), now_ms, max_age_ms));
                }
            } else {
                proof {
                    assert(kept.deep_view()
                        =~= spec_cleanup(old_intents.take(i + 1), now_ms, max_age_ms));
                }
            }
            i = i + 1;
        }
        self.active_intents = kept;
        proof {
            assert(old_intents.take(n as int) =~= old_intents);
            lemma_cleanup_unique(old_intents, now_ms, max_age_ms);
        }
    }

    /// Remove terminal-state intents older than `max_age_ms`, measured
    /// against the wall clock.
    pub fn cleanup(&mut self, max_age_ms: u64)
        requires
            old(self).wf(),
        ensures
            final(self).wf(),
            exists|now: u64| final(self).intents_spec()
                == #[trigger] spec_cleanup(old(self).intents_spec(), now, max_age_ms),
            final(self).registry_spec() == old(self).registry_spec(),
            final(self).collector_spec() == old(self).collector_spec(),
            final(self).local_node_id_spec() == old(self).local_node_id_spec(),
    {
        let now = now_ms();
        self.cleanup_at(now, max_age_ms);
    }

    /// The number of intents still active: Pending, Routed or Executing.
    #[verifier::loop_isolation(false)]
    pub fn active_count(&self) -> (r: usize)
        ensures
            r == spec_active_count(self.intents_spec()),
    {
        let mut count: usize = 0;
        let mut i: usize = 0;
        let n = self.active_intents.len();
        while i < n
            invariant
                0 <= i <= n == self.intents_spec().len(),
                count <= i,
                count == spec_active_count(self.intents_spec().take(i as int)),
            decreases n - i,
        {
            proof {
                assert(self.intents_spec().take(i + 1).drop_last()
                    =~= self.intents_spec().take(i as int));
                assert(self.intents_spec().take(i + 1).last() == self.intents_spec()[i as int]);
            }
            let active = match &self.active_intents[i].status {
                IntentStatus::Pending => true,
                IntentStatus::Routed { .. } => true,
                IntentStatus::Executing { .. } => true,
                _ => false,
            };
            if active {
                count = count + 1;
            }
            i = i + 1;
        }
        proof {
            assert(self.intents_spec().take(n as int) =~= self.intents_spec());
        }
        count
    }
}

/// The active count after replacing one entry moves by exactly the
/// difference the replacement makes.
proof fn lemma_active_count_update(s: Seq<TrackedView>, i: int, t: TrackedView)
    requires
        0 <= i < s.len(),
    ensures
        spec_active_count(s.update(i, t)) == spec_active_count(s)
            - (if is_active(s[i].status) { 1int } else { 0int })
            + (if is_active(t.status) { 1int } else { 0int }),
    decreases s.len(),
{
    let u = s.update(i, t);
    if i == s.len() - 1 {
        assert(u.drop_last() =~= s.drop_last());
        assert(u.last() == t);
        assert(s.last() == s[i]);
    } else {
        assert(u.drop_last() =~= s.drop_last().update(i, t));
        assert(u.last() == s.last());
        lemma_active_count_update(s.drop_last(), i, t);
    }
}

/// Law: only Pending, Routed and Executing intents contribute to the
/// active count, so cancelling an active intent lowers the count by one.
pub proof fn lemma_cancel_lowers_active_count(s: Seq<TrackedView>, id: u128)
    requires
        unique_intent_ids(s),
        has_intent(s, id),
        is_active(s[intent_index(s, id)].status),
    ensures
        spec_active_count(spec_set_status(s, id, StatusView::Cancelled))
            == spec_active_count(s) - 1,
{
    let i = intent_index(s, id);
    assert(0 <= i < s.len() && s[i].intent.id == id);
    lemma_active_count_update(s, i, TrackedView { status: StatusView::Cancelled, ..s[i] });
}

/// Law: cancelling an intent that is already terminal leaves the active
/// count unchanged.
pub proof fn lemma_cancel_terminal_keeps_active_count(s: Seq<TrackedView>, id: u128)
    requires
        unique_intent_ids(s),
        has_intent(s, id),
        !is_active(s[intent_index(s, id)].status),
    ensures
        spec_active_count(spec_set_status(s, id, StatusView::Cancelled))
            == spec_active_count(s),
{
    let i = intent_index(s, id);
    assert(0 <= i < s.len() && s[i].intent.id == id);
    lemma_active_count_update(s, i, TrackedView { status: StatusView::Cancelled, ..s[i] });
}

} // verus!
