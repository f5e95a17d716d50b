//! Mesh client.
//!
//! Owns the set of peer connections and the vocabulary of gossip
//! messages. This core performs no wire I/O: `connect` mints a synthetic
//! peer id standing in for the transport collaborator's handshake, and
//! sends are recorded, not transmitted (see the design notes on the
//! placeholder transport).

use vstd::prelude::*;
use crate::capability::{Capability, CapabilityView};
use crate::clock::now_ms;
use crate::cost::NodeCost;
use crate::error::AtmosphereError;
use crate::node::{hex_seq, uuid_hex_prefix, NodeConfig, NodeId};
use ed25519_dalek::SigningKey;

verus! {

use vstd::string::StringExecFns;

/// Abstract value of the information kept about a peer.
#[verifier::ext_equal]
pub ghost struct PeerInfoView {
    pub node_id: NodeId,
    pub public_key: Seq<char>,
    pub name: Seq<char>,
    pub address: Seq<char>,
    pub connected_at_ms: u64,
    pub last_seen_ms: u64,
    pub capabilities: Seq<CapabilityView>,
    pub cost: Option<NodeCost>,
}

/// Information about a connected peer.
#[derive(Debug)]
pub struct PeerInfo {
    /// The peer's node id.
    pub node_id: NodeId,
    /// The peer's public key, hex encoded.
    pub public_key: String,
    /// The peer's display name.
    pub name: String,
    /// Connection address.
    pub address: String,
    /// When we connected to this peer, milliseconds since the epoch.
    pub connected_at_ms: u64,
    /// When we last heard from this peer, milliseconds since the epoch.
    pub last_seen_ms: u64,
    /// The peer's advertised capabilities.
    pub capabilities: Vec<Capability>,
    /// The peer's last advertised cost, if any.
    pub cost: Option<NodeCost>,
}

impl View for PeerInfo {
    type V = PeerInfoView;

    open spec fn view(&self) -> PeerInfoView {
        PeerInfoView {
            node_id: self.node_id,
            public_key: self.public_key@,
            name: self.name@,
            address: self.address@,
            connected_at_ms: self.connected_at_ms,
            last_seen_ms: self.last_seen_ms,
            capabilities: self.capabilities.deep_view(),
            cost: self.cost,
        }
    }
}

impl DeepView for PeerInfo {
    type V = PeerInfoView;

    open spec fn deep_view(&self) -> PeerInfoView {
        self.view()
    }
}

/// Clone a vector of capabilities, preserving its contents.
fn clone_capabilities(v: &Vec<Capability>) -> (r: Vec<Capability>)
    ensures
        r.deep_view() == v.deep_view(),
{
    let mut r: Vec<Capability> = Vec::new();
    let mut i: usize = 0;
    while i < v.len()
        invariant
            0 <= i <= v@.len(),
            r@.len() == i,
            forall|j: int| 0 <= j < i ==> r.deep_view()[j] == v.deep_view()[j],
        decreases v@.len() - i,
    {
        let c = v[i].clone();
        assert(c@ == v.deep_view()[i as int]);
        let ghost r0 = r@;
        proof {
            assert forall|j: int| 0 <= j < r0.len() implies r0[j]@ == v.deep_view()[j] by {
                assert(r.deep_view()[j] == r@[j]@);
            }
        }
        r.push(c);
        proof {
            assert forall|j: int| 0 <= j < i + 1 implies r.deep_view()[j] == v.deep_view()[j] by {
                assert(r.deep_view()[j] == r@[j]@);
                if j < i as int {
                    assert(r@[j] == r0[j]);
                } else {
                    assert(r@[j] == c);
                }
            }
        }
        i = i + 1;
    }
    proof {
        assert(r.deep_view() =~= v.deep_view());
    }
    r
}

impl Clone for PeerInfo {
    /// An identical copy of the peer information.
    fn clone(&self) -> (r: Self)
        ensures
            r@ == self@,
    {
        let r = PeerInfo {
            node_id: self.node_id,
            public_key: self.public_key.clone(),
            name: self.name.clone(),
            address: self.address.clone(),
            connected_at_ms: self.connected_at_ms,
            last_seen_ms: self.last_seen_ms,
            capabilities: clone_capabilities(&self.capabilities),
            cost: self.cost,
        };
        proof {
            assert(r@ =~= self@);
        }
        r
    }
}

/// The gossip message vocabulary peers exchange. This core defines the
/// vocabulary and the connection bookkeeping; handshake sequencing, retry
/// and the wire encoding belong to the transport collaborator.
#[derive(Debug)]
pub enum GossipMessage {
    /// Initial handshake.
    Hello { node_id: NodeId, public_key: String, name: String, capabilities: Vec<Capability> },
    /// Capability advertisement.
    Capabilities { node_id: NodeId, capabilities: Vec<Capability> },
    /// Cost advertisement.
    Cost { node_id: NodeId, cost: NodeCost },
    /// Request intent routing.
    IntentRequest { intent_id: String, capability_type: String, payload: String },
    /// Response to an intent request.
    IntentResponse { intent_id: String, success: bool, result: Option<String>, error: Option<String> },
    /// Peer addresses for further discovery.
    PeerList { peers: Vec<String> },
    /// Keepalive ping.
    Ping { timestamp_ms: u64 },
    /// Keepalive response.
    Pong { timestamp_ms: u64 },
    /// Graceful disconnect notice.
    Goodbye { node_id: NodeId, reason: String },
}

/// Connection state of a peer.
#[derive(Debug, Clone, Copy, PartialEq, Eq, Structural)]
pub enum ConnectionState {
    Connecting,
    Connected,
    Disconnecting,
    Disconnected,
}

/// Abstract value of a tracked peer connection.
#[verifier::ext_equal]
pub ghost struct PeerConnView {
    pub info: PeerInfoView,
    pub state: ConnectionState,
}

/// A tracked peer connection.
#[derive(Debug)]
struct PeerConnection {
    info: PeerInfo,
    state: ConnectionState,
}

impl View for PeerConnection {
    type V = PeerConnView;

    closed spec fn view(&self) -> PeerConnView {
        PeerConnView { info: self.info@, state: self.state }
    }
}

impl DeepView for PeerConnection {
    type V = PeerConnView;

    closed spec fn deep_view(&self) -> PeerConnView {
        self.view()
    }
}

/// Whether some connection in `s` belongs to peer `n`.
pub open spec fn has_conn(s: Seq<PeerConnView>, n: NodeId) -> bool {
    exists|i: int| 0 <= i < s.len() && s[i].info.node_id == n
}

/// The index of the connection of peer `n`; meaningful when `has_conn`
/// holds and peers are unique.
pub open spec fn conn_index(s: Seq<PeerConnView>, n: NodeId) -> int {
    choose|i: int| 0 <= i < s.len() && s[i].info.node_id == n
}

/// All peers in `s` are distinct.
pub open spec fn unique_conns(s: Seq<PeerConnView>) -> bool {
    forall|i: int, j: int| 0 <= i < j < s.len() ==> s[i].info.node_id != s[j].info.node_id
}

/// The fresh connection entry `connect` records for a peer minted with id
/// `pid` at address `addr` and time `now`: a Connected peer with an empty
/// public key, no capabilities, no cost, and a name derived from the id.
pub open spec fn spec_fresh_conn(pid: NodeId, addr: Seq<char>, now: u64) -> PeerConnView {
    PeerConnView {
        info: PeerInfoView {
            node_id: pid,
            public_key: Seq::empty(),
            name: "peer-"@ + hex_seq(pid.0).subrange(0, 8),
            address: addr,
            connected_at_ms: now,
            last_seen_ms: now,
            capabilities: Seq::empty(),
            cost: None,
        },
        state: ConnectionState::Connected,
    }
}

/// `s` with connection `c` recorded under its peer id: replaced in place
/// if that peer is present, appended otherwise.
pub open spec fn spec_conn_upsert(s: Seq<PeerConnView>, c: PeerConnView) -> Seq<PeerConnView> {
    if has_conn(s, c.info.node_id) {
        s.update(conn_index(s, c.info.node_id), c)
    } else {
        s.push(c)
    }
}

/// The node id a successful connect returned; meaningful only for Ok.
pub open spec fn ok_peer_id(r: Result<NodeId, AtmosphereError>) -> NodeId {
    match r {
        Ok(p) => p,
        Err(_) => NodeId(0),
    }
}

/// `s` with the connection of peer `n` removed, if present.
pub open spec fn spec_conn_remove(s: Seq<PeerConnView>, n: NodeId) -> Seq<PeerConnView> {
    if has_conn(s, n) {
        s.remove(conn_index(s, n))
    } else {
        s
    }
}

/// The number of connections in `s` in the Connected state.
pub open spec fn spec_connected_count(s: Seq<PeerConnView>) -> int
    decreases s.len(),
{
    if s.len() == 0 {
        0
    } else {
        spec_connected_count(s.drop_last())
            + if s.last().state is Connected { 1int } else { 0int }
    }
}

/// The information of the Connected entries of `s`, in order.
pub open spec fn spec_connected_infos(s: Seq<PeerConnView>) -> Seq<PeerInfoView>
    decreases s.len(),
{
    if s.len() == 0 {
        Seq::empty()
    } else {
        let pre = spec_connected_infos(s.drop_last());
        if s.last().state is Connected {
            pre.push(s.last().info)
        } else {
            pre
        }
    }
}

/// `s` with the capabilities of peer `n` replaced and its last-seen time
/// set to `now`, if that peer is present.
pub open spec fn spec_set_caps(
    s: Seq<PeerConnView>,
    n: NodeId,
    caps: Seq<CapabilityView>,
    now: u64,
) -> Seq<PeerConnView> {
    if has_conn(s, n) {
        let i = conn_index(s, n);
        s.update(i, PeerConnView {
            info: PeerInfoView { capabilities: caps, last_seen_ms: now, ..s[i].info },
            ..s[i]
        })
    } else {
        s
    }
}

/// `s` with the cost of peer `n` replaced and its last-seen time set to
/// `now`, if that peer is present.
pub open spec fn spec_set_cost(
    s: Seq<PeerConnView>,
    n: NodeId,
    cost: NodeCost,
    now: u64,
) -> Seq<PeerConnView> {
    if has_conn(s, n) {
        let i = conn_index(s, n);
        s.update(i, PeerConnView {
            info: PeerInfoView { cost: Some(cost), last_seen_ms: now, ..s[i].info },
            ..s[i]
        })
    } else {
        s
    }
}

/// Mesh network client: manages connections to peers and the gossip
/// bookkeeping. The wire transport is an external collaborator; here
/// `connect` mints a synthetic peer id in its stead.
#[derive(Debug)]
pub struct MeshClient {
    /// Our node id.
    node_id: NodeId,
    /// Our signing key, for authenticating outgoing gossip.
    #[allow(dead_code)]
    signing_key: SigningKey,
    /// Configuration.
    config: NodeConfig,
    /// Tracked peer connections, one per peer.
    peers: Vec<PeerConnection>,
}

impl MeshClient {
    /// Our node id.
    pub closed spec fn node_id_spec(&self) -> NodeId {
        self.node_id
    }

    /// The configuration in use.
    pub closed spec fn config_spec(&self) -> NodeConfig {
        self.config
    }

    /// The tracked peer connections, in connection order.
    pub closed spec fn peers_spec(&self) -> Seq<PeerConnView> {
        self.peers.deep_view()
    }

    /// Well-formedness: one connection per peer.
    pub open spec fn wf(&self) -> bool {
        unique_conns(self.peers_spec())
    }

    /// Create a new mesh client for the given identity and configuration.
    pub fn new(node_id: NodeId, signing_key: SigningKey, config: NodeConfig) -> (r: Self)
        ensures
            r.wf(),
            r.node_id_spec() == node_id,
            r.config_spec()@ == config@,
            r.peers_spec() == Seq::<PeerConnView>::empty(),
    {
        let r = MeshClient { node_id, signing_key, config, peers: Vec::new() };
        proof {
            assert(r.peers_spec() =~= Seq::<PeerConnView>::empty());
        }
        r
    }

    /// Index of the connection of the given peer, if any.
    #[verifier::loop_isolation(false)]
    fn find_conn_index(&self, node_id: &NodeId) -> (r: Option<usize>)
        requires
            self.wf(),
        ensures
            r is Some <==> has_conn(self.peers_spec(), *node_id),
            r matches Some(ix) ==> 0 <= ix < self.peers_spec().len()
                && self.peers_spec()[ix as int].info.node_id == *node_id
                && ix as int == conn_index(self.peers_spec(), *node_id),
    {
        let n = self.peers.len();
        let mut i: usize = 0;
        while i < n
            invariant
                0 <= i <= n == self.peers_spec().len(),
                forall|j: int| 0 <= j < i ==> self.peers_spec()[j].info.node_id != *node_id,
            decreases n - i,
        {
            if self.peers[i].info.node_id == *node_id {
                proof {
                    assert(self.peers_spec()[i as int].info.node_id == *node_id);
                    assert(has_conn(self.peers_spec(), *node_id));
                    let w = conn_index(self.peers_spec(), *node_id);
                    assert(0 <= w < self.peers_spec().len()
                        && self.peers_spec()[w].info.node_id == *node_id);
                    if w != i as int {
                        let ii = if w < i as int { w } else { i as int };
                        let jj = if w < i as int { i as int } else { w };
                        assert(self.peers_spec()[ii].info.node_id
                            != self.peers_spec()[jj].info.node_id);
                    }
                }
                return Some(i);
            }
            i = i + 1;
        }
        None
    }

    /// Record the given connection under its peer id.
    fn insert_conn(&mut self, conn: PeerConnection)
        requires
            old(self).wf(),
        ensures
            final(self).wf(),
            final(self).peers_spec() == spec_conn_upsert(old(self).peers_spec(), conn@),
            final(self).node_id_spec() == old(self).node_id_spec(),
            final(self).config_spec() == old(self).config_spec(),
    {
        let found = self.find_conn_index(&conn.info.node_id);
        match found {
            Some(ix) => {
                let ghost old_peers = self.peers_spec();
                self.peers.remove(ix);
                self.peers.insert(ix, conn);
                proof {
                    assert(self.peers_spec() =~= old_peers.update(ix as int, conn@));
                    assert forall|i: int, j: int| 0 <= i < j < self.peers_spec().len() implies
                        self.peers_spec()[i].info.node_id != self.peers_spec()[j].info.node_id by {
                        assert(old_peers[i].info.node_id != old_peers[j].info.node_id);
                    }
                }
            },
            None => {
                let ghost old_peers = self.peers_spec();
                self.peers.push(conn);
                proof {
                    assert(self.peers_spec() =~= old_peers.push(conn@));
                    assert forall|i: int, j: int| 0 <= i < j < self.peers_spec().len() implies
                        self.peers_spec()[i].info.node_id != self.peers_spec()[j].info.node_id by {
                        if j < self.peers_spec().len() - 1 {
                            assert(old_peers[i].info.node_id != old_peers[j].info.node_id);
                        } else {
                            assert(self.peers_spec()[i] == old_peers[i]);
                            assert(!has_conn(old_peers, conn@.info.node_id));
                        }
                    }
                }
            },
        }
    }

    /// Connect to a peer at the given address.
    ///
    /// Placeholder transport: a synthetic random peer id stands in for the
    /// id a real handshake would yield, and the entry is recorded as
    /// Connected at the current time. Never fails in this core.
    pub fn connect(&mut self, address: &str) -> (r: Result<NodeId, AtmosphereError>)
        requires
            old(self).wf(),
        ensures
            final(self).wf(),
            r is Ok,
            exists|now: u64| final(self).peers_spec() == spec_conn_upsert(
                old(self).peers_spec(),
                #[trigger] spec_fresh_conn(ok_peer_id(r), address@, now),
            ),
            final(self).node_id_spec() == old(self).node_id_spec(),
            final(self).config_spec() == old(self).config_spec(),
    {
        let peer_id = NodeId::new();
        let now = now_ms();
        let mut name = "peer-".to_owned();
        name.append(uuid_hex_prefix(peer_id.0, 8).as_str());
        let conn = PeerConnection {
            info: PeerInfo {
                node_id: peer_id,
                public_key: String::new(),
                name,
                address: address.to_owned(),
                connected_at_ms: now,
                last_seen_ms: now,
                capabilities: Vec::new(),
                cost: None,
            },
            state: ConnectionState::Connected,
        };
        proof {
            assert(conn@ =~~= spec_fresh_conn(peer_id, address@, now));
        }
        self.insert_conn(conn);
        proof {
            assert(self.peers_spec()
                == spec_conn_upsert(old(self).peers_spec(), spec_fresh_conn(peer_id, address@, now)));
            assert(exists|t: u64| self.peers_spec() == spec_conn_upsert(
                old(self).peers_spec(),
                #[trigger] spec_fresh_conn(ok_peer_id(Ok(peer_id)), address@, t),
            ));
        }
        Ok(peer_id)
    }

    /// Disconnect from a specific peer; removing an unknown peer does
    /// nothing. Never fails.
    pub fn disconnect(&mut self, node_id: &NodeId) -> (r: Result<(), AtmosphereError>)
        requires
            old(self).wf(),
        ensures
            final(self).wf(),
            r is Ok,
            final(self).peers_spec() == spec_conn_remove(old(self).peers_spec(), *node_id),
            final(self).node_id_spec() == old(self).node_id_spec(),
            final(self).config_spec() == old(self).config_spec(),
    {
        let found = self.find_conn_index(node_id);
        match found {
            Some(ix) => {
                let ghost old_peers = self.peers_spec();
                self.peers.remove(ix);
                proof {
                    assert(self.peers_spec() =~= old_peers.remove(ix as int));
                    assert forall|i: int, j: int| 0 <= i < j < self.peers_spec().len() implies
                        self.peers_spec()[i].info.node_id != self.peers_spec()[j].info.node_id by {
                        let i0 = if i < ix as int { i } else { i + 1 };
                        let j0 = if j < ix as int { j } else { j + 1 };
                        assert(old_peers[i0].info.node_id != old_peers[j0].info.node_id);
                    }
                }
            },
            None => {},
        }
        Ok(())
    }

    /// Disconnect from every peer.
    pub fn disconnect_all(&mut self)
        ensures
            final(self).wf(),
            final(self).peers_spec() == Seq::<PeerConnView>::empty(),
            final(self).node_id_spec() == old(self).node_id_spec(),
            final(self).config_spec() == old(self).config_spec(),
    {
        self.peers.clear();
        proof {
            assert(self.peers_spec() =~= Seq::<PeerConnView>::empty());
        }
    }

    /// The information of every Connected peer, in connection order.
    #[verifier::loop_isolation(false)]
    pub fn get_peers(&self) -> (r: Vec<PeerInfo>)
        ensures
            r.deep_view() == spec_connected_infos(self.peers_spec()),
    {
        let mut r: Vec<PeerInfo> = Vec::new();
        let mut i: usize = 0;
        let n = self.peers.len();
        while i < n
            invariant
                0 <= i <= n == self.peers_spec().len(),
                r.deep_view() =~= spec_connected_infos(self.peers_spec().take(i as int)),
            decreases n - i,
        {
            proof {
                assert(self.peers_spec().take(i + 1).drop_last() =~= self.peers_spec().take(i as int));
                assert(self.peers_spec().take(i + 1).last() == self.peers_spec()[i as int]);
            }
            let connected = match self.peers[i].state {
                ConnectionState::Connected => true,
                _ => false,
            };
            if connected {
                let info = self.peers[i].info.clone();
                assert(info@ == self.peers_spec()[i as int].info);
                let ghost r0 = r@;
                proof {
                    assert forall|j: int| 0 <= j < r0.len() implies
                        r0[j]@ == spec_connected_infos(self.peers_spec().take(i as int))[j] by {
                        assert(r.deep_view()[j] == r@[j]@);
                    }
                }
                r.push(info);
                proof {
                    assert forall|j: int| 0 <= j < r.deep_view().len() implies
                        r.deep_view()[j]
                            == spec_connected_infos(self.peers_spec().take(i + 1))[j] by {
                        assert(r.deep_view()[j] == r@[j]@);
                        if j < r0.len() {
                            assert(r@[j] == r0[j]);
                        }
                    }
                    assert(r.deep_view() =~= spec_connected_infos(self.peers_spec().take(i + 1)));
                }
            }
            i = i + 1;
        }
        proof {
            assert(self.peers_spec().take(n as int) =~= self.peers_spec());
        }
        r
    }

    /// The information kept about a specific peer, whatever its state.
    pub fn get_peer(&self, node_id: &NodeId) -> (r: Option<PeerInfo>)
        requires
            self.wf(),
        ensures
            r is Some <==> has_conn(self.peers_spec(), *node_id),
            r matches Some(info) ==> info@
                == self.peers_spec()[conn_index(self.peers_spec(), *node_id)].info,
    {
        let found = self.find_conn_index(node_id);
        match found {
            Some(ix) => Some(self.peers[ix].info.clone()),
            None => None,
        }
    }

    /// The number of peers in the Connected state.
    #[verifier::loop_isolation(false)]
    pub fn peer_count(&self) -> (r: usize)
        ensures
            r == spec_connected_count(self.peers_spec()),
    {
        let mut count: usize = 0;
        let mut i: usize = 0;
        let n = self.peers.len();
        while i < n
            invariant
                0 <= i <= n == self.peers_spec().len(),
                count <= i,
                count == spec_connected_count(self.peers_spec().take(i as int)),
            decreases n - i,
        {
            proof {
                assert(self.peers_spec().take(i + 1).drop_last() =~= self.peers_spec().take(i as int));
                assert(self.peers_spec().take(i + 1).last() == self.peers_spec()[i as int]);
            }
            let connected = match self.peers[i].state {
                ConnectionState::Connected => true,
                _ => false,
            };
            if connected {
                count = count + 1;
            }
            i = i + 1;
        }
        proof {
            assert(self.peers_spec().take(n as int) =~= self.peers_spec());
        }
        count
    }

    /// Send a gossip message to a specific peer: fails with a network
    /// error exactly when the peer is not in the connection table. The
    /// placeholder transport records the send without transmitting.
    pub fn send_to(&self, node_id: &NodeId, message: GossipMessage) -> (r: Result<(), AtmosphereError>)
        requires
            self.wf(),
        ensures
            r is Ok <==> has_conn(self.peers_spec(), *node_id),
            r matches Err(e) ==> e matches AtmosphereError::Network(m)
                && m@ == "Peer not connected: "@ + crate::node::uuid_seq(node_id.0),
    {
        let found = self.find_conn_index(node_id);
        match found {
            Some(_) => {
                let _ = message;
                Ok(())
            },
            None => {
                let mut m = "Peer not connected: ".to_owned();
                m.append(node_id.to_uuid_string().as_str());
                Err(AtmosphereError::Network(m))
            },
        }
    }

    /// Broadcast a message to every Connected peer, returning how many
    /// peers it went to. The placeholder transport records the sends
    /// without transmitting; never fails in this core.
    pub fn broadcast(&self, message: GossipMessage) -> (r: Result<usize, AtmosphereError>)
        ensures
            r matches Ok(n) && n == spec_connected_count(self.peers_spec()),
    {
        let _ = message;
        Ok(self.peer_count())
    }

    /// Replace a peer's advertised capabilities and refresh its last-seen
    /// time; unknown peers are ignored.
    pub fn update_peer_capabilities(&mut self, node_id: &NodeId, capabilities: Vec<Capability>)
        requires
            old(self).wf(),
        ensures
            final(self).wf(),
            exists|now: u64| final(self).peers_spec() == #[trigger] spec_set_caps(
                old(self).peers_spec(), *node_id, capabilities.deep_view(), now),
            final(self).node_id_spec() == old(self).node_id_spec(),
            final(self).config_spec() == old(self).config_spec(),
    {
        let found = self.find_conn_index(node_id);
        let now = now_ms();
        match found {
            Some(ix) => {
                let ghost old_peers = self.peers_spec();
                let mut conn = self.peers.remove(ix);
                conn.info.capabilities = capabilities;
                conn.info.last_seen_ms = now;
                self.peers.insert(ix, conn);
                proof {
                    assert(self.peers_spec() =~= spec_set_caps(
                        old_peers, *node_id, capabilities.deep_view(), now));
                    assert forall|i: int, j: int| 0 <= i < j < self.peers_spec().len() implies
                        self.peers_spec()[i].info.node_id != self.peers_spec()[j].info.node_id by {
                        assert(old_peers[i].info.node_id != old_peers[j].info.node_id);
                    }
                }
            },
            None => {
                proof {
                    assert(self.peers_spec() == spec_set_caps(
                        old(self).peers_spec(), *node_id, capabilities.deep_view(), now));
                }
            },
        }
    }

    /// Replace a peer's advertised cost and refresh its last-seen time;
    /// unknown peers are ignored.
    pub fn update_peer_cost(&mut self, node_id: &NodeId, cost: NodeCost)
        requires
            old(self).wf(),
        ensures
            final(self).wf(),
            exists|now: u64| final(self).peers_spec() == #[trigger] spec_set_cost(
                old(self).peers_spec(), *node_id, cost, now),
            final(self).node_id_spec() == old(self).node_id_spec(),
            final(self).config_spec() == old(self).config_spec(),
    {
        let found = self.find_conn_index(node_id);
        let now = now_ms();
        match found {
            Some(ix) => {
                let ghost old_peers = self.peers_spec();
                let mut conn = self.peers.remove(ix);
                conn.info.cost = Some(cost);
                conn.info.last_seen_ms = now;
                self.peers.insert(ix, conn);
                proof {
                    assert(self.peers_spec() =~= spec_set_cost(old_peers, *node_id, cost, now));
                    assert forall|i: int, j: int| 0 <= i < j < self.peers_spec().len() implies
                        self.peers_spec()[i].info.node_id != self.peers_spec()[j].info.node_id by {
                        assert(old_peers[i].info.node_id != old_peers[j].info.node_id);
                    }
                }
            },
            None => {
                proof {
                    assert(self.peers_spec() == spec_set_cost(
                        old(self).peers_spec(), *node_id, cost, now));
                }
            },
        }
    }

    /// Whether the connected peer count has reached the configured
    /// maximum.
    pub fn at_capacity(&self) -> (r: bool)
        ensures
            r == (spec_connected_count(self.peers_spec()) >= self.config_spec()@.max_peers),
    {
        self.peer_count() >= self.config.max_peers
    }
}

} // verus!
