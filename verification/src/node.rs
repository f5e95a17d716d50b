//! Node identity, configuration and lifecycle.

use vstd::prelude::*;
use crate::capability::CapabilityRegistry;
use crate::cost::{spec_default_weights, CostCollector};
use crate::error::AtmosphereError;
use crate::intent::{IntentRouter, TrackedView};
use crate::mesh::MeshClient;
use crate::metrics::PlatformMetrics;
use crate::util::clone_strings;
use ed25519_dalek::{Signature, Signer, SigningKey, VerifyingKey};

verus! {

use vstd::string::StringExecFns;

/// Unique identifier for a node in the mesh network.
///
/// Holds the 128-bit value of a version-4 UUID, generated once at node
/// construction and immutable thereafter.
#[derive(Debug, Clone, Copy, PartialEq, Eq, Hash, Structural)]
pub struct NodeId(pub u128);

/// The character for one hexadecimal digit.
pub open spec fn hex_char(d: int) -> char {
    if d == 0 { '0' }
    else if d == 1 { '1' }
    else if d == 2 { '2' }
    else if d == 3 { '3' }
    else if d == 4 { '4' }
    else if d == 5 { '5' }
    else if d == 6 { '6' }
    else if d == 7 { '7' }
    else if d == 8 { '8' }
    else if d == 9 { '9' }
    else if d == 10 { 'a' }
    else if d == 11 { 'b' }
    else if d == 12 { 'c' }
    else if d == 13 { 'd' }
    else if d == 14 { 'e' }
    else { 'f' }
}

/// The k-th nibble of a 128-bit value, counting from the most significant.
pub open spec fn uuid_nibble(v: u128, k: int) -> u128 {
    (v >> (((31 - k) * 4) as u128)) & 0xf
}

/// The 32 hexadecimal digits of a 128-bit value, most significant first.
pub open spec fn hex_seq(v: u128) -> Seq<char> {
    Seq::new(32, |i: int| hex_char(uuid_nibble(v, i) as int))
}

/// The hyphenated lowercase textual form of a UUID value, 36 characters.
pub open spec fn uuid_seq(v: u128) -> Seq<char> {
    hex_seq(v).subrange(0, 8) + seq!['-'] + hex_seq(v).subrange(8, 12) + seq!['-']
        + hex_seq(v).subrange(12, 16) + seq!['-'] + hex_seq(v).subrange(16, 20) + seq!['-']
        + hex_seq(v).subrange(20, 32)
}

/// One-character string for a hexadecimal digit.
pub(crate) fn hex_digit_str(d: u8) -> (r: &'static str)
    requires
        d < 16,
    ensures
        r@ == seq![hex_char(d as int)],
{
    if d == 0 { proof { reveal_strlit("0"); } let r = "0"; assert(r@ =~= seq![hex_char(0)]); r }
    else if d == 1 { proof { reveal_strlit("1"); } let r = "1"; assert(r@ =~= seq![hex_char(1)]); r }
    else if d == 2 { proof { reveal_strlit("2"); } let r = "2"; assert(r@ =~= seq![hex_char(2)]); r }
    else if d == 3 { proof { reveal_strlit("3"); } let r = "3"; assert(r@ =~= seq![hex_char(3)]); r }
    else if d == 4 { proof { reveal_strlit("4"); } let r = "4"; assert(r@ =~= seq![hex_char(4)]); r }
    else if d == 5 { proof { reveal_strlit("5"); } let r = "5"; assert(r@ =~= seq![hex_char(5)]); r }
    else if d == 6 { proof { reveal_strlit("6"); } let r = "6"; assert(r@ =~= seq![hex_char(6)]); r }
    else if d == 7 { proof { reveal_strlit("7"); } let r = "7"; assert(r@ =~= seq![hex_char(7)]); r }
    else if d == 8 { proof { reveal_strlit("8"); } let r = "8"; assert(r@ =~= seq![hex_char(8)]); r }
    else if d == 9 { proof { reveal_strlit("9"); } let r = "9"; assert(r@ =~= seq![hex_char(9)]); r }
    else if d == 10 { proof { reveal_strlit("a"); } let r = "a"; assert(r@ =~= seq![hex_char(10)]); r }
    else if d == 11 { proof { reveal_strlit("b"); } let r = "b"; assert(r@ =~= seq![hex_char(11)]); r }
    else if d == 12 { proof { reveal_strlit("c"); } let r = "c"; assert(r@ =~= seq![hex_char(12)]); r }
    else if d == 13 { proof { reveal_strlit("d"); } let r = "d"; assert(r@ =~= seq![hex_char(13)]); r }
    else if d == 14 { proof { reveal_strlit("e"); } let r = "e"; assert(r@ =~= seq![hex_char(14)]); r }
    else { proof { reveal_strlit("f"); } let r = "f"; assert(r@ =~= seq![hex_char(15)]); r }
}

/// The first `n` hexadecimal digits of a 128-bit value.
pub(crate) fn uuid_hex_prefix(v: u128, n: usize) -> (r: String)
    requires
        n <= 32,
    ensures
        r@ == hex_seq(v).subrange(0, n as int),
{
    let mut r = String::new();
    let mut k: usize = 0;
    while k < n
        invariant
            0 <= k <= n <= 32,
            r@ =~= hex_seq(v).subrange(0, k as int),
        decreases n - k,
    {
        let shift: u128 = (((31 - k) * 4)) as u128;
        let nib: u128 = (v >> shift) & 0xf;
        assert(nib < 16) by (bit_vector)
            requires nib == (v >> shift) & 0xf,
        ;
        assert(nib == uuid_nibble(v, k as int));
        r.append(hex_digit_str(nib as u8));
        assert(r@ =~= hex_seq(v).subrange(0, k as int + 1));
        k = k + 1;
    }
    r
}

impl NodeId {
    /// Generate a new random node id; nothing is assumed about the value
    /// drawn.
    pub fn new() -> NodeId {
        NodeId(crate::util::fresh_uuid())
    }

    /// Create a node id from the 128-bit value of an existing UUID.
    pub fn from_uuid(uuid_value: u128) -> (r: NodeId)
        ensures
            r.0 == uuid_value,
    {
        NodeId(uuid_value)
    }

    /// The 128-bit UUID value of this node id.
    pub fn as_uuid(&self) -> (r: u128)
        ensures
            r == self.0,
    {
        self.0
    }

    /// The hyphenated lowercase textual form of this node id.
    pub fn to_uuid_string(&self) -> (r: String)
        ensures
            r@ == uuid_seq(self.0),
    {
        let hex = uuid_hex_prefix(self.0, 32);
        proof {
            assert forall|i: int| 0 <= i < hex@.len() implies (hex@[i] as nat) < 128 by {
                assert(hex@[i] == hex_char(uuid_nibble(self.0, i) as int));
            }
            assert(hex.is_ascii());
            reveal_strlit("-");
        }
        let h = hex.as_str();
        let mut r = h.substring_ascii(0, 8).to_owned();
        r.append("-");
        r.append(h.substring_ascii(8, 12));
        r.append("-");
        r.append(h.substring_ascii(12, 16));
        r.append("-");
        r.append(h.substring_ascii(16, 20));
        r.append("-");
        r.append(h.substring_ascii(20, 32));
        proof {
            assert(hex@.subrange(0, 32) =~= hex_seq(self.0));
            assert(r@ =~= uuid_seq(self.0));
        }
        r
    }
}

impl Default for NodeId {
    /// A fresh random node id.
    fn default() -> Self {
        NodeId::new()
    }
}

impl View for NodeId {
    type V = NodeId;

    open spec fn view(&self) -> NodeId {
        *self
    }
}

impl DeepView for NodeId {
    type V = NodeId;

    open spec fn deep_view(&self) -> NodeId {
        *self
    }
}

/// Abstract value of a node configuration.
#[verifier::ext_equal]
pub ghost struct NodeConfigView {
    pub name: Seq<char>,
    pub bootstrap_peers: Seq<Seq<char>>,
    pub listen_port: u16,
    pub max_peers: usize,
    pub gossip_interval_secs: u64,
    pub cost_aware_routing: bool,
}

/// Configuration for a mesh node, supplied by the host application.
#[derive(Debug)]
pub struct NodeConfig {
    /// Human-readable name for this node.
    pub name: String,
    /// Bootstrap peers to connect to on startup.
    pub bootstrap_peers: Vec<String>,
    /// Port to listen on for incoming connections.
    pub listen_port: u16,
    /// Maximum number of peer connections.
    pub max_peers: usize,
    /// Interval in seconds between gossip rounds.
    pub gossip_interval_secs: u64,
    /// Enable cost-based routing.
    pub cost_aware_routing: bool,
}

impl View for NodeConfig {
    type V = NodeConfigView;

    open spec fn view(&self) -> NodeConfigView {
        NodeConfigView {
            name: self.name@,
            bootstrap_peers: self.bootstrap_peers.deep_view(),
            listen_port: self.listen_port,
            max_peers: self.max_peers,
            gossip_interval_secs: self.gossip_interval_secs,
            cost_aware_routing: self.cost_aware_routing,
        }
    }
}

impl Clone for NodeConfig {
    /// An identical copy of the configuration.
    fn clone(&self) -> (r: Self)
        ensures
            r@ == self@,
    {
        let r = NodeConfig {
            name: self.name.clone(),
            bootstrap_peers: clone_strings(&self.bootstrap_peers),
            listen_port: self.listen_port,
            max_peers: self.max_peers,
            gossip_interval_secs: self.gossip_interval_secs,
            cost_aware_routing: self.cost_aware_routing,
        };
        proof {
            assert(r@ =~= self@);
        }
        r
    }
}

impl Default for NodeConfig {
    /// The default configuration: port 8765, 50 peers, 30 s gossip rounds,
    /// cost-aware routing on.
    fn default() -> (r: Self)
        ensures
            r@.name == "atmosphere-node"@,
            r@.bootstrap_peers == Seq::<Seq<char>>::empty(),
            r@.listen_port == 8765,
            r@.max_peers == 50,
            r@.gossip_interval_secs == 30,
            r@.cost_aware_routing,
    {
        let r = NodeConfig {
            name: "atmosphere-node".to_owned(),
            bootstrap_peers: Vec::new(),
            listen_port: 8765,
            max_peers: 50,
            gossip_interval_secs: 30,
            cost_aware_routing: true,
        };
        proof {
            assert(r.bootstrap_peers.deep_view() =~= Seq::<Seq<char>>::empty());
        }
        r
    }
}

/// Lifecycle state of a node: a strict cycle
/// Stopped -> Starting -> Running -> Stopping -> Stopped.
#[derive(Debug, Clone, Copy, PartialEq, Eq, Structural)]
pub enum NodeState {
    Stopped,
    Starting,
    Running,
    Stopping,
}

/// The Ed25519 signing-key type of the ed25519-dalek crate, held opaquely.
#[verifier::external_type_specification]
#[verifier::external_body]
pub struct ExSigningKey(SigningKey);

/// The Ed25519 public-key type of the ed25519-dalek crate, held opaquely.
#[verifier::external_type_specification]
#[verifier::external_body]
pub struct ExVerifyingKey(VerifyingKey);

/// The Ed25519 signature type of the ed25519-dalek crate, held opaquely.
#[verifier::external_type_specification]
#[verifier::external_body]
pub struct ExSignature(Signature);

/// A fresh Ed25519 keypair.
///
/// Relies on ed25519_dalek::SigningKey::generate, drawing from the
/// operating system's randomness (rand::rngs::OsRng); the key is random,
/// so nothing is assumed about it.
#[verifier::external_body]
fn generate_signing_key() -> SigningKey {
    SigningKey::generate(&mut rand::rngs::OsRng)
}

/// An identical copy of a signing key.
///
/// Relies on the Clone implementation of ed25519_dalek::SigningKey, which
/// copies the key bytes.
#[verifier::external_body]
pub(crate) fn clone_signing_key(key: &SigningKey) -> SigningKey {
    key.clone()
}

/// A detached Ed25519 signature over the message.
///
/// Relies on ed25519_dalek's Signer::sign for SigningKey, which never
/// fails for this key type.
#[verifier::external_body]
fn sign_with_key(key: &SigningKey, data: &[u8]) -> Signature {
    key.sign(data)
}

/// The public key belonging to a signing key.
///
/// Relies on ed25519_dalek::SigningKey::verifying_key.
#[verifier::external_body]
fn verifying_key_of(key: &SigningKey) -> VerifyingKey {
    key.verifying_key()
}

/// The top-level mesh node: identity, configuration and lifecycle
/// orchestration over the registry, cost collector, intent router and
/// mesh client it owns. The keypair is generated once at construction.
pub struct AtmosphereNode<M: PlatformMetrics> {
    /// Unique node identifier.
    id: NodeId,
    /// Node configuration.
    config: NodeConfig,
    /// Ed25519 signing key for this node.
    signing_key: SigningKey,
    /// Current lifecycle state.
    state: NodeState,
    /// Intent router, owning the capability registry and cost collector.
    intent_router: IntentRouter<M>,
    /// Mesh client; present only between start and stop.
    mesh_client: Option<MeshClient>,
}

impl<M: PlatformMetrics> AtmosphereNode<M> {
    /// The node's id.
    pub closed spec fn id_spec(&self) -> NodeId {
        self.id
    }

    /// The node's configuration.
    pub closed spec fn config_spec(&self) -> NodeConfig {
        self.config
    }

    /// The node's lifecycle state.
    pub closed spec fn state_spec(&self) -> NodeState {
        self.state
    }

    /// The intent router, through which the registry and collector are
    /// reached.
    pub closed spec fn router_spec(&self) -> IntentRouter<M> {
        self.intent_router
    }

    /// The mesh client, if the node is started.
    pub closed spec fn mesh_spec(&self) -> Option<MeshClient> {
        self.mesh_client
    }

    /// Well-formedness: the router, and the mesh client when present, are
    /// well formed.
    pub open spec fn wf(&self) -> bool {
        &&& self.router_spec().wf()
        &&& match self.mesh_spec() {
            Some(m) => m.wf(),
            None => true,
        }
    }

    /// Create a new node with the given configuration and metrics
    /// provider: a fresh random id and keypair, state Stopped, no mesh
    /// client, an empty registry and intent table, and default weights.
    pub fn new(config: NodeConfig, metrics: M) -> (r: Self)
        ensures
            r.wf(),
            r.config_spec()@ == config@,
            r.state_spec() == NodeState::Stopped,
            r.mesh_spec() is None,
            r.router_spec().registry_spec()@.local.len() == 0,
            r.router_spec().registry_spec()@.remote.len() == 0,
            r.router_spec().collector_spec().metrics_spec() == metrics,
            r.router_spec().collector_spec().weights_spec() == spec_default_weights(),
            r.router_spec().collector_spec().peers_spec().len() == 0,
            r.router_spec().intents_spec() == Seq::<TrackedView>::empty(),
            r.router_spec().local_node_id_spec() is None,
    {
        let id = NodeId::new();
        let signing_key = generate_signing_key();
        let capabilities = CapabilityRegistry::new();
        let cost_collector = CostCollector::new(metrics);
        let intent_router = IntentRouter::new(capabilities, cost_collector);
        AtmosphereNode {
            id,
            config,
            signing_key,
            state: NodeState::Stopped,
            intent_router,
            mesh_client: None,
        }
    }

    /// The node's unique identifier.
    pub fn id(&self) -> (r: NodeId)
        ensures
            r == self.id_spec(),
    {
        self.id
    }

    /// The node's public key.
    pub fn public_key(&self) -> VerifyingKey {
        verifying_key_of(&self.signing_key)
    }

    /// The node's configuration.
    pub fn config(&self) -> (r: &NodeConfig)
        ensures
            *r == self.config_spec(),
    {
        &self.config
    }

    /// Borrow the capability registry.
    pub fn capabilities(&self) -> (r: &CapabilityRegistry)
        ensures
            *r == self.router_spec().registry_spec(),
    {
        self.intent_router.capabilities()
    }

    /// Borrow the capability registry for mutation.
    pub fn capabilities_mut(&mut self) -> (r: &mut CapabilityRegistry)
        ensures
            *r == old(self).router_spec().registry_spec(),
            final(self).router_spec().registry_spec() == *final(r),
            final(self).router_spec().collector_spec() == old(self).router_spec().collector_spec(),
            final(self).router_spec().intents_spec() == old(self).router_spec().intents_spec(),
            final(self).router_spec().local_node_id_spec()
                == old(self).router_spec().local_node_id_spec(),
            final(self).id_spec() == old(self).id_spec(),
            final(self).config_spec() == old(self).config_spec(),
            final(self).state_spec() == old(self).state_spec(),
            final(self).mesh_spec() == old(self).mesh_spec(),
    {
        self.intent_router.capabilities_mut()
    }

    /// Borrow the cost collector.
    pub fn cost_collector(&self) -> (r: &CostCollector<M>)
        ensures
            *r == self.router_spec().collector_spec(),
    {
        self.intent_router.cost_collector()
    }

    /// Borrow the cost collector for mutation.
    pub fn cost_collector_mut(&mut self) -> (r: &mut CostCollector<M>)
        ensures
            *r == old(self).router_spec().collector_spec(),
            final(self).router_spec().collector_spec() == *final(r),
            final(self).router_spec().registry_spec() == old(self).router_spec().registry_spec(),
            final(self).router_spec().intents_spec() == old(self).router_spec().intents_spec(),
            final(self).router_spec().local_node_id_spec()
                == old(self).router_spec().local_node_id_spec(),
            final(self).id_spec() == old(self).id_spec(),
            final(self).config_spec() == old(self).config_spec(),
            final(self).state_spec() == old(self).state_spec(),
            final(self).mesh_spec() == old(self).mesh_spec(),
    {
        self.intent_router.cost_collector_mut()
    }

    /// Borrow the intent router.
    pub fn intent_router(&self) -> (r: &IntentRouter<M>)
        ensures
            *r == self.router_spec(),
    {
        &self.intent_router
    }

    /// Borrow the intent router for mutation.
    pub fn intent_router_mut(&mut self) -> (r: &mut IntentRouter<M>)
        ensures
            *r == old(self).router_spec(),
            final(self).router_spec() == *final(r),
            final(self).id_spec() == old(self).id_spec(),
            final(self).config_spec() == old(self).config_spec(),
            final(self).state_spec() == old(self).state_spec(),
            final(self).mesh_spec() == old(self).mesh_spec(),
    {
        &mut self.intent_router
    }

    /// The current lifecycle state.
    pub fn state(&self) -> (r: NodeState)
        ensures
            r == self.state_spec(),
    {
        self.state
    }

    /// Start the node: only a Stopped node starts. A fresh mesh client is
    /// created and every configured bootstrap peer is dialled — dial
    /// failures are skipped, never fatal — and the state becomes Running.
    #[verifier::loop_isolation(false)]
    pub fn start(&mut self) -> (r: Result<(), AtmosphereError>)
        requires
            old(self).wf(),
        ensures
            final(self).wf(),
            final(self).id_spec() == old(self).id_spec(),
            final(self).config_spec() == old(self).config_spec(),
            final(self).router_spec() == old(self).router_spec(),
            old(self).state_spec() != NodeState::Stopped ==> {
                &&& r matches Err(e) && e matches AtmosphereError::InvalidConfig(m)
                    && m@ == "Node is already running or starting"@
                &&& final(self).state_spec() == old(self).state_spec()
                &&& final(self).mesh_spec() == old(self).mesh_spec()
            },
            old(self).state_spec() == NodeState::Stopped ==> {
                &&& r is Ok
                &&& final(self).state_spec() == NodeState::Running
                &&& final(self).mesh_spec() matches Some(m) && {
                    &&& m.wf()
                    &&& m.node_id_spec() == old(self).id_spec()
                    &&& m.config_spec()@ == old(self).config_spec()@
                    &&& forall|k: int| 0 <= k < m.peers_spec().len() ==> {
                        &&& (#[trigger] m.peers_spec()[k]).state is Connected
                        &&& old(self).config_spec()@.bootstrap_peers
                            .contains(m.peers_spec()[k].info.address)
                    }
                }
            },
    {
        if !matches!(self.state, NodeState::Stopped) {
            return Err(AtmosphereError::InvalidConfig(
                "Node is already running or starting".to_owned(),
            ));
        }

        self.state = NodeState::Starting;

        let mut mesh = MeshClient::new(
            self.id,
            clone_signing_key(&self.signing_key),
            self.config.clone(),
        );

        let n = self.config.bootstrap_peers.len();
        let mut i: usize = 0;
        while i < n
            invariant
                0 <= i <= n == self.config_spec()@.bootstrap_peers.len(),
                mesh.wf(),
                mesh.node_id_spec() == self.id_spec(),
                mesh.config_spec()@ == self.config_spec()@,
                forall|k: int| 0 <= k < mesh.peers_spec().len() ==> {
                    &&& (#[trigger] mesh.peers_spec()[k]).state is Connected
                    &&& self.config_spec()@.bootstrap_peers
                        .contains(mesh.peers_spec()[k].info.address)
                },
            decreases n - i,
        {
            let ghost old_mesh_peers = mesh.peers_spec();
            let addr = &self.config.bootstrap_peers[i];
            let outcome = mesh.connect(addr.as_str());
            proof {
                assert(self.config_spec()@.bootstrap_peers[i as int] == addr@);
                assert(self.config_spec()@.bootstrap_peers.contains(addr@));
                let pid = crate::mesh::ok_peer_id(outcome);
                let now = choose|now: u64| mesh.peers_spec()
                    == crate::mesh::spec_conn_upsert(
                        old_mesh_peers,
                        crate::mesh::spec_fresh_conn(pid, addr@, now),
                    );
                assert forall|k: int| 0 <= k < mesh.peers_spec().len() implies
                    (#[trigger] mesh.peers_spec()[k]).state is Connected
                    && self.config_spec()@.bootstrap_peers
                        .contains(mesh.peers_spec()[k].info.address) by {
                    let fresh = crate::mesh::spec_fresh_conn(pid, addr@, now);
                    if crate::mesh::has_conn(old_mesh_peers, pid) {
                        let ix = crate::mesh::conn_index(old_mesh_peers, pid);
                        if k != ix {
                            assert(mesh.peers_spec()[k] == old_mesh_peers[k]);
                        } else {
                            assert(mesh.peers_spec()[k] == fresh);
                        }
                    } else {
                        if k < old_mesh_peers.len() {
                            assert(mesh.peers_spec()[k] == old_mesh_peers[k]);
                        } else {
                            assert(mesh.peers_spec()[k] == fresh);
                        }
                    }
                }
            }
            i = i + 1;
        }

        self.mesh_client = Some(mesh);
        self.state = NodeState::Running;
        Ok(())
    }

    /// Stop the node: only a Running node stops. Every mesh peer is
    /// disconnected, the mesh client is discarded, and the state returns
    /// to Stopped.
    pub fn stop(&mut self) -> (r: Result<(), AtmosphereError>)
        requires
            old(self).wf(),
        ensures
            final(self).wf(),
            final(self).id_spec() == old(self).id_spec(),
            final(self).config_spec() == old(self).config_spec(),
            final(self).router_spec() == old(self).router_spec(),
            old(self).state_spec() != NodeState::Running ==> {
                &&& r matches Err(e) && e is NotInitialized
                &&& final(self).state_spec() == old(self).state_spec()
                &&& final(self).mesh_spec() == old(self).mesh_spec()
            },
            old(self).state_spec() == NodeState::Running ==> {
                &&& r is Ok
                &&& final(self).state_spec() == NodeState::Stopped
                &&& final(self).mesh_spec() is None
            },
    {
        if !matches!(self.state, NodeState::Running) {
            return Err(AtmosphereError::NotInitialized);
        }

        self.state = NodeState::Stopping;

        match &mut self.mesh_client {
            Some(client) => {
                client.disconnect_all();
            },
            None => {},
        }

        self.mesh_client = None;
        self.state = NodeState::Stopped;
        Ok(())
    }

    /// Sign data with this node's private key, for authenticating
    /// outgoing gossip.
    pub fn sign(&self, data: &[u8]) -> Signature {
        sign_with_key(&self.signing_key, data)
    }
}

} // verus!
