use atmosphere_core::capability::Capability;
use atmosphere_core::error::AtmosphereError;
use atmosphere_core::mesh::{GossipMessage, MeshClient};
use atmosphere_core::node::{NodeConfig, NodeId};
use ed25519_dalek::SigningKey;
use rand::rngs::OsRng;

fn create_test_client() -> MeshClient {
    let node_id = NodeId::new();
    let signing_key = SigningKey::generate(&mut OsRng);
    let config = NodeConfig::default();
    MeshClient::new(node_id, signing_key, config)
}

#[test]
fn test_connect_disconnect() {
    let mut client = create_test_client();

    let peer_id = client.connect("ws://localhost:8765").unwrap();
    assert_eq!(client.peer_count(), 1);

    client.disconnect(&peer_id).unwrap();
    assert_eq!(client.peer_count(), 0);
}

#[test]
fn test_disconnect_all() {
    let mut client = create_test_client();

    client.connect("ws://localhost:8765").unwrap();
    client.connect("ws://localhost:8766").unwrap();
    assert_eq!(client.peer_count(), 2);

    client.disconnect_all();
    assert_eq!(client.peer_count(), 0);
}

#[test]
fn test_get_peers() {
    let mut client = create_test_client();

    client.connect("ws://localhost:8765").unwrap();

    let peers = client.get_peers();
    assert_eq!(peers.len(), 1);
    assert_eq!(peers[0].address, "ws://localhost:8765");
}

#[test]
fn test_send_message() {
    let mut client = create_test_client();

    let peer_id = client.connect("ws://localhost:8765").unwrap();

    let message = GossipMessage::Ping {
        timestamp_ms: 12345,
    };

    client.send_to(&peer_id, message).unwrap();
}

#[test]
fn test_send_to_unknown_peer() {
    let client = create_test_client();
    let unknown_id = NodeId::new();

    let message = GossipMessage::Ping { timestamp_ms: 0 };
    let result = client.send_to(&unknown_id, message);

    assert!(result.is_err());
    assert!(matches!(result.unwrap_err(), AtmosphereError::Network(_)));
}

#[test]
fn test_broadcast() {
    let mut client = create_test_client();

    client.connect("ws://localhost:8765").unwrap();
    client.connect("ws://localhost:8766").unwrap();

    let message = GossipMessage::Capabilities {
        node_id: NodeId::new(),
        capabilities: vec![],
    };

    let sent = client.broadcast(message).unwrap();
    assert_eq!(sent, 2);
}

#[test]
fn test_update_peer_capabilities() {
    let mut client = create_test_client();

    let peer_id = client.connect("ws://localhost:8765").unwrap();

    let caps = vec![Capability::new("camera", "Test Camera")];

    client.update_peer_capabilities(&peer_id, caps);

    let peer = client.get_peer(&peer_id).unwrap();
    assert_eq!(peer.capabilities.len(), 1);
}

#[test]
fn test_update_peer_cost() {
    let mut client = create_test_client();

    let peer_id = client.connect("ws://localhost:8765").unwrap();
    assert!(client.get_peer(&peer_id).unwrap().cost.is_none());

    client.update_peer_cost(&peer_id, atmosphere_core::cost::NodeCost::default());

    let peer = client.get_peer(&peer_id).unwrap();
    assert!(peer.cost.is_some());
}

#[test]
fn test_at_capacity() {
    let node_id = NodeId::new();
    let signing_key = SigningKey::generate(&mut OsRng);
    let config = NodeConfig { max_peers: 1, ..NodeConfig::default() };
    let mut client = MeshClient::new(node_id, signing_key, config);

    assert!(!client.at_capacity());
    client.connect("ws://localhost:8765").unwrap();
    assert!(client.at_capacity());
}
