use atmosphere_core::error::AtmosphereError;
use atmosphere_core::metrics::MockMetrics;
use atmosphere_core::node::{AtmosphereNode, NodeConfig, NodeId, NodeState};
use ed25519_dalek::Verifier;

#[test]
fn test_node_id_generation() {
    let id1 = NodeId::new();
    let id2 = NodeId::new();
    assert_ne!(id1, id2);
}

#[test]
fn test_node_id_display() {
    let id = NodeId::from_uuid(0);
    assert_eq!(id.to_uuid_string(), "00000000-0000-0000-0000-000000000000");
}

#[test]
fn test_node_id_display_digits() {
    let id = NodeId::from_uuid(0x0123456789abcdef0123456789abcdefu128);
    assert_eq!(id.to_uuid_string(), "01234567-89ab-cdef-0123-456789abcdef");
    assert_eq!(id.as_uuid(), 0x0123456789abcdef0123456789abcdefu128);
}

#[test]
fn test_generate_node_id() {
    let id = NodeId::new();
    assert!(!id.to_uuid_string().is_empty());
}

#[test]
fn test_node_config_default() {
    let config = NodeConfig::default();
    assert_eq!(config.listen_port, 8765);
    assert_eq!(config.max_peers, 50);
    assert!(config.cost_aware_routing);
}

#[test]
fn test_node_creation() {
    let config = NodeConfig::default();
    let metrics = MockMetrics::default();
    let node = AtmosphereNode::new(config, metrics);

    assert_eq!(node.state(), NodeState::Stopped);
    assert_ne!(node.id().as_uuid(), 0);
}

#[test]
fn test_node_start_stop() {
    let config = NodeConfig::default();
    let metrics = MockMetrics::default();
    let mut node = AtmosphereNode::new(config, metrics);

    // Start the node
    node.start().unwrap();
    assert_eq!(node.state(), NodeState::Running);

    // Can't start again while running
    assert!(node.start().is_err());

    // Stop the node
    node.stop().unwrap();
    assert_eq!(node.state(), NodeState::Stopped);
}

#[test]
fn test_start_running_is_invalid_config() {
    let mut node = AtmosphereNode::new(NodeConfig::default(), MockMetrics::default());
    node.start().unwrap();
    assert!(matches!(node.start().unwrap_err(), AtmosphereError::InvalidConfig(_)));
}

#[test]
fn test_stop_when_stopped_is_not_initialized() {
    let mut node = AtmosphereNode::new(NodeConfig::default(), MockMetrics::default());
    assert!(matches!(node.stop().unwrap_err(), AtmosphereError::NotInitialized));

    // After a full start/stop cycle the same holds again.
    node.start().unwrap();
    node.stop().unwrap();
    assert_eq!(node.state(), NodeState::Stopped);
    assert!(matches!(node.stop().unwrap_err(), AtmosphereError::NotInitialized));
}

#[test]
fn test_node_signing() {
    let config = NodeConfig::default();
    let metrics = MockMetrics::default();
    let node = AtmosphereNode::new(config, metrics);

    let data = b"test message";
    let signature = node.sign(data);

    // Verify signature
    assert!(node.public_key().verify(data, &signature).is_ok());
}
