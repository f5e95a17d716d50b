use atmosphere_core::error::AtmosphereError;
use atmosphere_core::metrics::{MockMetrics, NetworkType, PlatformMetrics};
use atmosphere_core::model::ModelState;
use atmosphere_core::peer::{peers_to_json, Peer};
use atmosphere_core::VERSION;

#[test]
fn test_version() {
    assert!(!VERSION.is_empty());
}

#[test]
fn test_model_state() {
    let mut state = ModelState::new();
    assert!(!state.load());
    state.store(true);
    assert!(state.load());
    state.store(false);
    assert!(!state.load());
}

#[test]
fn test_mock_metrics_default() {
    let metrics = MockMetrics::default();
    assert_eq!(metrics.battery_percent(), Some(80));
    assert!(metrics.is_on_battery());
    assert_eq!(metrics.cpu_load(), 3000);
    assert_eq!(metrics.available_memory_mb(), 2048);
}

#[test]
fn test_mock_metrics_custom() {
    let metrics = MockMetrics {
        battery: None,
        on_battery: false,
        cpu: 8000,
        memory_mb: 1024,
        total_memory_mb: 8192,
    };
    assert_eq!(metrics.battery_percent(), None);
    assert!(!metrics.is_on_battery());
    assert_eq!(metrics.cpu_load(), 8000);
    assert_eq!(metrics.available_memory_mb(), 1024);
    assert_eq!(metrics.total_memory_mb(), 8192);
}

#[test]
fn test_network_type_default() {
    let net_type = NetworkType::default();
    assert_eq!(net_type, NetworkType::Unknown);
}

#[test]
fn test_error_display() {
    let err = AtmosphereError::CapabilityNotFound("camera".to_string());
    assert_eq!(err.message(), "Capability not found: camera");
}

#[test]
fn test_error_messages() {
    assert_eq!(AtmosphereError::NotInitialized.message(), "Node not initialized");
    assert_eq!(
        AtmosphereError::NoCapablePeer("compute".to_string()).message(),
        "No capable peer found for intent: compute"
    );
    assert_eq!(
        AtmosphereError::Network("refused".to_string()).message(),
        "Network error: refused"
    );
    assert_eq!(
        AtmosphereError::InvalidConfig("bad port".to_string()).message(),
        "Invalid configuration: bad port"
    );
}

#[test]
fn test_peers_json() {
    // Empty peers
    let mut peers: Vec<Peer> = Vec::new();
    let json = peers_to_json(&peers);
    assert_eq!(json, "[]");

    // Add a peer
    peers.push(Peer {
        node_id: "peer_192_168_1_1_11451".to_string(),
        name: "Peer at 192.168.1.1:11451".to_string(),
        address: "192.168.1.1:11451".to_string(),
        connected: true,
        latency_ms: None,
        capabilities: vec![],
    });
    let json = peers_to_json(&peers);
    assert!(json.contains("192.168.1.1:11451"));
}

#[test]
fn test_peer_to_json_exact() {
    let peer = Peer {
        node_id: "node-1".to_string(),
        name: "Phone".to_string(),
        address: "10.0.0.2:8765".to_string(),
        connected: true,
        latency_ms: Some(42),
        capabilities: vec!["camera".to_string(), "storage".to_string()],
    };
    assert_eq!(
        peer.to_json(),
        "{\"node_id\":\"node-1\",\"name\":\"Phone\",\"address\":\"10.0.0.2:8765\",\
         \"connected\":true,\"latency_ms\":42,\"capabilities\":[\"camera\",\"storage\"]}"
    );

    let silent = Peer {
        node_id: "node-2".to_string(),
        name: "Laptop".to_string(),
        address: "10.0.0.3:8765".to_string(),
        connected: false,
        latency_ms: None,
        capabilities: vec![],
    };
    assert_eq!(
        silent.to_json(),
        "{\"node_id\":\"node-2\",\"name\":\"Laptop\",\"address\":\"10.0.0.3:8765\",\
         \"connected\":false,\"latency_ms\":null,\"capabilities\":[]}"
    );
}
