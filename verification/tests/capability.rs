use atmosphere_core::capability::{Capability, CapabilityRegistry};
use atmosphere_core::node::NodeId;

#[test]
fn test_capability_creation() {
    let cap = Capability::new("camera", "Front Camera")
        .with_description("High resolution front-facing camera")
        .with_version("2.0.0")
        .with_cost_weight(15000)
        .with_metadata("resolution", "4K");

    assert_eq!(cap.capability_type, "camera");
    assert_eq!(cap.name, "Front Camera");
    assert_eq!(cap.version, "2.0.0");
    assert_eq!(cap.cost_weight, 15000);
    assert!(cap.metadata.iter().any(|(k, v)| k == "resolution" && v == "4K"));
}

#[test]
fn test_registry_register_unregister() {
    let mut registry = CapabilityRegistry::new();

    let cap = Capability::new("compute", "GPU Compute");
    let id = registry.register(cap.clone());

    assert!(registry.get(id).is_some());
    assert_eq!(registry.list_local().len(), 1);

    registry.unregister(id);
    assert!(registry.get(id).is_none());
    assert_eq!(registry.list_local().len(), 0);
}

#[test]
fn test_registry_find_by_type() {
    let mut registry = CapabilityRegistry::new();

    registry.register(Capability::new("camera", "Front Camera"));
    registry.register(Capability::new("camera", "Back Camera"));
    registry.register(Capability::new("compute", "CPU"));

    let cameras = registry.find_local_by_type("camera");
    assert_eq!(cameras.len(), 2);

    let compute = registry.find_local_by_type("compute");
    assert_eq!(compute.len(), 1);

    let storage = registry.find_local_by_type("storage");
    assert_eq!(storage.len(), 0);
}

#[test]
fn test_registry_remote_capabilities() {
    let mut registry = CapabilityRegistry::new();
    let peer_id = NodeId::new();

    let caps = vec![
        Capability::new("camera", "Peer Camera"),
        Capability::new("storage", "Peer Storage"),
    ];

    registry.update_remote(peer_id, caps);

    let peer_caps = registry.get_remote(&peer_id);
    assert_eq!(peer_caps.len(), 2);

    let camera_peers = registry.find_peers_with_capability("camera");
    assert_eq!(camera_peers.len(), 1);
    assert_eq!(camera_peers[0].0, peer_id);
}

#[test]
fn test_registry_has_capability() {
    let mut registry = CapabilityRegistry::new();

    assert!(!registry.has_local_capability("camera"));

    registry.register(Capability::new("camera", "Test Camera"));

    assert!(registry.has_local_capability("camera"));
    assert!(!registry.has_local_capability("compute"));
}

#[test]
fn test_find_by_type_skips_unavailable() {
    let mut registry = CapabilityRegistry::new();

    let mut cap = Capability::new("camera", "Broken Camera");
    cap.available = false;
    registry.register(cap);
    registry.register(Capability::new("camera", "Working Camera"));

    let cameras = registry.find_local_by_type("camera");
    assert_eq!(cameras.len(), 1);
    assert_eq!(cameras[0].name, "Working Camera");
    assert!(cameras.iter().all(|c| c.available));
    assert!(!registry.find_peers_with_capability("camera").iter().any(|(_, c)| !c.available));
}

#[test]
fn test_update_remote_replaces_wholesale() {
    let mut registry = CapabilityRegistry::new();
    let peer_id = NodeId::new();

    registry.update_remote(peer_id, vec![
        Capability::new("camera", "Old Camera"),
        Capability::new("storage", "Old Storage"),
    ]);
    registry.update_remote(peer_id, vec![Capability::new("compute", "New Compute")]);

    let caps = registry.get_remote(&peer_id);
    assert_eq!(caps.len(), 1);
    assert_eq!(caps[0].capability_type, "compute");
    assert!(registry.find_peers_with_capability("camera").is_empty());

    registry.remove_remote(&peer_id);
    assert!(registry.get_remote(&peer_id).is_empty());
}

#[test]
fn test_total_count() {
    let mut registry = CapabilityRegistry::new();
    assert_eq!(registry.total_count(), 0);

    registry.register(Capability::new("camera", "Local Camera"));
    let peer_id = NodeId::new();
    registry.update_remote(peer_id, vec![
        Capability::new("storage", "Peer Storage"),
        Capability::new("compute", "Peer Compute"),
    ]);

    assert_eq!(registry.total_count(), 3);
}
