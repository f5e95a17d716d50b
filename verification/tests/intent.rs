use atmosphere_core::capability::{Capability, CapabilityRegistry};
use atmosphere_core::cost::{CostCollector, NodeCost};
use atmosphere_core::error::AtmosphereError;
use atmosphere_core::intent::{Intent, IntentRouter, IntentStatus};
use atmosphere_core::metrics::MockMetrics;
use atmosphere_core::node::NodeId;

fn create_test_router() -> IntentRouter<MockMetrics> {
    let capabilities = CapabilityRegistry::new();
    let cost_collector = CostCollector::new(MockMetrics::default());
    IntentRouter::new(capabilities, cost_collector)
}

#[test]
fn test_intent_creation() {
    let intent = Intent::new("camera", "capture")
        .with_param("resolution", "1080p")
        .with_priority(8)
        .with_max_cost(5000)
        .with_timeout_ms(5000);

    assert_eq!(intent.capability_type, "camera");
    assert_eq!(intent.action, "capture");
    assert_eq!(intent.priority, 8);
    assert_eq!(intent.max_cost, 5000);
    assert_eq!(intent.timeout_ms, 5000);
    assert!(intent.params.iter().any(|(k, _)| k == "resolution"));
}

#[test]
fn test_intent_prefer_remote() {
    let intent = Intent::new("compute", "process").prefer_remote();
    assert!(!intent.prefer_local);
}

#[test]
fn test_route_local_capability() {
    let capabilities = CapabilityRegistry::new();
    let metrics = MockMetrics {
        battery: Some(80),
        on_battery: false,
        cpu: 2000,
        memory_mb: 2048,
        total_memory_mb: 4096,
    };
    let cost_collector = CostCollector::new(metrics);
    let mut router = IntentRouter::new(capabilities, cost_collector);

    // Register a local capability
    router.capabilities_mut().register(Capability::new("camera", "Front Camera"));
    router.set_local_node_id(NodeId::new());

    let intent = Intent::new("camera", "capture");
    let decision = router.route(intent).unwrap();

    assert!(decision.is_local);
}

#[test]
fn test_route_no_capability() {
    let mut router = create_test_router();

    let intent = Intent::new("nonexistent", "action");
    let result = router.route(intent);

    assert!(result.is_err());
    assert!(matches!(
        result.unwrap_err(),
        AtmosphereError::NoCapablePeer(_)
    ));
}

#[test]
fn test_intent_status_tracking() {
    let mut capabilities = CapabilityRegistry::new();
    capabilities.register(Capability::new("test", "Test Cap"));

    let cost_collector = CostCollector::new(MockMetrics::default());
    let mut router = IntentRouter::new(capabilities, cost_collector);
    router.set_local_node_id(NodeId::new());

    let intent = Intent::new("test", "action");
    let intent_id = intent.id;

    router.route(intent).unwrap();

    let status = router.get_status(intent_id).unwrap();
    assert!(matches!(status, IntentStatus::Routed { .. }));

    router.complete(intent_id, "{\"success\":true}".to_string());

    let status = router.get_status(intent_id).unwrap();
    assert!(matches!(status, IntentStatus::Completed { .. }));

    let result = router.get_result(intent_id).unwrap();
    assert!(result.contains("\"success\":true"));
}

#[test]
fn test_intent_cancellation() {
    let mut router = create_test_router();

    // Create and track an intent without routing it
    let intent = Intent::new("test", "action");
    let intent_id = intent.id;

    router.track(intent);

    router.cancel(intent_id);

    let status = router.get_status(intent_id).unwrap();
    assert_eq!(status, IntentStatus::Cancelled);
}

#[test]
fn test_active_count() {
    let mut router = create_test_router();

    assert_eq!(router.active_count(), 0);

    // Add some tracked intents: one Pending, one Cancelled
    let intent1 = Intent::new("a", "1");
    let intent2 = Intent::new("b", "2");
    let cancelled_id = intent2.id;

    router.track(intent1);
    router.track(intent2);
    router.cancel(cancelled_id);

    assert_eq!(router.active_count(), 1); // Only pending counts
}

#[test]
fn test_route_failure_records_failed_status() {
    let mut router = create_test_router();

    let intent = Intent::new("nonexistent", "action");
    let intent_id = intent.id;
    assert!(router.route(intent).is_err());

    let status = router.get_status(intent_id).unwrap();
    assert!(matches!(status, IntentStatus::Failed { .. }));
    assert_eq!(router.active_count(), 0);
}

#[test]
fn test_route_local_records_routed_status() {
    let mut router = create_test_router();
    router.capabilities_mut().register(Capability::new("camera", "Front Camera"));
    let local_id = NodeId::new();
    router.set_local_node_id(local_id);

    let intent = Intent::new("camera", "capture");
    let intent_id = intent.id;
    let decision = router.route(intent).unwrap();

    assert!(decision.is_local);
    assert_eq!(decision.target, local_id);
    match router.get_status(intent_id).unwrap() {
        IntentStatus::Routed { target } => assert_eq!(target, local_id),
        other => panic!("expected Routed, got {:?}", other),
    }
}

#[test]
fn test_route_picks_cheapest_remote() {
    let mut router = create_test_router();

    let expensive = NodeId::new();
    let cheap = NodeId::new();
    let cheap_cap = Capability::new("compute", "Cheap Compute");
    let cheap_cap_id = cheap_cap.id;
    router.capabilities_mut().update_remote(expensive, vec![
        Capability::new("compute", "Expensive Compute"),
    ]);
    router.capabilities_mut().update_remote(cheap, vec![cheap_cap]);
    router.cost_collector_mut().update_peer_cost(
        expensive,
        NodeCost { total_cost: 8000, ..Default::default() },
    );
    router.cost_collector_mut().update_peer_cost(
        cheap,
        NodeCost { total_cost: 3000, ..Default::default() },
    );

    let intent = Intent::new("compute", "run");
    let decision = router.route(intent).unwrap();

    assert!(!decision.is_local);
    assert_eq!(decision.target, cheap);
    assert_eq!(decision.capability_id, cheap_cap_id);
    assert_eq!(decision.cost, 3000);
}

#[test]
fn test_route_falls_back_to_local_over_budget() {
    // A remote peer exists but exceeds the budget; a local capability
    // exists. The router falls back to local execution with no budget
    // check against the local cost.
    let mut router = create_test_router();
    router.capabilities_mut().register(Capability::new("compute", "Local Compute"));
    let peer = NodeId::new();
    router.capabilities_mut().update_remote(peer, vec![
        Capability::new("compute", "Remote Compute"),
    ]);
    router.cost_collector_mut().update_peer_cost(
        peer,
        NodeCost { total_cost: 9000, ..Default::default() },
    );
    let local_id = NodeId::new();
    router.set_local_node_id(local_id);

    // Local total with the default mock is 0.349, above this budget too.
    let intent = Intent::new("compute", "run").prefer_remote().with_max_cost(100);
    let decision = router.route(intent).unwrap();

    assert!(decision.is_local);
    assert_eq!(decision.target, local_id);
}

#[test]
fn test_route_without_local_id_fails() {
    // A local decision needs the local node id; routing fails rather than
    // fabricating one.
    let mut router = create_test_router();
    router.capabilities_mut().register(Capability::new("camera", "Front Camera"));

    let intent = Intent::new("camera", "capture");
    let result = router.route(intent);
    assert!(matches!(result.unwrap_err(), AtmosphereError::NotInitialized));
}

#[test]
fn test_cleanup_removes_old_terminal_intents() {
    let mut router = create_test_router();

    let mut old_done = Intent::new("a", "1");
    old_done.created_at_ms = 0;
    let old_done_id = old_done.id;

    let mut old_active = Intent::new("b", "2");
    old_active.created_at_ms = 0;
    let old_active_id = old_active.id;

    router.track(old_done);
    router.track(old_active);
    router.fail(old_done_id, "gave up".to_string());

    router.cleanup(60_000);

    // The aged terminal intent is gone; the active one stays.
    assert!(router.get_status(old_done_id).is_none());
    assert!(router.get_status(old_active_id).is_some());
}
