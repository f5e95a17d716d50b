use atmosphere_core::cost::{CostCollector, CostWeights, NodeCost};
use atmosphere_core::metrics::MockMetrics;
use atmosphere_core::node::NodeId;

#[test]
fn test_cost_calculation_plugged_in() {
    let metrics = MockMetrics {
        battery: Some(80),
        on_battery: false, // Plugged in
        cpu: 3000,
        memory_mb: 2048,
        total_memory_mb: 4096,
    };

    let collector = CostCollector::new(metrics);
    let cost = collector.calculate_local_cost();

    // Battery cost should be low when plugged in
    assert!((cost.battery_cost as f64 / 10000.0) < 0.2);
    assert!((cost.cpu_cost as f64 / 10000.0 - 0.3).abs() < f64::EPSILON);
}

#[test]
fn test_cost_calculation_low_battery() {
    let metrics = MockMetrics {
        battery: Some(15),
        on_battery: true,
        cpu: 5000,
        memory_mb: 1024,
        total_memory_mb: 4096,
    };

    let collector = CostCollector::new(metrics);
    let cost = collector.calculate_local_cost();

    // Battery cost should be high at low battery
    assert!((cost.battery_cost as f64 / 10000.0) >= 0.8);
}

#[test]
fn test_memory_cost() {
    let metrics = MockMetrics {
        battery: Some(100),
        on_battery: false,
        cpu: 0,
        memory_mb: 1024, // 25% available
        total_memory_mb: 4096,
    };

    let collector = CostCollector::new(metrics);
    let cost = collector.calculate_local_cost();

    // Memory cost should be ~0.75 (75% used)
    assert!((cost.memory_cost as f64 / 10000.0 - 0.75).abs() < 0.01);
}

#[test]
fn test_peer_costs() {
    let metrics = MockMetrics::default();
    let mut collector = CostCollector::new(metrics);

    let peer1 = NodeId::new();
    let peer2 = NodeId::new();

    collector.update_peer_cost(peer1, NodeCost { total_cost: 8000, ..Default::default() });
    collector.update_peer_cost(peer2, NodeCost { total_cost: 3000, ..Default::default() });

    // Should find peer2 (lower cost)
    assert_eq!(collector.find_lowest_cost_peer(), Some(peer2));

    // Sorted should have peer2 first
    let sorted = collector.get_sorted_peer_costs();
    assert_eq!(sorted.len(), 2);
    assert_eq!(sorted[0].0, peer2);
}

#[test]
fn test_custom_weights() {
    let metrics = MockMetrics::default();
    let mut collector = CostCollector::new(metrics);

    let new_weights = CostWeights {
        battery: 1000,
        cpu: 5000,
        memory: 3000,
        network: 1000,
    };

    collector.set_weights(new_weights);
    let weights = collector.get_weights();

    assert_eq!(weights.battery, 1000);
    assert_eq!(weights.cpu, 5000);
}

#[test]
fn test_total_cost_exact() {
    // battery 80% on battery: 1 - 0.8*0.8 = 0.36; cpu 0.3; memory half used
    // 0.5; network baseline 0.2; default weights 0.4/0.25/0.2/0.15:
    // 0.36*0.4 + 0.3*0.25 + 0.5*0.2 + 0.2*0.15 = 0.349
    let collector = CostCollector::new(MockMetrics::default());
    let cost = collector.calculate_local_cost();
    assert_eq!(cost.battery_cost, 3600);
    assert_eq!(cost.cpu_cost, 3000);
    assert_eq!(cost.memory_cost, 5000);
    assert_eq!(cost.network_cost, 2000);
    assert_eq!(cost.total_cost, 3490);
}

#[test]
fn test_battery_cost_steps() {
    let at = |percent: u32| {
        let collector = CostCollector::new(MockMetrics {
            battery: Some(percent),
            on_battery: true,
            ..MockMetrics::default()
        });
        collector.calculate_local_cost().battery_cost
    };

    assert_eq!(at(100), 2000);
    assert_eq!(at(50), 6000);
    assert_eq!(at(30), 7600);
    assert_eq!(at(20), 8000);
    assert_eq!(at(10), 10000);
    assert_eq!(at(5), 10000);

    // Decreasing battery never decreases the cost along these steps.
    assert!(at(100) <= at(50));
    assert!(at(50) <= at(30));
    assert!(at(30) <= at(20));
    assert!(at(20) <= at(10));
}

#[test]
fn test_battery_cost_unknown_percent() {
    let collector = CostCollector::new(MockMetrics {
        battery: None,
        on_battery: true,
        ..MockMetrics::default()
    });
    assert_eq!(collector.calculate_local_cost().battery_cost, 5000);
}

#[test]
fn test_memory_cost_monotonic() {
    let at = |available: u64| {
        let collector = CostCollector::new(MockMetrics {
            memory_mb: available,
            total_memory_mb: 4096,
            ..MockMetrics::default()
        });
        collector.calculate_local_cost().memory_cost
    };

    // More used memory never yields a lower cost.
    assert!(at(4096) <= at(3072));
    assert!(at(3072) <= at(2048));
    assert!(at(2048) <= at(1024));
    assert!(at(1024) <= at(0));
    assert_eq!(at(0), 10000);
    assert_eq!(at(4096), 0);
}

#[test]
fn test_memory_cost_unknown_total() {
    let collector = CostCollector::new(MockMetrics {
        memory_mb: 1024,
        total_memory_mb: 0,
        ..MockMetrics::default()
    });
    assert_eq!(collector.calculate_local_cost().memory_cost, 5000);
}

#[test]
fn test_sorted_peer_costs_keeps_tie_order() {
    let mut collector = CostCollector::new(MockMetrics::default());

    let first = NodeId::new();
    let second = NodeId::new();
    let cheap = NodeId::new();

    collector.update_peer_cost(first, NodeCost { total_cost: 7000, ..Default::default() });
    collector.update_peer_cost(second, NodeCost { total_cost: 7000, ..Default::default() });
    collector.update_peer_cost(cheap, NodeCost { total_cost: 1000, ..Default::default() });

    let sorted = collector.get_sorted_peer_costs();
    assert_eq!(sorted.len(), 3);
    assert_eq!(sorted[0].0, cheap);
    // Entries of equal cost keep insertion order, first-seen first.
    assert_eq!(sorted[1].0, first);
    assert_eq!(sorted[2].0, second);

    // Ties on the minimum are broken the same way.
    collector.remove_peer_cost(&cheap);
    assert_eq!(collector.find_lowest_cost_peer(), Some(first));
}

#[test]
fn test_find_lowest_cost_peer_empty() {
    let collector = CostCollector::new(MockMetrics::default());
    assert_eq!(collector.find_lowest_cost_peer(), None);
    assert!(collector.get_sorted_peer_costs().is_empty());
}
