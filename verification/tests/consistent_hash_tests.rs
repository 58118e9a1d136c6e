use setu_router::{ConsistentHashStrategy, RouterError, SolverInfo};

fn create_test_solvers(count: usize) -> Vec<SolverInfo> {
    (1..=count)
        .map(|i| SolverInfo::new(format!("solver-{}", i), format!("127.0.0.1:{}", 9000 + i)))
        .collect()
}

#[test]
fn consistent_hash_test_consistent_hash_deterministic() {
    let mut strategy = ConsistentHashStrategy::default();
    let solvers = create_test_solvers(6);

    let result1 = strategy.select(&solvers, "account:alice").unwrap();
    let result2 = strategy.select(&solvers, "account:alice").unwrap();

    assert_eq!(result1.id, result2.id, "Same key should route to same solver");
}

#[test]
fn consistent_hash_test_consistent_hash_distribution() {
    let mut strategy = ConsistentHashStrategy::default();
    let solvers = create_test_solvers(6);

    let mut distribution = std::collections::HashMap::new();

    for i in 0..1000 {
        let key = format!("resource:{}", i);
        let result = strategy.select(&solvers, &key).unwrap();
        *distribution.entry(result.id).or_insert(0) += 1;
    }

    // All 6 solvers should receive traffic
    assert_eq!(distribution.len(), 6);

    // Check reasonable distribution (each solver gets roughly 10-30%)
    for count in distribution.values() {
        assert!(*count > 50 && *count < 300, "count={} is outside expected range", count);
    }
}

#[test]
fn consistent_hash_test_empty_solvers() {
    let mut strategy = ConsistentHashStrategy::default();
    let result = strategy.select(&Vec::new(), "key");
    assert!(matches!(result, Err(RouterError::NoSolverAvailable)));
}

#[test]
fn consistent_hash_test_single_solver() {
    let mut strategy = ConsistentHashStrategy::default();
    let solvers = create_test_solvers(1);

    let result = strategy.select(&solvers, "any_key").unwrap();
    assert_eq!(result.id, "solver-1");
}

#[test]
fn strategy_test_consistent_hash_deterministic() {
    let mut strategy = ConsistentHashStrategy::default();
    let solvers = create_test_solvers(6);

    let result1 = strategy.select(&solvers, "account:alice").unwrap();
    let result2 = strategy.select(&solvers, "account:alice").unwrap();

    assert_eq!(result1.id, result2.id, "Same key should route to same solver");
}

#[test]
fn strategy_test_consistent_hash_distribution() {
    let mut strategy = ConsistentHashStrategy::default();
    let solvers = create_test_solvers(6);

    let mut distribution = std::collections::HashMap::new();

    for i in 0..1000 {
        let key = format!("resource:{}", i);
        let result = strategy.select(&solvers, &key).unwrap();
        *distribution.entry(result.id).or_insert(0) += 1;
    }

    // All 6 solvers should receive traffic
    assert_eq!(distribution.len(), 6);

    // Check reasonable distribution (each solver gets roughly 10-30%)
    for count in distribution.values() {
        assert!(*count > 50 && *count < 300, "count={} is outside expected range", count);
    }
}

#[test]
fn strategy_test_empty_solvers() {
    let mut strategy = ConsistentHashStrategy::default();
    let result = strategy.select(&Vec::new(), "key");
    assert!(matches!(result, Err(RouterError::NoSolverAvailable)));
}

#[test]
fn strategy_test_single_solver() {
    let mut strategy = ConsistentHashStrategy::default();
    let solvers = create_test_solvers(1);

    let result = strategy.select(&solvers, "any_key").unwrap();
    assert_eq!(result.id, "solver-1");
}

#[test]
fn selection_is_stable_under_load_changes() {
    let mut strategy = ConsistentHashStrategy::default();
    let mut solvers = create_test_solvers(6);

    let before = strategy.select(&solvers, "account:alice").unwrap();

    // load and status changes leave the ring untouched
    solvers[0].pending_load = 9999;
    solvers[3].pending_load = 123;

    let after = strategy.select(&solvers, "account:alice").unwrap();
    assert_eq!(before.id, after.id);
}

#[test]
fn membership_change_rebuilds_the_ring() {
    let mut strategy = ConsistentHashStrategy::with_virtual_nodes(150);
    let six = create_test_solvers(6);
    let five = create_test_solvers(5);

    // both calls must answer from the ring of the set passed in
    let from_six = strategy.select(&six, "resource:42").unwrap();
    assert!(six.iter().any(|s| s.id == from_six.id));

    let from_five = strategy.select(&five, "resource:42").unwrap();
    assert!(five.iter().any(|s| s.id == from_five.id));
}
