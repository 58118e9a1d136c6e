use setu_router::{LoadBalancedStrategy, RouterError, SolverInfo};

fn create_test_solvers(count: usize) -> Vec<SolverInfo> {
    (1..=count)
        .map(|i| SolverInfo::new(format!("solver-{}", i), format!("127.0.0.1:{}", 9000 + i)))
        .collect()
}

#[test]
fn load_balanced_test_load_balanced_selection() {
    let strategy = LoadBalancedStrategy::default();
    let mut solvers = create_test_solvers(3);

    // Set different loads
    solvers[0].pending_load = 100;
    solvers[1].pending_load = 50; // Lowest load
    solvers[2].pending_load = 200;

    let result = strategy.select(&solvers, "any").unwrap();

    // Should select solver with lowest load
    assert_eq!(result.id, "solver-2");
}

#[test]
fn load_balanced_test_empty_solvers() {
    let strategy = LoadBalancedStrategy::default();
    let result = strategy.select(&Vec::new(), "key");
    assert!(matches!(result, Err(RouterError::NoSolverAvailable)));
}

#[test]
fn strategy_test_load_balanced_selection() {
    let strategy = LoadBalancedStrategy::default();
    let mut solvers = create_test_solvers(3);

    // Set different loads
    solvers[0].pending_load = 100;
    solvers[1].pending_load = 50; // Lowest load
    solvers[2].pending_load = 200;

    let result = strategy.select(&solvers, "any").unwrap();

    // Should select solver with lowest load
    assert_eq!(result.id, "solver-2");
}

#[test]
fn weight_breaks_even_load() {
    let strategy = LoadBalancedStrategy::default();
    let mut solvers = create_test_solvers(2);
    solvers[0].pending_load = 100;
    solvers[1].pending_load = 100;
    solvers[1].weight = 300; // triple weight wins at equal load

    let result = strategy.select(&solvers, "ignored").unwrap();
    assert_eq!(result.id, "solver-2");
}

#[test]
fn all_above_threshold_falls_back_to_least_loaded() {
    let strategy = LoadBalancedStrategy::default();
    let mut solvers = create_test_solvers(3);
    // all at or above nine tenths of their capacity of 10000
    solvers[0].pending_load = 9500;
    solvers[1].pending_load = 9200;
    solvers[2].pending_load = 9900;

    let result = strategy.select(&solvers, "ignored").unwrap();
    assert_eq!(result.id, "solver-2");
}

#[test]
fn zero_capacity_counts_as_fully_loaded() {
    let strategy = LoadBalancedStrategy::default();
    let mut solvers = create_test_solvers(2);
    solvers[0].max_capacity = 0; // ratio one, never below threshold
    solvers[1].pending_load = 10;

    let result = strategy.select(&solvers, "ignored").unwrap();
    assert_eq!(result.id, "solver-2");
}

#[test]
fn custom_threshold_is_honoured() {
    // threshold of one half: a solver at 60% is no candidate
    let strategy = LoadBalancedStrategy::with_threshold(1, 2);
    let mut solvers = create_test_solvers(2);
    solvers[0].pending_load = 6000;
    solvers[1].pending_load = 4000;

    let result = strategy.select(&solvers, "ignored").unwrap();
    assert_eq!(result.id, "solver-2");
}
