use setu_router::{SolverInfo, SolverRegistry, SolverStatus};

#[test]
fn test_solver_info_creation() {
    let solver = SolverInfo::new("solver-1".to_string(), "127.0.0.1:9001".to_string());

    assert_eq!(solver.id, "solver-1");
    assert_eq!(solver.status, SolverStatus::Online);
    assert!(solver.is_available());
}

#[test]
fn test_solver_resource_handling() {
    let solver = SolverInfo::new("solver-1".to_string(), "127.0.0.1:9001".to_string())
        .with_domains(vec!["account:".to_string(), "coin:".to_string()]);

    assert!(solver.can_handle_resource("account:alice"));
    assert!(solver.can_handle_resource("coin:btc"));
    assert!(!solver.can_handle_resource("nft:token1"));
}

#[test]
fn test_registry_operations() {
    let mut registry = SolverRegistry::new();

    let solver1 = SolverInfo::new("solver-1".to_string(), "127.0.0.1:9001".to_string());
    let solver2 = SolverInfo::new("solver-2".to_string(), "127.0.0.1:9002".to_string());

    registry.register(solver1);
    registry.register(solver2);

    assert_eq!(registry.count(), 2);
    assert_eq!(registry.available_count(), 2);

    registry.unregister(&"solver-1".to_string());
    assert_eq!(registry.count(), 1);
}

#[test]
fn wildcard_domain_handles_everything() {
    let solver = SolverInfo::new("solver-1".to_string(), "127.0.0.1:9001".to_string())
        .with_domains(vec!["*".to_string()]);

    assert!(solver.can_handle_resource("account:alice"));
    assert!(solver.can_handle_resource("anything at all"));
}

#[test]
fn stale_heartbeat_excludes_solver() {
    let mut registry = SolverRegistry::with_timeout_ms(30_000);

    let solver = SolverInfo::new("solver-1".to_string(), "127.0.0.1:9001".to_string());
    registry.register_at(solver, 1_000);

    // within the window the solver is available
    let fresh = registry.get_available_at(20_000);
    assert_eq!(fresh.len(), 1);

    // 31 seconds past the heartbeat it is demoted and excluded
    let stale = registry.get_available_at(32_001);
    assert!(stale.is_empty());
    assert_eq!(registry.get(&"solver-1".to_string()).unwrap().status, SolverStatus::Unknown);
}

#[test]
fn heartbeat_revives_unknown_solver() {
    let mut registry = SolverRegistry::with_timeout_ms(30_000);

    let solver = SolverInfo::new("solver-1".to_string(), "127.0.0.1:9001".to_string());
    registry.register_at(solver, 1_000);
    assert!(registry.get_available_at(40_000).is_empty());

    registry.heartbeat_at(&"solver-1".to_string(), 41_000);
    let back = registry.get_available_at(42_000);
    assert_eq!(back.len(), 1);
    assert_eq!(back[0].status, SolverStatus::Online);
}

#[test]
fn status_and_load_updates_apply() {
    let mut registry = SolverRegistry::with_timeout_ms(30_000);
    let solver =
        SolverInfo::new("solver-1".to_string(), "127.0.0.1:9001".to_string()).with_capacity(100);
    registry.register_at(solver, 1_000);

    registry.update_load(&"solver-1".to_string(), 100);
    assert!(registry.get_available_at(2_000).is_empty(), "at capacity is not available");

    registry.update_load(&"solver-1".to_string(), 50);
    assert_eq!(registry.get_available_at(3_000).len(), 1);

    registry.update_status(&"solver-1".to_string(), SolverStatus::Busy);
    assert!(registry.get_available_at(4_000).is_empty(), "busy is not available");
}

#[test]
fn available_for_resource_respects_domains() {
    let mut registry = SolverRegistry::with_timeout_ms(30_000);
    registry.register_at(
        SolverInfo::new("accounts".to_string(), "127.0.0.1:9001".to_string())
            .with_domains(vec!["account:".to_string()]),
        1_000,
    );
    registry.register_at(
        SolverInfo::new("anything".to_string(), "127.0.0.1:9002".to_string()),
        1_000,
    );

    let for_account = registry.get_available_for_resource_at("account:alice", 2_000);
    assert_eq!(for_account.len(), 2);

    let for_nft = registry.get_available_for_resource_at("nft:token1", 3_000);
    assert_eq!(for_nft.len(), 1);
    assert_eq!(for_nft[0].id, "anything");
}

#[test]
fn register_replaces_entry_with_same_id() {
    let mut registry = SolverRegistry::new();
    registry.register_at(
        SolverInfo::new("solver-1".to_string(), "127.0.0.1:9001".to_string()),
        1_000,
    );
    registry.register_at(
        SolverInfo::new("solver-1".to_string(), "127.0.0.1:9999".to_string()),
        2_000,
    );

    assert_eq!(registry.count(), 1);
    assert_eq!(registry.get(&"solver-1".to_string()).unwrap().address, "127.0.0.1:9999");
}
