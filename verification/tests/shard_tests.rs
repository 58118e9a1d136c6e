use setu_router::{Shard, ShardConfig, ShardManager, ShardRouter, SingleShardRouter};

#[test]
fn test_default_shard_config() {
    let config = ShardConfig::default_mvp();
    assert_eq!(config.id, "default");
    assert_eq!(config.max_solvers, 6);
}

#[test]
fn test_single_shard_router() {
    let router = SingleShardRouter;

    // All resources route to default shard
    assert_eq!(router.route(&["account:alice".to_string()]), "default");
    assert_eq!(router.route(&["nft:token1".to_string()]), "default");
    assert_eq!(router.route(&[]), "default");
}

#[test]
fn test_shard_creation() {
    let mut shard = Shard::new("shard1".to_string());
    assert_eq!(shard.id, "shard1");

    shard.add_node("node1".to_string());
    assert_eq!(shard.node_ids.len(), 1);
}

#[test]
fn test_shard_manager() {
    let mut manager = ShardManager::new();

    let mut shard1 = Shard::new("shard1".to_string());
    shard1.add_resource("resource1".to_string());

    manager.register_shard(shard1);

    let routed = manager.route_to_shard(&"resource1".to_string());
    assert_eq!(routed, Some("shard1".to_string()));
}

#[test]
fn shard_nodes_and_resources_stay_unique() {
    let mut shard = Shard::new("shard1".to_string());
    shard.add_node("node1".to_string());
    shard.add_node("node1".to_string());
    shard.add_resource("r1".to_string());
    shard.add_resource("r1".to_string());

    assert_eq!(shard.node_ids.len(), 1);
    assert_eq!(shard.resource_domain.len(), 1);
    assert!(shard.contains_resource(&"r1".to_string()));
    assert!(!shard.contains_resource(&"r2".to_string()));
}

#[test]
fn route_to_shard_without_shards_is_none() {
    let manager = ShardManager::new();
    assert_eq!(manager.route_to_shard(&"anything".to_string()), None);
}
