use setu_router::{NetworkConfig, NodeConfig};

#[test]
fn test_default_config() {
    let config = NodeConfig::default();
    assert!(!config.node_id.is_empty());
    assert_eq!(config.network.port, 8000);
}

#[test]
fn default_network_is_loopback() {
    let network = NetworkConfig::default();
    assert_eq!(network.listen_addr, "127.0.0.1");
    assert_eq!(network.port, 8000);
    assert!(network.peers.is_empty());
}

#[test]
fn node_identifiers_are_fresh() {
    let a = NodeConfig::default();
    let b = NodeConfig::default();
    assert_eq!(a.node_id.len(), 36);
    assert_ne!(a.node_id, b.node_id);
}
