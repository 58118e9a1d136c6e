//! Node configuration values.
//!
//! Reading the environment happens outside the library; these are the
//! plain configuration values the routing core works with.

use vstd::prelude::*;
use vstd::string::StringExecFns;

verus! {

/// Network configuration of a node.
#[derive(Debug, Clone)]
pub struct NetworkConfig {
    /// Listen address.
    pub listen_addr: String,
    /// Listen port.
    pub port: u16,
    /// Peer addresses.
    pub peers: Vec<String>,
}

impl Default for NetworkConfig {
    /// Loopback on port 8000 with no peers.
    fn default() -> (r: Self)
        ensures
            r.listen_addr@ == "127.0.0.1"@,
            r.port == 8000,
            r.peers@.len() == 0,
    {
        Self { listen_addr: String::from_str("127.0.0.1"), port: 8000, peers: Vec::new() }
    }
}

/// Configuration of a node.
#[derive(Debug, Clone)]
pub struct NodeConfig {
    /// Node identifier.
    pub node_id: String,
    /// Network configuration.
    pub network: NetworkConfig,
}

/// Relies on `uuid::Uuid::new_v4` and its hyphenated display form: a
/// fresh random identifier, 36 characters long. Nothing more is assumed
/// of the value; it is random.
#[verifier::external_body]
fn fresh_node_id() -> (r: String)
    ensures
        r@.len() == 36,
{
    uuid::Uuid::new_v4().to_string()
}

impl Default for NodeConfig {
    /// A fresh random node identifier over the default network settings.
    fn default() -> (r: Self)
        ensures
            r.node_id@.len() == 36,
            r.network.listen_addr@ == "127.0.0.1"@,
            r.network.port == 8000,
            r.network.peers@.len() == 0,
    {
        Self { node_id: fresh_node_id(), network: NetworkConfig::default() }
    }
}

} // verus!
