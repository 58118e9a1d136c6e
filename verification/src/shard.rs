//! Legacy single-shard deployment support.
//!
//! Early deployments ran one shard under a string identifier; these types
//! keep that mode alive beside the numeric multi-shard routing.

use vstd::prelude::*;
use vstd::string::StringExecFns;

use crate::types::LegacyShardId;

verus! {

/// Configuration of one legacy shard.
#[derive(Debug, Clone)]
pub struct ShardConfig {
    /// Shard identifier.
    pub id: LegacyShardId,
    /// Human-readable name.
    pub name: String,
    /// Maximum number of solvers in this shard.
    pub max_solvers: usize,
}

impl ShardConfig {
    /// The single-shard configuration: the default shard, six solvers.
    pub fn default_mvp() -> (r: Self)
        ensures
            r.id@ == "default"@,
            r.name@ == "Default Shard"@,
            r.max_solvers == 6,
    {
        Self {
            id: String::from_str("default"),
            name: String::from_str("Default Shard"),
            max_solvers: 6,
        }
    }

    /// A named shard configuration with room for ten solvers.
    pub fn new(id: LegacyShardId, name: String) -> (r: Self)
        ensures
            r.id == id,
            r.name == name,
            r.max_solvers == 10,
    {
        Self { id, name, max_solvers: 10 }
    }
}

impl Default for ShardConfig {
    /// The single-shard configuration.
    fn default() -> (r: Self)
        ensures
            r.id@ == "default"@,
            r.name@ == "Default Shard"@,
            r.max_solvers == 6,
    {
        Self::default_mvp()
    }
}

/// Interface for legacy shard routing over resource keys.
pub trait ShardRouter {
    /// Routes resources to a shard identifier.
    fn route(&self, resources: &[String]) -> LegacyShardId;
}

/// The single-shard router: everything goes to the default shard.
#[derive(Debug, Clone)]
pub struct SingleShardRouter;

impl Default for SingleShardRouter {
    /// The router itself; it carries no state.
    fn default() -> (r: Self)
        ensures
            r == SingleShardRouter,
    {
        SingleShardRouter
    }
}

impl ShardRouter for SingleShardRouter {
    /// Routes every resource list to the default shard.
    fn route(&self, resources: &[String]) -> (r: LegacyShardId)
        ensures
            r@ == "default"@,
    {
        String::from_str("default")
    }
}

} // verus!
