//! Subnet-based shard selection.
//!
//! Transfers of one subnet share application state and should co-locate:
//! the 32-byte subnet identifier is routed into a fixed shard count the same
//! way object identifiers are, by the big-endian value of its first two
//! bytes modulo the shard count. The all-zero root subnet is reserved for
//! global and system operations.

use vstd::prelude::*;

use crate::object_shard::spec_shard;
use crate::types::{ShardId, SubnetId, DEFAULT_SHARD_COUNT};

verus! {

/// How subnet identifiers are mapped to shards.
#[derive(Debug, Clone, Copy)]
pub enum SubnetShardStrategy {
    /// Deterministic hashing of the subnet identifier into a fixed shard count.
    HashBased { shard_count: u16 },
}

/// A subnet strategy is valid when its shard count is positive.
pub open spec fn subnet_strategy_wf(s: SubnetShardStrategy) -> bool {
    match s {
        SubnetShardStrategy::HashBased { shard_count } => shard_count > 0,
    }
}

/// The shard count a subnet strategy routes into.
pub open spec fn subnet_strategy_count(s: SubnetShardStrategy) -> u16 {
    match s {
        SubnetShardStrategy::HashBased { shard_count } => shard_count,
    }
}

impl SubnetShardStrategy {
    /// The default strategy: hash-based over the default shard count.
    pub fn default_strategy() -> (r: Self)
        ensures
            r == (SubnetShardStrategy::HashBased { shard_count: DEFAULT_SHARD_COUNT }),
    {
        SubnetShardStrategy::HashBased { shard_count: DEFAULT_SHARD_COUNT }
    }
}

/// Routes subnet identifiers to shards under a chosen strategy.
#[derive(Debug)]
pub struct SubnetShardRouter {
    strategy: SubnetShardStrategy,
}

impl SubnetShardRouter {
    /// The strategy this router was built with.
    pub closed spec fn spec_strategy(self) -> SubnetShardStrategy {
        self.strategy
    }

    #[verifier::type_invariant]
    spec fn type_wf(self) -> bool {
        subnet_strategy_wf(self.strategy)
    }

    /// Creates a hash-based subnet router over the given shard count.
    pub fn new(shard_count: u16) -> (r: Self)
        requires
            shard_count > 0,
        ensures
            r.spec_strategy() == (SubnetShardStrategy::HashBased { shard_count }),
    {
        Self { strategy: SubnetShardStrategy::HashBased { shard_count } }
    }

    /// Creates a subnet router with the given strategy.
    pub fn with_strategy(strategy: SubnetShardStrategy) -> (r: Self)
        requires
            subnet_strategy_wf(strategy),
        ensures
            r.spec_strategy() == strategy,
    {
        Self { strategy }
    }

    /// Routes a subnet to its shard.
    pub fn route(&self, subnet_id: &SubnetId) -> (r: ShardId)
        ensures
            r == spec_shard(*subnet_id, subnet_strategy_count(self.spec_strategy())),
            r < subnet_strategy_count(self.spec_strategy()),
    {
        proof {
            use_type_invariant(self);
        }
        match &self.strategy {
            SubnetShardStrategy::HashBased { shard_count } => {
                let hi = subnet_id[0];
                let lo = subnet_id[1];
                let v: u16 = (hi as u16) * 256 + (lo as u16);
                v % *shard_count
            },
        }
    }
}

impl Clone for SubnetShardRouter {
    /// Clones the router, keeping its strategy.
    fn clone(&self) -> (r: Self)
        ensures
            r == *self,
    {
        proof {
            use_type_invariant(self);
        }
        Self { strategy: self.strategy }
    }
}

} // verus!
