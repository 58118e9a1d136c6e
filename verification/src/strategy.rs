//! Strategy interfaces for shard and solver selection.
//!
//! Shard selection answers "which shard owns this key"; solver selection
//! answers "which worker inside the shard executes it". Each interface has
//! interchangeable implementations chosen at construction time.

use vstd::prelude::*;

use crate::consistent_hash::ConsistentHashStrategy;
use crate::error::RouterError;
use crate::load_balanced::LoadBalancedStrategy;
use crate::object_shard::{spec_shard, ObjectShardStrategy};
use crate::solver::SolverInfo;
use crate::subnet_shard::{subnet_strategy_count, SubnetShardRouter};
use crate::types::ShardId;

verus! {

/// Interface for solver selection strategies.
pub trait SolverStrategy {
    /// Selects a solver from the available ones for a routing key.
    fn select(&mut self, available: &Vec<SolverInfo>, routing_key: &str) -> Result<
        SolverInfo,
        RouterError,
    >;

    /// Strategy name for logs.
    fn name(&self) -> &'static str;
}

/// The solver selection interface under its historical name.
pub trait RoutingStrategy {
    /// Selects a solver from the available ones for a routing key.
    fn select(&mut self, available: &Vec<SolverInfo>, routing_key: &str) -> Result<
        SolverInfo,
        RouterError,
    >;

    /// Strategy name for logs.
    fn name(&self) -> &'static str;
}

impl SolverStrategy for ConsistentHashStrategy {
    fn select(&mut self, available: &Vec<SolverInfo>, routing_key: &str) -> (r: Result<
        SolverInfo,
        RouterError,
    >)
        ensures
            r is Ok <==> crate::consistent_hash::ch_select(
                old(self).spec_virtual_nodes(),
                crate::solver::views_of(available@),
                routing_key@,
            ) is Ok,
            r matches Ok(v) ==> crate::consistent_hash::ch_select(
                old(self).spec_virtual_nodes(),
                crate::solver::views_of(available@),
                routing_key@,
            ) matches Ok(w) && v@ == w,
    {
        ConsistentHashStrategy::select(self, available, routing_key)
    }

    fn name(&self) -> &'static str {
        "ConsistentHash"
    }
}

impl RoutingStrategy for ConsistentHashStrategy {
    fn select(&mut self, available: &Vec<SolverInfo>, routing_key: &str) -> (r: Result<
        SolverInfo,
        RouterError,
    >)
        ensures
            r is Ok <==> crate::consistent_hash::ch_select(
                old(self).spec_virtual_nodes(),
                crate::solver::views_of(available@),
                routing_key@,
            ) is Ok,
            r matches Ok(v) ==> crate::consistent_hash::ch_select(
                old(self).spec_virtual_nodes(),
                crate::solver::views_of(available@),
                routing_key@,
            ) matches Ok(w) && v@ == w,
    {
        ConsistentHashStrategy::select(self, available, routing_key)
    }

    fn name(&self) -> &'static str {
        "ConsistentHash"
    }
}

impl SolverStrategy for LoadBalancedStrategy {
    fn select(&mut self, available: &Vec<SolverInfo>, routing_key: &str) -> Result<
        SolverInfo,
        RouterError,
    > {
        LoadBalancedStrategy::select(self, available, routing_key)
    }

    fn name(&self) -> &'static str {
        LoadBalancedStrategy::name(self)
    }
}

impl RoutingStrategy for LoadBalancedStrategy {
    fn select(&mut self, available: &Vec<SolverInfo>, routing_key: &str) -> Result<
        SolverInfo,
        RouterError,
    > {
        LoadBalancedStrategy::select(self, available, routing_key)
    }

    fn name(&self) -> &'static str {
        LoadBalancedStrategy::name(self)
    }
}

/// Interface for shard selection strategies over 32-byte keys.
pub trait ShardStrategy {
    /// Routes a key to a shard.
    fn route(&self, key: &[u8; 32]) -> ShardId;

    /// Strategy name for logs.
    fn name(&self) -> &'static str;
}

impl ShardStrategy for ObjectShardStrategy {
    fn route(&self, key: &[u8; 32]) -> (r: ShardId)
        ensures
            r == spec_shard(*key, self.spec_shard_count()),
    {
        self.route_object(key)
    }

    fn name(&self) -> &'static str {
        "ObjectBased"
    }
}

impl ShardStrategy for SubnetShardRouter {
    fn route(&self, key: &[u8; 32]) -> (r: ShardId)
        ensures
            r == spec_shard(*key, subnet_strategy_count(self.spec_strategy())),
    {
        SubnetShardRouter::route(self, key)
    }

    fn name(&self) -> &'static str {
        "SubnetBased"
    }
}

} // verus!
