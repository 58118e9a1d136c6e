//! Common identifier types for the routing core.

use vstd::prelude::*;

verus! {

/// Subnet identifier: a fixed 32-byte opaque value.
pub type SubnetId = [u8; 32];

/// Object identifier: a fixed 32-byte opaque value. Only the first two
/// bytes are read by the routing core, for shard hashing.
pub type ObjectId = [u8; 32];

/// Shard identifier (numeric, for efficient routing).
pub type ShardId = u16;

/// Legacy shard identifier (string-based, for single-shard deployments).
pub type LegacyShardId = String;

/// Default number of shards.
pub const DEFAULT_SHARD_COUNT: u16 = 16;

/// Default shard identifier for single-shard mode.
pub const DEFAULT_SHARD_ID: &'static str = "default";

/// The all-zero root subnet, reserved for global and system operations.
pub open spec fn spec_root_subnet() -> Seq<u8> {
    Seq::new(32, |i: int| 0u8)
}

/// Returns the root subnet identifier (all zero bytes).
pub fn root_subnet() -> (r: SubnetId)
    ensures
        r@ == spec_root_subnet(),
{
    let r: SubnetId = [0u8; 32];
    proof {
        assert(r@ =~= spec_root_subnet());
    }
    r
}

/// How a routing decision was made.
#[derive(Debug, Clone, Copy, PartialEq, Eq, Structural)]
pub enum RoutingMethod {
    /// Routed by subnet identifier: all transfers of a subnet share a shard.
    BySubnet,
    /// Routed by primary object identifier: same object, same shard.
    ByObject,
    /// Routed by sender address (reserved; never emitted by the documented flows).
    BySender,
}

impl RoutingMethod {
    /// Short label for logs and messages.
    pub fn as_str(&self) -> (r: &'static str)
        ensures
            *self == RoutingMethod::BySubnet ==> r@ == "subnet"@,
            *self == RoutingMethod::ByObject ==> r@ == "object"@,
            *self == RoutingMethod::BySender ==> r@ == "sender"@,
    {
        match self {
            RoutingMethod::BySubnet => "subnet",
            RoutingMethod::ByObject => "object",
            RoutingMethod::BySender => "sender",
        }
    }
}

} // verus!
