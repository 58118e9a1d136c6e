//! Unified two-level routing.
//!
//! A transfer first gets a shard: by its subnet when one is present (subnet
//! members share state and should co-locate), else by its primary object
//! (the object is the conflict domain, so repeated access to one object is
//! sharded consistently). Cross-shard analysis then reports whether the
//! touched objects spill over more than one shard.

use vstd::prelude::*;

use crate::object_shard::{
    insert_sorted_unique, spec_shard, strictly_sorted, ObjectShardStrategy,
};
use crate::subnet_shard::{
    subnet_strategy_count, subnet_strategy_wf, SubnetShardRouter, SubnetShardStrategy,
};
use crate::types::{ObjectId, RoutingMethod, ShardId, SubnetId, DEFAULT_SHARD_COUNT};

verus! {

/// Routing context for one transfer.
#[derive(Debug, Clone)]
pub struct RoutingContext {
    /// Subnet identifier; absent means object-based routing applies.
    pub subnet_id: Option<SubnetId>,
    /// Primary object being accessed, usually the sender's account or the
    /// main object being modified.
    pub primary_object: ObjectId,
    /// All objects involved in the transfer.
    pub touched_objects: Vec<ObjectId>,
    /// Sender address, for fallback routing.
    pub sender: Option<ObjectId>,
}

impl RoutingContext {
    /// Context for a subnet transfer; the touched objects start as the
    /// primary object alone.
    pub fn with_subnet(subnet_id: SubnetId, primary_object: ObjectId) -> (r: Self)
        ensures
            r.subnet_id == Some(subnet_id),
            r.primary_object == primary_object,
            r.touched_objects@ =~= seq![primary_object],
            r.sender is None,
    {
        Self {
            subnet_id: Some(subnet_id),
            primary_object,
            touched_objects: vec![primary_object],
            sender: None,
        }
    }

    /// Context for an object-only transfer (no subnet); the touched objects
    /// start as the primary object alone.
    pub fn with_object(primary_object: ObjectId) -> (r: Self)
        ensures
            r.subnet_id is None,
            r.primary_object == primary_object,
            r.touched_objects@ =~= seq![primary_object],
            r.sender is None,
    {
        Self {
            subnet_id: None,
            primary_object,
            touched_objects: vec![primary_object],
            sender: None,
        }
    }

    /// Replaces the touched-object list.
    pub fn with_touched_objects(self, objects: Vec<ObjectId>) -> (r: Self)
        ensures
            r.subnet_id == self.subnet_id,
            r.primary_object == self.primary_object,
            r.touched_objects == objects,
            r.sender == self.sender,
    {
        Self { touched_objects: objects, ..self }
    }

    /// Sets the sender address.
    pub fn with_sender(self, sender: ObjectId) -> (r: Self)
        ensures
            r.subnet_id == self.subnet_id,
            r.primary_object == self.primary_object,
            r.touched_objects == self.touched_objects,
            r.sender == Some(sender),
    {
        Self { sender: Some(sender), ..self }
    }
}

/// Unified routing strategy configuration.
#[derive(Debug, Clone)]
pub enum UnifiedRoutingStrategy {
    /// Route by subnet when one is present, else by primary object.
    SubnetFirst { subnet_strategy: SubnetShardStrategy, object_shard_count: u16 },
    /// Always route by primary object, ignoring any subnet.
    ObjectOnly { shard_count: u16 },
    /// Always route by subnet, substituting the root subnet when none is
    /// present; never reports cross-shard.
    SubnetOnly { subnet_strategy: SubnetShardStrategy },
}

/// A unified strategy is valid when every shard count in it is positive.
pub open spec fn unified_strategy_wf(s: UnifiedRoutingStrategy) -> bool {
    match s {
        UnifiedRoutingStrategy::SubnetFirst { subnet_strategy, object_shard_count } => {
            subnet_strategy_wf(subnet_strategy) && object_shard_count > 0
        },
        UnifiedRoutingStrategy::ObjectOnly { shard_count } => shard_count > 0,
        UnifiedRoutingStrategy::SubnetOnly { subnet_strategy } => subnet_strategy_wf(
            subnet_strategy,
        ),
    }
}

/// The object shard count a unified strategy evaluates cross-shard checks
/// against.
pub open spec fn unified_object_count(s: UnifiedRoutingStrategy) -> u16 {
    match s {
        UnifiedRoutingStrategy::SubnetFirst { object_shard_count, .. } => object_shard_count,
        UnifiedRoutingStrategy::ObjectOnly { shard_count } => shard_count,
        UnifiedRoutingStrategy::SubnetOnly { .. } => DEFAULT_SHARD_COUNT,
    }
}

impl Default for UnifiedRoutingStrategy {
    /// The default configuration: subnet-first with default shard counts.
    fn default() -> (r: Self)
        ensures
            r == (UnifiedRoutingStrategy::SubnetFirst {
                subnet_strategy: SubnetShardStrategy::HashBased {
                    shard_count: DEFAULT_SHARD_COUNT,
                },
                object_shard_count: DEFAULT_SHARD_COUNT,
            }),
    {
        UnifiedRoutingStrategy::SubnetFirst {
            subnet_strategy: SubnetShardStrategy::HashBased { shard_count: DEFAULT_SHARD_COUNT },
            object_shard_count: DEFAULT_SHARD_COUNT,
        }
    }
}

/// Result of shard routing for one transfer.
#[derive(Debug, Clone, Copy, PartialEq, Eq)]
pub struct ShardRoutingResult {
    /// Primary shard for this transfer.
    pub primary_shard: ShardId,
    /// Which rule fired.
    pub routing_method: RoutingMethod,
    /// Whether the transfer touches objects outside the primary shard.
    pub is_cross_shard: bool,
}

/// Detailed routing result with per-object shard assignments.
#[derive(Debug, Clone)]
pub struct DetailedRoutingResult {
    /// Primary shard for coordination.
    pub primary_shard: ShardId,
    /// Which rule fired.
    pub routing_method: RoutingMethod,
    /// Shard assignment for each distinct touched object, in first-seen order.
    pub object_shards: Vec<(ObjectId, ShardId)>,
    /// All shards involved, deduplicated and sorted.
    pub all_shards: Vec<ShardId>,
    /// Whether multi-shard coordination is needed.
    pub requires_coordination: bool,
}

/// Whether the shard table holds an entry for an object with these bytes.
pub open spec fn has_entry_for(pairs: Seq<(ObjectId, ShardId)>, id_bytes: Seq<u8>) -> bool {
    exists|i: int| 0 <= i < pairs.len() && #[trigger] pairs[i].0@ == id_bytes
}

/// Whether some listed object has these bytes.
pub open spec fn is_touched_object(objects: Seq<ObjectId>, id_bytes: Seq<u8>) -> bool {
    exists|m: int| 0 <= m < objects.len() && #[trigger] objects[m]@ == id_bytes
}

/// The per-object shard table is well formed for the given objects: one
/// entry per distinct object, each entry carries the object's shard, and
/// every object has an entry.
pub open spec fn object_shards_wf(
    pairs: Seq<(ObjectId, ShardId)>,
    objects: Seq<ObjectId>,
    count: u16,
) -> bool {
    &&& forall|i: int, j: int| 0 <= i < j < pairs.len() ==> pairs[i].0@ != pairs[j].0@
    &&& forall|i: int|
        0 <= i < pairs.len() ==> #[trigger] pairs[i].1 == spec_shard(pairs[i].0, count)
            && is_touched_object(objects, pairs[i].0@)
    &&& forall|m: int|
        0 <= m < objects.len() ==> has_entry_for(pairs, #[trigger] objects[m]@)
}

/// Whether some touched object maps to a shard other than the primary one.
pub open spec fn spec_any_object_off_shard(
    objects: Seq<ObjectId>,
    count: u16,
    primary: ShardId,
) -> bool {
    exists|k: int| 0 <= k < objects.len() && #[trigger] spec_shard(objects[k], count) != primary
}

/// The shard decision a unified strategy makes for a context.
pub open spec fn spec_route(s: UnifiedRoutingStrategy, ctx: RoutingContext) -> ShardRoutingResult {
    match s {
        UnifiedRoutingStrategy::SubnetFirst { subnet_strategy, object_shard_count } => {
            match ctx.subnet_id {
                Some(subnet) => {
                    let shard = spec_shard(subnet, subnet_strategy_count(subnet_strategy));
                    ShardRoutingResult {
                        primary_shard: shard,
                        routing_method: RoutingMethod::BySubnet,
                        is_cross_shard: spec_any_object_off_shard(
                            ctx.touched_objects@,
                            object_shard_count,
                            shard,
                        ),
                    }
                },
                None => {
                    let shard = spec_shard(ctx.primary_object, object_shard_count);
                    ShardRoutingResult {
                        primary_shard: shard,
                        routing_method: RoutingMethod::ByObject,
                        is_cross_shard: spec_any_object_off_shard(
                            ctx.touched_objects@,
                            object_shard_count,
                            shard,
                        ),
                    }
                },
            }
        },
        UnifiedRoutingStrategy::ObjectOnly { shard_count } => {
            let shard = spec_shard(ctx.primary_object, shard_count);
            ShardRoutingResult {
                primary_shard: shard,
                routing_method: RoutingMethod::ByObject,
                is_cross_shard: spec_any_object_off_shard(
                    ctx.touched_objects@,
                    shard_count,
                    shard,
                ),
            }
        },
        UnifiedRoutingStrategy::SubnetOnly { subnet_strategy } => {
            let shard = match ctx.subnet_id {
                // The root subnet is all zeros, so it always routes to shard 0.
                Some(subnet) => spec_shard(subnet, subnet_strategy_count(subnet_strategy)),
                None => 0u16,
            };
            ShardRoutingResult {
                primary_shard: shard,
                routing_method: RoutingMethod::BySubnet,
                is_cross_shard: false,
            }
        },
    }
}

/// Under the subnet-first strategy, a context carrying a subnet routes by
/// subnet and one without routes by its primary object.
pub proof fn lemma_subnet_first_method(s: UnifiedRoutingStrategy, ctx: RoutingContext)
    requires
        s matches UnifiedRoutingStrategy::SubnetFirst { .. },
    ensures
        ctx.subnet_id is Some ==> spec_route(s, ctx).routing_method == RoutingMethod::BySubnet,
        ctx.subnet_id is None ==> spec_route(s, ctx).routing_method == RoutingMethod::ByObject,
{
}

/// Unified router: decides the shard for a context under the strategy it
/// was built with, which is immutable thereafter.
pub struct UnifiedRouter {
    strategy: UnifiedRoutingStrategy,
    subnet_router: SubnetShardRouter,
    object_strategy: ObjectShardStrategy,
}

impl UnifiedRouter {
    /// The strategy this router was built with.
    pub closed spec fn spec_strategy(self) -> UnifiedRoutingStrategy {
        self.strategy
    }

    #[verifier::type_invariant]
    spec fn type_wf(self) -> bool {
        &&& unified_strategy_wf(self.strategy)
        &&& self.object_strategy.spec_shard_count() == unified_object_count(self.strategy)
        &&& match self.strategy {
            UnifiedRoutingStrategy::SubnetFirst { subnet_strategy, .. } => {
                self.subnet_router.spec_strategy() == subnet_strategy
            },
            UnifiedRoutingStrategy::SubnetOnly { subnet_strategy } => {
                self.subnet_router.spec_strategy() == subnet_strategy
            },
            UnifiedRoutingStrategy::ObjectOnly { shard_count } => {
                self.subnet_router.spec_strategy() == (SubnetShardStrategy::HashBased {
                    shard_count,
                })
            },
        }
    }

    /// Creates a router with the default subnet-first strategy.
    pub fn new() -> (r: Self)
        ensures
            r.spec_strategy() == (UnifiedRoutingStrategy::SubnetFirst {
                subnet_strategy: SubnetShardStrategy::HashBased {
                    shard_count: DEFAULT_SHARD_COUNT,
                },
                object_shard_count: DEFAULT_SHARD_COUNT,
            }),
    {
        Self {
            strategy: UnifiedRoutingStrategy::default(),
            subnet_router: SubnetShardRouter::new(DEFAULT_SHARD_COUNT),
            object_strategy: ObjectShardStrategy::new(),
        }
    }

    /// Creates a subnet-first router over a custom shard count.
    pub fn with_shard_count(shard_count: u16) -> (r: Self)
        requires
            shard_count > 0,
        ensures
            r.spec_strategy() == (UnifiedRoutingStrategy::SubnetFirst {
                subnet_strategy: SubnetShardStrategy::HashBased { shard_count },
                object_shard_count: shard_count,
            }),
    {
        Self {
            strategy: UnifiedRoutingStrategy::SubnetFirst {
                subnet_strategy: SubnetShardStrategy::HashBased { shard_count },
                object_shard_count: shard_count,
            },
            subnet_router: SubnetShardRouter::new(shard_count),
            object_strategy: ObjectShardStrategy::with_shard_count(shard_count),
        }
    }

    /// Creates a router with a custom strategy.
    pub fn with_strategy(strategy: UnifiedRoutingStrategy) -> (r: Self)
        requires
            unified_strategy_wf(strategy),
        ensures
            r.spec_strategy() == strategy,
    {
        let (subnet_router, object_strategy) = match &strategy {
            UnifiedRoutingStrategy::SubnetFirst { subnet_strategy, object_shard_count } => {
                (
                    SubnetShardRouter::with_strategy(*subnet_strategy),
                    ObjectShardStrategy::with_shard_count(*object_shard_count),
                )
            },
            UnifiedRoutingStrategy::SubnetOnly { subnet_strategy } => {
                (SubnetShardRouter::with_strategy(*subnet_strategy), ObjectShardStrategy::new())
            },
            UnifiedRoutingStrategy::ObjectOnly { shard_count } => {
                (
                    SubnetShardRouter::new(*shard_count),
                    ObjectShardStrategy::with_shard_count(*shard_count),
                )
            },
        };
        Self { strategy, subnet_router, object_strategy }
    }

    /// Routes a transfer context to a shard.
    pub fn route(&self, ctx: &RoutingContext) -> (r: ShardRoutingResult)
        ensures
            r == spec_route(self.spec_strategy(), *ctx),
    {
        proof {
            use_type_invariant(self);
        }
        match &self.strategy {
            UnifiedRoutingStrategy::SubnetFirst { .. } => {
                match &ctx.subnet_id {
                    Some(subnet_id) => {
                        let shard = self.subnet_router.route(subnet_id);
                        ShardRoutingResult {
                            primary_shard: shard,
                            routing_method: RoutingMethod::BySubnet,
                            is_cross_shard: self.check_cross_shard_objects(ctx, shard),
                        }
                    },
                    None => {
                        let shard = self.object_strategy.route_object(&ctx.primary_object);
                        ShardRoutingResult {
                            primary_shard: shard,
                            routing_method: RoutingMethod::ByObject,
                            is_cross_shard: self.check_cross_shard_objects(ctx, shard),
                        }
                    },
                }
            },
            UnifiedRoutingStrategy::ObjectOnly { .. } => {
                let shard = self.object_strategy.route_object(&ctx.primary_object);
                ShardRoutingResult {
                    primary_shard: shard,
                    routing_method: RoutingMethod::ByObject,
                    is_cross_shard: self.check_cross_shard_objects(ctx, shard),
                }
            },
            UnifiedRoutingStrategy::SubnetOnly { .. } => {
                let shard = match &ctx.subnet_id {
                    Some(subnet_id) => self.subnet_router.route(subnet_id),
                    None => {
                        let root = crate::types::root_subnet();
                        let s = self.subnet_router.route(&root);
                        proof {
                            let c = subnet_strategy_count(self.subnet_router.spec_strategy())
                                as int;
                            assert(root@[0] == 0 && root@[1] == 0);
                            assert(0int % c == 0) by (nonlinear_arith)
                                requires
                                    c > 0,
                            ;
                        }
                        s
                    },
                };
                // Subnet-only mode treats subnet locality as authoritative
                // and does not evaluate object placement.
                ShardRoutingResult {
                    primary_shard: shard,
                    routing_method: RoutingMethod::BySubnet,
                    is_cross_shard: false,
                }
            },
        }
    }

    /// Whether any touched object maps to a shard other than the given one.
    fn check_cross_shard_objects(&self, ctx: &RoutingContext, primary_shard: ShardId) -> (r: bool)
        ensures
            r == spec_any_object_off_shard(
                ctx.touched_objects@,
                unified_object_count(self.spec_strategy()),
                primary_shard,
            ),
    {
        proof {
            use_type_invariant(self);
        }
        let mut k: usize = 0;
        while k < ctx.touched_objects.len()
            invariant
                0 <= k <= ctx.touched_objects@.len(),
                self.object_strategy.spec_shard_count() == unified_object_count(
                    self.spec_strategy(),
                ),
                forall|m: int|
                    0 <= m < k ==> #[trigger] spec_shard(
                        ctx.touched_objects@[m],
                        unified_object_count(self.spec_strategy()),
                    ) == primary_shard,
            decreases ctx.touched_objects.len() - k,
        {
            if self.object_strategy.route_object(&ctx.touched_objects[k]) != primary_shard {
                return true;
            }
            k = k + 1;
        }
        false
    }

    /// Detailed routing: the primary decision plus the shard of every
    /// distinct touched object and the sorted union of all involved shards.
    #[verifier::loop_isolation(false)]
    pub fn route_detailed(&self, ctx: &RoutingContext) -> (r: DetailedRoutingResult)
        ensures
            r.primary_shard == spec_route(self.spec_strategy(), *ctx).primary_shard,
            r.routing_method == spec_route(self.spec_strategy(), *ctx).routing_method,
            // one entry per distinct touched object, each with its shard
            object_shards_wf(
                r.object_shards@,
                ctx.touched_objects@,
                unified_object_count(self.spec_strategy()),
            ),
            // the involved shards, sorted, with the primary among them
            strictly_sorted(r.all_shards@),
            forall|s: u16|
                r.all_shards@.contains(s) <==> (s == r.primary_shard || exists|k: int|
                    0 <= k < ctx.touched_objects@.len() && #[trigger] spec_shard(
                        ctx.touched_objects@[k],
                        unified_object_count(self.spec_strategy()),
                    ) == s),
            r.requires_coordination == (r.all_shards@.len() > 1),
    {
        proof {
            use_type_invariant(self);
        }
        let primary_result = self.route(ctx);

        let mut object_shards: Vec<(ObjectId, ShardId)> = Vec::new();
        // For each touched object, the position of its entry in `object_shards`;
        // for each entry, the touched object it came from.
        let ghost mut witness: Seq<int> = Seq::empty();
        let ghost mut source: Seq<int> = Seq::empty();
        let mut k: usize = 0;
        while k < ctx.touched_objects.len()
            invariant
                0 <= k <= ctx.touched_objects@.len(),
                self.object_strategy.spec_shard_count() == unified_object_count(
                    self.spec_strategy(),
                ),
                forall|i: int, j: int|
                    0 <= i < j < object_shards@.len() ==> object_shards@[i].0@
                        != object_shards@[j].0@,
                forall|i: int|
                    0 <= i < object_shards@.len() ==> #[trigger] object_shards@[i].1 == spec_shard(
                        object_shards@[i].0,
                        unified_object_count(self.spec_strategy()),
                    ),
                source.len() == object_shards@.len(),
                forall|i: int|
                    0 <= i < object_shards@.len() ==> 0 <= #[trigger] source[i]
                        < ctx.touched_objects@.len() && ctx.touched_objects@[source[i]]@
                        == object_shards@[i].0@,
                witness.len() == k,
                forall|m: int|
                    0 <= m < k ==> 0 <= #[trigger] witness[m] < object_shards@.len()
                        && object_shards@[witness[m]].0@ == ctx.touched_objects@[m]@,
            decreases ctx.touched_objects.len() - k,
        {
            let obj = &ctx.touched_objects[k];
            proof {
                assert(*obj == ctx.touched_objects@[k as int]);
            }
            if !contains_object(&object_shards, obj) {
                let s = self.object_strategy.route_object(obj);
                let ghost prev = object_shards@;
                object_shards.push((*obj, s));
                proof {
                    witness = witness.push(prev.len() as int);
                    source = source.push(k as int);
                    assert(object_shards@[prev.len() as int].0@ == obj@);
                }
            } else {
                proof {
                    let i = choose|i: int|
                        0 <= i < object_shards@.len() && #[trigger] object_shards@[i].0@ == obj@;
                    witness = witness.push(i);
                }
            }
            k = k + 1;
        }

        let mut all_shards = self.object_strategy.get_involved_shards(
            ctx.touched_objects.as_slice(),
        );
        insert_sorted_unique(&mut all_shards, primary_result.primary_shard);

        let requires_coordination = all_shards.len() > 1;

        proof {
            let count = unified_object_count(self.spec_strategy());
            assert forall|m: int|
                0 <= m < ctx.touched_objects@.len() implies has_entry_for(
                object_shards@,
                #[trigger] ctx.touched_objects@[m]@,
            ) by {
                let i = witness[m];
                assert(0 <= i < object_shards@.len() && object_shards@[i].0@
                    == ctx.touched_objects@[m]@);
            }
            assert forall|i: int|
                0 <= i < object_shards@.len() implies #[trigger] object_shards@[i].1 == spec_shard(
                object_shards@[i].0,
                count,
            ) && is_touched_object(ctx.touched_objects@, object_shards@[i].0@) by {
                let m = source[i];
                assert(0 <= m < ctx.touched_objects@.len() && ctx.touched_objects@[m]@
                    == object_shards@[i].0@);
            }
            assert(object_shards_wf(object_shards@, ctx.touched_objects@, count));
        }
        DetailedRoutingResult {
            primary_shard: primary_result.primary_shard,
            routing_method: primary_result.routing_method,
            object_shards,
            all_shards,
            requires_coordination,
        }
    }
}

impl Default for UnifiedRouter {
    /// The default router: subnet-first over the default shard count.
    fn default() -> (r: Self)
        ensures
            r.spec_strategy() == (UnifiedRoutingStrategy::SubnetFirst {
                subnet_strategy: SubnetShardStrategy::HashBased {
                    shard_count: DEFAULT_SHARD_COUNT,
                },
                object_shard_count: DEFAULT_SHARD_COUNT,
            }),
    {
        Self::new()
    }
}

/// Whether the list already holds an entry for the given object.
fn contains_object(pairs: &Vec<(ObjectId, ShardId)>, obj: &ObjectId) -> (r: bool)
    ensures
        r == exists|i: int| 0 <= i < pairs@.len() && #[trigger] pairs@[i].0@ == obj@,
{
    let mut i: usize = 0;
    while i < pairs.len()
        invariant
            0 <= i <= pairs@.len(),
            forall|m: int| 0 <= m < i ==> #[trigger] pairs@[m].0@ != obj@,
        decreases pairs.len() - i,
    {
        if object_ids_equal(&pairs[i].0, obj) {
            return true;
        }
        i = i + 1;
    }
    false
}

/// Byte-wise equality of two 32-byte identifiers.
fn object_ids_equal(a: &ObjectId, b: &ObjectId) -> (r: bool)
    ensures
        r == (a@ == b@),
{
    let mut i: usize = 0;
    while i < 32
        invariant
            0 <= i <= 32,
            forall|m: int| 0 <= m < i ==> a@[m] == b@[m],
        decreases 32 - i,
    {
        if a[i] != b[i] {
            return false;
        }
        i = i + 1;
    }
    proof {
        assert(a@ =~= b@);
    }
    true
}

} // verus!
