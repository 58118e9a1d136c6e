use setu_router::{
    ObjectId, RoutingContext, RoutingMethod, SubnetId, UnifiedRouter, UnifiedRoutingStrategy,
};
use sha2::{Digest, Sha256};

fn make_object_id(name: &str) -> ObjectId {
    let mut hasher = Sha256::new();
    hasher.update(b"OBJECT:");
    hasher.update(name.as_bytes());
    let result = hasher.finalize();
    let mut id = [0u8; 32];
    id.copy_from_slice(&result);
    id
}

fn make_subnet_id(name: &str) -> SubnetId {
    let mut hasher = Sha256::new();
    hasher.update(b"SUBNET:");
    hasher.update(name.as_bytes());
    let result = hasher.finalize();
    let mut id = [0u8; 32];
    id.copy_from_slice(&result);
    id
}

#[test]
fn test_subnet_first_with_subnet() {
    let router = UnifiedRouter::new();

    let subnet = make_subnet_id("defi-app");
    let obj = make_object_id("coin-1");

    let ctx = RoutingContext::with_subnet(subnet, obj);
    let result = router.route(&ctx);

    assert_eq!(result.routing_method, RoutingMethod::BySubnet);
}

#[test]
fn test_subnet_first_without_subnet() {
    let router = UnifiedRouter::new();

    let obj = make_object_id("coin-1");
    let ctx = RoutingContext::with_object(obj);
    let result = router.route(&ctx);

    assert_eq!(result.routing_method, RoutingMethod::ByObject);
}

#[test]
fn unified_router_test_same_object_same_shard() {
    let router = UnifiedRouter::with_shard_count(16);

    let obj = make_object_id("my-coin");

    // Multiple transactions on same object should go to same shard
    let ctx1 = RoutingContext::with_object(obj);
    let ctx2 = RoutingContext::with_object(obj);

    let result1 = router.route(&ctx1);
    let result2 = router.route(&ctx2);

    assert_eq!(result1.primary_shard, result2.primary_shard);
}

#[test]
fn unified_router_test_cross_shard_detection() {
    let router = UnifiedRouter::with_shard_count(256);

    let obj1 = make_object_id("coin-1");
    let obj2 = make_object_id("coin-2");
    let obj3 = make_object_id("coin-3");

    let ctx = RoutingContext::with_object(obj1).with_touched_objects(vec![obj1, obj2, obj3]);

    let result = router.route_detailed(&ctx);

    println!("All shards: {:?}", result.all_shards);
    println!("Object shards: {:?}", result.object_shards);
}

#[test]
fn test_object_only_strategy() {
    let router = UnifiedRouter::with_strategy(UnifiedRoutingStrategy::ObjectOnly {
        shard_count: 16,
    });

    let subnet = make_subnet_id("defi-app");
    let obj = make_object_id("coin-1");

    // Even with subnet, should route by object
    let ctx = RoutingContext::with_subnet(subnet, obj);
    let result = router.route(&ctx);

    assert_eq!(result.routing_method, RoutingMethod::ByObject);
}

#[test]
fn route_detailed_three_shards_require_coordination() {
    let router = UnifiedRouter::with_strategy(UnifiedRoutingStrategy::ObjectOnly {
        shard_count: 4,
    });

    let mut obj1 = [0u8; 32];
    let mut obj2 = [0u8; 32];
    let mut obj3 = [0u8; 32];
    obj1[1] = 0; // shard 0
    obj2[1] = 1; // shard 1
    obj3[1] = 2; // shard 2

    let ctx = RoutingContext::with_object(obj1).with_touched_objects(vec![obj1, obj2, obj3]);
    let result = router.route_detailed(&ctx);

    assert_eq!(result.primary_shard, 0);
    assert_eq!(result.all_shards, vec![0, 1, 2]);
    assert_eq!(result.all_shards.len(), 3);
    assert!(result.requires_coordination);
    assert_eq!(result.object_shards.len(), 3);
}

#[test]
fn subnet_only_never_reports_cross_shard() {
    let router = UnifiedRouter::with_strategy(UnifiedRoutingStrategy::SubnetOnly {
        subnet_strategy: setu_router::SubnetShardStrategy::HashBased { shard_count: 4 },
    });

    let subnet = make_subnet_id("defi-app");
    let mut far_a = [0u8; 32];
    let mut far_b = [0u8; 32];
    far_a[1] = 1;
    far_b[1] = 2;

    let ctx = RoutingContext::with_subnet(subnet, far_a).with_touched_objects(vec![far_a, far_b]);
    let result = router.route(&ctx);

    assert_eq!(result.routing_method, RoutingMethod::BySubnet);
    assert!(!result.is_cross_shard);

    // without a subnet the root subnet stands in, which lands on shard 0
    let ctx2 = RoutingContext::with_object(far_a);
    let mut ctx2 = ctx2;
    ctx2.subnet_id = None;
    let result2 = router.route(&ctx2);
    assert_eq!(result2.primary_shard, 0);
    assert_eq!(result2.routing_method, RoutingMethod::BySubnet);
}

#[test]
fn builders_fill_the_context() {
    let obj = make_object_id("coin-1");
    let sender = make_object_id("alice");
    let ctx = RoutingContext::with_object(obj).with_sender(sender);

    assert!(ctx.subnet_id.is_none());
    assert_eq!(ctx.touched_objects.len(), 1);
    assert_eq!(ctx.sender, Some(sender));
}
