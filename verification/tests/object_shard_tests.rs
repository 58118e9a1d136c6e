use setu_router::{ObjectId, ObjectShardStrategy};
use sha2::{Digest, Sha256};

fn make_object_id(name: &str) -> ObjectId {
    let mut hasher = Sha256::new();
    hasher.update(b"OBJECT:");
    hasher.update(name.as_bytes());
    let result = hasher.finalize();
    let mut id = [0u8; 32];
    id.copy_from_slice(&result);
    id
}

#[test]
fn object_shard_test_same_object_same_shard() {
    let strategy = ObjectShardStrategy::with_shard_count(16);

    let obj = make_object_id("my-coin");

    // Same object always routes to same shard
    assert_eq!(strategy.route_object(&obj), strategy.route_object(&obj));
}

#[test]
fn test_shard_range() {
    let strategy = ObjectShardStrategy::with_shard_count(16);

    for i in 0..100 {
        let obj = make_object_id(&format!("object-{}", i));
        let shard = strategy.route_object(&obj);
        assert!(shard < 16, "shard {} should be < 16", shard);
    }
}

#[test]
fn object_shard_test_cross_shard_detection() {
    let strategy = ObjectShardStrategy::with_shard_count(256);

    let obj1 = make_object_id("coin-1");
    let obj2 = make_object_id("coin-2");
    let obj3 = make_object_id("coin-3");

    // Single object is never cross-shard
    assert!(!strategy.is_cross_shard(&[obj1]));
    assert!(!strategy.is_cross_shard(&[]));

    // Multiple objects may be cross-shard
    let objects = vec![obj1, obj2, obj3];
    let shards = strategy.get_involved_shards(&objects);
    println!("Objects route to shards: {:?}", shards);
}

#[test]
fn test_get_involved_shards() {
    let strategy = ObjectShardStrategy::with_shard_count(4);

    // Create objects that definitely map to different shards
    // by controlling first 2 bytes
    let mut obj1 = [0u8; 32];
    let mut obj2 = [0u8; 32];
    let mut obj3 = [0u8; 32];

    obj1[0] = 0;
    obj1[1] = 0; // shard 0
    obj2[0] = 0;
    obj2[1] = 1; // shard 1
    obj3[0] = 0;
    obj3[1] = 2; // shard 2

    let shards = strategy.get_involved_shards(&[obj1, obj2, obj3]);
    assert_eq!(shards.len(), 3);
    assert!(shards.contains(&0));
    assert!(shards.contains(&1));
    assert!(shards.contains(&2));
}

#[test]
fn differing_prefixes_are_cross_shard() {
    let strategy = ObjectShardStrategy::with_shard_count(4);

    let mut a = [0u8; 32];
    let mut b = [0u8; 32];
    a[0] = 0;
    a[1] = 0; // 0 mod 4 == 0
    b[0] = 0;
    b[1] = 1; // 1 mod 4 == 1

    assert!(strategy.is_cross_shard(&[a, b]));
}

#[test]
fn route_object_uses_big_endian_prefix() {
    let strategy = ObjectShardStrategy::with_shard_count(1000);

    let mut obj = [0u8; 32];
    obj[0] = 1; // big-endian value 0x0102 = 258
    obj[1] = 2;
    obj[5] = 99; // later bytes play no part

    assert_eq!(strategy.route_object(&obj), 258 % 1000);
}
