//! Object-based shard selection.
//!
//! Routes a transfer to a shard from the object it touches: the first two
//! bytes of the 32-byte object identifier, read big-endian, taken modulo the
//! shard count. The same object therefore always lands on the same shard.

use vstd::prelude::*;

use crate::types::{ObjectId, ShardId, DEFAULT_SHARD_COUNT};

verus! {

/// The shard that a 32-byte key routes to: the big-endian value of its
/// first two bytes, modulo the shard count.
pub open spec fn spec_shard(key: ObjectId, count: u16) -> ShardId
    recommends
        count > 0,
{
    (((key@[0] as int) * 256 + (key@[1] as int)) % (count as int)) as u16
}

/// Whether a list of objects touches more than one shard: false for zero or
/// one object, else true iff some object's shard differs from the first's.
pub open spec fn spec_is_cross_shard(objects: Seq<ObjectId>, count: u16) -> bool {
    objects.len() > 1 && exists|j: int|
        0 < j < objects.len() && #[trigger] spec_shard(objects[j], count) != spec_shard(
            objects[0],
            count,
        )
}

/// A sequence is strictly increasing.
pub open spec fn strictly_sorted(s: Seq<u16>) -> bool {
    forall|i: int, j: int| 0 <= i < j < s.len() ==> s[i] < s[j]
}

/// Inserts `x` into a strictly sorted vector, keeping it sorted and
/// duplicate-free.
pub fn insert_sorted_unique(v: &mut Vec<u16>, x: u16)
    requires
        strictly_sorted(old(v)@),
    ensures
        strictly_sorted(final(v)@),
        forall|y: u16| final(v)@.contains(y) <==> (old(v)@.contains(y) || y == x),
{
    let mut i: usize = 0;
    while i < v.len() && v[i] < x
        invariant
            strictly_sorted(v@),
            v@ == old(v)@,
            0 <= i <= v.len(),
            forall|k: int| 0 <= k < i ==> v@[k] < x,
        decreases v.len() - i,
    {
        i = i + 1;
    }
    if i < v.len() && v[i] == x {
        return ;
    }
    v.insert(i, x);
    proof {
        let newv = v@;
        let oldv = old(v)@;
        assert forall|a: int, b: int| 0 <= a < b < newv.len() implies newv[a] < newv[b] by {
            if a < i && b == i {
                assert(newv[a] == oldv[a]);
            } else if a == i && b > i {
                assert(newv[b] == oldv[b - 1]);
                assert(oldv[b - 1] >= x);
                assert(oldv[b - 1] != x);
            } else if a < i && b > i {
                assert(newv[a] == oldv[a] && newv[b] == oldv[b - 1]);
            } else if a > i && b > i {
                assert(newv[a] == oldv[a - 1] && newv[b] == oldv[b - 1]);
            }
        }
        assert forall|y: u16| newv.contains(y) <==> (oldv.contains(y) || y == x) by {
            if newv.contains(y) {
                let k = choose|k: int| 0 <= k < newv.len() && newv[k] == y;
                if k < i {
                    assert(oldv[k] == y);
                } else if k > i {
                    assert(oldv[k - 1] == y);
                }
            }
            if oldv.contains(y) {
                let k = choose|k: int| 0 <= k < oldv.len() && oldv[k] == y;
                if k < i {
                    assert(newv[k] == y);
                } else {
                    assert(newv[k + 1] == y);
                }
            }
            if y == x {
                assert(newv[i as int] == x);
            }
        }
    }
}

/// Object-based shard routing strategy.
#[derive(Debug)]
pub struct ObjectShardStrategy {
    shard_count: u16,
}

impl ObjectShardStrategy {
    /// The number of shards this strategy routes into.
    pub closed spec fn spec_shard_count(self) -> u16 {
        self.shard_count
    }

    #[verifier::type_invariant]
    spec fn type_wf(self) -> bool {
        self.shard_count > 0
    }

    /// Creates the strategy with the default shard count.
    pub fn new() -> (r: Self)
        ensures
            r.spec_shard_count() == DEFAULT_SHARD_COUNT,
    {
        Self { shard_count: DEFAULT_SHARD_COUNT }
    }

    /// Creates the strategy with a custom shard count.
    pub fn with_shard_count(shard_count: u16) -> (r: Self)
        requires
            shard_count > 0,
        ensures
            r.spec_shard_count() == shard_count,
    {
        Self { shard_count }
    }

    /// Routes an object to its shard.
    pub fn route_object(&self, object_id: &ObjectId) -> (r: ShardId)
        ensures
            r == spec_shard(*object_id, self.spec_shard_count()),
            r < self.spec_shard_count(),
    {
        proof {
            use_type_invariant(self);
        }
        let hi = object_id[0];
        let lo = object_id[1];
        let v: u16 = (hi as u16) * 256 + (lo as u16);
        v % self.shard_count
    }

    /// Whether the given objects would be split over more than one shard.
    pub fn is_cross_shard(&self, objects: &[ObjectId]) -> (r: bool)
        ensures
            r == spec_is_cross_shard(objects@, self.spec_shard_count()),
    {
        if objects.len() <= 1 {
            return false;
        }
        let first_shard = self.route_object(&objects[0]);
        let mut j: usize = 1;
        while j < objects.len()
            invariant
                1 <= j <= objects@.len(),
                objects@.len() > 1,
                first_shard == spec_shard(objects@[0], self.spec_shard_count()),
                forall|k: int|
                    0 < k < j ==> spec_shard(objects@[k], self.spec_shard_count()) == first_shard,
            decreases objects.len() - j,
        {
            if self.route_object(&objects[j]) != first_shard {
                return true;
            }
            j = j + 1;
        }
        false
    }

    /// All shards touched by the given objects: deduplicated and sorted.
    pub fn get_involved_shards(&self, objects: &[ObjectId]) -> (r: Vec<ShardId>)
        ensures
            strictly_sorted(r@),
            forall|s: u16|
                r@.contains(s) <==> exists|k: int|
                    0 <= k < objects@.len() && spec_shard(objects@[k], self.spec_shard_count())
                        == s,
    {
        let mut shards: Vec<ShardId> = Vec::new();
        let mut k: usize = 0;
        while k < objects.len()
            invariant
                0 <= k <= objects@.len(),
                strictly_sorted(shards@),
                forall|s: u16|
                    shards@.contains(s) <==> exists|m: int|
                        0 <= m < k && spec_shard(objects@[m], self.spec_shard_count()) == s,
            decreases objects.len() - k,
        {
            let s = self.route_object(&objects[k]);
            insert_sorted_unique(&mut shards, s);
            k = k + 1;
        }
        shards
    }
}

impl Clone for ObjectShardStrategy {
    /// Clones the strategy, keeping its shard count.
    fn clone(&self) -> (r: Self)
        ensures
            r == *self,
    {
        proof {
            use_type_invariant(self);
        }
        Self { shard_count: self.shard_count }
    }
}

/// Two objects whose shard assignments differ are reported as cross-shard.
pub proof fn lemma_differing_shards_cross(a: ObjectId, b: ObjectId, count: u16)
    requires
        count > 0,
        spec_shard(a, count) != spec_shard(b, count),
    ensures
        spec_is_cross_shard(seq![a, b], count),
{
    assert(seq![a, b][1] == b);
    assert(seq![a, b][0] == a);
}

} // verus!
