//! Shard membership management.
//!
//! A shard names the resources it handles and the nodes that serve it;
//! the manager routes a resource key to the shard that claims it, falling
//! back to hashing over the registered shards.

use vstd::prelude::*;

verus! {

/// Whether some string in the sequence has these characters.
pub open spec fn has_string(s: Seq<String>, v: Seq<char>) -> bool {
    exists|i: int| 0 <= i < s.len() && #[trigger] s[i]@ == v
}

/// One shard: its identifier, resource domain and member nodes.
#[derive(Debug)]
pub struct Shard {
    /// Shard identifier.
    pub id: String,
    /// Resource keys this shard handles, each listed once.
    pub resource_domain: Vec<String>,
    /// Member node identifiers, each listed once.
    pub node_ids: Vec<String>,
}

impl Shard {
    /// Creates an empty shard under the given identifier.
    pub fn new(id: String) -> (r: Self)
        ensures
            r.id == id,
            r.resource_domain@.len() == 0,
            r.node_ids@.len() == 0,
    {
        Self { id, resource_domain: Vec::new(), node_ids: Vec::new() }
    }

    /// Adds a member node, unless it is already listed.
    pub fn add_node(&mut self, node_id: String)
        ensures
            final(self).id == old(self).id,
            final(self).resource_domain == old(self).resource_domain,
            has_string(old(self).node_ids@, node_id@) ==> final(self).node_ids == old(self).node_ids,
            !has_string(old(self).node_ids@, node_id@) ==> final(self).node_ids@ == old(self).node_ids@.push(node_id),
    {
        if !contains_string(&self.node_ids, &node_id) {
            self.node_ids.push(node_id);
        }
    }

    /// Claims a resource key, unless it is already claimed.
    pub fn add_resource(&mut self, resource_key: String)
        ensures
            final(self).id == old(self).id,
            final(self).node_ids == old(self).node_ids,
            has_string(old(self).resource_domain@, resource_key@) ==> final(self).resource_domain
                == old(self).resource_domain,
            !has_string(old(self).resource_domain@, resource_key@) ==> final(self).resource_domain@ == old(self).resource_domain@.push(resource_key),
    {
        if !contains_string(&self.resource_domain, &resource_key) {
            self.resource_domain.push(resource_key);
        }
    }

    /// Whether this shard claims the resource key.
    pub fn contains_resource(&self, resource_key: &String) -> (r: bool)
        ensures
            r == has_string(self.resource_domain@, resource_key@),
    {
        contains_string(&self.resource_domain, resource_key)
    }
}

/// Whether the list holds a string with these characters.
fn contains_string(list: &Vec<String>, value: &String) -> (r: bool)
    ensures
        r == has_string(list@, value@),
{
    let mut i: usize = 0;
    while i < list.len()
        invariant
            0 <= i <= list@.len(),
            forall|m: int| 0 <= m < i ==> #[trigger] list@[m]@ != value@,
        decreases list.len() - i,
    {
        if list[i] == *value {
            return true;
        }
        i = i + 1;
    }
    false
}

/// Relies on `std::hash::Hasher` over `DefaultHasher`: some hash of the
/// string. The algorithm is unspecified across processes, so nothing is
/// assumed of the value.
#[verifier::external_body]
fn default_hash(resource_key: &String) -> u64 {
    let mut hasher = std::collections::hash_map::DefaultHasher::new();
    std::hash::Hash::hash(resource_key, &mut hasher);
    std::hash::Hasher::finish(&hasher)
}

/// Whether some shard claims a resource with these characters.
pub open spec fn some_shard_claims(shards: Seq<Shard>, key: Seq<char>) -> bool {
    exists|i: int| 0 <= i < shards.len() && has_string(#[trigger] shards[i].resource_domain@, key)
}

/// The position of the first shard claiming the resource.
pub open spec fn first_claiming_index(shards: Seq<Shard>, key: Seq<char>) -> int {
    choose|i: int|
        0 <= i < shards.len() && has_string(#[trigger] shards[i].resource_domain@, key) && forall|
            j: int,
        | 0 <= j < i ==> !has_string(#[trigger] shards[j].resource_domain@, key)
}

/// Manager of the registered shards.
#[derive(Debug)]
pub struct ShardManager {
    shards: Vec<Shard>,
}

impl ShardManager {
    /// The registered shards, in registration order.
    pub closed spec fn spec_shards(self) -> Seq<Shard> {
        self.shards@
    }

    /// Creates a manager with no shards.
    pub fn new() -> (r: Self)
        ensures
            r.spec_shards().len() == 0,
    {
        Self { shards: Vec::new() }
    }

    /// Registers a shard: replaces the shard with the same identifier, or
    /// appends a new one.
    pub fn register_shard(&mut self, shard: Shard)
        ensures
            (exists|i: int|
                0 <= i < old(self).spec_shards().len() && #[trigger] old(self).spec_shards()[i].id@
                    == shard.id@) ==> (exists|i: int|
                0 <= i < old(self).spec_shards().len() && #[trigger] old(self).spec_shards()[i].id@
                    == shard.id@ && final(self).spec_shards() == old(self).spec_shards().update(
                    i,
                    shard,
                )),
            !(exists|i: int|
                0 <= i < old(self).spec_shards().len() && #[trigger] old(self).spec_shards()[i].id@
                    == shard.id@) ==> final(self).spec_shards() == old(self).spec_shards().push(
                shard,
            ),
    {
        let mut i: usize = 0;
        let ghost prior = self.shards@;
        while i < self.shards.len()
            invariant
                0 <= i <= self.shards@.len(),
                *self == *old(self),
                prior == self.shards@,
                forall|m: int| 0 <= m < i ==> #[trigger] self.shards@[m].id@ != shard.id@,
            decreases self.shards.len() - i,
        {
            if self.shards[i].id == shard.id {
                let mut q: Vec<Shard> = Vec::new();
                core::mem::swap(&mut q, &mut self.shards);
                q.remove(i);
                q.insert(i, shard);
                core::mem::swap(&mut q, &mut self.shards);
                proof {
                    assert(self.shards@ =~= prior.update(i as int, shard));
                }
                return ;
            }
            i = i + 1;
        }
        self.shards.push(shard);
    }

    /// A snapshot of the shard with this identifier, if registered.
    pub fn get_shard(&self, shard_id: &String) -> (r: Option<Shard>)
        ensures
            r is Some <==> (exists|i: int|
                0 <= i < self.spec_shards().len() && #[trigger] self.spec_shards()[i].id@
                    == shard_id@),
            r matches Some(s) ==> (exists|i: int|
                0 <= i < self.spec_shards().len() && #[trigger] self.spec_shards()[i].id@
                    == shard_id@ && s.id@ == self.spec_shards()[i].id@ && s.resource_domain@
                    == self.spec_shards()[i].resource_domain@ && s.node_ids@
                    == self.spec_shards()[i].node_ids@),
    {
        let mut i: usize = 0;
        while i < self.shards.len()
            invariant
                0 <= i <= self.shards@.len(),
                forall|m: int| 0 <= m < i ==> #[trigger] self.shards@[m].id@ != shard_id@,
            decreases self.shards.len() - i,
        {
            if self.shards[i].id == *shard_id {
                proof {
                    assert(self.spec_shards()[i as int].id@ == shard_id@);
                }
                return Some(clone_shard(&self.shards[i]));
            }
            i = i + 1;
        }
        None
    }

    /// Routes a resource to a shard: the first shard claiming the key
    /// wins; with no claim, a hash picks among the registered shards; with
    /// no shards there is nowhere to route.
    pub fn route_to_shard(&self, resource_key: &String) -> (r: Option<String>)
        ensures
            r is Some <==> self.spec_shards().len() > 0,
            some_shard_claims(self.spec_shards(), resource_key@) ==> (r matches Some(id) && id@
                == self.spec_shards()[first_claiming_index(
                self.spec_shards(),
                resource_key@,
            )].id@),
            self.spec_shards().len() > 0 && !some_shard_claims(self.spec_shards(), resource_key@)
                ==> (r matches Some(id) && exists|i: int|
                0 <= i < self.spec_shards().len() && #[trigger] self.spec_shards()[i].id@ == id@),
    {
        let ghost shards = self.shards@;
        let mut i: usize = 0;
        while i < self.shards.len()
            invariant
                0 <= i <= self.shards@.len(),
                shards == self.shards@,
                forall|m: int|
                    0 <= m < i ==> !has_string(
                        #[trigger] self.shards@[m].resource_domain@,
                        resource_key@,
                    ),
            decreases self.shards.len() - i,
        {
            if self.shards[i].contains_resource(resource_key) {
                proof {
                    lemma_first_claiming(shards, resource_key@, i as int);
                }
                return Some(self.shards[i].id.clone());
            }
            i = i + 1;
        }
        if self.shards.len() > 0 {
            let hash = default_hash(resource_key);
            let index = (hash % (self.shards.len() as u64)) as usize;
            proof {
                assert(0 <= index < self.shards@.len());
                assert(self.shards@[index as int].id@ == self.shards@[index as int].id@);
            }
            Some(self.shards[index].id.clone())
        } else {
            None
        }
    }
}

impl Default for ShardManager {
    /// A manager with no shards.
    fn default() -> (r: Self)
        ensures
            r.spec_shards().len() == 0,
    {
        Self::new()
    }
}

/// The first claiming position is the position of any claim with no
/// earlier claim.
proof fn lemma_first_claiming(shards: Seq<Shard>, key: Seq<char>, i: int)
    requires
        0 <= i < shards.len(),
        has_string(shards[i].resource_domain@, key),
        forall|j: int| 0 <= j < i ==> !has_string(#[trigger] shards[j].resource_domain@, key),
    ensures
        some_shard_claims(shards, key),
        first_claiming_index(shards, key) == i,
{
    assert(some_shard_claims(shards, key));
    assert(exists|p: int|
        0 <= p < shards.len() && has_string(#[trigger] shards[p].resource_domain@, key) && forall|
            j: int,
        | 0 <= j < p ==> !has_string(#[trigger] shards[j].resource_domain@, key)) by {
        assert(0 <= i < shards.len() && has_string(shards[i].resource_domain@, key) && forall|
            j: int,
        | 0 <= j < i ==> !has_string(#[trigger] shards[j].resource_domain@, key));
    }
    let p = first_claiming_index(shards, key);
    assert(0 <= p < shards.len() && has_string(shards[p].resource_domain@, key) && forall|j: int|
        0 <= j < p ==> !has_string(#[trigger] shards[j].resource_domain@, key));
    if p < i {
        assert(!has_string(shards[p].resource_domain@, key));
    } else if p > i {
        assert(!has_string(shards[i].resource_domain@, key));
    }
}

/// Clones a shard; the clone carries the same identifier, domain and
/// nodes.
fn clone_shard(s: &Shard) -> (r: Shard)
    ensures
        r.id@ == s.id@,
        r.resource_domain@ == s.resource_domain@,
        r.node_ids@ == s.node_ids@,
{
    let mut domain: Vec<String> = Vec::new();
    let mut i: usize = 0;
    while i < s.resource_domain.len()
        invariant
            0 <= i <= s.resource_domain@.len(),
            domain@.len() == i,
            forall|m: int| 0 <= m < i ==> domain@[m] == s.resource_domain@[m],
        decreases s.resource_domain.len() - i,
    {
        domain.push(s.resource_domain[i].clone());
        i = i + 1;
    }
    let mut nodes: Vec<String> = Vec::new();
    let mut j: usize = 0;
    while j < s.node_ids.len()
        invariant
            0 <= j <= s.node_ids@.len(),
            nodes@.len() == j,
            forall|m: int| 0 <= m < j ==> nodes@[m] == s.node_ids@[m],
        decreases s.node_ids.len() - j,
    {
        nodes.push(s.node_ids[j].clone());
        j = j + 1;
    }
    proof {
        assert(domain@ =~= s.resource_domain@);
        assert(nodes@ =~= s.node_ids@);
    }
    Shard { id: s.id.clone(), resource_domain: domain, node_ids: nodes }
}

} // verus!
