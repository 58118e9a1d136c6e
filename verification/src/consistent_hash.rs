//! Consistent-hash solver selection.
//!
//! A routing key is hashed to 64 bits and looked up on a hash ring: the
//! first ring point with a hash at or above the key's wins, wrapping to
//! the ring's first point. Each solver contributes `virtual_nodes` points,
//! one per `"{id}:{n}"` key, so that transfers with the same resources
//! land on the same solver as long as the solver set is unchanged. The
//! ring is cached, keyed by a hash of the ordered solver identifiers (the
//! identifiers themselves are compared as well, to guard against a
//! truncated-hash collision); load and status changes leave it untouched.

use vstd::prelude::*;
use vstd::string::StringSliceAdditionalSpecFns;

use crate::error::RouterError;
use crate::hashing::{dec_bytes, hash64, hash64_of, push_dec_bytes};
use crate::solver::{views_of, SolverInfo, SolverView};

verus! {

/// The bytes hashed for one ring point: the solver identifier, a colon,
/// and the decimal virtual-node number.
pub open spec fn vnode_preimage(id: Seq<char>, vn: nat) -> Seq<u8> {
    // 58 is the colon between identifier and virtual-node number
    vstd::utf8::encode_utf8(id) + seq![58u8] + dec_bytes(vn)
}

/// The ring position of one virtual node.
pub open spec fn vnode_hash(id: Seq<char>, vn: nat) -> u64 {
    hash64_of(vnode_preimage(id, vn))
}

/// The identifiers of a solver list, in order.
pub open spec fn ids_of(s: Seq<SolverView>) -> Seq<Seq<char>> {
    Seq::new(s.len(), |i: int| s[i].id)
}

/// The identifier bytes of a solver list, concatenated in order: the
/// preimage of the solver-set hash that keys the ring cache.
pub open spec fn ids_concat(ids: Seq<Seq<char>>) -> Seq<u8>
    decreases ids.len(),
{
    if ids.len() == 0 {
        Seq::empty()
    } else {
        ids_concat(ids.drop_last()) + vstd::utf8::encode_utf8(ids.last())
    }
}

/// The ring after adding the first `k` virtual nodes of the solver at
/// `idx`; a later point overwrites an earlier one at the same position.
pub open spec fn solver_ring(m: Map<u64, int>, id: Seq<char>, idx: int, k: nat) -> Map<u64, int>
    decreases k,
{
    if k == 0 {
        m
    } else {
        solver_ring(m, id, idx, (k - 1) as nat).insert(vnode_hash(id, (k - 1) as nat), idx)
    }
}

/// The ring built from the first `n` solvers.
pub open spec fn ring_upto(ids: Seq<Seq<char>>, vnodes: nat, n: nat) -> Map<u64, int>
    decreases n,
{
    if n == 0 {
        Map::empty()
    } else {
        solver_ring(
            ring_upto(ids, vnodes, (n - 1) as nat),
            ids[n as int - 1],
            n as int - 1,
            vnodes,
        )
    }
}

/// The complete hash ring of a solver set: ring position to solver index.
pub open spec fn ring_map(ids: Seq<Seq<char>>, vnodes: nat) -> Map<u64, int> {
    ring_upto(ids, vnodes, ids.len())
}

/// `k` is the least ring position at or above `h`.
pub open spec fn is_min_geq(dom: Set<u64>, h: u64, k: u64) -> bool {
    dom.contains(k) && k >= h && forall|k2: u64| #[trigger]
        dom.contains(k2) && k2 >= h ==> k <= k2
}

/// `k` is the least ring position overall.
pub open spec fn is_min(dom: Set<u64>, k: u64) -> bool {
    dom.contains(k) && forall|k2: u64| #[trigger] dom.contains(k2) ==> k <= k2
}

/// Some ring position lies at or above `h`.
pub open spec fn has_geq(dom: Set<u64>, h: u64) -> bool {
    exists|k: u64| #[trigger] dom.contains(k) && k >= h
}

/// The ring position a hashed key selects: the least position at or above
/// the hash, wrapping to the least position overall.
pub open spec fn ring_key_for(m: Map<u64, int>, h: u64) -> u64 {
    if has_geq(m.dom(), h) {
        choose|k: u64| is_min_geq(m.dom(), h, k)
    } else {
        choose|k: u64| is_min(m.dom(), k)
    }
}

/// The solver index a hashed key selects on the ring of a solver set.
pub open spec fn ch_index(ids: Seq<Seq<char>>, vnodes: nat, h: u64) -> int {
    ring_map(ids, vnodes)[ring_key_for(ring_map(ids, vnodes), h)]
}

/// What consistent-hash selection returns for a solver list and key: the
/// empty list fails; a single solver is returned outright; otherwise the
/// ring decides, which requires at least one virtual node per solver.
pub open spec fn ch_select(vnodes: u32, solvers: Seq<SolverView>, key: Seq<char>) -> Result<
    SolverView,
    RouterError,
> {
    if solvers.len() == 0 {
        Err(RouterError::NoSolverAvailable)
    } else if solvers.len() == 1 {
        Ok(solvers[0])
    } else if vnodes == 0 {
        Err(RouterError::NoSolverAvailable)
    } else {
        Ok(
            solvers[ch_index(
                ids_of(solvers),
                vnodes as nat,
                hash64_of(vstd::utf8::encode_utf8(key)),
            )],
        )
    }
}

/// For one solver set, equal routing keys select equal solvers: the
/// decision is a function of the solver identifiers and the key alone.
pub proof fn lemma_consistent_hash_deterministic(
    vnodes: u32,
    solvers: Seq<SolverView>,
    k1: Seq<char>,
    k2: Seq<char>,
)
    requires
        k1 == k2,
    ensures
        ch_select(vnodes, solvers, k1) == ch_select(vnodes, solvers, k2),
{
}

/// With exactly one solver available, selection returns that solver
/// whatever the routing key.
pub proof fn lemma_single_solver(vnodes: u32, solvers: Seq<SolverView>, key: Seq<char>)
    requires
        solvers.len() == 1,
    ensures
        ch_select(vnodes, solvers, key) == Result::<SolverView, RouterError>::Ok(solvers[0]),
{
}

/// Ring entries sorted strictly by position.
pub open spec fn entries_sorted(es: Seq<(u64, usize)>) -> bool {
    forall|i: int, j: int| 0 <= i < j < es.len() ==> es[i].0 < es[j].0
}

/// Whether some entry sits at position `k`.
pub open spec fn keys_has(es: Seq<(u64, usize)>, k: u64) -> bool {
    exists|i: int| 0 <= i < es.len() && #[trigger] es[i].0 == k
}

/// The index of the entry at position `k`.
pub open spec fn entry_index(es: Seq<(u64, usize)>, k: u64) -> int {
    choose|i: int| 0 <= i < es.len() && #[trigger] es[i].0 == k
}

/// The ring a sorted entry list represents.
pub open spec fn map_of(es: Seq<(u64, usize)>) -> Map<u64, int> {
    Map::new(|k: u64| keys_has(es, k), |k: u64| es[entry_index(es, k)].1 as int)
}

/// In a sorted entry list, the entry at a position is unique.
proof fn lemma_entry_unique(es: Seq<(u64, usize)>, i: int, k: u64)
    requires
        entries_sorted(es),
        0 <= i < es.len(),
        es[i].0 == k,
    ensures
        keys_has(es, k),
        entry_index(es, k) == i,
{
    assert(keys_has(es, k));
    let j = entry_index(es, k);
    assert(0 <= j < es.len() && es[j].0 == k);
    if j < i {
        assert(es[j].0 < es[i].0);
    } else if j > i {
        assert(es[i].0 < es[j].0);
    }
}

/// Inserts a ring point into a sorted entry list, overwriting the entry
/// at an equal position.
fn entries_insert(es: &mut Vec<(u64, usize)>, h: u64, idx: usize)
    requires
        entries_sorted(old(es)@),
    ensures
        entries_sorted(final(es)@),
        map_of(final(es)@) == map_of(old(es)@).insert(h, idx as int),
{
    let ghost prior = es@;
    let mut p: usize = 0;
    while p < es.len() && es[p].0 < h
        invariant
            0 <= p <= es@.len(),
            es@ == prior,
            entries_sorted(prior),
            forall|m: int| 0 <= m < p ==> prior[m].0 < h,
        decreases es.len() - p,
    {
        p = p + 1;
    }
    if p < es.len() && es[p].0 == h {
        es[p] = (h, idx);
        proof {
            assert(es@ =~= prior.update(p as int, (h, idx)));
            assert forall|a: int, b: int| 0 <= a < b < es@.len() implies es@[a].0 < es@[b].0 by {
                assert(es@[a].0 == prior[a].0 && es@[b].0 == prior[b].0);
            }
            assert forall|k: u64| true implies #[trigger] keys_has(es@, k) == keys_has(prior, k)
                by {
                if keys_has(es@, k) {
                    let i = choose|i: int| 0 <= i < es@.len() && #[trigger] es@[i].0 == k;
                    assert(prior[i].0 == k);
                    assert(keys_has(prior, k));
                }
                if keys_has(prior, k) {
                    let i = choose|i: int| 0 <= i < prior.len() && #[trigger] prior[i].0 == k;
                    assert(es@[i].0 == k);
                    assert(keys_has(es@, k));
                }
            }
            assert(map_of(es@) =~= map_of(prior).insert(h, idx as int)) by {
                assert forall|k: u64| #[trigger] keys_has(es@, k) implies map_of(es@)[k] == map_of(
                    prior,
                ).insert(h, idx as int)[k] by {
                    let i = choose|i: int| 0 <= i < es@.len() && #[trigger] es@[i].0 == k;
                    lemma_entry_unique(es@, i, k);
                    if k == h {
                        lemma_entry_unique(es@, p as int, k);
                        assert(map_of(es@)[k] == idx as int);
                    } else {
                        assert(i != p);
                        assert(prior[i].0 == k);
                        lemma_entry_unique(prior, i, k);
                        assert(map_of(es@)[k] == es@[i].1 as int);
                        assert(map_of(prior)[k] == prior[i].1 as int);
                        assert(es@[i] == prior[i]);
                    }
                }
                assert(keys_has(es@, h)) by {
                    assert(es@[p as int].0 == h);
                }
            }
        }
    } else {
        proof {
            if p < es@.len() {
                assert(prior[p as int].0 > h);
            }
        }
        es.insert(p, (h, idx));
        proof {
            let cur = es@;
            assert forall|a: int, b: int| 0 <= a < b < cur.len() implies cur[a].0 < cur[b].0 by {
                if b < p {
                    assert(cur[a] == prior[a] && cur[b] == prior[b]);
                } else if a < p && b == p {
                    assert(cur[a] == prior[a] && cur[b] == (h, idx));
                } else if a < p && b > p {
                    assert(cur[a] == prior[a] && cur[b] == prior[b - 1]);
                    assert(prior[p as int].0 > h);
                    if b - 1 > p {
                        assert(prior[p as int].0 < prior[b - 1].0);
                    }
                } else if a == p {
                    assert(cur[a] == (h, idx) && cur[b] == prior[b - 1]);
                    assert(prior[p as int].0 > h);
                    if b - 1 > p {
                        assert(prior[p as int].0 < prior[b - 1].0);
                    }
                } else {
                    assert(cur[a] == prior[a - 1] && cur[b] == prior[b - 1]);
                }
            }
            assert forall|k: u64| #[trigger] keys_has(cur, k) == (keys_has(prior, k) || k == h)
                by {
                if keys_has(cur, k) {
                    let i = choose|i: int| 0 <= i < cur.len() && #[trigger] cur[i].0 == k;
                    if i < p {
                        assert(prior[i].0 == k);
                        assert(keys_has(prior, k));
                    } else if i > p {
                        assert(prior[i - 1].0 == k);
                        assert(keys_has(prior, k));
                    }
                }
                if keys_has(prior, k) {
                    let i = choose|i: int| 0 <= i < prior.len() && #[trigger] prior[i].0 == k;
                    if i < p {
                        assert(cur[i].0 == k);
                    } else {
                        assert(cur[i + 1].0 == k);
                    }
                    assert(keys_has(cur, k));
                }
                if k == h {
                    assert(cur[p as int].0 == h);
                    assert(keys_has(cur, k));
                }
            }
            assert(map_of(cur) =~= map_of(prior).insert(h, idx as int)) by {
                assert forall|k: u64| #[trigger] keys_has(cur, k) implies map_of(cur)[k] == map_of(
                    prior,
                ).insert(h, idx as int)[k] by {
                    if k == h {
                        lemma_entry_unique(cur, p as int, k);
                        assert(map_of(cur)[k] == idx as int);
                    } else {
                        let i = choose|i: int| 0 <= i < cur.len() && #[trigger] cur[i].0 == k;
                        lemma_entry_unique(cur, i, k);
                        if i < p {
                            lemma_entry_unique(prior, i, k);
                            assert(cur[i] == prior[i]);
                        } else {
                            assert(i > p);
                            lemma_entry_unique(prior, i - 1, k);
                            assert(cur[i] == prior[i - 1]);
                        }
                    }
                }
            }
        }
    }
}

/// Looks up the solver index the hash selects: the first entry at or
/// above the hash, wrapping to the first entry.
fn ring_lookup(es: &Vec<(u64, usize)>, h: u64) -> (r: usize)
    requires
        entries_sorted(es@),
        es@.len() > 0,
    ensures
        r as int == map_of(es@)[ring_key_for(map_of(es@), h)],
{
    let ghost m = map_of(es@);
    let mut p: usize = 0;
    while p < es.len() && es[p].0 < h
        invariant
            0 <= p <= es@.len(),
            entries_sorted(es@),
            forall|j: int| 0 <= j < p ==> es@[j].0 < h,
        decreases es.len() - p,
    {
        p = p + 1;
    }
    if p < es.len() {
        let key = es[p].0;
        let r = es[p].1;
        proof {
            lemma_entry_unique(es@, p as int, key);
            assert(m.dom().contains(key));
            assert(is_min_geq(m.dom(), h, key)) by {
                assert forall|k2: u64| m.dom().contains(k2) && k2 >= h implies key <= k2 by {
                    let j = choose|j: int| 0 <= j < es@.len() && #[trigger] es@[j].0 == k2;
                    if j < p {
                        assert(es@[j].0 < h);
                    } else if j > p {
                        assert(es@[p as int].0 < es@[j].0);
                    }
                }
            }
            assert(has_geq(m.dom(), h)) by {
                assert(m.dom().contains(key) && key >= h);
            }
            let chosen = ring_key_for(m, h);
            assert(is_min_geq(m.dom(), h, chosen)) by {
                assert(exists|k: u64| is_min_geq(m.dom(), h, k)) by {
                    assert(is_min_geq(m.dom(), h, key));
                }
            }
            assert(chosen <= key && key <= chosen);
            assert(m[key] == es@[p as int].1 as int);
        }
        r
    } else {
        // every position lies below the hash: wrap to the first entry
        let key = es[0].0;
        let r = es[0].1;
        proof {
            lemma_entry_unique(es@, 0, key);
            assert(!has_geq(m.dom(), h)) by {
                assert forall|k2: u64| m.dom().contains(k2) implies !(k2 >= h) by {
                    let j = choose|j: int| 0 <= j < es@.len() && #[trigger] es@[j].0 == k2;
                    assert(es@[j].0 < h);
                }
            }
            assert(is_min(m.dom(), key)) by {
                assert forall|k2: u64| m.dom().contains(k2) implies key <= k2 by {
                    let j = choose|j: int| 0 <= j < es@.len() && #[trigger] es@[j].0 == k2;
                    if j > 0 {
                        assert(es@[0].0 < es@[j].0);
                    }
                }
            }
            let chosen = ring_key_for(m, h);
            assert(is_min(m.dom(), chosen)) by {
                assert(exists|k: u64| is_min(m.dom(), k)) by {
                    assert(is_min(m.dom(), key));
                }
            }
            assert(chosen <= key && key <= chosen);
            assert(m[key] == es@[0].1 as int);
        }
        r
    }
}

/// Every value of a partly built ring is either a value of the base map
/// or the inserted solver index; the base positions all remain.
proof fn lemma_solver_ring_frame(m: Map<u64, int>, id: Seq<char>, idx: int, k: nat)
    ensures
        m.dom().subset_of(solver_ring(m, id, idx, k).dom()),
        forall|h: u64| #[trigger]
            solver_ring(m, id, idx, k).dom().contains(h) ==> (solver_ring(m, id, idx, k)[h] == idx
                || (m.dom().contains(h) && solver_ring(m, id, idx, k)[h] == m[h])),
        forall|j: nat| j < k ==> solver_ring(m, id, idx, k).dom().contains(#[trigger] vnode_hash(id, j)),
    decreases k,
{
    if k > 0 {
        lemma_solver_ring_frame(m, id, idx, (k - 1) as nat);
    }
}

/// Every solver index on the ring of the first `n` solvers is below `n`,
/// and with at least one solver and one virtual node the ring holds the
/// first solver's first point.
proof fn lemma_ring_upto_frame(ids: Seq<Seq<char>>, vnodes: nat, n: nat)
    ensures
        forall|h: u64| #[trigger]
            ring_upto(ids, vnodes, n).dom().contains(h) ==> 0 <= ring_upto(ids, vnodes, n)[h] < n,
        n > 0 && vnodes > 0 ==> ring_upto(ids, vnodes, n).dom().contains(vnode_hash(ids[0], 0)),
    decreases n,
{
    if n > 0 {
        lemma_ring_upto_frame(ids, vnodes, (n - 1) as nat);
        lemma_solver_ring_frame(
            ring_upto(ids, vnodes, (n - 1) as nat),
            ids[n as int - 1],
            n as int - 1,
            vnodes,
        );
        if vnodes > 0 {
            if n == 1 {
                assert(solver_ring(
                    ring_upto(ids, vnodes, 0),
                    ids[0],
                    0,
                    vnodes,
                ).dom().contains(vnode_hash(ids[0], 0)));
            }
        }
    }
}

/// A cached ring with the identifiers it was built from and the hash that
/// keys it.
struct RingCache {
    ids_hash: u64,
    ids: Vec<String>,
    entries: Vec<(u64, usize)>,
}

/// The characters of each string in a list.
pub open spec fn string_views(v: Seq<String>) -> Seq<Seq<char>> {
    Seq::new(v.len(), |i: int| v[i]@)
}

/// Consistent-hash solver selection strategy with a cached ring.
pub struct ConsistentHashStrategy {
    virtual_nodes: u32,
    ring_cache: Option<RingCache>,
}

impl ConsistentHashStrategy {
    /// The number of virtual nodes per solver.
    pub closed spec fn spec_virtual_nodes(self) -> u32 {
        self.virtual_nodes
    }

    #[verifier::type_invariant]
    spec fn type_wf(self) -> bool {
        match self.ring_cache {
            None => true,
            Some(c) => {
                &&& entries_sorted(c.entries@)
                &&& map_of(c.entries@) == ring_map(
                    string_views(c.ids@),
                    self.virtual_nodes as nat,
                )
                &&& c.ids_hash == hash64_of(ids_concat(string_views(c.ids@)))
            },
        }
    }

    /// Creates the strategy with the default 150 virtual nodes.
    pub fn new() -> (r: Self)
        ensures
            r.spec_virtual_nodes() == 150,
    {
        Self { virtual_nodes: 150, ring_cache: None }
    }

    /// Creates the strategy with a custom virtual-node count.
    pub fn with_virtual_nodes(virtual_nodes: u32) -> (r: Self)
        ensures
            r.spec_virtual_nodes() == virtual_nodes,
    {
        Self { virtual_nodes, ring_cache: None }
    }

    /// Selects the solver that the ring assigns to the routing key: the
    /// decision depends only on the ordered solver identifiers, the
    /// virtual-node count and the key. Fails only on an empty list, or
    /// when several solvers share a ring with no virtual nodes.
    pub fn select(&mut self, available: &Vec<SolverInfo>, routing_key: &str) -> (r: Result<
        SolverInfo,
        RouterError,
    >)
        ensures
            final(self).spec_virtual_nodes() == old(self).spec_virtual_nodes(),
            r is Ok <==> ch_select(
                old(self).spec_virtual_nodes(),
                views_of(available@),
                routing_key@,
            ) is Ok,
            r matches Ok(v) ==> ch_select(
                old(self).spec_virtual_nodes(),
                views_of(available@),
                routing_key@,
            ) matches Ok(w) && v@ == w,
            r matches Err(e) ==> e == RouterError::NoSolverAvailable,
    {
        proof {
            use_type_invariant(&*self);
        }
        let ghost views = views_of(available@);
        if available.len() == 0 {
            return Err(RouterError::NoSolverAvailable);
        }
        if available.len() == 1 {
            let v = available[0].clone();
            proof {
                assert(v@ == views[0]);
            }
            return Ok(v);
        }
        if self.virtual_nodes == 0 {
            // an empty ring can serve nobody
            return Err(RouterError::NoSolverAvailable);
        }
        self.refresh_ring(available);
        proof {
            use_type_invariant(&*self);
        }
        let kb = routing_key.as_bytes();
        let kh = hash64(kb);
        match &self.ring_cache {
            Some(cache) => {
                proof {
                    lemma_ring_upto_frame(ids_of(views), self.virtual_nodes as nat, views.len());
                    assert(ids_of(views)[0] == views[0].id);
                    assert(map_of(cache.entries@).dom().contains(
                        vnode_hash(ids_of(views)[0], 0),
                    ));
                    assert(keys_has(cache.entries@, vnode_hash(ids_of(views)[0], 0)));
                    assert(cache.entries@.len() > 0) by {
                        let i = choose|i: int|
                            0 <= i < cache.entries@.len() && #[trigger] cache.entries@[i].0
                                == vnode_hash(ids_of(views)[0], 0);
                    }
                }
                let idx = ring_lookup(&cache.entries, kh);
                proof {
                    let m = map_of(cache.entries@);
                    let chosen = ring_key_for(m, kh);
                    assert(m.dom().contains(chosen)) by {
                        if has_geq(m.dom(), kh) {
                            assert(exists|k: u64| is_min_geq(m.dom(), kh, k)) by {
                                let k0 = choose|k: u64| #[trigger] m.dom().contains(k) && k >= kh;
                                lemma_min_geq_exists(cache.entries@, kh, k0);
                            }
                            let c = choose|k: u64| is_min_geq(m.dom(), kh, k);
                            assert(is_min_geq(m.dom(), kh, c));
                        } else {
                            assert(exists|k: u64| is_min(m.dom(), k)) by {
                                lemma_min_exists(cache.entries@);
                            }
                            let c = choose|k: u64| is_min(m.dom(), k);
                            assert(is_min(m.dom(), c));
                        }
                    }
                    assert(0 <= idx < views.len());
                    assert(idx as int == ch_index(
                        ids_of(views),
                        self.virtual_nodes as nat,
                        kh,
                    ));
                }
                let v = available[idx].clone();
                proof {
                    assert(v@ == views[idx as int]);
                }
                Ok(v)
            },
            None => {
                proof {
                    assert(false);
                }
                Err(RouterError::NoSolverAvailable)
            },
        }
    }

    /// Reuses the cached ring when the solver set is unchanged, else
    /// builds a new ring and publishes it in the cache.
    fn refresh_ring(&mut self, available: &Vec<SolverInfo>)
        requires
            available@.len() > 0,
        ensures
            final(self).spec_virtual_nodes() == old(self).spec_virtual_nodes(),
            final(self).ring_cache matches Some(c) && string_views(c.ids@) == ids_of(
                views_of(available@),
            ),
    {
        proof {
            use_type_invariant(&*self);
        }
        let ghost views = views_of(available@);
        let current_hash = solver_set_hash(available);
        let cache_valid = match &self.ring_cache {
            Some(c) => c.ids_hash == current_hash && same_ids(&c.ids, available),
            None => false,
        };
        if cache_valid {
            proof {
                assert(self.ring_cache matches Some(c) && string_views(c.ids@) == ids_of(views));
            }
            return ;
        }
        let entries = build_ring(available, self.virtual_nodes);
        let mut ids: Vec<String> = Vec::new();
        let mut i: usize = 0;
        while i < available.len()
            invariant
                0 <= i <= available@.len(),
                ids@.len() == i,
                forall|m: int| 0 <= m < i ==> #[trigger] ids@[m]@ == available@[m]@.id,
            decreases available.len() - i,
        {
            ids.push(available[i].id.clone());
            i = i + 1;
        }
        proof {
            assert(string_views(ids@) =~= ids_of(views));
        }
        self.ring_cache = Some(RingCache { ids_hash: current_hash, ids, entries });
    }
}

impl Default for ConsistentHashStrategy {
    /// The default strategy, with 150 virtual nodes per solver.
    fn default() -> (r: Self)
        ensures
            r.spec_virtual_nodes() == 150,
    {
        Self::new()
    }
}

/// A nonempty sorted entry list has a least position at or above `h`
/// whenever it has any position at or above `h`.
#[verifier::rlimit(60)]
proof fn lemma_min_geq_exists(es: Seq<(u64, usize)>, h: u64, k0: u64)
    requires
        entries_sorted(es),
        map_of(es).dom().contains(k0),
        k0 >= h,
    ensures
        exists|k: u64| is_min_geq(map_of(es).dom(), h, k),
{
    let m = map_of(es);
    let j0 = choose|j: int| 0 <= j < es.len() && #[trigger] es[j].0 == k0;
    lemma_first_geq(es, h, j0);
    let p = choose|p: int|
        0 <= p < es.len() && (#[trigger] es[p].0) >= h && forall|q: int| 0 <= q < p ==> es[q].0
            < h;
    assert(is_min_geq(m.dom(), h, es[p].0)) by {
        lemma_entry_unique(es, p, es[p].0);
        assert forall|k2: u64| m.dom().contains(k2) && k2 >= h implies es[p].0 <= k2 by {
            let j = choose|j: int| 0 <= j < es.len() && #[trigger] es[j].0 == k2;
            if j < p {
                assert(es[j].0 < h);
            } else if j > p {
                assert(es[p].0 < es[j].0);
            }
        }
    }
}

/// Below any entry at or above `h` sits a first one.
proof fn lemma_first_geq(es: Seq<(u64, usize)>, h: u64, j: int)
    requires
        entries_sorted(es),
        0 <= j < es.len(),
        es[j].0 >= h,
    ensures
        exists|p: int|
            0 <= p < es.len() && (#[trigger] es[p].0) >= h && forall|q: int| 0 <= q < p ==> es[q].0
                < h,
    decreases j,
{
    if j == 0 {
        assert(es[0].0 >= h && forall|q: int| 0 <= q < 0 ==> es[q].0 < h);
    } else if es[j - 1].0 >= h {
        lemma_first_geq(es, h, j - 1);
    } else {
        assert forall|q: int| 0 <= q < j implies es[q].0 < h by {
            if q < j - 1 {
                assert(es[q].0 < es[j - 1].0);
            }
        }
        assert(es[j].0 >= h && forall|q: int| 0 <= q < j ==> es[q].0 < h);
    }
}

/// A nonempty sorted entry list has a least position: its first entry's.
proof fn lemma_min_exists(es: Seq<(u64, usize)>)
    requires
        entries_sorted(es),
        es.len() > 0,
    ensures
        exists|k: u64| is_min(map_of(es).dom(), k),
{
    let m = map_of(es);
    assert(is_min(m.dom(), es[0].0)) by {
        lemma_entry_unique(es, 0, es[0].0);
        assert forall|k2: u64| m.dom().contains(k2) implies es[0].0 <= k2 by {
            let j = choose|j: int| 0 <= j < es.len() && #[trigger] es[j].0 == k2;
            if j > 0 {
                assert(es[0].0 < es[j].0);
            }
        }
    }
}

/// Hashes the concatenated solver identifiers: the cache key of the ring.
fn solver_set_hash(available: &Vec<SolverInfo>) -> (r: u64)
    ensures
        r == hash64_of(ids_concat(ids_of(views_of(available@)))),
{
    let ghost ids = ids_of(views_of(available@));
    let mut bytes: Vec<u8> = Vec::new();
    let mut i: usize = 0;
    proof {
        assert(ids.take(0) =~= Seq::<Seq<char>>::empty());
        assert(bytes@ =~= ids_concat(ids.take(0)));
    }
    while i < available.len()
        invariant
            0 <= i <= available@.len(),
            ids == ids_of(views_of(available@)),
            ids.len() == available@.len(),
            bytes@ == ids_concat(ids.take(i as int)),
        decreases available.len() - i,
    {
        let ghost pre = bytes@;
        bytes.extend_from_slice(available[i].id.as_str().as_bytes());
        proof {
            assert(available@[i as int].id@ == ids[i as int]);
            assert(ids.take(i + 1).drop_last() =~= ids.take(i as int));
            assert(ids.take(i + 1).last() == ids[i as int]);
            assert(bytes@ =~= ids_concat(ids.take(i + 1)));
        }
        i = i + 1;
    }
    proof {
        assert(ids.take(ids.len() as int) =~= ids);
    }
    hash64(bytes.as_slice())
}

/// Whether the cached identifiers equal, one for one, those of the given
/// solver list.
fn same_ids(cached: &Vec<String>, available: &Vec<SolverInfo>) -> (r: bool)
    ensures
        r == (string_views(cached@) == ids_of(views_of(available@))),
{
    let ghost lhs = string_views(cached@);
    let ghost rhs = ids_of(views_of(available@));
    if cached.len() != available.len() {
        proof {
            assert(lhs.len() != rhs.len());
        }
        return false;
    }
    let mut i: usize = 0;
    while i < cached.len()
        invariant
            0 <= i <= cached@.len(),
            cached@.len() == available@.len(),
            lhs == string_views(cached@),
            rhs == ids_of(views_of(available@)),
            lhs.len() == cached@.len(),
            rhs.len() == available@.len(),
            forall|m: int| 0 <= m < i ==> #[trigger] lhs[m] == rhs[m],
        decreases cached.len() - i,
    {
        if !(cached[i] == available[i].id) {
            proof {
                assert(lhs[i as int] != rhs[i as int]);
            }
            return false;
        }
        i = i + 1;
    }
    proof {
        assert(lhs =~= rhs);
    }
    true
}

/// Builds the ring of a solver list: `virtual_nodes` points per solver,
/// inserted solver by solver.
fn build_ring(available: &Vec<SolverInfo>, virtual_nodes: u32) -> (r: Vec<(u64, usize)>)
    ensures
        entries_sorted(r@),
        map_of(r@) == ring_map(ids_of(views_of(available@)), virtual_nodes as nat),
{
    let ghost ids = ids_of(views_of(available@));
    let mut es: Vec<(u64, usize)> = Vec::new();
    proof {
        assert forall|k: u64| true implies !keys_has(es@, k) by {
            if keys_has(es@, k) {
                let i = choose|i: int| 0 <= i < es@.len() && #[trigger] es@[i].0 == k;
            }
        }
        assert(map_of(es@) =~= ring_upto(ids, virtual_nodes as nat, 0));
    }
    let mut i: usize = 0;
    while i < available.len()
        invariant
            0 <= i <= available@.len(),
            ids == ids_of(views_of(available@)),
            ids.len() == available@.len(),
            entries_sorted(es@),
            map_of(es@) == ring_upto(ids, virtual_nodes as nat, i as nat),
        decreases available.len() - i,
    {
        let ghost m_start = map_of(es@);
        let mut vn: u32 = 0;
        while vn < virtual_nodes
            invariant
                0 <= vn <= virtual_nodes,
                0 <= i < available@.len(),
                ids == ids_of(views_of(available@)),
                ids.len() == available@.len(),
                entries_sorted(es@),
                map_of(es@) == solver_ring(m_start, ids[i as int], i as int, vn as nat),
            decreases virtual_nodes - vn,
        {
            let mut bytes: Vec<u8> = Vec::new();
            bytes.extend_from_slice(available[i].id.as_str().as_bytes());
            bytes.push(58);  // the colon of the ring-point key
            push_dec_bytes(&mut bytes, vn as u64);
            proof {
                assert(available@[i as int].id@ == ids[i as int]);
                assert(bytes@ =~= vnode_preimage(ids[i as int], vn as nat));
            }
            let h = hash64(bytes.as_slice());
            entries_insert(&mut es, h, i);
            proof {
                assert(solver_ring(m_start, ids[i as int], i as int, (vn + 1) as nat)
                    == solver_ring(m_start, ids[i as int], i as int, vn as nat).insert(
                    vnode_hash(ids[i as int], vn as nat),
                    i as int,
                ));
            }
            vn = vn + 1;
        }
        proof {
            assert(ring_upto(ids, virtual_nodes as nat, (i + 1) as nat) == solver_ring(
                ring_upto(ids, virtual_nodes as nat, i as nat),
                ids[i as int],
                i as int,
                virtual_nodes as nat,
            ));
        }
        i = i + 1;
    }
    proof {
        assert(i as nat == ids.len());
    }
    es
}

} // verus!
