//! The relation graph object: a social relationship graph.
//!
//! A relation graph is a resource object owned by an identity token; one
//! identity can own several graphs (a friend circle, a work circle). The
//! graph stores typed, weighted edges to other identities.

use vstd::prelude::*;
use vstd::string::StringExecFns;

use crate::clock::now_millis;
use crate::object::{generate_object_id, Object, ObjectId};

verus! {

/// A relationship edge.
#[derive(Debug, Clone)]
pub struct Relation {
    /// The target identity's object identifier.
    pub target_sbt: ObjectId,
    /// Relationship type, such as "follows".
    pub relation_type: String,
    /// Relationship weight, for graph algorithms.
    pub weight: u32,
    /// Creation time, milliseconds since the Unix epoch.
    pub created_at: u64,
    /// Free-form metadata entries.
    pub metadata: Vec<(String, String)>,
}

/// Whether an edge points at the given target under the given type.
pub open spec fn rel_matches(r: Relation, target: Seq<char>, rtype: Seq<char>) -> bool {
    r.target_sbt@ == target && r.relation_type@ == rtype
}

/// Whether some edge matches target and type.
pub open spec fn has_relation(s: Seq<Relation>, target: Seq<char>, rtype: Seq<char>) -> bool {
    exists|i: int| 0 <= i < s.len() && rel_matches(#[trigger] s[i], target, rtype)
}

/// The position of the first edge matching target and type.
pub open spec fn first_relation_index(s: Seq<Relation>, target: Seq<char>, rtype: Seq<char>) -> int {
    choose|i: int|
        0 <= i < s.len() && rel_matches(#[trigger] s[i], target, rtype) && forall|j: int|
            0 <= j < i ==> !rel_matches(#[trigger] s[j], target, rtype)
}

/// The keep-predicate of edge removal: edges that do not match stay.
pub open spec fn keep_pred(target: Seq<char>, rtype: Seq<char>) -> spec_fn(Relation) -> bool {
    |r: Relation| !rel_matches(r, target, rtype)
}

/// The match-predicate of a type query.
pub open spec fn type_pred(rtype: Seq<char>) -> spec_fn(Relation) -> bool {
    |r: Relation| r.relation_type@ == rtype
}

/// Data of a relation graph.
#[derive(Debug, Clone)]
pub struct RelationGraphData {
    /// The owning identity's object identifier.
    pub owner_sbt: ObjectId,
    /// Graph type or name, such as "social".
    pub graph_type: String,
    /// The relationship edges.
    pub relations: Vec<Relation>,
    /// Creation time, milliseconds since the Unix epoch.
    pub created_at: u64,
    /// Last update time, milliseconds since the Unix epoch.
    pub updated_at: u64,
}

impl RelationGraphData {
    /// Creates an empty graph; creation and update time are stamped with
    /// the same wall-clock reading.
    pub fn new(owner_sbt: ObjectId, graph_type: String) -> (r: Self)
        ensures
            r.owner_sbt == owner_sbt,
            r.graph_type == graph_type,
            r.relations@.len() == 0,
            r.created_at == r.updated_at,
    {
        let now = now_millis();
        Self { owner_sbt, graph_type, relations: Vec::new(), created_at: now, updated_at: now }
    }

    /// Appends an edge to the given target with the given type and
    /// weight, and stamps the update time.
    pub fn add_relation(&mut self, target_sbt: ObjectId, relation_type: String, weight: u32)
        ensures
            final(self).relations@.len() == old(self).relations@.len() + 1,
            final(self).relations@.drop_last() == old(self).relations@,
            final(self).relations@.last().target_sbt == target_sbt,
            final(self).relations@.last().relation_type == relation_type,
            final(self).relations@.last().weight == weight,
            final(self).relations@.last().metadata@.len() == 0,
            final(self).owner_sbt == old(self).owner_sbt,
            final(self).graph_type == old(self).graph_type,
            final(self).created_at == old(self).created_at,
    {
        let now = now_millis();
        let relation = Relation {
            target_sbt,
            relation_type,
            weight,
            created_at: now,
            metadata: Vec::new(),
        };
        self.relations.push(relation);
        proof {
            assert(self.relations@.drop_last() =~= old(self).relations@);
        }
        self.touch();
    }

    /// Removes every edge matching target and type; reports whether any
    /// was removed, and stamps the update time only then.
    pub fn remove_relation(&mut self, target_sbt: &ObjectId, relation_type: &str) -> (r: bool)
        ensures
            r == has_relation(old(self).relations@, target_sbt@, relation_type@),
            final(self).relations@ == old(self).relations@.filter(
                keep_pred(target_sbt@, relation_type@),
            ),
            final(self).owner_sbt == old(self).owner_sbt,
            final(self).graph_type == old(self).graph_type,
            final(self).created_at == old(self).created_at,
            !r ==> final(self).updated_at == old(self).updated_at,
    {
        let ghost all = self.relations@;
        let ghost pred = keep_pred(target_sbt@, relation_type@);
        let rtype = relation_type.to_owned();
        let mut q: Vec<Relation> = Vec::new();
        core::mem::swap(&mut q, &mut self.relations);
        let mut found = false;
        let mut i: usize = 0;
        let ghost mut k: int = 0;
        proof {
            assert(all.take(0) =~= Seq::<Relation>::empty());
            assert(all.take(0).filter(pred) =~= Seq::<Relation>::empty()) by {
                reveal_with_fuel(Seq::filter, 2);
            }
            assert(all.skip(0) =~= all);
            assert(q@ =~= all.take(0).filter(pred) + all.skip(0));
        }
        while i < q.len()
            invariant
                0 <= k <= all.len(),
                i as int == all.take(k).filter(pred).len(),
                q@ == all.take(k).filter(pred) + all.skip(k),
                found == has_relation(all.take(k), target_sbt@, relation_type@),
                pred == keep_pred(target_sbt@, relation_type@),
                rtype@ == relation_type@,
            decreases q.len() - i,
        {
            proof {
                Seq::<Relation>::lemma_filter_len(all.take(k), pred);
                assert(k < all.len()) by {
                    if k == all.len() {
                        assert(all.skip(k) =~= Seq::<Relation>::empty());
                        assert(q@.len() == all.take(k).filter(pred).len());
                    }
                }
                assert(q@[i as int] == all.skip(k)[0]);
                assert(all.skip(k)[0] == all[k]);
            }
            let ghost pre = all.take(k);
            let ghost one = seq![all[k]];
            let matches_edge = q[i].target_sbt == *target_sbt && q[i].relation_type == rtype;
            proof {
                assert(matches_edge == rel_matches(all[k], target_sbt@, relation_type@));
                assert(all.take(k + 1) =~= pre + one);
                Seq::<Relation>::filter_distributes_over_add(pre, one, pred);
                assert(one.filter(pred) =~= (
                if pred(all[k]) {
                    one
                } else {
                    Seq::<Relation>::empty()
                })) by {
                    reveal_with_fuel(Seq::filter, 2);
                    assert(one.drop_last() =~= Seq::<Relation>::empty());
                }
            }
            if matches_edge {
                q.remove(i);
                found = true;
                proof {
                    assert(q@ =~= all.take(k + 1).filter(pred) + all.skip(k + 1)) by {
                        assert(all.take(k + 1).filter(pred) =~= pre.filter(pred));
                        assert(all.skip(k) =~= one + all.skip(k + 1));
                    }
                    assert(rel_matches(all.take(k + 1)[k], target_sbt@, relation_type@));
                    assert(has_relation(all.take(k + 1), target_sbt@, relation_type@));
                    k = k + 1;
                }
            } else {
                proof {
                    assert(q@ =~= all.take(k + 1).filter(pred) + all.skip(k + 1)) by {
                        assert(all.take(k + 1).filter(pred) =~= pre.filter(pred) + one);
                        assert(all.skip(k) =~= one + all.skip(k + 1));
                    }
                    assert(has_relation(all.take(k + 1), target_sbt@, relation_type@)
                        == has_relation(pre, target_sbt@, relation_type@)) by {
                        if has_relation(all.take(k + 1), target_sbt@, relation_type@) {
                            let w = choose|w: int|
                                0 <= w < all.take(k + 1).len() && rel_matches(
                                    #[trigger] all.take(k + 1)[w],
                                    target_sbt@,
                                    relation_type@,
                                );
                            if w < k {
                                assert(rel_matches(pre[w], target_sbt@, relation_type@));
                            }
                        }
                        if has_relation(pre, target_sbt@, relation_type@) {
                            let w = choose|w: int|
                                0 <= w < pre.len() && rel_matches(
                                    #[trigger] pre[w],
                                    target_sbt@,
                                    relation_type@,
                                );
                            assert(rel_matches(all.take(k + 1)[w], target_sbt@, relation_type@));
                        }
                    }
                    k = k + 1;
                }
                i = i + 1;
            }
        }
        proof {
            assert(k == all.len()) by {
                if k < all.len() {
                    Seq::<Relation>::lemma_filter_len(all.take(k), pred);
                    assert(q@.len() >= all.skip(k).len());
                }
            }
            assert(all.take(k) =~= all);
            assert(all.skip(k) =~= Seq::<Relation>::empty());
            assert(q@ =~= all.filter(pred));
        }
        core::mem::swap(&mut q, &mut self.relations);
        if found {
            self.touch();
        }
        found
    }

    /// The edges of the given type, in insertion order.
    pub fn get_relations_by_type(&self, relation_type: &str) -> (r: Vec<&Relation>)
        ensures
            deref_relations(r@) == self.relations@.filter(type_pred(relation_type@)),
    {
        let ghost all = self.relations@;
        let ghost pred = type_pred(relation_type@);
        let rtype = relation_type.to_owned();
        let mut out: Vec<&Relation> = Vec::new();
        let mut i: usize = 0;
        proof {
            assert(all.take(0) =~= Seq::<Relation>::empty());
            assert(deref_relations(out@) =~= all.take(0).filter(pred)) by {
                reveal_with_fuel(Seq::filter, 2);
            }
        }
        while i < self.relations.len()
            invariant
                0 <= i <= self.relations@.len(),
                all == self.relations@,
                pred == type_pred(relation_type@),
                rtype@ == relation_type@,
                deref_relations(out@) == all.take(i as int).filter(pred),
            decreases self.relations.len() - i,
        {
            let ghost pre = all.take(i as int);
            let ghost preout = deref_relations(out@);
            let rel = &self.relations[i];
            if rel.relation_type == rtype {
                out.push(rel);
            }
            proof {
                let one = seq![all[i as int]];
                assert(all.take(i + 1) =~= pre + one);
                Seq::<Relation>::filter_distributes_over_add(pre, one, pred);
                assert(one.filter(pred) =~= (
                if pred(all[i as int]) {
                    one
                } else {
                    Seq::<Relation>::empty()
                })) by {
                    reveal_with_fuel(Seq::filter, 2);
                    assert(one.drop_last() =~= Seq::<Relation>::empty());
                }
                if pred(all[i as int]) {
                    assert(deref_relations(out@) =~= preout.push(all[i as int]));
                } else {
                    assert(deref_relations(out@) =~= preout);
                }
                assert(deref_relations(out@) =~= all.take(i + 1).filter(pred));
            }
            i = i + 1;
        }
        proof {
            assert(all.take(all.len() as int) =~= all);
        }
        out
    }

    /// The first edge matching target and type, if any.
    pub fn get_relation(&self, target_sbt: &ObjectId, relation_type: &str) -> (r: Option<
        &Relation,
    >)
        ensures
            r is Some <==> has_relation(self.relations@, target_sbt@, relation_type@),
            r matches Some(rel) ==> rel_matches(*rel, target_sbt@, relation_type@)
                && *rel == self.relations@[first_relation_index(
                self.relations@,
                target_sbt@,
                relation_type@,
            )],
    {
        let rtype = relation_type.to_owned();
        let mut i: usize = 0;
        while i < self.relations.len()
            invariant
                0 <= i <= self.relations@.len(),
                rtype@ == relation_type@,
                forall|m: int|
                    0 <= m < i ==> !rel_matches(
                        #[trigger] self.relations@[m],
                        target_sbt@,
                        relation_type@,
                    ),
            decreases self.relations.len() - i,
        {
            let rel = &self.relations[i];
            if rel.target_sbt == *target_sbt && rel.relation_type == rtype {
                proof {
                    lemma_first_relation(self.relations@, target_sbt@, relation_type@, i as int);
                }
                return Some(rel);
            }
            i = i + 1;
        }
        None
    }

    /// Sets the weight of the first edge matching target and type,
    /// stamping the update time; reports whether an edge matched.
    pub fn update_weight(&mut self, target_sbt: &ObjectId, relation_type: &str, weight: u32) -> (r:
        bool)
        ensures
            r == has_relation(old(self).relations@, target_sbt@, relation_type@),
            !r ==> *final(self) == *old(self),
            r ==> final(self).relations@ == old(self).relations@.update(
                first_relation_index(old(self).relations@, target_sbt@, relation_type@),
                (Relation {
                    weight,
                    ..old(self).relations@[first_relation_index(
                        old(self).relations@,
                        target_sbt@,
                        relation_type@,
                    )]
                }),
            ),
            final(self).owner_sbt == old(self).owner_sbt,
            final(self).graph_type == old(self).graph_type,
            final(self).created_at == old(self).created_at,
    {
        let ghost all = self.relations@;
        let rtype = relation_type.to_owned();
        let mut i: usize = 0;
        while i < self.relations.len()
            invariant
                0 <= i <= self.relations@.len(),
                *self == *old(self),
                all == self.relations@,
                rtype@ == relation_type@,
                forall|m: int|
                    0 <= m < i ==> !rel_matches(
                        #[trigger] self.relations@[m],
                        target_sbt@,
                        relation_type@,
                    ),
            decreases self.relations.len() - i,
        {
            let found = self.relations[i].target_sbt == *target_sbt && self.relations[i]
                .relation_type == rtype;
            if found {
                proof {
                    lemma_first_relation(all, target_sbt@, relation_type@, i as int);
                }
                let mut q: Vec<Relation> = Vec::new();
                core::mem::swap(&mut q, &mut self.relations);
                let rel = q.remove(i);
                let updated = Relation { weight, ..rel };
                q.insert(i, updated);
                core::mem::swap(&mut q, &mut self.relations);
                proof {
                    assert(self.relations@ =~= all.update(
                        i as int,
                        (Relation { weight, ..all[i as int] }),
                    ));
                }
                self.touch();
                return true;
            }
            i = i + 1;
        }
        false
    }

    /// The number of edges.
    pub fn relation_count(&self) -> (r: usize)
        ensures
            r == self.relations@.len(),
    {
        self.relations.len()
    }

    /// The number of edges of the given type.
    pub fn relation_count_by_type(&self, relation_type: &str) -> (r: usize)
        ensures
            r == self.relations@.filter(type_pred(relation_type@)).len(),
    {
        let matching = self.get_relations_by_type(relation_type);
        proof {
            assert(deref_relations(matching@).len() == matching@.len());
        }
        matching.len()
    }

    /// Stamps the update time with the wall clock.
    fn touch(&mut self)
        ensures
            final(self).owner_sbt == old(self).owner_sbt,
            final(self).graph_type == old(self).graph_type,
            final(self).relations == old(self).relations,
            final(self).created_at == old(self).created_at,
    {
        self.updated_at = now_millis();
    }
}

/// The edges behind a sequence of references.
pub open spec fn deref_relations(s: Seq<&Relation>) -> Seq<Relation> {
    Seq::new(s.len(), |i: int| *s[i])
}

/// The first matching position is the position of any match with no
/// earlier match.
proof fn lemma_first_relation(s: Seq<Relation>, target: Seq<char>, rtype: Seq<char>, i: int)
    requires
        0 <= i < s.len(),
        rel_matches(s[i], target, rtype),
        forall|j: int| 0 <= j < i ==> !rel_matches(#[trigger] s[j], target, rtype),
    ensures
        has_relation(s, target, rtype),
        first_relation_index(s, target, rtype) == i,
{
    assert(has_relation(s, target, rtype));
    let p = first_relation_index(s, target, rtype);
    assert(exists|p: int|
        0 <= p < s.len() && rel_matches(#[trigger] s[p], target, rtype) && forall|j: int|
            0 <= j < p ==> !rel_matches(#[trigger] s[j], target, rtype)) by {
        assert(0 <= i < s.len() && rel_matches(s[i], target, rtype) && forall|j: int|
            0 <= j < i ==> !rel_matches(#[trigger] s[j], target, rtype));
    }
    assert(0 <= p < s.len() && rel_matches(s[p], target, rtype) && forall|j: int|
        0 <= j < p ==> !rel_matches(#[trigger] s[j], target, rtype));
    if p < i {
        assert(!rel_matches(s[p], target, rtype));
    } else if p > i {
        assert(!rel_matches(s[i], target, rtype));
    }
}

/// A relation graph: a ledger object holding graph data.
pub type RelationGraph = Object<RelationGraphData>;

impl RelationGraph {
    /// Creates an owned, empty relation graph; the identifier is derived
    /// from the owner and the graph type.
    pub fn new(owner_sbt: ObjectId, graph_type: String) -> (r: Self)
        ensures
            r.metadata.owner matches Some(o) && o == owner_sbt,
            r.metadata.version == 1,
            r.data.owner_sbt == owner_sbt,
            r.data.graph_type == graph_type,
            r.data.relations@.len() == 0,
    {
        let mut preimage = String::from_str("graph:");
        preimage.append(owner_sbt.as_str());
        preimage.append(":");
        preimage.append(graph_type.as_str());
        let id = generate_object_id(preimage.as_str().as_bytes());
        let data = RelationGraphData::new(owner_sbt.clone(), graph_type);
        Object::new_owned(id, &owner_sbt, data)
    }
}

/// Creates a social relation graph for the given owner.
pub fn create_social_graph(owner_sbt: ObjectId) -> (r: RelationGraph)
    ensures
        r.metadata.owner matches Some(o) && o == owner_sbt,
        r.metadata.version == 1,
        r.data.owner_sbt == owner_sbt,
        r.data.graph_type@ == "social"@,
        r.data.relations@.len() == 0,
{
    RelationGraph::new(owner_sbt, String::from_str("social"))
}

/// Creates a professional relation graph for the given owner.
pub fn create_professional_graph(owner_sbt: ObjectId) -> (r: RelationGraph)
    ensures
        r.metadata.owner matches Some(o) && o == owner_sbt,
        r.metadata.version == 1,
        r.data.owner_sbt == owner_sbt,
        r.data.graph_type@ == "professional"@,
        r.data.relations@.len() == 0,
{
    RelationGraph::new(owner_sbt, String::from_str("professional"))
}

} // verus!
