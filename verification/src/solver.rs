//! Solver descriptions and the solver health registry.
//!
//! The registry owns the authoritative table of known solvers; callers only
//! ever receive cloned snapshots. Liveness is tracked through heartbeats:
//! an entry whose last heartbeat is older than the timeout is demoted to
//! `Unknown` by a sweep that runs before every availability query.

use vstd::prelude::*;
use vstd::string::StringSliceAdditionalSpecFns;

use crate::clock::now_millis;

verus! {

/// Unique identifier of a solver.
pub type SolverId = String;

/// Health status of a solver.
#[derive(Debug, Clone, Copy, PartialEq, Eq, Structural)]
pub enum SolverStatus {
    /// Healthy and accepting transfers.
    Online,
    /// Temporarily unavailable, for example under high load.
    Busy,
    /// Offline.
    Offline,
    /// Status unknown: no recent heartbeat.
    Unknown,
}

impl Default for SolverStatus {
    /// The default status of a solver nobody has heard from.
    fn default() -> (r: Self)
        ensures
            r == SolverStatus::Unknown,
    {
        SolverStatus::Unknown
    }
}

/// Description of one solver.
#[derive(Debug)]
pub struct SolverInfo {
    /// Unique solver identifier.
    pub id: SolverId,
    /// Network address, for example "127.0.0.1:9001".
    pub address: String,
    /// Current status.
    pub status: SolverStatus,
    /// Resource domains this solver handles; empty means any resource.
    pub resource_domains: Vec<String>,
    /// Current load: the number of pending transfers.
    pub pending_load: u64,
    /// Maximum capacity.
    pub max_capacity: u64,
    /// Weight for load balancing; higher draws more traffic.
    pub weight: u32,
    /// Last heartbeat, in milliseconds since the Unix epoch.
    pub last_heartbeat: Option<u64>,
}

/// The mathematical value of a solver description.
#[verifier::ext_equal]
pub ghost struct SolverView {
    /// Identifier characters.
    pub id: Seq<char>,
    /// Address characters.
    pub address: Seq<char>,
    /// Current status.
    pub status: SolverStatus,
    /// Resource domains.
    pub resource_domains: Seq<Seq<char>>,
    /// Current load.
    pub pending_load: u64,
    /// Maximum capacity.
    pub max_capacity: u64,
    /// Load-balancing weight.
    pub weight: u32,
    /// Last heartbeat, milliseconds since the Unix epoch.
    pub last_heartbeat: Option<u64>,
}

impl View for SolverInfo {
    type V = SolverView;

    open spec fn view(&self) -> SolverView {
        SolverView {
            id: self.id@,
            address: self.address@,
            status: self.status,
            resource_domains: Seq::new(
                self.resource_domains@.len(),
                |i: int| self.resource_domains@[i]@,
            ),
            pending_load: self.pending_load,
            max_capacity: self.max_capacity,
            weight: self.weight,
            last_heartbeat: self.last_heartbeat,
        }
    }
}

/// A solver is available when it is online and below capacity.
pub open spec fn spec_is_available(v: SolverView) -> bool {
    v.status == SolverStatus::Online && v.pending_load < v.max_capacity
}

/// `p` is a prefix of `s`.
pub open spec fn is_prefix(p: Seq<u8>, s: Seq<u8>) -> bool {
    p.len() <= s.len() && p == s.subrange(0, p.len() as int)
}

/// A domain entry matches a resource when it is the wildcard `*` or a
/// byte-prefix of the resource key.
pub open spec fn domain_matches(domain: Seq<u8>, resource: Seq<u8>) -> bool {
    domain =~= seq![('*' as u8)] || is_prefix(domain, resource)
}

/// A solver can handle a resource when its domain list is empty or some
/// domain matches the resource key.
pub open spec fn spec_can_handle(v: SolverView, resource: Seq<u8>) -> bool {
    v.resource_domains.len() == 0 || exists|i: int|
        0 <= i < v.resource_domains.len() && domain_matches(
            vstd::utf8::encode_utf8(#[trigger] v.resource_domains[i]),
            resource,
        )
}

impl SolverInfo {
    /// Creates a solver description with default capacity, weight and
    /// status, stamping the heartbeat with the current time.
    pub fn new(id: SolverId, address: String) -> (r: Self)
        ensures
            r@.id == id@,
            r@.address == address@,
            r@.status == SolverStatus::Online,
            r@.resource_domains.len() == 0,
            r@.pending_load == 0,
            r@.max_capacity == 10000,
            r@.weight == 100,
            r@.last_heartbeat is Some,
    {
        Self {
            id,
            address,
            status: SolverStatus::Online,
            resource_domains: Vec::new(),
            pending_load: 0,
            max_capacity: 10000,
            weight: 100,
            last_heartbeat: Some(now_millis()),
        }
    }

    /// Replaces the resource domain list.
    pub fn with_domains(self, domains: Vec<String>) -> (r: Self)
        ensures
            r@ == (SolverView { resource_domains: domains.deep_view(), ..self@ }),
    {
        let r = Self { resource_domains: domains, ..self };
        proof {
            assert(r@ =~= (SolverView { resource_domains: r.resource_domains.deep_view(), ..self@ }));
        }
        r
    }

    /// Sets the load-balancing weight.
    pub fn with_weight(self, weight: u32) -> (r: Self)
        ensures
            r@ == (SolverView { weight, ..self@ }),
    {
        let r = Self { weight, ..self };
        proof {
            assert(r@ =~= (SolverView { weight, ..self@ }));
        }
        r
    }

    /// Sets the maximum capacity.
    pub fn with_capacity(self, capacity: u64) -> (r: Self)
        ensures
            r@ == (SolverView { max_capacity: capacity, ..self@ }),
    {
        let r = Self { max_capacity: capacity, ..self };
        proof {
            assert(r@ =~= (SolverView { max_capacity: capacity, ..self@ }));
        }
        r
    }

    /// Whether the solver is available for routing: online and below
    /// capacity.
    pub fn is_available(&self) -> (r: bool)
        ensures
            r == spec_is_available(self@),
    {
        matches!(self.status, SolverStatus::Online) && self.pending_load < self.max_capacity
    }

    /// Whether this solver can handle the given resource: true when its
    /// domain list is empty, or a domain is the wildcard `*`, or the
    /// resource key starts with a domain.
    pub fn can_handle_resource(&self, resource: &str) -> (r: bool)
        ensures
            r == spec_can_handle(self@, resource.spec_bytes()),
    {
        if self.resource_domains.len() == 0 {
            return true;
        }
        let rbytes = resource.as_bytes();
        let mut i: usize = 0;
        while i < self.resource_domains.len()
            invariant
                0 <= i <= self.resource_domains@.len(),
                forall|m: int|
                    0 <= m < i ==> !domain_matches(
                        vstd::utf8::encode_utf8(#[trigger] self@.resource_domains[m]),
                        resource.spec_bytes(),
                    ),
                rbytes@ == resource.spec_bytes(),
            decreases self.resource_domains.len() - i,
        {
            let dbytes = self.resource_domains[i].as_str().as_bytes();
            proof {
                assert(self@.resource_domains[i as int] == self.resource_domains@[i as int]@);
                assert(dbytes@ == vstd::utf8::encode_utf8(self@.resource_domains[i as int]));
            }
            if (dbytes.len() == 1 && dbytes[0] == ('*' as u8)) || bytes_prefix(dbytes, rbytes) {
                proof {
                    if dbytes@.len() == 1 && dbytes@[0] == ('*' as u8) {
                        assert(dbytes@ =~= seq![('*' as u8)]);
                    }
                    assert(domain_matches(
                        vstd::utf8::encode_utf8(self@.resource_domains[i as int]),
                        resource.spec_bytes(),
                    ));
                }
                return true;
            }
            proof {
                assert(!(dbytes@ =~= seq![('*' as u8)]));
            }
            i = i + 1;
        }
        false
    }
}

/// Byte-wise prefix test.
fn bytes_prefix(p: &[u8], s: &[u8]) -> (r: bool)
    ensures
        r == is_prefix(p@, s@),
{
    if p.len() > s.len() {
        return false;
    }
    let mut i: usize = 0;
    while i < p.len()
        invariant
            0 <= i <= p@.len(),
            p@.len() <= s@.len(),
            forall|m: int| 0 <= m < i ==> p@[m] == s@[m],
        decreases p.len() - i,
    {
        if p[i] != s[i] {
            proof {
                assert(p@[i as int] != s@.subrange(0, p@.len() as int)[i as int]);
            }
            return false;
        }
        i = i + 1;
    }
    proof {
        assert(p@ =~= s@.subrange(0, p@.len() as int));
    }
    true
}

impl Clone for SolverInfo {
    /// Clones the description; the clone has the same value.
    fn clone(&self) -> (r: Self)
        ensures
            r@ == self@,
    {
        let mut domains: Vec<String> = Vec::new();
        let mut i: usize = 0;
        while i < self.resource_domains.len()
            invariant
                0 <= i <= self.resource_domains@.len(),
                domains@.len() == i,
                forall|m: int| 0 <= m < i ==> domains@[m] == self.resource_domains@[m],
            decreases self.resource_domains.len() - i,
        {
            domains.push(self.resource_domains[i].clone());
            i = i + 1;
        }
        let r = Self {
            id: self.id.clone(),
            address: self.address.clone(),
            status: self.status,
            resource_domains: domains,
            pending_load: self.pending_load,
            max_capacity: self.max_capacity,
            weight: self.weight,
            last_heartbeat: self.last_heartbeat,
        };
        proof {
            assert(r@ =~= self@);
        }
        r
    }
}

/// The values of a table of solver descriptions.
pub open spec fn views_of(s: Seq<SolverInfo>) -> Seq<SolverView> {
    Seq::new(s.len(), |i: int| s[i]@)
}

/// No two solvers in the sequence share an identifier.
pub open spec fn solver_ids_unique(s: Seq<SolverView>) -> bool {
    forall|i: int, j: int| 0 <= i < j < s.len() ==> s[i].id != s[j].id
}

/// Whether some solver in the sequence has the given identifier.
pub open spec fn reg_has_id(s: Seq<SolverView>, id: Seq<char>) -> bool {
    exists|i: int| 0 <= i < s.len() && #[trigger] s[i].id == id
}

/// The position of the solver with the given identifier.
pub open spec fn reg_index_of(s: Seq<SolverView>, id: Seq<char>) -> int {
    choose|i: int| 0 <= i < s.len() && #[trigger] s[i].id == id
}

/// The solver with its heartbeat stamped to the given time.
pub open spec fn spec_stamped(v: SolverView, t: u64) -> SolverView {
    SolverView { last_heartbeat: Some(t), ..v }
}

/// The table after registering a solver at the given time: the entry with
/// the same identifier is replaced, or a new entry is appended.
pub open spec fn spec_register(s: Seq<SolverView>, v: SolverView, t: u64) -> Seq<SolverView> {
    if reg_has_id(s, v.id) {
        s.update(reg_index_of(s, v.id), spec_stamped(v, t))
    } else {
        s.push(spec_stamped(v, t))
    }
}

/// A solver after a heartbeat at the given time: the heartbeat is stamped,
/// and an `Unknown` status is promoted to `Online`.
pub open spec fn spec_heartbeat_one(v: SolverView, t: u64) -> SolverView {
    SolverView {
        last_heartbeat: Some(t),
        status: if v.status == SolverStatus::Unknown {
            SolverStatus::Online
        } else {
            v.status
        },
        ..v
    }
}

/// A solver after the timeout sweep at the given time: demoted to
/// `Unknown` when its last heartbeat is older than the timeout.
pub open spec fn spec_sweep_one(v: SolverView, now: u64, timeout: u64) -> SolverView {
    match v.last_heartbeat {
        Some(h) => {
            if now >= h && now - h > timeout {
                SolverView { status: SolverStatus::Unknown, ..v }
            } else {
                v
            }
        },
        None => v,
    }
}

/// The whole table after the timeout sweep at the given time.
pub open spec fn spec_sweep(s: Seq<SolverView>, now: u64, timeout: u64) -> Seq<SolverView> {
    Seq::new(s.len(), |i: int| spec_sweep_one(s[i], now, timeout))
}

/// The availability predicate, as a value for `Seq::filter`.
pub open spec fn avail_pred() -> spec_fn(SolverView) -> bool {
    |v: SolverView| spec_is_available(v)
}

/// The resource-handling predicate, as a value for `Seq::filter`.
pub open spec fn handle_pred(resource: Seq<u8>) -> spec_fn(SolverView) -> bool {
    |v: SolverView| spec_can_handle(v, resource)
}

/// The available solvers of a table, in table order.
pub open spec fn spec_available_of(s: Seq<SolverView>) -> Seq<SolverView> {
    s.filter(avail_pred())
}

/// Registry tracking known solvers, their health and their load.
#[derive(Debug)]
pub struct SolverRegistry {
    solvers: Vec<SolverInfo>,
    heartbeat_timeout_ms: u64,
}

impl SolverRegistry {
    /// The registered solvers, in registration order.
    pub closed spec fn spec_solvers(self) -> Seq<SolverView> {
        views_of(self.solvers@)
    }

    /// The heartbeat timeout in milliseconds.
    pub closed spec fn spec_timeout_ms(self) -> u64 {
        self.heartbeat_timeout_ms
    }

    #[verifier::type_invariant]
    spec fn type_wf(self) -> bool {
        solver_ids_unique(views_of(self.solvers@))
    }

    /// Creates an empty registry with the default 30-second heartbeat
    /// timeout.
    pub fn new() -> (r: Self)
        ensures
            r.spec_solvers().len() == 0,
            r.spec_timeout_ms() == 30000,
    {
        Self { solvers: Vec::new(), heartbeat_timeout_ms: 30000 }
    }

    /// Creates an empty registry with a custom heartbeat timeout in
    /// milliseconds.
    pub fn with_timeout_ms(timeout_ms: u64) -> (r: Self)
        ensures
            r.spec_solvers().len() == 0,
            r.spec_timeout_ms() == timeout_ms,
    {
        Self { solvers: Vec::new(), heartbeat_timeout_ms: timeout_ms }
    }

    /// The index of the solver with this identifier, if any.
    fn find_index(&self, id: &String) -> (r: Option<usize>)
        ensures
            r is Some <==> reg_has_id(self.spec_solvers(), id@),
            r matches Some(i) ==> 0 <= i < self.spec_solvers().len() && self.spec_solvers()[
                i as int
            ].id == id@,
    {
        let mut i: usize = 0;
        while i < self.solvers.len()
            invariant
                0 <= i <= self.solvers@.len(),
                forall|m: int| 0 <= m < i ==> #[trigger] self.spec_solvers()[m].id != id@,
            decreases self.solvers.len() - i,
        {
            if self.solvers[i].id == *id {
                proof {
                    assert(self.spec_solvers()[i as int].id == id@);
                }
                return Some(i);
            }
            proof {
                assert(self.spec_solvers()[i as int].id == self.solvers@[i as int].id@);
            }
            i = i + 1;
        }
        None
    }

    /// Registers a solver at the given time: the entry with the same
    /// identifier is replaced, or a new entry appended, with its heartbeat
    /// stamped to `now_ms`.
    pub fn register_at(&mut self, solver: SolverInfo, now_ms: u64)
        ensures
            final(self).spec_solvers() == spec_register(
                old(self).spec_solvers(),
                solver@,
                now_ms,
            ),
            final(self).spec_timeout_ms() == old(self).spec_timeout_ms(),
    {
        proof {
            use_type_invariant(&*self);
        }
        let ghost prior = views_of(self.solvers@);
        let ghost target = spec_register(prior, solver@, now_ms);
        let found = self.find_index(&solver.id);
        let stamped = SolverInfo { last_heartbeat: Some(now_ms), ..solver };
        proof {
            assert(stamped@ =~= spec_stamped(solver@, now_ms));
        }
        let mut q: Vec<SolverInfo> = Vec::new();
        core::mem::swap(&mut q, &mut self.solvers);
        match found {
            Some(i) => {
                q[i] = stamped;
                proof {
                    let j = reg_index_of(prior, solver@.id);
                    assert(prior[j].id == solver@.id);
                    if j != i as int {
                        assert(prior[j].id != prior[i as int].id);
                    }
                    assert(j == i as int);
                    assert(views_of(q@) =~= target);
                    assert forall|a: int, b: int|
                        0 <= a < b < views_of(q@).len() implies views_of(q@)[a].id != views_of(
                        q@,
                    )[b].id by {
                        if a != i as int && b != i as int {
                            assert(views_of(q@)[a] == prior[a] && views_of(q@)[b] == prior[b]);
                        }
                    }
                }
            },
            None => {
                q.push(stamped);
                proof {
                    assert(views_of(q@) =~= target);
                    assert forall|a: int, b: int|
                        0 <= a < b < views_of(q@).len() implies views_of(q@)[a].id != views_of(
                        q@,
                    )[b].id by {
                        if b < prior.len() {
                            assert(views_of(q@)[a] == prior[a] && views_of(q@)[b] == prior[b]);
                        } else {
                            assert(views_of(q@)[b].id == solver@.id);
                            assert(views_of(q@)[a] == prior[a]);
                            assert(!reg_has_id(prior, solver@.id));
                        }
                    }
                }
            },
        }
        core::mem::swap(&mut q, &mut self.solvers);
    }

    /// Registers a solver, stamping its heartbeat with the current time.
    pub fn register(&mut self, solver: SolverInfo)
        ensures
            exists|t: u64| final(self).spec_solvers() == spec_register(
                old(self).spec_solvers(),
                solver@,
                t,
            ),
            final(self).spec_timeout_ms() == old(self).spec_timeout_ms(),
    {
        let t = now_millis();
        self.register_at(solver, t);
    }

    /// Removes the solver with this identifier; does nothing when none is
    /// registered.
    pub fn unregister(&mut self, solver_id: &SolverId)
        ensures
            !reg_has_id(old(self).spec_solvers(), solver_id@) ==> *final(self) == *old(self),
            reg_has_id(old(self).spec_solvers(), solver_id@) ==> final(self).spec_solvers()
                == old(self).spec_solvers().remove(
                reg_index_of(old(self).spec_solvers(), solver_id@),
            ),
            final(self).spec_timeout_ms() == old(self).spec_timeout_ms(),
    {
        proof {
            use_type_invariant(&*self);
        }
        let ghost prior = views_of(self.solvers@);
        let found = self.find_index(solver_id);
        match found {
            Some(i) => {
                let mut q: Vec<SolverInfo> = Vec::new();
                core::mem::swap(&mut q, &mut self.solvers);
                q.remove(i);
                proof {
                    let j = reg_index_of(prior, solver_id@);
                    assert(prior[j].id == solver_id@);
                    if j != i as int {
                        assert(prior[j].id != prior[i as int].id);
                    }
                    assert(j == i as int);
                    assert(views_of(q@) =~= prior.remove(i as int));
                    assert forall|a: int, b: int|
                        0 <= a < b < views_of(q@).len() implies views_of(q@)[a].id != views_of(
                        q@,
                    )[b].id by {
                        if a < i {
                            assert(views_of(q@)[a] == prior[a]);
                        } else {
                            assert(views_of(q@)[a] == prior[a + 1]);
                        }
                        if b < i {
                            assert(views_of(q@)[b] == prior[b]);
                        } else {
                            assert(views_of(q@)[b] == prior[b + 1]);
                        }
                    }
                }
                core::mem::swap(&mut q, &mut self.solvers);
            },
            None => {},
        }
    }

    /// Replaces the entry at a known index; the update keeps the
    /// identifier.
    fn update_entry(&mut self, updated: SolverInfo, i: usize)
        requires
            0 <= i < old(self).spec_solvers().len(),
            updated@.id == old(self).spec_solvers()[i as int].id,
        ensures
            final(self).spec_solvers() == old(self).spec_solvers().update(i as int, updated@),
            final(self).spec_timeout_ms() == old(self).spec_timeout_ms(),
    {
        proof {
            use_type_invariant(&*self);
        }
        let ghost prior = views_of(self.solvers@);
        let mut q: Vec<SolverInfo> = Vec::new();
        core::mem::swap(&mut q, &mut self.solvers);
        q[i] = updated;
        proof {
            assert(views_of(q@) =~= prior.update(i as int, updated@));
            assert forall|a: int, b: int|
                0 <= a < b < views_of(q@).len() implies views_of(q@)[a].id != views_of(
                q@,
            )[b].id by {
                if a != i as int && b != i as int {
                    assert(views_of(q@)[a] == prior[a] && views_of(q@)[b] == prior[b]);
                } else if a == i as int {
                    assert(views_of(q@)[b] == prior[b]);
                    assert(prior[a].id != prior[b].id);
                } else {
                    assert(views_of(q@)[a] == prior[a]);
                    assert(prior[a].id != prior[b].id);
                }
            }
        }
        core::mem::swap(&mut q, &mut self.solvers);
    }

    /// Records a heartbeat at the given time: stamps the entry and promotes
    /// an `Unknown` status to `Online`. Does nothing for an unknown
    /// identifier.
    pub fn heartbeat_at(&mut self, solver_id: &SolverId, now_ms: u64)
        ensures
            !reg_has_id(old(self).spec_solvers(), solver_id@) ==> *final(self) == *old(self),
            reg_has_id(old(self).spec_solvers(), solver_id@) ==> final(self).spec_solvers() == old(
                self,
            ).spec_solvers().update(
                reg_index_of(old(self).spec_solvers(), solver_id@),
                spec_heartbeat_one(
                    old(self).spec_solvers()[reg_index_of(old(self).spec_solvers(), solver_id@)],
                    now_ms,
                ),
            ),
            final(self).spec_timeout_ms() == old(self).spec_timeout_ms(),
    {
        proof {
            use_type_invariant(&*self);
        }
        let ghost prior = views_of(self.solvers@);
        let found = self.find_index(solver_id);
        match found {
            Some(i) => {
                let current = self.solvers[i].clone();
                let status = if matches!(current.status, SolverStatus::Unknown) {
                    SolverStatus::Online
                } else {
                    current.status
                };
                let updated = SolverInfo { last_heartbeat: Some(now_ms), status, ..current };
                proof {
                    let j = reg_index_of(prior, solver_id@);
                    assert(prior[j].id == solver_id@);
                    if j != i as int {
                        assert(prior[j].id != prior[i as int].id);
                    }
                    assert(j == i as int);
                    assert(updated@ =~= spec_heartbeat_one(prior[i as int], now_ms));
                }
                self.update_entry(updated, i);
            },
            None => {},
        }
    }

    /// Records a heartbeat at the current time.
    pub fn heartbeat(&mut self, solver_id: &SolverId)
        ensures
            !reg_has_id(old(self).spec_solvers(), solver_id@) ==> *final(self) == *old(self),
            reg_has_id(old(self).spec_solvers(), solver_id@) ==> exists|t: u64| final(
                self).spec_solvers() == old(self).spec_solvers().update(
                reg_index_of(old(self).spec_solvers(), solver_id@),
                spec_heartbeat_one(
                    old(self).spec_solvers()[reg_index_of(old(self).spec_solvers(), solver_id@)],
                    t,
                ),
            ),
            final(self).spec_timeout_ms() == old(self).spec_timeout_ms(),
    {
        let t = now_millis();
        self.heartbeat_at(solver_id, t);
    }

    /// Sets the status of the entry with this identifier; does nothing for
    /// an unknown identifier.
    pub fn update_status(&mut self, solver_id: &SolverId, status: SolverStatus)
        ensures
            !reg_has_id(old(self).spec_solvers(), solver_id@) ==> *final(self) == *old(self),
            reg_has_id(old(self).spec_solvers(), solver_id@) ==> final(self).spec_solvers() == old(
                self,
            ).spec_solvers().update(
                reg_index_of(old(self).spec_solvers(), solver_id@),
                (SolverView {
                    status,
                    ..old(self).spec_solvers()[reg_index_of(
                        old(self).spec_solvers(),
                        solver_id@,
                    )]
                }),
            ),
            final(self).spec_timeout_ms() == old(self).spec_timeout_ms(),
    {
        proof {
            use_type_invariant(&*self);
        }
        let ghost prior = views_of(self.solvers@);
        let found = self.find_index(solver_id);
        match found {
            Some(i) => {
                let current = self.solvers[i].clone();
                let updated = SolverInfo { status, ..current };
                proof {
                    let j = reg_index_of(prior, solver_id@);
                    assert(prior[j].id == solver_id@);
                    if j != i as int {
                        assert(prior[j].id != prior[i as int].id);
                    }
                    assert(j == i as int);
                    assert(updated@ =~= (SolverView { status, ..prior[i as int] }));
                }
                self.update_entry(updated, i);
            },
            None => {},
        }
    }

    /// Sets the pending load of the entry with this identifier; does
    /// nothing for an unknown identifier.
    pub fn update_load(&mut self, solver_id: &SolverId, pending_load: u64)
        ensures
            !reg_has_id(old(self).spec_solvers(), solver_id@) ==> *final(self) == *old(self),
            reg_has_id(old(self).spec_solvers(), solver_id@) ==> final(self).spec_solvers() == old(
                self,
            ).spec_solvers().update(
                reg_index_of(old(self).spec_solvers(), solver_id@),
                (SolverView {
                    pending_load,
                    ..old(self).spec_solvers()[reg_index_of(
                        old(self).spec_solvers(),
                        solver_id@,
                    )]
                }),
            ),
            final(self).spec_timeout_ms() == old(self).spec_timeout_ms(),
    {
        proof {
            use_type_invariant(&*self);
        }
        let ghost prior = views_of(self.solvers@);
        let found = self.find_index(solver_id);
        match found {
            Some(i) => {
                let current = self.solvers[i].clone();
                let updated = SolverInfo { pending_load, ..current };
                proof {
                    let j = reg_index_of(prior, solver_id@);
                    assert(prior[j].id == solver_id@);
                    if j != i as int {
                        assert(prior[j].id != prior[i as int].id);
                    }
                    assert(j == i as int);
                    assert(updated@ =~= (SolverView { pending_load, ..prior[i as int] }));
                }
                self.update_entry(updated, i);
            },
            None => {},
        }
    }

    /// A snapshot of the solver with this identifier, if registered.
    pub fn get(&self, solver_id: &SolverId) -> (r: Option<SolverInfo>)
        ensures
            r is Some <==> reg_has_id(self.spec_solvers(), solver_id@),
            r matches Some(v) ==> v@ == self.spec_solvers()[reg_index_of(
                self.spec_solvers(),
                solver_id@,
            )],
    {
        proof {
            use_type_invariant(&*self);
        }
        let found = self.find_index(solver_id);
        match found {
            Some(i) => {
                let v = self.solvers[i].clone();
                proof {
                    let s = self.spec_solvers();
                    let j = reg_index_of(s, solver_id@);
                    assert(s[j].id == solver_id@);
                    if j != i as int {
                        assert(s[j].id != s[i as int].id);
                    }
                    assert(j == i as int);
                }
                Some(v)
            },
            None => None,
        }
    }

    /// A snapshot of all registered solvers, in registration order.
    pub fn get_all(&self) -> (r: Vec<SolverInfo>)
        ensures
            views_of(r@) == self.spec_solvers(),
    {
        let mut out: Vec<SolverInfo> = Vec::new();
        let mut i: usize = 0;
        while i < self.solvers.len()
            invariant
                0 <= i <= self.solvers@.len(),
                out@.len() == i,
                forall|m: int| 0 <= m < i ==> #[trigger] out@[m]@ == self.solvers@[m]@,
            decreases self.solvers.len() - i,
        {
            out.push(self.solvers[i].clone());
            i = i + 1;
        }
        proof {
            assert(views_of(out@) =~= views_of(self.solvers@));
        }
        out
    }

    /// Runs the timeout sweep at the given time: every entry whose last
    /// heartbeat is older than the timeout is demoted to `Unknown`.
    fn sweep_at(&mut self, now_ms: u64)
        ensures
            final(self).spec_solvers() == spec_sweep(
                old(self).spec_solvers(),
                now_ms,
                old(self).spec_timeout_ms(),
            ),
            final(self).spec_timeout_ms() == old(self).spec_timeout_ms(),
    {
        proof {
            use_type_invariant(&*self);
        }
        let ghost prior = views_of(self.solvers@);
        let ghost timeout = self.heartbeat_timeout_ms;
        let mut out: Vec<SolverInfo> = Vec::new();
        let mut i: usize = 0;
        while i < self.solvers.len()
            invariant
                0 <= i <= self.solvers@.len(),
                *self == *old(self),
                prior == views_of(self.solvers@),
                timeout == self.heartbeat_timeout_ms,
                out@.len() == i,
                forall|m: int|
                    0 <= m < i ==> #[trigger] out@[m]@ == spec_sweep_one(prior[m], now_ms, timeout),
            decreases self.solvers.len() - i,
        {
            let v = self.solvers[i].clone();
            let stale = match v.last_heartbeat {
                Some(h) => now_ms >= h && now_ms - h > self.heartbeat_timeout_ms,
                None => false,
            };
            if stale {
                let w = SolverInfo { status: SolverStatus::Unknown, ..v };
                proof {
                    assert(w@ =~= spec_sweep_one(prior[i as int], now_ms, timeout));
                }
                out.push(w);
            } else {
                proof {
                    assert(v@ =~= spec_sweep_one(prior[i as int], now_ms, timeout));
                }
                out.push(v);
            }
            i = i + 1;
        }
        proof {
            assert(views_of(out@) =~= spec_sweep(prior, now_ms, timeout));
            assert forall|a: int, b: int|
                0 <= a < b < views_of(out@).len() implies views_of(out@)[a].id != views_of(
                out@,
            )[b].id by {
                assert(views_of(out@)[a].id == prior[a].id && views_of(out@)[b].id
                    == prior[b].id);
            }
        }
        self.solvers = out;
    }

    /// The available solvers, after running the timeout sweep at the given
    /// time: the snapshot holds exactly the entries that are online and
    /// below capacity once stale heartbeats are demoted.
    pub fn get_available_at(&mut self, now_ms: u64) -> (r: Vec<SolverInfo>)
        ensures
            final(self).spec_solvers() == spec_sweep(
                old(self).spec_solvers(),
                now_ms,
                old(self).spec_timeout_ms(),
            ),
            final(self).spec_timeout_ms() == old(self).spec_timeout_ms(),
            views_of(r@) == spec_available_of(final(self).spec_solvers()),
    {
        self.sweep_at(now_ms);
        self.collect_available()
    }

    /// The available solvers, sweeping with the current wall clock.
    pub fn get_available(&mut self) -> (r: Vec<SolverInfo>)
        ensures
            exists|t: u64| final(self).spec_solvers() == spec_sweep(
                old(self).spec_solvers(),
                t,
                old(self).spec_timeout_ms(),
            ),
            final(self).spec_timeout_ms() == old(self).spec_timeout_ms(),
            views_of(r@) == spec_available_of(final(self).spec_solvers()),
    {
        let t = now_millis();
        self.get_available_at(t)
    }

    /// Snapshot of the available entries, in table order.
    fn collect_available(&self) -> (r: Vec<SolverInfo>)
        ensures
            views_of(r@) == spec_available_of(self.spec_solvers()),
    {
        let ghost all = self.spec_solvers();
        let mut out: Vec<SolverInfo> = Vec::new();
        let mut i: usize = 0;
        proof {
            assert(all.take(0) =~= Seq::<SolverView>::empty());
            assert(views_of(out@) =~= spec_available_of(all.take(0))) by {
                reveal_with_fuel(Seq::filter, 2);
            }
        }
        while i < self.solvers.len()
            invariant
                0 <= i <= self.solvers@.len(),
                all == self.spec_solvers(),
                all.len() == self.solvers@.len(),
                views_of(out@) == spec_available_of(all.take(i as int)),
            decreases self.solvers.len() - i,
        {
            let ghost pre = all.take(i as int);
            let ghost preout = views_of(out@);
            let v = &self.solvers[i];
            proof {
                assert(v@ == all[i as int]);
            }
            if v.is_available() {
                out.push(v.clone());
            }
            proof {
                let one = seq![all[i as int]];
                assert(all.take(i + 1) =~= pre + one);
                Seq::<SolverView>::filter_distributes_over_add(pre, one, avail_pred());
                assert(one.filter(avail_pred()) =~= (
                if spec_is_available(all[i as int]) {
                    one
                } else {
                    Seq::<SolverView>::empty()
                })) by {
                    reveal_with_fuel(Seq::filter, 2);
                    assert(one.drop_last() =~= Seq::<SolverView>::empty());
                }
                if spec_is_available(all[i as int]) {
                    assert(views_of(out@) =~= preout.push(all[i as int]));
                } else {
                    assert(views_of(out@) =~= preout);
                }
                assert(views_of(out@) =~= spec_available_of(all.take(i + 1)));
            }
            i = i + 1;
        }
        proof {
            assert(all.take(all.len() as int) =~= all);
        }
        out
    }

    /// The available solvers that can handle a resource, after the timeout
    /// sweep at the given time.
    pub fn get_available_for_resource_at(&mut self, resource: &str, now_ms: u64) -> (r: Vec<
        SolverInfo,
    >)
        ensures
            final(self).spec_solvers() == spec_sweep(
                old(self).spec_solvers(),
                now_ms,
                old(self).spec_timeout_ms(),
            ),
            final(self).spec_timeout_ms() == old(self).spec_timeout_ms(),
            views_of(r@) == spec_available_of(final(self).spec_solvers()).filter(
                handle_pred(resource.spec_bytes()),
            ),
    {
        let available = self.get_available_at(now_ms);
        let ghost avail = views_of(available@);
        let mut out: Vec<SolverInfo> = Vec::new();
        let mut i: usize = 0;
        proof {
            assert(avail.take(0) =~= Seq::<SolverView>::empty());
            assert(views_of(out@) =~= avail.take(0).filter(handle_pred(resource.spec_bytes())))
                by {
                reveal_with_fuel(Seq::filter, 2);
            }
        }
        while i < available.len()
            invariant
                0 <= i <= available@.len(),
                avail == views_of(available@),
                avail.len() == available@.len(),
                views_of(out@) == avail.take(i as int).filter(handle_pred(resource.spec_bytes())),
            decreases available.len() - i,
        {
            let ghost pre = avail.take(i as int);
            let ghost preout = views_of(out@);
            let v = &available[i];
            proof {
                assert(v@ == avail[i as int]);
            }
            if v.can_handle_resource(resource) {
                out.push(v.clone());
            }
            proof {
                let pred = handle_pred(resource.spec_bytes());
                let one = seq![avail[i as int]];
                assert(avail.take(i + 1) =~= pre + one);
                Seq::<SolverView>::filter_distributes_over_add(pre, one, pred);
                assert(one.filter(pred) =~= (
                if pred(avail[i as int]) {
                    one
                } else {
                    Seq::<SolverView>::empty()
                })) by {
                    reveal_with_fuel(Seq::filter, 2);
                    assert(one.drop_last() =~= Seq::<SolverView>::empty());
                }
                if pred(avail[i as int]) {
                    assert(views_of(out@) =~= preout.push(avail[i as int]));
                } else {
                    assert(views_of(out@) =~= preout);
                }
                assert(views_of(out@) =~= avail.take(i + 1).filter(pred));
            }
            i = i + 1;
        }
        proof {
            assert(avail.take(avail.len() as int) =~= avail);
        }
        out
    }

    /// The available solvers that can handle a resource, sweeping with the
    /// current wall clock.
    pub fn get_available_for_resource(&mut self, resource: &str) -> (r: Vec<SolverInfo>)
        ensures
            exists|t: u64| final(self).spec_solvers() == spec_sweep(
                old(self).spec_solvers(),
                t,
                old(self).spec_timeout_ms(),
            ),
            final(self).spec_timeout_ms() == old(self).spec_timeout_ms(),
            views_of(r@) == spec_available_of(final(self).spec_solvers()).filter(
                handle_pred(resource.spec_bytes()),
            ),
    {
        let t = now_millis();
        self.get_available_for_resource_at(resource, t)
    }

    /// The number of registered solvers.
    pub fn count(&self) -> (r: usize)
        ensures
            r == self.spec_solvers().len(),
    {
        self.solvers.len()
    }

    /// The number of available solvers, after the timeout sweep.
    pub fn available_count(&mut self) -> (r: usize)
        ensures
            exists|t: u64| final(self).spec_solvers() == spec_sweep(
                old(self).spec_solvers(),
                t,
                old(self).spec_timeout_ms(),
            ),
            final(self).spec_timeout_ms() == old(self).spec_timeout_ms(),
            r == spec_available_of(final(self).spec_solvers()).len(),
    {
        let available = self.get_available();
        proof {
            assert(views_of(available@).len() == available@.len());
        }
        available.len()
    }
}

impl Default for SolverRegistry {
    /// An empty registry with the default heartbeat timeout.
    fn default() -> (r: Self)
        ensures
            r.spec_solvers().len() == 0,
            r.spec_timeout_ms() == 30000,
    {
        Self::new()
    }
}

/// A solver whose last heartbeat is older than the timeout is absent from
/// the availability snapshot taken at that time, even without an explicit
/// status update.
pub proof fn lemma_stale_solver_excluded(s: Seq<SolverView>, i: int, now: u64, timeout: u64)
    requires
        solver_ids_unique(s),
        0 <= i < s.len(),
        s[i].last_heartbeat matches Some(h) && now >= h && now - h > timeout,
    ensures
        !reg_has_id(spec_available_of(spec_sweep(s, now, timeout)), s[i].id),
{
    let swept = spec_sweep(s, now, timeout);
    let avail = spec_available_of(swept);
    assert(swept[i].status == SolverStatus::Unknown);
    assert(swept.len() == s.len());
    if reg_has_id(avail, s[i].id) {
        let k = choose|k: int| 0 <= k < avail.len() && #[trigger] avail[k].id == s[i].id;
        Seq::<SolverView>::lemma_filter_pred(swept, avail_pred(), k);
        assert(spec_is_available(avail[k]));
        assert(avail.contains(avail[k]));
        swept.lemma_filter_contains_rev(avail_pred(), avail[k]);
        assert(swept.contains(avail[k]));
        let m = choose|m: int| 0 <= m < swept.len() && swept[m] == avail[k];
        assert(swept[m].id == s[i].id);
        assert(s[m].id == s[i].id);
        if m != i {
            assert(s[m].id != s[i].id);
        }
        assert(m == i);
        assert(swept[i].status == SolverStatus::Unknown);
        assert(!spec_is_available(swept[m]));
    }
}

} // verus!
