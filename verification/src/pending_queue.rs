//! Bounded FIFO admission queue for transfers awaiting routing.
//!
//! At most one entry per transfer identifier is queued at any time, and the
//! queue never exceeds its configured maximum. Dequeue order is strictly
//! first-in first-out by arrival; the recorded priority is informational
//! only and never consulted for ordering.

use vstd::prelude::*;

use crate::clock::now_millis;
use crate::transfer::Transfer;

verus! {

/// Admission failures of the pending queue.
#[derive(Debug)]
pub enum PendingQueueError {
    /// The queue is at its configured maximum; the payload is that maximum.
    QueueFull(usize),
    /// No queued transfer has the requested identifier.
    TransferNotFound(String),
    /// A transfer with this identifier is already queued.
    DuplicateTransfer(String),
}

/// A queued transfer with its admission metadata.
#[derive(Debug, Clone)]
pub struct PendingTransfer {
    /// The transfer itself.
    pub transfer: Transfer,
    /// Admission wall-clock time, in milliseconds since the Unix epoch.
    pub enqueued_at: u64,
    /// Computed priority: the transfer's power score, truncated. Recorded
    /// but never consulted for ordering.
    pub priority: u32,
}

/// The priority recorded for a transfer: its power score, truncated to
/// 32 bits.
pub open spec fn spec_priority(t: Transfer) -> u32 {
    (t.power % 0x1_0000_0000) as u32
}

impl PendingTransfer {
    /// Wraps a transfer with its admission timestamp and priority.
    pub fn new(transfer: Transfer) -> (r: Self)
        ensures
            r.transfer == transfer,
            r.priority == spec_priority(transfer),
    {
        let enqueued_at = now_millis();
        let priority = (transfer.power % 0x1_0000_0000) as u32;
        Self { transfer, enqueued_at, priority }
    }
}

/// The transfers carried by a sequence of queue entries.
pub open spec fn seq_transfers(s: Seq<PendingTransfer>) -> Seq<Transfer> {
    s.map_values(|p: PendingTransfer| p.transfer)
}

/// Whether some transfer in the sequence has the given identifier.
pub open spec fn has_id(s: Seq<Transfer>, id: Seq<char>) -> bool {
    exists|i: int| 0 <= i < s.len() && #[trigger] s[i].id@ == id
}

/// The position of the transfer with the given identifier.
pub open spec fn index_of_id(s: Seq<Transfer>, id: Seq<char>) -> int {
    choose|i: int| 0 <= i < s.len() && #[trigger] s[i].id@ == id
}

/// No two transfers in the sequence share an identifier.
pub open spec fn ids_unique(s: Seq<Transfer>) -> bool {
    forall|i: int, j: int| 0 <= i < j < s.len() ==> s[i].id@ != s[j].id@
}

/// Bounded FIFO queue of transfers awaiting routing.
pub struct PendingQueue {
    max_size: usize,
    queue: Vec<PendingTransfer>,
}

impl PendingQueue {
    /// The configured maximum number of queued transfers.
    pub closed spec fn spec_max_size(self) -> nat {
        self.max_size as nat
    }

    /// The queued entries, oldest first.
    pub closed spec fn entries(self) -> Seq<PendingTransfer> {
        self.queue@
    }

    /// The queued transfers, oldest first.
    pub open spec fn transfers(self) -> Seq<Transfer> {
        seq_transfers(self.entries())
    }

    #[verifier::type_invariant]
    spec fn type_wf(self) -> bool {
        ids_unique(seq_transfers(self.queue@)) && self.queue@.len() <= self.max_size
    }

    /// Creates an empty queue with the given maximum size.
    pub fn new(max_size: usize) -> (r: Self)
        ensures
            r.spec_max_size() == max_size,
            r.entries().len() == 0,
    {
        let r = Self { max_size, queue: Vec::new() };
        proof {
            assert(seq_transfers(r.queue@) =~= Seq::<Transfer>::empty());
        }
        r
    }

    /// Admits a transfer at the tail. Fails with `QueueFull` when the queue
    /// is at its maximum, and with `DuplicateTransfer` when a transfer with
    /// the same identifier is already queued; either failure leaves the
    /// queue unchanged.
    pub fn enqueue(&mut self, transfer: Transfer) -> (r: Result<(), PendingQueueError>)
        ensures
            old(self).entries().len() >= old(self).spec_max_size() ==> (r matches Err(
                PendingQueueError::QueueFull(m),
            ) && m == old(self).spec_max_size() && *final(self) == *old(self)),
            old(self).entries().len() < old(self).spec_max_size() && has_id(
                old(self).transfers(),
                transfer.id@,
            ) ==> (r matches Err(PendingQueueError::DuplicateTransfer(m)) && m@ == transfer.id@
                && *final(self) == *old(self)),
            old(self).entries().len() < old(self).spec_max_size() && !has_id(
                old(self).transfers(),
                transfer.id@,
            ) ==> r is Ok && final(self).transfers() == old(self).transfers().push(transfer)
                && final(self).entries().len() == old(self).entries().len() + 1 && final(
                self).entries().last().priority == spec_priority(transfer),
            final(self).spec_max_size() == old(self).spec_max_size(),
            r is Ok <==> (old(self).entries().len() < old(self).spec_max_size() && !has_id(
                old(self).transfers(),
                transfer.id@,
            )),
    {
        proof {
            use_type_invariant(&*self);
        }
        if self.queue.len() >= self.max_size {
            return Err(PendingQueueError::QueueFull(self.max_size));
        }
        if self.holds_id(&transfer.id) {
            return Err(PendingQueueError::DuplicateTransfer(transfer.id.clone()));
        }
        let ghost prior = self.queue@;
        let pending = PendingTransfer::new(transfer);
        let mut q: Vec<PendingTransfer> = Vec::new();
        core::mem::swap(&mut q, &mut self.queue);
        q.push(pending);
        proof {
            assert(seq_transfers(q@) =~= seq_transfers(prior).push(transfer));
            assert forall|a: int, b: int|
                0 <= a < b < seq_transfers(q@).len() implies seq_transfers(q@)[a].id@
                != seq_transfers(q@)[b].id@ by {
                if b + 1 < q@.len() {
                    assert(seq_transfers(prior)[a].id@ != seq_transfers(prior)[b].id@);
                } else {
                    assert(seq_transfers(q@)[b] == transfer);
                    assert(seq_transfers(prior)[a].id@ != transfer.id@);
                }
            }
        }
        core::mem::swap(&mut q, &mut self.queue);
        Ok(())
    }

    /// Whether a transfer with this identifier is queued.
    fn holds_id(&self, transfer_id: &String) -> (r: bool)
        ensures
            r == has_id(self.transfers(), transfer_id@),
    {
        let mut i: usize = 0;
        while i < self.queue.len()
            invariant
                0 <= i <= self.queue@.len(),
                forall|m: int| 0 <= m < i ==> #[trigger] self.queue@[m].transfer.id@
                    != transfer_id@,
            decreases self.queue.len() - i,
        {
            if self.queue[i].transfer.id == *transfer_id {
                proof {
                    assert(self.transfers()[i as int].id@ == transfer_id@);
                }
                return true;
            }
            i = i + 1;
        }
        proof {
            assert forall|k: int| 0 <= k < self.transfers().len() implies #[trigger] self
                .transfers()[k].id@ != transfer_id@ by {
                assert(self.queue@[k].transfer.id@ != transfer_id@);
            }
        }
        false
    }

    /// Removes and returns the transfer with the given identifier; fails
    /// with `TransferNotFound`, leaving the queue unchanged, when none is
    /// queued.
    pub fn dequeue(&mut self, transfer_id: &str) -> (r: Result<Transfer, PendingQueueError>)
        ensures
            !has_id(old(self).transfers(), transfer_id@) ==> (r matches Err(
                PendingQueueError::TransferNotFound(m),
            ) && m@ == transfer_id@ && *final(self) == *old(self)),
            has_id(old(self).transfers(), transfer_id@) ==> (r matches Ok(t) && t == old(
                self,
            ).transfers()[index_of_id(old(self).transfers(), transfer_id@)] && t.id@
                == transfer_id@ && final(self).entries() == old(self).entries().remove(
                index_of_id(old(self).transfers(), transfer_id@),
            )),
            final(self).spec_max_size() == old(self).spec_max_size(),
            r is Ok <==> has_id(old(self).transfers(), transfer_id@),
    {
        proof {
            use_type_invariant(&*self);
        }
        let ghost prior = self.queue@;
        let tid = transfer_id.to_owned();
        let mut i: usize = 0;
        while i < self.queue.len()
            invariant
                0 <= i <= self.queue@.len(),
                *self == *old(self),
                self.queue@ == prior,
                ids_unique(seq_transfers(prior)),
                prior.len() <= self.spec_max_size(),
                tid@ == transfer_id@,
                forall|m: int| 0 <= m < i ==> #[trigger] self.queue@[m].transfer.id@
                    != transfer_id@,
            decreases self.queue.len() - i,
        {
            if self.queue[i].transfer.id == tid {
                let mut q: Vec<PendingTransfer> = Vec::new();
                core::mem::swap(&mut q, &mut self.queue);
                let pending = q.remove(i);
                proof {
                    assert(q@ =~= prior.remove(i as int));
                    assert(seq_transfers(q@) =~= seq_transfers(prior).remove(i as int));
                    assert forall|a: int, b: int|
                        0 <= a < b < seq_transfers(q@).len() implies seq_transfers(q@)[a].id@
                        != seq_transfers(q@)[b].id@ by {
                        let ots = seq_transfers(prior);
                        if a < i {
                            assert(seq_transfers(q@)[a] == ots[a]);
                        } else {
                            assert(seq_transfers(q@)[a] == ots[a + 1]);
                        }
                        if b < i {
                            assert(seq_transfers(q@)[b] == ots[b]);
                        } else {
                            assert(seq_transfers(q@)[b] == ots[b + 1]);
                        }
                    }
                }
                core::mem::swap(&mut q, &mut self.queue);
                proof {
                    let ots = seq_transfers(prior);
                    assert(ots[i as int].id@ == transfer_id@);
                    assert(has_id(ots, transfer_id@));
                    let j = index_of_id(ots, transfer_id@);
                    assert(0 <= j < ots.len() && ots[j].id@ == transfer_id@);
                    if j != i as int {
                        assert(ots[j].id@ != ots[i as int].id@);
                    }
                    assert(j == i as int);
                    assert(pending.transfer == ots[i as int]);
                }
                return Ok(pending.transfer);
            }
            i = i + 1;
        }
        proof {
            assert forall|k: int| 0 <= k < self.transfers().len() implies #[trigger] self
                .transfers()[k].id@ != transfer_id@ by {
                assert(self.queue@[k].transfer.id@ != transfer_id@);
            }
        }
        Err(PendingQueueError::TransferNotFound(transfer_id.to_owned()))
    }

    /// Removes and returns the oldest transfer, or `None` when the queue is
    /// empty.
    pub fn dequeue_next(&mut self) -> (r: Option<Transfer>)
        ensures
            old(self).entries().len() == 0 ==> r is None && *final(self) == *old(self),
            old(self).entries().len() > 0 ==> (r matches Some(t) && t == old(self).transfers()[0]
                && final(self).entries() == old(self).entries().drop_first()),
            final(self).spec_max_size() == old(self).spec_max_size(),
    {
        proof {
            use_type_invariant(&*self);
        }
        if self.queue.len() == 0 {
            return None;
        }
        let ghost prior = self.queue@;
        let mut q: Vec<PendingTransfer> = Vec::new();
        core::mem::swap(&mut q, &mut self.queue);
        let pending = q.remove(0);
        proof {
            assert(q@ =~= prior.drop_first());
            assert(seq_transfers(q@) =~= seq_transfers(prior).drop_first());
            assert forall|a: int, b: int|
                0 <= a < b < seq_transfers(q@).len() implies seq_transfers(q@)[a].id@
                != seq_transfers(q@)[b].id@ by {
                let ots = seq_transfers(prior);
                assert(seq_transfers(q@)[a] == ots[a + 1] && seq_transfers(q@)[b] == ots[b + 1]);
            }
        }
        core::mem::swap(&mut q, &mut self.queue);
        proof {
            assert(pending.transfer == seq_transfers(prior)[0]);
        }
        Some(pending.transfer)
    }

    /// Returns the oldest transfer without removing it.
    pub fn peek_next(&self) -> (r: Option<&Transfer>)
        ensures
            r is Some <==> self.entries().len() > 0,
            r matches Some(t) ==> *t == self.transfers()[0],
    {
        if self.queue.len() == 0 {
            None
        } else {
            Some(&self.queue[0].transfer)
        }
    }

    /// The number of queued transfers.
    pub fn size(&self) -> (r: usize)
        ensures
            r == self.entries().len(),
    {
        self.queue.len()
    }

    /// Whether the queue is empty.
    pub fn is_empty(&self) -> (r: bool)
        ensures
            r == (self.entries().len() == 0),
    {
        self.queue.is_empty()
    }

    /// Whether the queue is at its configured maximum.
    pub fn is_full(&self) -> (r: bool)
        ensures
            r == (self.entries().len() >= self.spec_max_size()),
    {
        self.queue.len() >= self.max_size
    }

    /// The identifiers of all queued transfers, oldest first.
    pub fn pending_ids(&self) -> (r: Vec<String>)
        ensures
            r@.len() == self.entries().len(),
            forall|i: int| 0 <= i < r@.len() ==> #[trigger] r@[i]@ == self.transfers()[i].id@,
    {
        let mut ids: Vec<String> = Vec::new();
        let mut i: usize = 0;
        while i < self.queue.len()
            invariant
                0 <= i <= self.queue@.len(),
                ids@.len() == i,
                forall|m: int| 0 <= m < i ==> #[trigger] ids@[m]@ == self.queue@[m].transfer.id@,
            decreases self.queue.len() - i,
        {
            ids.push(self.queue[i].transfer.id.clone());
            i = i + 1;
        }
        ids
    }

    /// Empties the queue.
    pub fn clear(&mut self)
        ensures
            final(self).entries().len() == 0,
            final(self).spec_max_size() == old(self).spec_max_size(),
    {
        proof {
            use_type_invariant(&*self);
        }
        let mut q: Vec<PendingTransfer> = Vec::new();
        proof {
            assert(seq_transfers(q@) =~= Seq::<Transfer>::empty());
        }
        core::mem::swap(&mut q, &mut self.queue);
    }

    /// Milliseconds since the oldest transfer was admitted, or `None` when
    /// the queue is empty. The value depends on the wall clock.
    pub fn oldest_age_ms(&self) -> (r: Option<u64>)
        ensures
            r is Some <==> self.entries().len() > 0,
    {
        if self.queue.len() == 0 {
            return None;
        }
        let now = now_millis();
        let at = self.queue[0].enqueued_at;
        if now >= at {
            Some(now - at)
        } else {
            Some(0)
        }
    }
}

/// Admitting a fresh transfer and then removing it by identifier returns
/// that transfer unchanged and restores the previous queue contents.
pub proof fn lemma_enqueue_dequeue_round_trip(s: Seq<Transfer>, t: Transfer)
    requires
        ids_unique(s),
        !has_id(s, t.id@),
    ensures
        has_id(s.push(t), t.id@),
        index_of_id(s.push(t), t.id@) == s.len(),
        s.push(t)[index_of_id(s.push(t), t.id@)] == t,
        s.push(t).remove(index_of_id(s.push(t), t.id@)) == s,
{
    let s2 = s.push(t);
    assert(s2[s.len() as int].id@ == t.id@);
    assert(has_id(s2, t.id@));
    let i = index_of_id(s2, t.id@);
    assert(0 <= i < s2.len() && s2[i].id@ == t.id@);
    if i < s.len() {
        assert(s[i].id@ == t.id@);
        assert(has_id(s, t.id@));
    }
    assert(i == s.len());
    assert(s2.remove(i) =~= s);
}

} // verus!
