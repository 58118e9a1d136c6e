//! The transfer value consumed by the routing core.
//!
//! The core reads a transfer's identifier, parties, amount, resource keys,
//! causality token and power score; it never executes the transfer. The
//! causality token is an opaque vector-clock-like marker: the core only
//! checks that it is non-empty.

use vstd::prelude::*;

verus! {

/// Kind of transfer carried through the ledger.
#[derive(Debug, Clone, Copy, PartialEq, Eq, Structural)]
pub enum TransferType {
    /// An ordinary value transfer.
    FluxTransfer,
}

/// A vector-clock-like causality token: per-node logical timestamps. The
/// core treats it as opaque and only ever asks whether it has entries.
#[derive(Debug, Clone)]
pub struct Vlc {
    /// Logical timestamp per node identifier.
    pub entries: Vec<(String, u64)>,
}

impl Vlc {
    /// An empty causality token.
    pub fn new() -> (r: Self)
        ensures
            r.entries@.len() == 0,
    {
        Self { entries: Vec::new() }
    }
}

/// A transfer awaiting routing.
#[derive(Debug, Clone)]
pub struct Transfer {
    /// Unique transfer identifier.
    pub id: String,
    /// Sender identifier.
    pub from: String,
    /// Recipient identifier.
    pub to: String,
    /// Signed amount; must be positive to pass validation.
    pub amount: i128,
    /// Kind of transfer.
    pub transfer_type: TransferType,
    /// Resource keys the transfer touches.
    pub resources: Vec<String>,
    /// Causality token.
    pub vlc: Vlc,
    /// Power score, used as a priority hint.
    pub power: u64,
    /// Solver the submitter would prefer, if any.
    pub preferred_solver: Option<String>,
    /// Shard the submitter pinned, if any.
    pub shard_id: Option<String>,
}

} // verus!
