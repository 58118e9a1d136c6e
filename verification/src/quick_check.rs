//! Fast structural pre-validation of transfers.
//!
//! Applied before a transfer is queued or routed. The checks fail on the
//! first violated rule, in a fixed order: identifier, sender, recipient,
//! amount, resources, causality token, distinct parties.

use vstd::prelude::*;
use vstd::string::StringExecFns;

use crate::transfer::Transfer;

verus! {

/// Rejection reasons of the quick checker.
#[derive(Debug)]
pub enum QuickCheckError {
    /// The transfer identifier is empty.
    EmptyTransferId,
    /// The sender is unacceptable; the payload says why.
    InvalidSender(String),
    /// The recipient is unacceptable; the payload says why.
    InvalidRecipient(String),
    /// The amount is not positive; the payload is the offending amount.
    InvalidAmount(i128),
    /// The transfer touches no resources.
    EmptyResources,
    /// The causality token has no entries.
    InvalidVLC,
    /// The check did not finish in time (reserved).
    Timeout,
}

/// The transfer identifier is present.
pub open spec fn id_ok(t: Transfer) -> bool {
    t.id@.len() > 0
}

/// The sender is present.
pub open spec fn sender_ok(t: Transfer) -> bool {
    t.from@.len() > 0
}

/// The recipient is present.
pub open spec fn recipient_ok(t: Transfer) -> bool {
    t.to@.len() > 0
}

/// The amount is positive.
pub open spec fn amount_ok(t: Transfer) -> bool {
    t.amount > 0
}

/// The transfer touches at least one resource.
pub open spec fn resources_ok(t: Transfer) -> bool {
    t.resources@.len() > 0
}

/// The causality token has at least one entry.
pub open spec fn vlc_ok(t: Transfer) -> bool {
    t.vlc.entries@.len() > 0
}

/// Sender and recipient differ.
pub open spec fn parties_ok(t: Transfer) -> bool {
    t.from@ != t.to@
}

/// All structural rules hold.
pub open spec fn check_passes(t: Transfer) -> bool {
    id_ok(t) && sender_ok(t) && recipient_ok(t) && amount_ok(t) && resources_ok(t) && vlc_ok(t)
        && parties_ok(t)
}

/// The rules that the cheaper format check covers.
pub open spec fn format_passes(t: Transfer) -> bool {
    id_ok(t) && sender_ok(t)
}

/// Stateless structural gate for transfers.
pub struct QuickChecker {
    timeout_ms: u64,
}

impl QuickChecker {
    /// The check budget this checker was created with (informational).
    pub closed spec fn spec_timeout_ms(self) -> u64 {
        self.timeout_ms
    }

    /// Creates a checker with the given budget in milliseconds.
    pub fn new(timeout_ms: u64) -> (r: Self)
        ensures
            r.spec_timeout_ms() == timeout_ms,
    {
        Self { timeout_ms }
    }

    /// Validates a transfer, failing on the first violated rule: identifier
    /// non-empty, sender non-empty, recipient non-empty, amount positive,
    /// resources non-empty, causality token non-empty, sender distinct from
    /// recipient.
    pub fn check(&self, transfer: &Transfer) -> (r: Result<(), QuickCheckError>)
        ensures
            r is Ok <==> check_passes(*transfer),
            !id_ok(*transfer) ==> r == Result::<(), QuickCheckError>::Err(
                QuickCheckError::EmptyTransferId,
            ),
            id_ok(*transfer) && !sender_ok(*transfer) ==> (r matches Err(
                QuickCheckError::InvalidSender(m),
            ) && m@ == "Sender cannot be empty"@),
            id_ok(*transfer) && sender_ok(*transfer) && !recipient_ok(*transfer) ==> (r matches Err(
                QuickCheckError::InvalidRecipient(m),
            ) && m@ == "Recipient cannot be empty"@),
            id_ok(*transfer) && sender_ok(*transfer) && recipient_ok(*transfer) && !amount_ok(
                *transfer,
            ) ==> r == Result::<(), QuickCheckError>::Err(
                QuickCheckError::InvalidAmount(transfer.amount),
            ),
            id_ok(*transfer) && sender_ok(*transfer) && recipient_ok(*transfer) && amount_ok(
                *transfer,
            ) && !resources_ok(*transfer) ==> r == Result::<(), QuickCheckError>::Err(
                QuickCheckError::EmptyResources,
            ),
            id_ok(*transfer) && sender_ok(*transfer) && recipient_ok(*transfer) && amount_ok(
                *transfer,
            ) && resources_ok(*transfer) && !vlc_ok(*transfer) ==> r == Result::<
                (),
                QuickCheckError,
            >::Err(QuickCheckError::InvalidVLC),
            id_ok(*transfer) && sender_ok(*transfer) && recipient_ok(*transfer) && amount_ok(
                *transfer,
            ) && resources_ok(*transfer) && vlc_ok(*transfer) && !parties_ok(*transfer) ==> (
            r matches Err(QuickCheckError::InvalidRecipient(m)) && m@
                == "Sender and recipient cannot be the same"@),
    {
        if transfer.id.as_str().is_empty() {
            return Err(QuickCheckError::EmptyTransferId);
        }
        if transfer.from.as_str().is_empty() {
            return Err(QuickCheckError::InvalidSender(String::from_str("Sender cannot be empty")));
        }
        if transfer.to.as_str().is_empty() {
            return Err(
                QuickCheckError::InvalidRecipient(String::from_str("Recipient cannot be empty")),
            );
        }
        if transfer.amount <= 0 {
            return Err(QuickCheckError::InvalidAmount(transfer.amount));
        }
        if transfer.resources.is_empty() {
            return Err(QuickCheckError::EmptyResources);
        }
        if transfer.vlc.entries.is_empty() {
            return Err(QuickCheckError::InvalidVLC);
        }
        if transfer.from == transfer.to {
            return Err(
                QuickCheckError::InvalidRecipient(
                    String::from_str("Sender and recipient cannot be the same"),
                ),
            );
        }
        Ok(())
    }

    /// Validates only the basic format: identifier and sender non-empty.
    pub fn check_format(&self, transfer: &Transfer) -> (r: Result<(), QuickCheckError>)
        ensures
            r is Ok <==> format_passes(*transfer),
            !id_ok(*transfer) ==> r == Result::<(), QuickCheckError>::Err(
                QuickCheckError::EmptyTransferId,
            ),
            id_ok(*transfer) && !sender_ok(*transfer) ==> (r matches Err(
                QuickCheckError::InvalidSender(m),
            ) && m@ == "Empty sender"@),
    {
        if transfer.id.as_str().is_empty() {
            return Err(QuickCheckError::EmptyTransferId);
        }
        if transfer.from.as_str().is_empty() {
            return Err(QuickCheckError::InvalidSender(String::from_str("Empty sender")));
        }
        Ok(())
    }
}

} // verus!
