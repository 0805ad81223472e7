//! Payment execution checks. Issuing the send and mining the confirming
//! block are node commands made by the caller; the invariants around them
//! are verified here: the node must report the send as complete, and the
//! returned transaction id must be visible in the unconfirmed pool
//! immediately after issuance.

use vstd::prelude::*;
use crate::types::Hash32;

verus! {

/// Why a payment attempt is rejected as a fatal invariant violation.
#[derive(Clone, Copy, PartialEq, Eq, Structural, Debug)]
pub enum PaymentError {
    /// The node reported the send as not complete.
    SendIncomplete,
    /// The transaction id was not visible in the unconfirmed pool right
    /// after the send was issued.
    NotInMempool,
}

/// The number of blocks mined to confirm an issued payment: exactly one.
pub const CONFIRMATION_BLOCKS: u64 = 1;

/// The unconfirmed pool contains the given transaction id.
pub open spec fn spec_mempool_contains(pool: Seq<Hash32>, id: Seq<u8>) -> bool {
    exists|i: int| 0 <= i < pool.len() && (#[trigger] pool[i])@ == id
}

/// Scan the unconfirmed pool for a transaction id.
pub fn mempool_contains(pool: &Vec<Hash32>, id: &Hash32) -> (r: bool)
    ensures
        r == spec_mempool_contains(pool@, id@),
{
    let n = pool.len();
    let mut i: usize = 0;
    while i < n
        invariant
            n == pool@.len(),
            i <= n,
            forall|j: int| 0 <= j < i ==> (#[trigger] pool@[j])@ != id@,
        decreases n - i,
    {
        if pool[i].matches(id) {
            return true;
        }
        i = i + 1;
    }
    false
}

/// Accept or reject the node's reply to the send command: a send the node
/// does not report as complete violates the payment invariant.
pub fn accept_send(complete: bool) -> (r: Result<(), PaymentError>)
    ensures
        r is Ok <==> complete,
        !complete ==> r == Result::<(), PaymentError>::Err(PaymentError::SendIncomplete),
{
    if complete {
        Ok(())
    } else {
        Err(PaymentError::SendIncomplete)
    }
}

/// Check the post-condition of issuing a payment: the new transaction id
/// must already stand in the unconfirmed pool.
pub fn check_payment_visible(pool: &Vec<Hash32>, id: &Hash32) -> (r: Result<(), PaymentError>)
    ensures
        r is Ok <==> spec_mempool_contains(pool@, id@),
        !spec_mempool_contains(pool@, id@) ==> r == Result::<(), PaymentError>::Err(
            PaymentError::NotInMempool,
        ),
{
    if mempool_contains(pool, id) {
        Ok(())
    } else {
        Err(PaymentError::NotInMempool)
    }
}

} // verus!
