use vstd::prelude::*;
use crate::calendar::Timestamp;
use crate::ids::AccountId;

verus! {

/// A stored ledger transaction: the debit account that pairs with the ledger
/// entry of the same key.
#[derive(Clone, Copy, Debug, PartialEq, Eq, Structural)]
pub struct ActiveModel {
    pub ledger_id: AccountId,
    pub timestamp: Timestamp,
    pub ledger_dr_id: AccountId,
}

} // verus!
