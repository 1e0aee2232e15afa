use vstd::prelude::*;
use crate::calendar::Timestamp;
use crate::domain::{JournalTransactionId, XactType};
use crate::ids::AccountId;

verus! {

/// One side of a posted transaction as an account sees it.
#[derive(Clone, Copy, Debug, PartialEq, Eq, Structural)]
pub struct ActiveModel {
    pub ledger_id: AccountId,
    pub timestamp: Timestamp,
    pub xact_type: XactType,
    pub amount: i64,
    pub journal_ref: JournalTransactionId,
}

} // verus!
