use vstd::prelude::*;
use crate::calendar::Timestamp;
use crate::domain::{JournalTransactionId, LedgerXactTypeCode};
use crate::ids::AccountId;

verus! {

/// A stored ledger entry: the credit side of a posted pair of journal lines.
#[derive(Clone, Copy, Debug, PartialEq, Eq, Structural)]
pub struct ActiveModel {
    pub ledger_id: AccountId,
    pub timestamp: Timestamp,
    pub ledger_xact_type_code: LedgerXactTypeCode,
    pub amount: i64,
    pub journal_ref: JournalTransactionId,
}

} // verus!
