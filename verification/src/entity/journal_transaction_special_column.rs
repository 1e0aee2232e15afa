use vstd::prelude::*;
use crate::calendar::Timestamp;
use crate::domain::{JournalTransactionId, TransactionState};
use crate::ids::{AccountId, ColumnTotalId, JournalId};

verus! {

/// A column of a special journal transaction, at a place in the template's
/// sequence of columns.
#[derive(Clone, Copy, Debug, PartialEq, Eq, Structural)]
pub struct ActiveModel {
    pub journal_id: JournalId,
    pub timestamp: Timestamp,
    pub sequence: u8,
    pub dr_ledger_id: Option<AccountId>,
    pub cr_ledger_id: Option<AccountId>,
    pub amount: i64,
    pub state: TransactionState,
    pub column_total_id: Option<ColumnTotalId>,
}

/// A column to be stored: the same fields.
pub type Model = ActiveModel;

impl ActiveModel {
    /// The identifier of the column's transaction.
    pub open spec fn spec_id(self) -> JournalTransactionId {
        JournalTransactionId { journal_id: self.journal_id, timestamp: self.timestamp }
    }

    pub fn id(&self) -> (r: JournalTransactionId)
        ensures
            r == self.spec_id(),
    {
        JournalTransactionId { journal_id: self.journal_id, timestamp: self.timestamp }
    }
}

} // verus!
