use vstd::prelude::*;
use crate::calendar::Timestamp;
use crate::domain::{JournalTransactionColumnId, TransactionState};
use crate::ids::{AccountId, JournalId, TemplateColumnId};

verus! {

/// A subsidiary-account credit column of a special journal transaction.
#[derive(Clone, Copy, Debug, PartialEq, Eq, Structural)]
pub struct ActiveModel {
    pub journal_id: JournalId,
    pub timestamp: Timestamp,
    pub template_column_id: TemplateColumnId,
    pub account_id: AccountId,
    pub amount: i64,
    pub state: TransactionState,
}

/// A column to be stored: the same fields.
pub type Model = ActiveModel;

impl ActiveModel {
    /// The column's identifier: its transaction and its template column.
    pub open spec fn spec_id(self) -> JournalTransactionColumnId {
        JournalTransactionColumnId {
            journal_id: self.journal_id,
            timestamp: self.timestamp,
            template_column_id: self.template_column_id,
        }
    }

    pub fn id(&self) -> (r: JournalTransactionColumnId)
        ensures
            r == self.spec_id(),
    {
        JournalTransactionColumnId {
            journal_id: self.journal_id,
            timestamp: self.timestamp,
            template_column_id: self.template_column_id,
        }
    }
}

} // verus!
