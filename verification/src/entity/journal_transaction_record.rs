use vstd::prelude::*;
use crate::table::Record;
use crate::calendar::Timestamp;
use crate::domain::JournalTransactionId;
use crate::ids::JournalId;

verus! {

/// The head of a stored journal transaction.
#[derive(Clone, Debug, PartialEq, Eq)]
pub struct ActiveModel {
    pub journal_id: JournalId,
    pub timestamp: Timestamp,
    pub explanation: String,
}

impl ActiveModel {
    /// The identifier of the transaction.
    pub open spec fn spec_id(self) -> JournalTransactionId {
        JournalTransactionId { journal_id: self.journal_id, timestamp: self.timestamp }
    }

    /// The identifier of the transaction.
    pub fn id(&self) -> (r: JournalTransactionId)
        ensures
            r == self.spec_id(),
    {
        JournalTransactionId { journal_id: self.journal_id, timestamp: self.timestamp }
    }

    /// A copy of the record.
    pub fn duplicate(&self) -> (r: Self)
        ensures
            r == *self,
    {
        ActiveModel {
            journal_id: self.journal_id,
            timestamp: self.timestamp,
            explanation: self.explanation.clone(),
        }
    }
}

impl Record for ActiveModel {
    type Id = JournalTransactionId;

    open spec fn spec_id(&self) -> JournalTransactionId {
        JournalTransactionId { journal_id: self.journal_id, timestamp: self.timestamp }
    }

    fn id_of(&self) -> (r: JournalTransactionId) {
        JournalTransactionId { journal_id: self.journal_id, timestamp: self.timestamp }
    }

    fn copy_of(&self) -> (r: Self) {
        self.duplicate()
    }
}

} // verus!
