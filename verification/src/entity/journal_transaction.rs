use vstd::prelude::*;
use crate::calendar::Timestamp;
use crate::entity::journal_transaction_line;
use crate::ids::JournalId;

verus! {

/// A journal transaction to be created, with its lines.
#[derive(Clone, Debug, PartialEq, Eq)]
pub struct Model {
    pub journal_id: JournalId,
    pub timestamp: Timestamp,
    pub explanation: String,
    pub lines: Vec<journal_transaction_line::Model>,
}

/// A journal transaction as handed back to a caller, with its lines.
#[derive(Clone, Debug, PartialEq, Eq)]
pub struct ActiveModel {
    pub journal_id: JournalId,
    pub timestamp: Timestamp,
    pub explanation: String,
    pub lines: Vec<journal_transaction_line::ActiveModel>,
}

} // verus!
