use vstd::prelude::*;
use crate::calendar::Timestamp;
use crate::domain::{PostingRef, TransactionState, XactType};
use crate::ids::{AccountId, JournalId};

verus! {

/// A line of a journal transaction to be created: it names a ledger account
/// or a subsidiary account.
#[derive(Clone, Copy, Debug, PartialEq, Eq, Structural)]
pub struct Model {
    pub ledger_id: Option<AccountId>,
    pub account_id: Option<AccountId>,
    pub xact_type: XactType,
    pub amount: i64,
}

/// A line of a journal transaction as handed back to a caller.
#[derive(Clone, Copy, Debug, PartialEq, Eq, Structural)]
pub struct ActiveModel {
    pub journal_id: JournalId,
    pub timestamp: Timestamp,
    pub ledger_id: Option<AccountId>,
    pub account_id: Option<AccountId>,
    pub xact_type: XactType,
    pub amount: i64,
    pub state: TransactionState,
    pub posting_ref: Option<PostingRef>,
}

} // verus!
